use vstd::prelude::*;
use crate::components::{
    BoundingBox, Coin, Collidable, Enemy, Entity, Health, PlayerControlled, Position, Score,
    Velocity,
};
use crate::world::{SimError, World};

verus! {

/// The outcome of creating one entity: on success it has the next id, the
/// store grew by it, and the tables of `after` match those of `before`.
pub open spec fn created(before: &World, after: &World, r: Result<Entity, SimError>) -> bool {
    &&& r is Ok <==> before.allocated() < usize::MAX
    &&& r is Err ==> r == Err::<Entity, SimError>(SimError::ResourceExhaustion) && *after == *before
    &&& r matches Ok(e) ==> {
        &&& e.id == before.allocated()
        &&& after.allocated() == before.allocated() + 1
        &&& forall|i: nat| #[trigger] after.is_live(i) == (before.is_live(i) || i == e.id)
    }
    &&& before.wf() ==> after.wf()
}

/// The player: at (400, 300), at rest, a 20 by 20 box, collidable, with 100
/// health and a score of 0.
pub fn create_player(world: &mut World) -> (r: Result<Entity, SimError>)
    ensures
        created(old(world), final(world), r),
        r matches Ok(e) ==> {
            let i = e.id as nat;
            &&& final(world).positions@ == old(world).positions@.insert(i, Position { x: 400, y: 300 })
            &&& final(world).velocities@ == old(world).velocities@.insert(i, Velocity { dx: 0, dy: 0 })
            &&& final(world).bounding_boxes@ == old(world).bounding_boxes@.insert(
                i,
                BoundingBox { width: 20, height: 20 },
            )
            &&& final(world).players@ == old(world).players@.insert(i, PlayerControlled)
            &&& final(world).collidables@ == old(world).collidables@.insert(i, Collidable)
            &&& final(world).healths@ == old(world).healths@.insert(i, Health { value: 100 })
            &&& final(world).scores@ == old(world).scores@.insert(i, Score { value: 0 })
            &&& final(world).coins@ == old(world).coins@
            &&& final(world).enemies@ == old(world).enemies@
            &&& final(world).obstacles@ == old(world).obstacles@
            &&& final(world).powerups@ == old(world).powerups@
        },
{
    let ghost w0 = *world;
    let e = world.create_entity()?;
    let ghost w1 = *world;
    world.positions.insert(e, Position { x: 400, y: 300 });
    world.velocities.insert(e, Velocity { dx: 0, dy: 0 });
    world.bounding_boxes.insert(e, BoundingBox { width: 20, height: 20 });
    world.players.insert(e, PlayerControlled);
    world.collidables.insert(e, Collidable);
    world.healths.insert(e, Health { value: 100 });
    world.scores.insert(e, Score { value: 0 });
    assert(world.entities == w1.entities);
    assert forall|i: nat| #[trigger] world.is_live(i) == (w0.is_live(i) || i == e.id) by {
        assert(world.is_live(i) == w1.is_live(i));
    }
    Ok(e)
}

/// The first coin: at (200, 200), a 10 by 10 box, collidable.
pub fn create_initial_coin(world: &mut World) -> (r: Result<Entity, SimError>)
    ensures
        created(old(world), final(world), r),
        r matches Ok(e) ==> {
            let i = e.id as nat;
            &&& final(world).positions@ == old(world).positions@.insert(i, Position { x: 200, y: 200 })
            &&& final(world).bounding_boxes@ == old(world).bounding_boxes@.insert(
                i,
                BoundingBox { width: 10, height: 10 },
            )
            &&& final(world).coins@ == old(world).coins@.insert(i, Coin)
            &&& final(world).collidables@ == old(world).collidables@.insert(i, Collidable)
            &&& final(world).velocities@ == old(world).velocities@
            &&& final(world).players@ == old(world).players@
            &&& final(world).healths@ == old(world).healths@
            &&& final(world).scores@ == old(world).scores@
            &&& final(world).enemies@ == old(world).enemies@
            &&& final(world).obstacles@ == old(world).obstacles@
            &&& final(world).powerups@ == old(world).powerups@
        },
{
    let ghost w0 = *world;
    let e = world.create_entity()?;
    let ghost w1 = *world;
    world.positions.insert(e, Position { x: 200, y: 200 });
    world.bounding_boxes.insert(e, BoundingBox { width: 10, height: 10 });
    world.coins.insert(e, Coin);
    world.collidables.insert(e, Collidable);
    assert(world.entities == w1.entities);
    assert forall|i: nat| #[trigger] world.is_live(i) == (w0.is_live(i) || i == e.id) by {
        assert(world.is_live(i) == w1.is_live(i));
    }
    Ok(e)
}

/// The first enemy: at (600, 100), at rest, a 20 by 20 box, collidable, with
/// 30 health.
pub fn create_initial_enemy(world: &mut World) -> (r: Result<Entity, SimError>)
    ensures
        created(old(world), final(world), r),
        r matches Ok(e) ==> {
            let i = e.id as nat;
            &&& final(world).positions@ == old(world).positions@.insert(i, Position { x: 600, y: 100 })
            &&& final(world).velocities@ == old(world).velocities@.insert(i, Velocity { dx: 0, dy: 0 })
            &&& final(world).bounding_boxes@ == old(world).bounding_boxes@.insert(
                i,
                BoundingBox { width: 20, height: 20 },
            )
            &&& final(world).enemies@ == old(world).enemies@.insert(i, Enemy)
            &&& final(world).collidables@ == old(world).collidables@.insert(i, Collidable)
            &&& final(world).healths@ == old(world).healths@.insert(i, Health { value: 30 })
            &&& final(world).players@ == old(world).players@
            &&& final(world).scores@ == old(world).scores@
            &&& final(world).coins@ == old(world).coins@
            &&& final(world).obstacles@ == old(world).obstacles@
            &&& final(world).powerups@ == old(world).powerups@
        },
{
    let ghost w0 = *world;
    let e = world.create_entity()?;
    let ghost w1 = *world;
    world.positions.insert(e, Position { x: 600, y: 100 });
    world.velocities.insert(e, Velocity { dx: 0, dy: 0 });
    world.bounding_boxes.insert(e, BoundingBox { width: 20, height: 20 });
    world.enemies.insert(e, Enemy);
    world.collidables.insert(e, Collidable);
    world.healths.insert(e, Health { value: 30 });
    assert(world.entities == w1.entities);
    assert forall|i: nat| #[trigger] world.is_live(i) == (w0.is_live(i) || i == e.id) by {
        assert(world.is_live(i) == w1.is_live(i));
    }
    Ok(e)
}

} // verus!
