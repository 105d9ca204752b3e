use vstd::prelude::*;
use crate::collision_system::{collision_step, CollisionSystem};
use crate::input_system::{input_step, PlayerInputSystem};
use crate::physics_system::{can_integrate, integrable, physics_step, PhysicsSystem};
use crate::resources::{InputResource, Key};
use crate::spawn_system::{spawned, stepped, SpawnSystem};
use crate::world::{SimError, World};

verus! {

/// One tick from `w0` and `s0` under the keys `keys`, through the worlds `w1`
/// (after movement), `w2` (after integration) and `w3` (after collision) to
/// `w4` and `s4`, with outcome `r`. When a move would leave the coordinate
/// range the tick stops after movement with `CoordinateOverflow`.
pub open spec fn ticked(
    w0: &World,
    s0: &SpawnSystem,
    keys: Seq<Key>,
    w1: &World,
    w2: &World,
    w3: &World,
    w4: &World,
    s4: &SpawnSystem,
    r: Result<(), SimError>,
) -> bool {
    &&& input_step(w0, w1, keys)
    &&& integrable(w1) ==> {
        &&& physics_step(w1, w2)
        &&& collision_step(w2, w3)
        &&& stepped(s0, s4)
        &&& r is Ok <==> w3.allocated() + s0.fired() <= usize::MAX
        &&& r is Err ==> r == Err::<(), SimError>(SimError::ResourceExhaustion) && *w4 == *w3
        &&& r is Ok ==> spawned(s0, w3, w4)
    }
    &&& !integrable(w1) ==> r == Err::<(), SimError>(SimError::CoordinateOverflow) && *w4 == *w1
        && *s4 == *s0
}

/// Runs one tick of the simulation in its fixed order: movement, then
/// integration, then collision, then spawning.
pub fn tick(world: &mut World, input: &InputResource, spawner: &mut SpawnSystem) -> (r: Result<(), SimError>)
    requires
        old(world).wf(),
        old(spawner).wf(),
        input.keys@.len() <= i64::MAX,
    ensures
        final(world).wf(),
        final(spawner).wf(),
        exists|w1: World, w2: World, w3: World|
            #[trigger] ticked(
                old(world),
                old(spawner),
                input.keys@,
                &w1,
                &w2,
                &w3,
                final(world),
                final(spawner),
                r,
            ),
{
    let ghost w0 = *world;
    let ghost s0 = *spawner;
    let mut movement = PlayerInputSystem;
    movement.run(input, world);
    let ghost w1 = *world;
    if !can_integrate(world) {
        assert(ticked(&w0, &s0, input.keys@, &w1, &w1, &w1, world, spawner, Err(SimError::CoordinateOverflow)));
        return Err(SimError::CoordinateOverflow);
    }
    let mut integration = PhysicsSystem;
    integration.run(world);
    let ghost w2 = *world;
    let mut collision = CollisionSystem;
    collision.run(world);
    let ghost w3 = *world;
    let r = spawner.run(world);
    assert(ticked(&w0, &s0, input.keys@, &w1, &w2, &w3, world, spawner, r));
    r
}

} // verus!
