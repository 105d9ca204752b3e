use vstd::prelude::*;
use crate::components::{Entity, Position, Velocity};
use crate::world::World;

verus! {

/// World units moved per tick for each unit of velocity.
pub const SPEED_SCALE: i64 = 5;

/// Where an entity at `p` with velocity `v` stands after one tick.
pub open spec fn moved(p: Position, v: Velocity) -> Position {
    Position { x: (p.x + v.dx * SPEED_SCALE) as i64, y: (p.y + v.dy * SPEED_SCALE) as i64 }
}

/// The move of `p` by `v` stays within the range of `i64`.
pub open spec fn move_fits(p: Position, v: Velocity) -> bool {
    &&& i64::MIN <= p.x + v.dx * SPEED_SCALE <= i64::MAX
    &&& i64::MIN <= p.y + v.dy * SPEED_SCALE <= i64::MAX
}

/// Every entity with a position and a velocity can make its move.
pub open spec fn integrable(w: &World) -> bool {
    forall|i: nat|
        #![trigger w.positions@.contains_key(i), w.velocities@.contains_key(i)]
        w.positions@.contains_key(i) && w.velocities@.contains_key(i) ==> move_fits(
            w.positions@[i],
            w.velocities@[i],
        )
}

fn checked_move(p: Position, v: Velocity) -> (r: Option<Position>)
    ensures
        r is Some <==> move_fits(p, v),
        r is Some ==> r == Some(moved(p, v)),
{
    let x = p.x as i128 + v.dx as i128 * 5;
    let y = p.y as i128 + v.dy as i128 * 5;
    if x < i64::MIN as i128 || x > i64::MAX as i128 || y < i64::MIN as i128 || y > i64::MAX as i128 {
        None
    } else {
        Some(Position { x: x as i64, y: y as i64 })
    }
}

/// Whether every move of the next integration tick fits in `i64`.
pub fn can_integrate(world: &World) -> (r: bool)
    ensures
        r == integrable(world),
{
    let n = world.positions.bound();
    let mut i: usize = 0;
    while i < n
        invariant
            i <= n,
            forall|j: nat| #[trigger] world.positions@.contains_key(j) ==> j < n,
            forall|j: nat|
                #![trigger world.positions@.contains_key(j), world.velocities@.contains_key(j)]
                j < i && world.positions@.contains_key(j) && world.velocities@.contains_key(j)
                    ==> move_fits(world.positions@[j], world.velocities@[j]),
        decreases n - i,
    {
        let e = Entity { id: i };
        match (world.positions.get(e), world.velocities.get(e)) {
            (Some(p), Some(v)) => {
                if checked_move(*p, *v).is_none() {
                    return false;
                }
            },
            _ => {},
        }
        i = i + 1;
    }
    true
}

/// `w1` is `w0` after the integration pass: each entity with a position and
/// a velocity has moved by its velocity times `SPEED_SCALE`, and nothing else
/// changes.
pub open spec fn physics_step(w0: &World, w1: &World) -> bool {
    &&& w1.entities == w0.entities
    &&& w1.velocities@ == w0.velocities@
    &&& w1.bounding_boxes@ == w0.bounding_boxes@
    &&& w1.healths@ == w0.healths@
    &&& w1.scores@ == w0.scores@
    &&& w1.players@ == w0.players@
    &&& w1.coins@ == w0.coins@
    &&& w1.enemies@ == w0.enemies@
    &&& w1.obstacles@ == w0.obstacles@
    &&& w1.powerups@ == w0.powerups@
    &&& w1.collidables@ == w0.collidables@
    &&& w1.positions@.dom() == w0.positions@.dom()
    &&& forall|i: nat| #[trigger] w1.positions@.contains_key(i)
        ==> w1.positions@[i] == if w0.velocities@.contains_key(i) {
            moved(w0.positions@[i], w0.velocities@[i])
        } else {
            w0.positions@[i]
        }
}

/// Advances positions by velocities.
pub struct PhysicsSystem;

impl PhysicsSystem {
    /// Each entity with a position and a velocity moves by its velocity times
    /// `SPEED_SCALE`, independently of every other entity; nothing else
    /// changes.
    pub fn run(&mut self, world: &mut World)
        requires
            integrable(old(world)),
        ensures
            old(world).wf() ==> final(world).wf(),
            physics_step(old(world), final(world)),
    {
        let ghost w0 = *world;
        let n = world.positions.bound();
        let mut i: usize = 0;
        while i < n
            invariant
                i <= n,
                integrable(&w0),
                forall|j: nat| #[trigger] w0.positions@.contains_key(j) ==> j < n,
                world.entities == w0.entities,
                world.velocities@ == w0.velocities@,
                world.bounding_boxes@ == w0.bounding_boxes@,
                world.healths@ == w0.healths@,
                world.scores@ == w0.scores@,
                world.players@ == w0.players@,
                world.coins@ == w0.coins@,
                world.enemies@ == w0.enemies@,
                world.obstacles@ == w0.obstacles@,
                world.powerups@ == w0.powerups@,
                world.collidables@ == w0.collidables@,
                world.positions@.dom() == w0.positions@.dom(),
                forall|j: nat| #[trigger] world.positions@.contains_key(j) ==> world.positions@[j]
                    == if j < i && w0.velocities@.contains_key(j) {
                        moved(w0.positions@[j], w0.velocities@[j])
                    } else {
                        w0.positions@[j]
                    },
            decreases n - i,
        {
            let e = Entity { id: i };
            let p = world.positions.get(e);
            let v = world.velocities.get(e);
            match (p, v) {
                (Some(p), Some(v)) => {
                    let (p, v) = (*p, *v);
                    assert(w0.positions@.contains_key(i as nat) && w0.velocities@.contains_key(i as nat));
                    if let Some(q) = checked_move(p, v) {
                        world.positions.insert(e, q);
                        assert(world.positions@.dom() =~= w0.positions@.dom());
                    }
                },
                _ => {},
            }
            i = i + 1;
        }
    }
}

} // verus!
