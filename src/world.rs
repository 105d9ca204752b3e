use vstd::prelude::*;
use crate::components::{
    BoundingBox, Coin, Collidable, Enemy, Entity, Health, Obstacle, PlayerControlled, Position,
    PowerUp, Score, Velocity,
};
use crate::storage::Storage;

verus! {

/// Failures that the simulation reports to its caller.
#[derive(Clone, Copy, Debug, PartialEq, Eq, Structural)]
pub enum SimError {
    /// The entity does not exist (any more).
    InvalidEntity,
    /// No entity identifier is left to hand out.
    ResourceExhaustion,
    /// The simulation bounds are unusable (a zero dimension).
    ConfigurationError,
    /// A move would carry an entity outside the range of world coordinates.
    CoordinateOverflow,
}

/// Hands out entity identifiers in creation order and records which are live.
pub struct EntityStore {
    live: Vec<bool>,
}

impl EntityStore {
    /// How many identifiers have been handed out so far.
    pub closed spec fn allocated(&self) -> nat {
        self.live@.len()
    }

    /// Whether identifier `i` was handed out and not destroyed since.
    pub closed spec fn is_live(&self, i: nat) -> bool {
        i < self.live@.len() && self.live@[i as int]
    }

    pub proof fn lemma_live_below_allocated(&self, i: nat)
        requires
            self.is_live(i),
        ensures
            i < self.allocated(),
    {
    }

    pub proof fn lemma_allocated_fits(&self)
        ensures
            self.allocated() <= usize::MAX,
    {
        broadcast use vstd::std_specs::vec::axiom_spec_len;
        assert(self.live.len() == self.live@.len());
    }

    /// A store that has handed out nothing.
    pub fn new() -> (r: EntityStore)
        ensures
            r.allocated() == 0,
    {
        EntityStore { live: Vec::new() }
    }

    /// How many identifiers have been handed out so far.
    pub fn count(&self) -> (r: usize)
        ensures
            r == self.allocated(),
    {
        self.live.len()
    }

    /// Whether `e` is live.
    pub fn is_alive(&self, e: Entity) -> (r: bool)
        ensures
            r == self.is_live(e.id as nat),
    {
        e.id < self.live.len() && self.live[e.id]
    }

    /// Hands out a fresh identifier, never used before. Fails only when the
    /// identifier space is used up.
    pub fn create(&mut self) -> (r: Result<Entity, SimError>)
        ensures
            old(self).allocated() < usize::MAX <==> r is Ok,
            r is Err ==> r == Err::<Entity, SimError>(SimError::ResourceExhaustion)
                && *final(self) == *old(self),
            r matches Ok(e) ==> {
                &&& e.id == old(self).allocated()
                &&& final(self).allocated() == old(self).allocated() + 1
                &&& forall|i: nat| #[trigger] final(self).is_live(i)
                    == (old(self).is_live(i) || i == e.id)
            },
    {
        if self.live.len() == usize::MAX {
            return Err(SimError::ResourceExhaustion);
        }
        let id = self.live.len();
        self.live.push(true);
        Ok(Entity { id })
    }

    /// Marks a live entity destroyed; an entity that is not live is refused
    /// with `InvalidEntity`, and nothing changes.
    pub fn destroy(&mut self, e: Entity) -> (r: Result<(), SimError>)
        ensures
            r is Ok <==> old(self).is_live(e.id as nat),
            r is Err ==> r == Err::<(), SimError>(SimError::InvalidEntity)
                && *final(self) == *old(self),
            r is Ok ==> {
                &&& final(self).allocated() == old(self).allocated()
                &&& forall|i: nat| #[trigger] final(self).is_live(i)
                    == (old(self).is_live(i) && i != e.id)
            },
    {
        if !self.is_alive(e) {
            return Err(SimError::InvalidEntity);
        }
        self.live.set(e.id, false);
        Ok(())
    }

    /// The live entities, in creation order.
    pub fn live_entities(&self) -> (r: Vec<Entity>)
        ensures
            forall|k: int| 0 <= k < r@.len() ==> self.is_live(#[trigger] r@[k].id as nat),
            forall|i: nat| #[trigger] self.is_live(i) ==> exists|k: int|
                0 <= k < r@.len() && r@[k].id == i,
            forall|a: int, b: int| 0 <= a < b < r@.len() ==> r@[a].id < r@[b].id,
    {
        let mut r: Vec<Entity> = Vec::new();
        let mut i: usize = 0;
        while i < self.live.len()
            invariant
                i <= self.live@.len(),
                forall|k: int| 0 <= k < r@.len() ==> self.is_live(#[trigger] r@[k].id as nat),
                forall|k: int| 0 <= k < r@.len() ==> #[trigger] r@[k].id < i,
                forall|j: nat| #[trigger] self.is_live(j) && j < i ==> exists|k: int|
                    0 <= k < r@.len() && r@[k].id == j,
                forall|a: int, b: int| 0 <= a < b < r@.len() ==> r@[a].id < r@[b].id,
            decreases self.live@.len() - i,
        {
            let ghost prev = r@;
            if self.live[i] {
                r.push(Entity { id: i });
                assert(r@[r@.len() - 1].id == i);
            }
            assert forall|j: nat| #[trigger] self.is_live(j) && j < i + 1 implies exists|k: int|
                0 <= k < r@.len() && r@[k].id == j by {
                if j < i {
                    let k = choose|k: int| 0 <= k < prev.len() && prev[k].id == j;
                    assert(r@[k] == prev[k]);
                } else {
                    assert(r@[r@.len() - 1].id == j);
                }
            }
            i = i + 1;
        }
        r
    }
}

/// The roles that take part in collision tests.
#[derive(Clone, Copy, Debug, PartialEq, Eq, Structural)]
pub enum Group {
    Players,
    Coins,
    Enemies,
    PowerUps,
}

/// Whether entity `i` has a position and a bounding box.
pub open spec fn has_box(w: &World, i: nat) -> bool {
    w.positions@.contains_key(i) && w.bounding_boxes@.contains_key(i)
}

/// Whether entity `i` is collidable, has a box, and plays the role `g`.
pub open spec fn member(w: &World, g: Group, i: nat) -> bool {
    &&& has_box(w, i)
    &&& w.collidables@.contains_key(i)
    &&& match g {
        Group::Players => w.players@.contains_key(i),
        Group::Coins => w.coins@.contains_key(i),
        Group::Enemies => w.enemies@.contains_key(i),
        Group::PowerUps => w.powerups@.contains_key(i),
    }
}

/// The members of `g` among the ids below `n`, by ascending id.
pub open spec fn select(w: &World, g: Group, n: nat) -> Seq<Entity>
    decreases n,
{
    if n == 0 {
        Seq::empty()
    } else {
        let s = select(w, g, (n - 1) as nat);
        if member(w, g, (n - 1) as nat) {
            s.push(Entity { id: (n - 1) as usize })
        } else {
            s
        }
    }
}

/// The members of `g` among all identifiers handed out.
pub open spec fn group_of(w: &World, g: Group) -> Seq<Entity> {
    select(w, g, w.allocated())
}

/// Every entity that `select` lists is a member, with an id below `n`.
pub proof fn lemma_select_members(w: &World, g: Group, n: nat)
    requires
        n <= usize::MAX,
    ensures
        forall|k: int| 0 <= k < select(w, g, n).len() ==> {
            &&& member(w, g, #[trigger] select(w, g, n)[k].id as nat)
            &&& select(w, g, n)[k].id < n
        },
    decreases n,
{
    if n > 0 {
        let m = (n - 1) as nat;
        lemma_select_members(w, g, m);
        let s = select(w, g, m);
        assert forall|k: int| 0 <= k < select(w, g, n).len() implies {
            &&& member(w, g, #[trigger] select(w, g, n)[k].id as nat)
            &&& select(w, g, n)[k].id < n
        } by {
            if k < s.len() {
                assert(select(w, g, n)[k] == s[k]);
            }
        }
    }
}

/// The entity store together with one component table per component type.
pub struct World {
    pub entities: EntityStore,
    pub positions: Storage<Position>,
    pub velocities: Storage<Velocity>,
    pub bounding_boxes: Storage<BoundingBox>,
    pub healths: Storage<Health>,
    pub scores: Storage<Score>,
    pub players: Storage<PlayerControlled>,
    pub coins: Storage<Coin>,
    pub enemies: Storage<Enemy>,
    pub obstacles: Storage<Obstacle>,
    pub powerups: Storage<PowerUp>,
    pub collidables: Storage<Collidable>,
}

/// Every key of the table belongs to a live entity of `w`.
pub open spec fn keys_live<T>(m: Map<nat, T>, w: &World) -> bool {
    forall|i: nat| #[trigger] m.contains_key(i) ==> w.is_live(i)
}

/// Every entity holding an entry of `m` also has a position.
pub open spec fn anchored<T>(m: Map<nat, T>, w: &World) -> bool {
    forall|i: nat| #[trigger] m.contains_key(i) ==> w.positions@.contains_key(i)
}

/// Keys of a table whose keys are live lie below the number of identifiers
/// handed out.
pub proof fn lemma_keys_below_allocated<T>(m: Map<nat, T>, w: &World)
    requires
        keys_live(m, w),
    ensures
        forall|i: nat| #[trigger] m.contains_key(i) ==> i < w.allocated(),
{
    assert forall|i: nat| #[trigger] m.contains_key(i) implies i < w.allocated() by {
        w.entities.lemma_live_below_allocated(i);
    }
}

impl World {
    pub open spec fn allocated(&self) -> nat {
        self.entities.allocated()
    }

    pub open spec fn is_live(&self, i: nat) -> bool {
        self.entities.is_live(i)
    }

    /// No table holds an entry for an entity that is not live; a velocity,
    /// a box, a power-up or any tag comes with a position; and a collidable
    /// entity also has a box.
    pub open spec fn wf(&self) -> bool {
        &&& anchored(self.velocities@, self)
        &&& anchored(self.bounding_boxes@, self)
        &&& anchored(self.players@, self)
        &&& anchored(self.coins@, self)
        &&& anchored(self.enemies@, self)
        &&& anchored(self.obstacles@, self)
        &&& anchored(self.powerups@, self)
        &&& anchored(self.collidables@, self)
        &&& forall|i: nat| #[trigger] self.collidables@.contains_key(i)
            ==> self.bounding_boxes@.contains_key(i)
        &&& keys_live(self.positions@, self)
        &&& keys_live(self.velocities@, self)
        &&& keys_live(self.bounding_boxes@, self)
        &&& keys_live(self.healths@, self)
        &&& keys_live(self.scores@, self)
        &&& keys_live(self.players@, self)
        &&& keys_live(self.coins@, self)
        &&& keys_live(self.enemies@, self)
        &&& keys_live(self.obstacles@, self)
        &&& keys_live(self.powerups@, self)
        &&& keys_live(self.collidables@, self)
    }

    /// The component tables of `self` and `o` are the same.
    pub open spec fn same_tables(&self, o: &World) -> bool {
        &&& self.positions@ == o.positions@
        &&& self.velocities@ == o.velocities@
        &&& self.bounding_boxes@ == o.bounding_boxes@
        &&& self.healths@ == o.healths@
        &&& self.scores@ == o.scores@
        &&& self.players@ == o.players@
        &&& self.coins@ == o.coins@
        &&& self.enemies@ == o.enemies@
        &&& self.obstacles@ == o.obstacles@
        &&& self.powerups@ == o.powerups@
        &&& self.collidables@ == o.collidables@
    }

    /// A world with no entities.
    pub fn new() -> (r: World)
        ensures
            r.wf(),
            r.allocated() == 0,
            r.positions@ == Map::<nat, Position>::empty(),
            r.velocities@ == Map::<nat, Velocity>::empty(),
            r.bounding_boxes@ == Map::<nat, BoundingBox>::empty(),
            r.healths@ == Map::<nat, Health>::empty(),
            r.scores@ == Map::<nat, Score>::empty(),
            r.players@ == Map::<nat, PlayerControlled>::empty(),
            r.coins@ == Map::<nat, Coin>::empty(),
            r.enemies@ == Map::<nat, Enemy>::empty(),
            r.obstacles@ == Map::<nat, Obstacle>::empty(),
            r.powerups@ == Map::<nat, PowerUp>::empty(),
            r.collidables@ == Map::<nat, Collidable>::empty(),
    {
        World {
            entities: EntityStore::new(),
            positions: Storage::new(),
            velocities: Storage::new(),
            bounding_boxes: Storage::new(),
            healths: Storage::new(),
            scores: Storage::new(),
            players: Storage::new(),
            coins: Storage::new(),
            enemies: Storage::new(),
            obstacles: Storage::new(),
            powerups: Storage::new(),
            collidables: Storage::new(),
        }
    }

    /// Whether `e` is live.
    pub fn is_alive(&self, e: Entity) -> (r: bool)
        ensures
            r == self.is_live(e.id as nat),
    {
        self.entities.is_alive(e)
    }

    /// Whether `e` plays the role `g` in collision tests.
    pub fn is_member(&self, g: Group, e: Entity) -> (r: bool)
        ensures
            r == member(self, g, e.id as nat),
    {
        self.positions.contains(e) && self.bounding_boxes.contains(e) && self.collidables.contains(e)
            && match g {
            Group::Players => self.players.contains(e),
            Group::Coins => self.coins.contains(e),
            Group::Enemies => self.enemies.contains(e),
            Group::PowerUps => self.powerups.contains(e),
        }
    }

    /// A snapshot of the members of `g`, by ascending id.
    pub fn group(&self, g: Group) -> (r: Vec<Entity>)
        ensures
            r@ == group_of(self, g),
    {
        let n = self.entities.count();
        let mut r: Vec<Entity> = Vec::new();
        let mut i: usize = 0;
        while i < n
            invariant
                n == self.allocated(),
                i <= n,
                r@ == select(self, g, i as nat),
            decreases n - i,
        {
            if self.is_member(g, Entity { id: i }) {
                r.push(Entity { id: i });
            }
            i = i + 1;
        }
        r
    }

    /// Hands out a fresh identifier, never used before, with no components.
    /// Fails only when the identifier space is used up.
    pub fn create_entity(&mut self) -> (r: Result<Entity, SimError>)
        ensures
            final(self).same_tables(old(self)),
            old(self).allocated() < usize::MAX <==> r is Ok,
            r is Err ==> r == Err::<Entity, SimError>(SimError::ResourceExhaustion)
                && *final(self) == *old(self),
            r matches Ok(e) ==> {
                &&& e.id == old(self).allocated()
                &&& final(self).allocated() == old(self).allocated() + 1
                &&& forall|i: nat| #[trigger] final(self).is_live(i)
                    == (old(self).is_live(i) || i == e.id)
            },
            old(self).wf() ==> final(self).wf(),
    {
        self.entities.create()
    }

    /// Destroys a live entity and clears all its components. Destroying an
    /// entity that is not live fails with `InvalidEntity` and changes nothing.
    pub fn destroy(&mut self, e: Entity) -> (r: Result<(), SimError>)
        ensures
            r is Ok <==> old(self).is_live(e.id as nat),
            r is Err ==> r == Err::<(), SimError>(SimError::InvalidEntity)
                && *final(self) == *old(self),
            r is Ok ==> {
                &&& final(self).allocated() == old(self).allocated()
                &&& forall|i: nat| #[trigger] final(self).is_live(i)
                    == (old(self).is_live(i) && i != e.id)
                &&& final(self).positions@ == old(self).positions@.remove(e.id as nat)
                &&& final(self).velocities@ == old(self).velocities@.remove(e.id as nat)
                &&& final(self).bounding_boxes@ == old(self).bounding_boxes@.remove(e.id as nat)
                &&& final(self).healths@ == old(self).healths@.remove(e.id as nat)
                &&& final(self).scores@ == old(self).scores@.remove(e.id as nat)
                &&& final(self).players@ == old(self).players@.remove(e.id as nat)
                &&& final(self).coins@ == old(self).coins@.remove(e.id as nat)
                &&& final(self).enemies@ == old(self).enemies@.remove(e.id as nat)
                &&& final(self).obstacles@ == old(self).obstacles@.remove(e.id as nat)
                &&& final(self).powerups@ == old(self).powerups@.remove(e.id as nat)
                &&& final(self).collidables@ == old(self).collidables@.remove(e.id as nat)
            },
            old(self).wf() ==> final(self).wf(),
    {
        self.entities.destroy(e)?;
        self.positions.remove(e);
        self.velocities.remove(e);
        self.bounding_boxes.remove(e);
        self.healths.remove(e);
        self.scores.remove(e);
        self.players.remove(e);
        self.coins.remove(e);
        self.enemies.remove(e);
        self.obstacles.remove(e);
        self.powerups.remove(e);
        self.collidables.remove(e);
        Ok(())
    }
}

} // verus!
