use vstd::prelude::*;
use crate::components::{Entity, Velocity};
use crate::resources::{InputResource, Key};
use crate::world::World;

verus! {

/// How many times `k` occurs in `s`.
pub open spec fn count_key(s: Seq<Key>, k: Key) -> nat
    decreases s.len(),
{
    if s.len() == 0 {
        0
    } else {
        count_key(s.drop_last(), k) + if s.last() == k {
            1nat
        } else {
            0nat
        }
    }
}

/// The velocity that the keys `s` ask for: one unit per direction key,
/// opposite keys cancelling, with no normalisation of diagonals.
pub open spec fn intent(s: Seq<Key>) -> Velocity {
    Velocity {
        dx: (count_key(s, Key::Right) - count_key(s, Key::Left)) as i64,
        dy: (count_key(s, Key::Down) - count_key(s, Key::Up)) as i64,
    }
}

proof fn lemma_count_bounded(s: Seq<Key>, k: Key)
    ensures
        count_key(s, k) <= s.len(),
    decreases s.len(),
{
    if s.len() > 0 {
        lemma_count_bounded(s.drop_last(), k);
    }
}

/// In a sequence without repeats a key occurs once if present, else never.
pub proof fn lemma_count_in_set(s: Seq<Key>, k: Key)
    requires
        s.no_duplicates(),
    ensures
        count_key(s, k) == if s.contains(k) {
            1nat
        } else {
            0nat
        },
    decreases s.len(),
{
    if s.len() > 0 {
        let t = s.drop_last();
        assert(t.no_duplicates());
        lemma_count_in_set(t, k);
        if s.last() == k {
            if t.contains(k) {
                let j = choose|j: int| 0 <= j < t.len() && t[j] == k;
                assert(s[j] == s[s.len() - 1]);
            }
        } else {
            if s.contains(k) {
                let j = choose|j: int| 0 <= j < s.len() && s[j] == k;
                assert(t[j] == k);
            }
        }
        if t.contains(k) {
            let j = choose|j: int| 0 <= j < t.len() && t[j] == k;
            assert(s[j] == k);
        }
    }
}

/// With both vertical keys active (and no key listed twice) the vertical
/// velocity is zero; likewise the horizontal one with both horizontal keys.
pub proof fn lemma_opposite_keys_cancel(keys: Seq<Key>)
    requires
        keys.no_duplicates(),
    ensures
        keys.contains(Key::Up) && keys.contains(Key::Down) ==> intent(keys).dy == 0,
        keys.contains(Key::Left) && keys.contains(Key::Right) ==> intent(keys).dx == 0,
{
    lemma_count_in_set(keys, Key::Up);
    lemma_count_in_set(keys, Key::Down);
    lemma_count_in_set(keys, Key::Left);
    lemma_count_in_set(keys, Key::Right);
}

/// The velocity that the active keys ask for.
pub fn velocity_from_keys(keys: &Vec<Key>) -> (r: Velocity)
    requires
        keys@.len() <= i64::MAX,
    ensures
        r == intent(keys@),
{
    let mut dx: i64 = 0;
    let mut dy: i64 = 0;
    let mut k: usize = 0;
    while k < keys.len()
        invariant
            k <= keys@.len() <= i64::MAX,
            dx == count_key(keys@.take(k as int), Key::Right) - count_key(keys@.take(k as int), Key::Left),
            dy == count_key(keys@.take(k as int), Key::Down) - count_key(keys@.take(k as int), Key::Up),
        decreases keys@.len() - k,
    {
        proof {
            let t = keys@.take(k as int);
            assert(keys@.take(k + 1).drop_last() =~= t);
            lemma_count_bounded(t, Key::Right);
            lemma_count_bounded(t, Key::Left);
            lemma_count_bounded(t, Key::Down);
            lemma_count_bounded(t, Key::Up);
        }
        match keys[k] {
            Key::Up => dy = dy - 1,
            Key::Down => dy = dy + 1,
            Key::Left => dx = dx - 1,
            Key::Right => dx = dx + 1,
            Key::Other => {},
        }
        k = k + 1;
    }
    assert(keys@.take(k as int) =~= keys@);
    Velocity { dx, dy }
}

/// `w1` is `w0` after the movement pass under the active keys `keys`: every
/// entity with a velocity and `PlayerControlled` gets `intent(keys)`, and
/// nothing else changes.
pub open spec fn input_step(w0: &World, w1: &World, keys: Seq<Key>) -> bool {
    &&& w1.entities == w0.entities
    &&& w1.positions@ == w0.positions@
    &&& w1.bounding_boxes@ == w0.bounding_boxes@
    &&& w1.healths@ == w0.healths@
    &&& w1.scores@ == w0.scores@
    &&& w1.players@ == w0.players@
    &&& w1.coins@ == w0.coins@
    &&& w1.enemies@ == w0.enemies@
    &&& w1.obstacles@ == w0.obstacles@
    &&& w1.powerups@ == w0.powerups@
    &&& w1.collidables@ == w0.collidables@
    &&& w1.velocities@.dom() == w0.velocities@.dom()
    &&& forall|i: nat| #[trigger] w1.velocities@.contains_key(i)
        ==> w1.velocities@[i] == if w0.players@.contains_key(i) {
            intent(keys)
        } else {
            w0.velocities@[i]
        }
}

/// Turns the active keys into the velocity of player-controlled entities.
pub struct PlayerInputSystem;

impl PlayerInputSystem {
    /// Every entity with both a velocity and `PlayerControlled` gets the
    /// velocity that the keys ask for; nothing else changes.
    pub fn run(&mut self, input: &InputResource, world: &mut World)
        requires
            input.keys@.len() <= i64::MAX,
        ensures
            old(world).wf() ==> final(world).wf(),
            input_step(old(world), final(world), input.keys@),
    {
        let ghost w0 = *world;
        let v = velocity_from_keys(&input.keys);
        let n = world.velocities.bound();
        let mut i: usize = 0;
        while i < n
            invariant
                i <= n,
                v == intent(input.keys@),
                forall|j: nat| #[trigger] w0.velocities@.contains_key(j) ==> j < n,
                world.entities == w0.entities,
                world.positions@ == w0.positions@,
                world.bounding_boxes@ == w0.bounding_boxes@,
                world.healths@ == w0.healths@,
                world.scores@ == w0.scores@,
                world.players@ == w0.players@,
                world.coins@ == w0.coins@,
                world.enemies@ == w0.enemies@,
                world.obstacles@ == w0.obstacles@,
                world.powerups@ == w0.powerups@,
                world.collidables@ == w0.collidables@,
                world.velocities@.dom() == w0.velocities@.dom(),
                forall|j: nat| #[trigger] world.velocities@.contains_key(j) ==> world.velocities@[j]
                    == if j < i && w0.players@.contains_key(j) {
                        v
                    } else {
                        w0.velocities@[j]
                    },
            decreases n - i,
        {
            let e = Entity { id: i };
            if world.velocities.contains(e) && world.players.contains(e) {
                world.velocities.insert(e, v);
                assert(world.velocities@.dom() =~= w0.velocities@.dom());
            }
            i = i + 1;
        }
    }
}

} // verus!
