use vstd::prelude::*;
use crate::components::{capped, contact_total, damaged, rewarded, BoundingBox, Entity, Position};
use crate::world::{group_of, has_box, lemma_select_members, member, Group, World};

verus! {

/// Whether two axis-aligned boxes share interior area; boxes that only touch
/// along an edge do not overlap.
pub open spec fn overlaps(p1: Position, b1: BoundingBox, p2: Position, b2: BoundingBox) -> bool {
    !(p1.x + b1.width <= p2.x || p1.x >= p2.x + b2.width || p1.y + b1.height <= p2.y || p1.y
        >= p2.y + b2.height)
}

/// The overlap test between the box `bbox1` anchored at `pos1` and the box
/// `bbox2` anchored at `pos2`.
pub fn check_collision(pos1: &Position, bbox1: &BoundingBox, pos2: &Position, bbox2: &BoundingBox) -> (r: bool)
    ensures
        r == overlaps(*pos1, *bbox1, *pos2, *bbox2),
{
    let left1 = pos1.x as i128;
    let right1 = left1 + bbox1.width as i128;
    let top1 = pos1.y as i128;
    let bottom1 = top1 + bbox1.height as i128;
    let left2 = pos2.x as i128;
    let right2 = left2 + bbox2.width as i128;
    let top2 = pos2.y as i128;
    let bottom2 = top2 + bbox2.height as i128;
    !(right1 <= left2 || left1 >= right2 || bottom1 <= top2 || top1 >= bottom2)
}

/// Overlap does not depend on the order of the two boxes.
pub proof fn lemma_overlap_symmetric(p1: Position, b1: BoundingBox, p2: Position, b2: BoundingBox)
    ensures
        overlaps(p1, b1, p2, b2) == overlaps(p2, b2, p1, b1),
{
}

/// Two boxes whose facing edges meet, horizontally or vertically, do not
/// overlap.
pub proof fn lemma_edge_contact_is_no_overlap(
    p1: Position,
    b1: BoundingBox,
    p2: Position,
    b2: BoundingBox,
)
    requires
        p1.x + b1.width == p2.x || p1.y + b1.height == p2.y,
    ensures
        !overlaps(p1, b1, p2, b2),
        !overlaps(p2, b2, p1, b1),
{
}

/// The entity whose id is `i`.
pub open spec fn ent(i: nat) -> Entity {
    Entity { id: i as usize }
}

/// Whether `a` and `b` are distinct entities whose boxes overlap.
pub open spec fn touch(w: &World, a: Entity, b: Entity) -> bool {
    &&& a != b
    &&& overlaps(
        w.positions@[a.id as nat],
        w.bounding_boxes@[a.id as nat],
        w.positions@[b.id as nat],
        w.bounding_boxes@[b.id as nat],
    )
}

/// How many entries of `s` the entity `a` touches.
pub open spec fn hits(w: &World, a: Entity, s: Seq<Entity>) -> nat
    decreases s.len(),
{
    if s.len() == 0 {
        0
    } else {
        hits(w, a, s.drop_last()) + if touch(w, a, s.last()) {
            1nat
        } else {
            0nat
        }
    }
}

/// Whether `i` is a member of `g` that some player touches: such a coin or
/// power-up is consumed.
pub open spec fn picked(w: &World, g: Group, i: nat) -> bool {
    &&& i < w.allocated()
    &&& member(w, g, i)
    &&& hits(w, ent(i), group_of(w, Group::Players)) > 0
}

/// The ids of the members of `g` that some player touches.
pub open spec fn picked_set(w: &World, g: Group) -> Set<nat> {
    Set::new(|i: nat| picked(w, g, i))
}

/// How many enemies the player `i` touches; zero for an entity that is not a
/// player.
pub open spec fn enemy_contacts(w: &World, i: nat) -> nat {
    if i < w.allocated() && member(w, Group::Players, i) {
        hits(w, ent(i), group_of(w, Group::Enemies))
    } else {
        0
    }
}

/// How many (coin, player) pairs touch, over the coins with ids below `n`.
pub open spec fn coin_contacts_below(w: &World, n: nat) -> nat
    decreases n,
{
    if n == 0 {
        0
    } else {
        coin_contacts_below(w, (n - 1) as nat) + if member(w, Group::Coins, (n - 1) as nat) {
            hits(w, ent((n - 1) as nat), group_of(w, Group::Players))
        } else {
            0
        }
    }
}

/// How many (coin, player) pairs touch in `w`.
pub open spec fn coin_contacts(w: &World) -> nat {
    coin_contacts_below(w, w.allocated())
}

fn box_of(w: &World, e: Entity) -> (r: (Position, BoundingBox))
    requires
        has_box(w, e.id as nat),
    ensures
        r == (w.positions@[e.id as nat], w.bounding_boxes@[e.id as nat]),
{
    match (w.positions.get(e), w.bounding_boxes.get(e)) {
        (Some(p), Some(b)) => (*p, *b),
        _ => vstd::pervasive::unreached(),
    }
}

/// How many entries of `s` the entity `a` touches.
fn count_touching(w: &World, a: Entity, s: &Vec<Entity>) -> (r: usize)
    requires
        has_box(w, a.id as nat),
        forall|k: int| 0 <= k < s@.len() ==> has_box(w, #[trigger] s@[k].id as nat),
    ensures
        r == hits(w, a, s@),
{
    let (pa, ba) = box_of(w, a);
    let mut count: usize = 0;
    let mut k: usize = 0;
    while k < s.len()
        invariant
            k <= s@.len(),
            count <= k,
            count == hits(w, a, s@.take(k as int)),
            (pa, ba) == (w.positions@[a.id as nat], w.bounding_boxes@[a.id as nat]),
            forall|k: int| 0 <= k < s@.len() ==> has_box(w, #[trigger] s@[k].id as nat),
        decreases s@.len() - k,
    {
        let b = s[k];
        assert(s@.take(k + 1).drop_last() =~= s@.take(k as int));
        let (pb, bb) = box_of(w, b);
        if a != b && check_collision(&pa, &ba, &pb, &bb) {
            count = count + 1;
        }
        k = k + 1;
    }
    assert(s@.take(k as int) =~= s@);
    count
}

/// `w1` is `w0` after the collision pass: touched coins and power-ups lose
/// their tag, players lose health per touching enemy, every score gains per
/// (coin, player) contact, and nothing else changes.
pub open spec fn collision_step(w0: &World, w1: &World) -> bool {
    &&& w1.entities == w0.entities
    &&& w1.positions@ == w0.positions@
    &&& w1.velocities@ == w0.velocities@
    &&& w1.bounding_boxes@ == w0.bounding_boxes@
    &&& w1.players@ == w0.players@
    &&& w1.enemies@ == w0.enemies@
    &&& w1.obstacles@ == w0.obstacles@
    &&& w1.collidables@ == w0.collidables@
    &&& w1.coins@ == w0.coins@.remove_keys(picked_set(w0, Group::Coins))
    &&& w1.powerups@ == w0.powerups@.remove_keys(picked_set(w0, Group::PowerUps))
    &&& w1.healths@.dom() == w0.healths@.dom()
    &&& forall|i: nat| #[trigger] w1.healths@.contains_key(i) ==> w1.healths@[i].value
        == damaged(w0.healths@[i].value, enemy_contacts(w0, i))
    &&& w1.scores@.dom() == w0.scores@.dom()
    &&& forall|i: nat| #[trigger] w1.scores@.contains_key(i) ==> w1.scores@[i].value
        == rewarded(w0.scores@[i].value, coin_contacts(w0))
}

/// Resolves contacts between players and coins, enemies and power-ups.
pub struct CollisionSystem;

impl CollisionSystem {
    /// One collision pass. Intents are collected over a snapshot of the
    /// groups first and committed afterwards: touched power-ups lose their
    /// `PowerUp` (a pickup has no further effect yet), each player loses ten
    /// health points per enemy it touches (stopping at zero), touched coins
    /// lose their `Coin`, and every score gains ten points per (coin, player)
    /// contact, stopping at `u32::MAX`. Crediting every score rather than only
    /// the collector's is a deliberate compatibility choice of the game's
    /// scoring rule. Nothing else changes.
    pub fn run(&mut self, world: &mut World)
        ensures
            old(world).wf() ==> final(world).wf(),
            collision_step(old(world), final(world)),
    {
        let ghost w0 = *world;
        let players = world.group(Group::Players);
        let enemies = world.group(Group::Enemies);
        proof {
            world.entities.lemma_allocated_fits();
            lemma_select_members(world, Group::Players, world.allocated());
            lemma_select_members(world, Group::Enemies, world.allocated());
        }
        let n = world.entities.count();
        let mut coin_flags: Vec<bool> = Vec::new();
        let mut powerup_flags: Vec<bool> = Vec::new();
        let mut damage: Vec<usize> = Vec::new();
        let mut bonus: u32 = 0;
        let mut i: usize = 0;
        while i < n
            invariant
                *world == w0,
                n == w0.allocated(),
                i <= n,
                players@ == group_of(&w0, Group::Players),
                enemies@ == group_of(&w0, Group::Enemies),
                forall|k: int| 0 <= k < players@.len() ==> has_box(&w0, #[trigger] players@[k].id as nat),
                forall|k: int| 0 <= k < enemies@.len() ==> has_box(&w0, #[trigger] enemies@[k].id as nat),
                coin_flags@.len() == i,
                powerup_flags@.len() == i,
                damage@.len() == i,
                forall|j: int| 0 <= j < i ==> #[trigger] coin_flags@[j] == picked(&w0, Group::Coins, j as nat),
                forall|j: int| 0 <= j < i ==> #[trigger] powerup_flags@[j] == picked(&w0, Group::PowerUps, j as nat),
                forall|j: int| 0 <= j < i ==> #[trigger] damage@[j] == enemy_contacts(&w0, j as nat),
                bonus == capped(10 * coin_contacts_below(&w0, i as nat) as int),
            decreases n - i,
        {
            let e = Entity { id: i };
            assert(e == ent(i as nat));
            let coin_hits: usize = if world.is_member(Group::Coins, e) {
                count_touching(world, e, &players)
            } else {
                0
            };
            coin_flags.push(coin_hits > 0);
            bonus = bonus.saturating_add(contact_total(coin_hits));
            let powerup_hit = world.is_member(Group::PowerUps, e) && count_touching(world, e, &players) > 0;
            powerup_flags.push(powerup_hit);
            let enemy_hits: usize = if world.is_member(Group::Players, e) {
                count_touching(world, e, &enemies)
            } else {
                0
            };
            damage.push(enemy_hits);
            i = i + 1;
        }
        world.powerups.remove_flagged(&powerup_flags);
        world.healths.apply_damage(&damage);
        world.coins.remove_flagged(&coin_flags);
        world.scores.apply_bonus(bonus);
        assert(Set::new(|j: nat| j < coin_flags@.len() && coin_flags@[j as int])
            =~= picked_set(&w0, Group::Coins));
        assert(Set::new(|j: nat| j < powerup_flags@.len() && powerup_flags@[j as int])
            =~= picked_set(&w0, Group::PowerUps));
    }
}

} // verus!
