use vstd::prelude::*;

verus! {

/// An entity identifier. Identifiers are handed out in creation order and
/// never reused.
#[derive(Clone, Copy, Debug, PartialEq, Eq, Structural)]
pub struct Entity {
    pub id: usize,
}

/// Top-left anchor of an entity's bounding shape, in world units.
#[derive(Clone, Copy, Debug, PartialEq, Eq, Structural)]
pub struct Position {
    pub x: i64,
    pub y: i64,
}

/// Per-tick displacement intent, in world units (before the speed scale).
#[derive(Clone, Copy, Debug, PartialEq, Eq, Structural)]
pub struct Velocity {
    pub dx: i64,
    pub dy: i64,
}

/// Axis-aligned extent anchored at the entity's position.
#[derive(Clone, Copy, Debug, PartialEq, Eq, Structural)]
pub struct BoundingBox {
    pub width: u32,
    pub height: u32,
}

/// Hit points; lowered by enemy contact, never below zero.
#[derive(Clone, Copy, Debug, PartialEq, Eq, Structural)]
pub struct Health {
    pub value: u32,
}

/// Points collected from coins; never wraps.
#[derive(Clone, Copy, Debug, PartialEq, Eq, Structural)]
pub struct Score {
    pub value: u32,
}

/// Marks the entity steered by the input keys.
#[derive(Clone, Copy, Debug, PartialEq, Eq, Structural)]
pub struct PlayerControlled;

/// Marks a collectable coin.
#[derive(Clone, Copy, Debug, PartialEq, Eq, Structural)]
pub struct Coin;

/// Marks an enemy that hurts players on contact.
#[derive(Clone, Copy, Debug, PartialEq, Eq, Structural)]
pub struct Enemy;

/// Marks an obstacle.
#[derive(Clone, Copy, Debug, PartialEq, Eq, Structural)]
pub struct Obstacle;

/// Marks an entity that takes part in collision tests.
#[derive(Clone, Copy, Debug, PartialEq, Eq, Structural)]
pub struct Collidable;

/// The two kinds of power-up.
#[derive(Clone, Copy, Debug, PartialEq, Eq, Structural)]
pub enum PowerKind {
    Speed,
    Health,
}

/// A collectable power-up of some kind.
#[derive(Clone, Copy, Debug, PartialEq, Eq, Structural)]
pub struct PowerUp {
    pub power_type: PowerKind,
}

/// Points lost per enemy contact, and points won per coin pickup.
pub const CONTACT_POINTS: u32 = 10;

/// `v` lowered by ten points `k` times, stopping at zero.
pub open spec fn damaged(v: u32, k: nat) -> u32 {
    if v >= 10 * k {
        (v - 10 * k) as u32
    } else {
        0
    }
}

/// `n` if it fits in a `u32`, else `u32::MAX`.
pub open spec fn capped(n: int) -> u32 {
    if n <= u32::MAX {
        n as u32
    } else {
        u32::MAX
    }
}

/// `v` raised by ten points `k` times, stopping at `u32::MAX`.
pub open spec fn rewarded(v: u32, k: nat) -> u32 {
    capped(v + 10 * k)
}

/// Ten points `k` times, capped at `u32::MAX`.
pub fn contact_total(k: usize) -> (r: u32)
    ensures
        r == capped(10 * k),
{
    if k > 429496729 {
        u32::MAX
    } else {
        (k as u32) * CONTACT_POINTS
    }
}

} // verus!
