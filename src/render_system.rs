use vstd::prelude::*;
use crate::components::{Entity, Position, PowerKind};
use crate::world::{Group, World};

verus! {

/// What a drawn entity looks like, as far as the simulation tells.
#[derive(Clone, Copy, Debug, PartialEq, Eq, Structural)]
pub enum Visual {
    Player,
    Coin,
    Enemy,
    PowerUp(PowerKind),
}

/// One entity to draw: where it stands and what it is.
#[derive(Clone, Copy, Debug, PartialEq, Eq, Structural)]
pub struct Sprite {
    pub position: Position,
    pub visual: Visual,
}

/// Whether entity `i` is drawn in role `g`: it has a position and the role's tag.
pub open spec fn shown_as(w: &World, g: Group, i: nat) -> bool {
    &&& w.positions@.contains_key(i)
    &&& match g {
        Group::Players => w.players@.contains_key(i),
        Group::Coins => w.coins@.contains_key(i),
        Group::Enemies => w.enemies@.contains_key(i),
        Group::PowerUps => w.powerups@.contains_key(i),
    }
}

/// The look of entity `i` in role `g`.
pub open spec fn visual_of(w: &World, g: Group, i: nat) -> Visual {
    match g {
        Group::Players => Visual::Player,
        Group::Coins => Visual::Coin,
        Group::Enemies => Visual::Enemy,
        Group::PowerUps => Visual::PowerUp(w.powerups@[i].power_type),
    }
}

/// The sprites of role `g` among the ids below `n`, by ascending id.
pub open spec fn shown(w: &World, g: Group, n: nat) -> Seq<Sprite>
    decreases n,
{
    if n == 0 {
        Seq::empty()
    } else {
        let s = shown(w, g, (n - 1) as nat);
        if shown_as(w, g, (n - 1) as nat) {
            s.push(Sprite { position: w.positions@[(n - 1) as nat], visual: visual_of(w, g, (n - 1) as nat) })
        } else {
            s
        }
    }
}

/// Everything to draw: players, then coins, then enemies, then power-ups.
pub open spec fn scene(w: &World) -> Seq<Sprite> {
    let n = w.allocated();
    shown(w, Group::Players, n) + shown(w, Group::Coins, n) + shown(w, Group::Enemies, n) + shown(
        w,
        Group::PowerUps,
        n,
    )
}

fn sprite_of(world: &World, g: Group, e: Entity) -> (r: Option<Sprite>)
    ensures
        r is Some <==> shown_as(world, g, e.id as nat),
        r is Some ==> r == Some(
            Sprite { position: world.positions@[e.id as nat], visual: visual_of(world, g, e.id as nat) },
        ),
{
    let position = match world.positions.get(e) {
        Some(p) => *p,
        None => {
            return None;
        },
    };
    let visual = match g {
        Group::Players => {
            if !world.players.contains(e) {
                return None;
            }
            Visual::Player
        },
        Group::Coins => {
            if !world.coins.contains(e) {
                return None;
            }
            Visual::Coin
        },
        Group::Enemies => {
            if !world.enemies.contains(e) {
                return None;
            }
            Visual::Enemy
        },
        Group::PowerUps => match world.powerups.get(e) {
            Some(u) => Visual::PowerUp(u.power_type),
            None => {
                return None;
            },
        },
    };
    Some(Sprite { position, visual })
}

fn push_shown(world: &World, g: Group, out: &mut Vec<Sprite>)
    ensures
        final(out)@ == old(out)@ + shown(world, g, world.allocated()),
{
    let n = world.entities.count();
    let mut i: usize = 0;
    while i < n
        invariant
            n == world.allocated(),
            i <= n,
            out@ == old(out)@ + shown(world, g, i as nat),
        decreases n - i,
    {
        if let Some(s) = sprite_of(world, g, Entity { id: i }) {
            out.push(s);
        }
        i = i + 1;
        assert(out@ =~= old(out)@ + shown(world, g, i as nat));
    }
}

/// Hands the renderer what to draw.
pub struct RenderSystem;

impl RenderSystem {
    /// The sprites of the current world, in drawing order.
    pub fn run(&mut self, world: &World) -> (r: Vec<Sprite>)
        ensures
            r@ == scene(world),
    {
        let mut out: Vec<Sprite> = Vec::new();
        push_shown(world, Group::Players, &mut out);
        push_shown(world, Group::Coins, &mut out);
        push_shown(world, Group::Enemies, &mut out);
        push_shown(world, Group::PowerUps, &mut out);
        assert(out@ =~= scene(world));
        out
    }
}

} // verus!
