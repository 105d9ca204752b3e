use vstd::prelude::*;
use rand::rngs::ThreadRng;
use rand::Rng;
use crate::components::{BoundingBox, Coin, Collidable, Enemy, Entity, Position, PowerKind, PowerUp};
use crate::world::{lemma_keys_below_allocated, SimError, World};

verus! {

#[verifier::external_type_specification]
#[verifier::external_body]
pub struct ExThreadRng(ThreadRng);

/// Relies on rand::thread_rng: a handle on this thread's random generator.
#[verifier::external_body]
fn new_rng() -> ThreadRng {
    rand::thread_rng()
}

/// Relies on rand::Rng::gen_range over `0..bound`: a value drawn below
/// `bound`; the call panics on an empty range, which `requires` rules out.
#[verifier::external_body]
fn draw_below(rng: &mut ThreadRng, bound: u32) -> (r: u32)
    requires
        bound > 0,
    ensures
        r < bound,
{
    rng.gen_range(0..bound)
}

/// Relies on rand::Rng::gen_ratio(1, 2): true or false with equal chance.
#[verifier::external_body]
fn draw_fair(rng: &mut ThreadRng) -> bool {
    rng.gen_ratio(1, 2)
}

/// Timer steps (tenths of a time unit) between two coins.
pub const COIN_PERIOD: u32 = 50;

/// Timer steps between two enemies.
pub const ENEMY_PERIOD: u32 = 100;

/// Timer steps between two power-ups.
pub const POWERUP_PERIOD: u32 = 150;

/// What a spawn creates.
#[derive(Clone, Copy, Debug, PartialEq, Eq, Structural)]
pub enum SpawnKind {
    Coin,
    Enemy,
    PowerUp(PowerKind),
}

/// The side length of the square box of an entity of kind `k`.
pub open spec fn side_of(k: SpawnKind) -> u32 {
    match k {
        SpawnKind::Enemy => 20,
        _ => 10,
    }
}

/// Whether entity `i` of `w` carries the standard components of kind `k`,
/// anchored at (`x`, `y`).
pub open spec fn placed(w: &World, i: nat, k: SpawnKind, x: int, y: int) -> bool {
    &&& w.positions@.contains_key(i)
    &&& w.positions@[i] == Position { x: x as i64, y: y as i64 }
    &&& w.bounding_boxes@.contains_key(i)
    &&& w.bounding_boxes@[i] == BoundingBox { width: side_of(k), height: side_of(k) }
    &&& w.collidables@.contains_key(i)
    &&& match k {
        SpawnKind::Coin => w.coins@.contains_key(i),
        SpawnKind::Enemy => w.enemies@.contains_key(i),
        SpawnKind::PowerUp(p) => w.powerups@.contains_key(i) && w.powerups@[i] == PowerUp {
            power_type: p,
        },
    }
}

/// Creates an entity of kind `k` at (`x`, `y`) with its standard components:
/// position, a square box (20 for an enemy, 10 otherwise), `Collidable` and the
/// kind's tag. Fails only when identifiers are used up, changing nothing.
pub fn spawn(world: &mut World, k: SpawnKind, x: u32, y: u32) -> (r: Result<Entity, SimError>)
    ensures
        r is Ok <==> old(world).allocated() < usize::MAX,
        r is Err ==> r == Err::<Entity, SimError>(SimError::ResourceExhaustion) && *final(world)
            == *old(world),
        r matches Ok(e) ==> {
            &&& e.id == old(world).allocated()
            &&& final(world).allocated() == old(world).allocated() + 1
            &&& forall|i: nat| #[trigger] final(world).is_live(i) == (old(world).is_live(i) || i
                == e.id)
            &&& final(world).positions@ == old(world).positions@.insert(
                e.id as nat,
                Position { x: x as i64, y: y as i64 },
            )
            &&& final(world).bounding_boxes@ == old(world).bounding_boxes@.insert(
                e.id as nat,
                BoundingBox { width: side_of(k), height: side_of(k) },
            )
            &&& final(world).collidables@ == old(world).collidables@.insert(e.id as nat, Collidable)
            &&& final(world).coins@ == (if k == SpawnKind::Coin {
                old(world).coins@.insert(e.id as nat, Coin)
            } else {
                old(world).coins@
            })
            &&& final(world).enemies@ == (if k == SpawnKind::Enemy {
                old(world).enemies@.insert(e.id as nat, Enemy)
            } else {
                old(world).enemies@
            })
            &&& final(world).powerups@ == (match k {
                SpawnKind::PowerUp(p) => old(world).powerups@.insert(
                    e.id as nat,
                    PowerUp { power_type: p },
                ),
                _ => old(world).powerups@,
            })
            &&& final(world).velocities@ == old(world).velocities@
            &&& final(world).healths@ == old(world).healths@
            &&& final(world).scores@ == old(world).scores@
            &&& final(world).players@ == old(world).players@
            &&& final(world).obstacles@ == old(world).obstacles@
            &&& placed(final(world), e.id as nat, k, x as int, y as int)
        },
        old(world).wf() ==> final(world).wf(),
{
    let ghost w0 = *world;
    let e = world.create_entity()?;
    let ghost w1 = *world;
    let side: u32 = match k {
        SpawnKind::Enemy => 20,
        _ => 10,
    };
    world.positions.insert(e, Position { x: x as i64, y: y as i64 });
    world.bounding_boxes.insert(e, BoundingBox { width: side, height: side });
    world.collidables.insert(e, Collidable);
    match k {
        SpawnKind::Coin => {
            world.coins.insert(e, Coin);
        },
        SpawnKind::Enemy => {
            world.enemies.insert(e, Enemy);
        },
        SpawnKind::PowerUp(p) => {
            world.powerups.insert(e, PowerUp { power_type: p });
        },
    }
    assert(world.entities == w1.entities);
    assert forall|i: nat| #[trigger] world.is_live(i) == (w0.is_live(i) || i == e.id) by {
        assert(world.is_live(i) == w1.is_live(i));
    }
    Ok(e)
}

/// Which timers reached their period on one tick.
#[derive(Clone, Copy, Debug, PartialEq, Eq, Structural)]
pub struct SpawnEvents {
    pub coin: bool,
    pub enemy: bool,
    pub powerup: bool,
}

/// A timer at `t` after one more step, with period `p`: back to zero when it
/// reaches the period.
pub open spec fn timer_after(t: u32, p: u32) -> u32 {
    if t + 1 >= p {
        0
    } else {
        (t + 1) as u32
    }
}

/// A timer with period `p`, started at zero, after `k` steps.
pub open spec fn timer_after_steps(p: u32, k: nat) -> u32
    decreases k,
{
    if k == 0 {
        0
    } else {
        timer_after(timer_after_steps(p, (k - 1) as nat), p)
    }
}

/// A timer with period `p` that starts at zero fires for the first time on
/// step `p`: on steps 1 to `p - 1` it does not, and on step `p` it does.
pub proof fn lemma_first_fire_at_period(p: u32, k: nat)
    requires
        p > 0,
        1 <= k <= p,
    ensures
        (timer_after_steps(p, (k - 1) as nat) + 1 >= p) == (k == p),
{
    lemma_timer_counts_up(p, (k - 1) as nat);
}

proof fn lemma_timer_counts_up(p: u32, k: nat)
    requires
        k < p,
    ensures
        timer_after_steps(p, k) == k,
    decreases k,
{
    if k > 0 {
        lemma_timer_counts_up(p, (k - 1) as nat);
    }
}

/// 1 if a timer at `t` reaches the period `p` on its next step, else 0.
pub open spec fn fires(t: u32, p: u32) -> nat {
    if t + 1 >= p {
        1
    } else {
        0
    }
}

/// `m` and `o` hold the same entries below id `n`.
pub open spec fn agree_below<T>(m: Map<nat, T>, o: Map<nat, T>, n: nat) -> bool {
    forall|i: nat|
        i < n ==> (#[trigger] m.contains_key(i) == o.contains_key(i) && (m.contains_key(i) ==> m[i]
            == o[i]))
}

/// The ids from `a` up to, not including, `b`.
pub open spec fn id_range(a: nat, b: nat) -> Set<nat> {
    Set::new(|i: nat| a <= i < b)
}

/// `s1` is `s0` with every timer stepped once and the bounds kept.
pub open spec fn stepped(s0: &SpawnSystem, s1: &SpawnSystem) -> bool {
    &&& s1.screen_width == s0.screen_width
    &&& s1.screen_height == s0.screen_height
    &&& s1.coin_timer == timer_after(s0.coin_timer, COIN_PERIOD)
    &&& s1.enemy_timer == timer_after(s0.enemy_timer, ENEMY_PERIOD)
    &&& s1.powerup_timer == timer_after(s0.powerup_timer, POWERUP_PERIOD)
}

/// `w1` is `w0` after a successful spawn tick of `s0`: one entity per fired
/// timer, with fresh ids in the order coin, enemy, power-up, each placed inside
/// the bounds with its standard components, and nothing else changed.
pub open spec fn spawned(s0: &SpawnSystem, w0: &World, w1: &World) -> bool {
    &&& w1.allocated() == w0.allocated() + s0.fired()
    &&& forall|i: nat| #[trigger] w1.is_live(i) == (w0.is_live(i)
        || w0.allocated() <= i < w0.allocated() + s0.fired())
    &&& fires(s0.coin_timer, COIN_PERIOD) == 1 ==> (exists|x: int, y: int|
        0 <= x < s0.screen_width && 0 <= y < s0.screen_height
            && #[trigger] placed(w1, w0.allocated(), SpawnKind::Coin, x, y))
    &&& fires(s0.enemy_timer, ENEMY_PERIOD) == 1 ==> (exists|x: int, y: int|
        0 <= x < s0.screen_width && 0 <= y < s0.screen_height
            && #[trigger] placed(
            w1,
            w0.allocated() + fires(s0.coin_timer, COIN_PERIOD),
            SpawnKind::Enemy,
            x,
            y,
        ))
    &&& fires(s0.powerup_timer, POWERUP_PERIOD) == 1 ==> (exists|
        x: int,
        y: int,
        k: PowerKind,
    |
        0 <= x < s0.screen_width && 0 <= y < s0.screen_height
            && #[trigger] placed(
            w1,
            w0.allocated() + fires(s0.coin_timer, COIN_PERIOD) + fires(
                s0.enemy_timer,
                ENEMY_PERIOD,
            ),
            SpawnKind::PowerUp(k),
            x,
            y,
        ))
    &&& agree_below(w1.positions@, w0.positions@, w0.allocated())
    &&& agree_below(w1.bounding_boxes@, w0.bounding_boxes@, w0.allocated())
    &&& agree_below(w1.collidables@, w0.collidables@, w0.allocated())
    &&& agree_below(w1.coins@, w0.coins@, w0.allocated())
    &&& agree_below(w1.enemies@, w0.enemies@, w0.allocated())
    &&& agree_below(w1.powerups@, w0.powerups@, w0.allocated())
    &&& w1.positions@.dom() == w0.positions@.dom() + id_range(
        w0.allocated(),
        w0.allocated() + s0.fired(),
    )
    &&& w1.bounding_boxes@.dom() == w0.bounding_boxes@.dom()
        + id_range(w0.allocated(), w0.allocated() + s0.fired())
    &&& w1.collidables@.dom() == w0.collidables@.dom() + id_range(
        w0.allocated(),
        w0.allocated() + s0.fired(),
    )
    &&& w1.coins@.dom() == w0.coins@.dom() + id_range(
        w0.allocated(),
        w0.allocated() + fires(s0.coin_timer, COIN_PERIOD),
    )
    &&& w1.enemies@.dom() == w0.enemies@.dom() + id_range(
        w0.allocated() + fires(s0.coin_timer, COIN_PERIOD),
        w0.allocated() + fires(s0.coin_timer, COIN_PERIOD) + fires(
            s0.enemy_timer,
            ENEMY_PERIOD,
        ),
    )
    &&& w1.powerups@.dom() == w0.powerups@.dom() + id_range(
        w0.allocated() + fires(s0.coin_timer, COIN_PERIOD) + fires(
            s0.enemy_timer,
            ENEMY_PERIOD,
        ),
        w0.allocated() + s0.fired(),
    )
    &&& w1.velocities@ == w0.velocities@
    &&& w1.healths@ == w0.healths@
    &&& w1.scores@ == w0.scores@
    &&& w1.players@ == w0.players@
    &&& w1.obstacles@ == w0.obstacles@
}

/// Timer-driven creation of coins, enemies and power-ups at random places
/// within the simulation bounds.
pub struct SpawnSystem {
    pub screen_width: u32,
    pub screen_height: u32,
    pub coin_timer: u32,
    pub enemy_timer: u32,
    pub powerup_timer: u32,
}

impl SpawnSystem {
    /// Bounds are positive and every timer is below its period.
    pub open spec fn wf(&self) -> bool {
        &&& self.screen_width > 0
        &&& self.screen_height > 0
        &&& self.coin_timer < COIN_PERIOD
        &&& self.enemy_timer < ENEMY_PERIOD
        &&& self.powerup_timer < POWERUP_PERIOD
    }

    /// How many entities the next tick creates.
    pub open spec fn fired(&self) -> nat {
        fires(self.coin_timer, COIN_PERIOD) + fires(self.enemy_timer, ENEMY_PERIOD) + fires(
            self.powerup_timer,
            POWERUP_PERIOD,
        )
    }

    /// A spawner for the given bounds with every timer at zero; a zero bound
    /// is a `ConfigurationError`.
    pub fn new(screen_width: u32, screen_height: u32) -> (r: Result<SpawnSystem, SimError>)
        ensures
            r is Ok <==> screen_width > 0 && screen_height > 0,
            r is Err ==> r == Err::<SpawnSystem, SimError>(SimError::ConfigurationError),
            r matches Ok(s) ==> s.wf() && s == (SpawnSystem {
                screen_width,
                screen_height,
                coin_timer: 0,
                enemy_timer: 0,
                powerup_timer: 0,
            }),
    {
        if screen_width == 0 || screen_height == 0 {
            return Err(SimError::ConfigurationError);
        }
        Ok(SpawnSystem { screen_width, screen_height, coin_timer: 0, enemy_timer: 0, powerup_timer: 0 })
    }

    /// Steps every timer once and reports which reached its period; those
    /// go back to zero.
    pub fn advance(&mut self) -> (r: SpawnEvents)
        requires
            old(self).wf(),
        ensures
            final(self).wf(),
            final(self).screen_width == old(self).screen_width,
            final(self).screen_height == old(self).screen_height,
            r.coin == (old(self).coin_timer + 1 >= COIN_PERIOD),
            r.enemy == (old(self).enemy_timer + 1 >= ENEMY_PERIOD),
            r.powerup == (old(self).powerup_timer + 1 >= POWERUP_PERIOD),
            final(self).coin_timer == timer_after(old(self).coin_timer, COIN_PERIOD),
            final(self).enemy_timer == timer_after(old(self).enemy_timer, ENEMY_PERIOD),
            final(self).powerup_timer == timer_after(old(self).powerup_timer, POWERUP_PERIOD),
    {
        self.coin_timer = self.coin_timer + 1;
        self.enemy_timer = self.enemy_timer + 1;
        self.powerup_timer = self.powerup_timer + 1;
        let coin = self.coin_timer >= COIN_PERIOD;
        let enemy = self.enemy_timer >= ENEMY_PERIOD;
        let powerup = self.powerup_timer >= POWERUP_PERIOD;
        if coin {
            self.coin_timer = 0;
        }
        if enemy {
            self.enemy_timer = 0;
        }
        if powerup {
            self.powerup_timer = 0;
        }
        SpawnEvents { coin, enemy, powerup }
    }

    /// One spawn tick: steps the timers (see `advance`) and, for each one that
    /// fired, creates one entity of its kind at a random place in
    /// `[0, screen_width) x [0, screen_height)`: first the coin, then the enemy,
    /// then the power-up, whose kind is drawn with equal chance. Fails, with
    /// the world untouched, exactly when too few identifiers are left for
    /// the entities due.
    pub fn run(&mut self, world: &mut World) -> (r: Result<(), SimError>)
        requires
            old(self).wf(),
            old(world).wf(),
        ensures
            final(self).wf(),
            stepped(old(self), final(self)),
            final(world).wf(),
            r is Ok <==> old(world).allocated() + old(self).fired() <= usize::MAX,
            r is Err ==> r == Err::<(), SimError>(SimError::ResourceExhaustion) && *final(world)
                == *old(world),
            r is Ok ==> spawned(old(self), old(world), final(world)),
    {
        let ghost w0 = *world;
        let ghost base = world.allocated();
        proof {
            lemma_keys_below_allocated(w0.positions@, &w0);
            lemma_keys_below_allocated(w0.bounding_boxes@, &w0);
            lemma_keys_below_allocated(w0.collidables@, &w0);
            lemma_keys_below_allocated(w0.coins@, &w0);
            lemma_keys_below_allocated(w0.enemies@, &w0);
            lemma_keys_below_allocated(w0.powerups@, &w0);
        }
        let fired = self.advance();
        let due: usize = (if fired.coin { 1usize } else { 0 }) + (if fired.enemy { 1usize } else { 0 })
            + (if fired.powerup { 1usize } else { 0 });
        if world.entities.count() > usize::MAX - due {
            return Err(SimError::ResourceExhaustion);
        }
        let mut rng = new_rng();
        let ghost mut coin_at: (int, int) = (0, 0);
        let ghost mut enemy_at: (int, int) = (0, 0);
        if fired.coin {
            let x = draw_below(&mut rng, self.screen_width);
            let y = draw_below(&mut rng, self.screen_height);
            spawn(world, SpawnKind::Coin, x, y)?;
            proof {
                coin_at = (x as int, y as int);
            }
        }
        let ghost w1 = *world;
        if fired.enemy {
            let x = draw_below(&mut rng, self.screen_width);
            let y = draw_below(&mut rng, self.screen_height);
            spawn(world, SpawnKind::Enemy, x, y)?;
            proof {
                enemy_at = (x as int, y as int);
            }
        }
        let ghost w2 = *world;
        let ghost mut power_at: (int, int, PowerKind) = (0, 0, PowerKind::Speed);
        if fired.powerup {
            let x = draw_below(&mut rng, self.screen_width);
            let y = draw_below(&mut rng, self.screen_height);
            let power = if draw_fair(&mut rng) {
                PowerKind::Health
            } else {
                PowerKind::Speed
            };
            spawn(world, SpawnKind::PowerUp(power), x, y)?;
            proof {
                power_at = (x as int, y as int, power);
            }
        }
        if fired.coin {
            assert(placed(world, base, SpawnKind::Coin, coin_at.0, coin_at.1));
        }
        if fired.enemy {
            assert(w1.allocated() == base + fires(old(self).coin_timer, COIN_PERIOD));
            assert(placed(world, w1.allocated(), SpawnKind::Enemy, enemy_at.0, enemy_at.1));
        }
        if fired.powerup {
            assert(w2.allocated() == base + fires(old(self).coin_timer, COIN_PERIOD) + fires(
                old(self).enemy_timer,
                ENEMY_PERIOD,
            ));
            assert(placed(world, w2.allocated(), SpawnKind::PowerUp(power_at.2), power_at.0, power_at.1));
        }
        proof {
            let c = fires(old(self).coin_timer, COIN_PERIOD);
            let e = fires(old(self).enemy_timer, ENEMY_PERIOD);
            let all = id_range(base, base + old(self).fired());
            assert(world.positions@.dom() =~= w0.positions@.dom() + all);
            assert(world.bounding_boxes@.dom() =~= w0.bounding_boxes@.dom() + all);
            assert(world.collidables@.dom() =~= w0.collidables@.dom() + all);
            assert(world.coins@.dom() =~= w0.coins@.dom() + id_range(base, base + c));
            assert(world.enemies@.dom() =~= w0.enemies@.dom() + id_range(base + c, base + c + e));
            assert(world.powerups@.dom() =~= w0.powerups@.dom() + id_range(
                base + c + e,
                base + old(self).fired(),
            ));
        }
        Ok(())
    }
}

} // verus!
