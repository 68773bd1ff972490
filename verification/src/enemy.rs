//! Enemies: the timer that spawns them and the rule by which they chase
//! the player.

use bevy::time::{Timer, TimerMode};
use std::time::Duration;
use vstd::prelude::*;
use crate::components::{Collider, LockedAxes, RigidBody, Spritesheet};
use crate::config::{in_limit, Configuration};
use crate::fixed::{abs, lemma_sqrt_ceil_bounds, square, LIMIT, PRECISION};
use crate::vec2::{
    lemma_norm_dominates, lemma_with_length_floor_bounded, lemma_with_length_floor_close,
    lemma_with_length_floor_direction, max, Vec2, Vec3, Vector,
};

verus! {

/// Time between two spawns, in microseconds.
pub const SPAWN_INTERVAL: u64 = 3_000_000;

/// Longest period of a timer, in microseconds: the longest whose
/// nanoseconds fit 64 bits.
pub const MAX_INTERVAL: u64 = 18_446_744_073_709_551;

/// Distance within which an enemy stands still, in thousandths of a unit.
pub const DEAD_ZONE: i64 = 10_000;

/// Index of the animation that a new enemy plays.
pub const ENEMY_ANIMATION: usize = 5;

/// Where enemies appear.
pub open spec fn spawn_point() -> Vec3 {
    Vec3 { x: 350_000, y: 970_000, z: 10_000 }
}

/// What a new enemy is made of.
#[derive(Clone, Copy, Debug, PartialEq, Eq, Structural)]
pub struct EnemyBundle {
    pub rigid_body: RigidBody,
    pub locked_axes: LockedAxes,
    pub collider: Collider,
    pub animation: usize,
    pub spritesheet: Spritesheet,
    pub transform: Vec3,
    pub velocity: Vec2,
}

/// The enemy made at `position`: at rest, with its sprite sheet.
pub open spec fn enemy_at(spritesheet: Spritesheet, position: Vec3) -> EnemyBundle {
    EnemyBundle {
        rigid_body: RigidBody::Dynamic,
        locked_axes: LockedAxes::RotationLocked,
        collider: Collider::Capsule { height: 15_000, radius: 20_000 },
        animation: ENEMY_ANIMATION,
        spritesheet,
        transform: position,
        velocity: Vec2 { x: 0, y: 0 },
    }
}

impl EnemyBundle {
    pub fn new(spritesheet_handle: Spritesheet, position: Vec3) -> (r: EnemyBundle)
        ensures
            r == enemy_at(spritesheet_handle, position),
    {
        EnemyBundle {
            rigid_body: RigidBody::Dynamic,
            locked_axes: LockedAxes::RotationLocked,
            collider: Collider::Capsule { height: 15_000, radius: 20_000 },
            animation: ENEMY_ANIMATION,
            spritesheet: spritesheet_handle,
            transform: position,
            velocity: Vec2 { x: 0, y: 0 },
        }
    }
}

/// An enemy as the world holds it: its identity, where it is and the
/// velocity it is given.
#[derive(Clone, Copy, Debug, PartialEq, Eq, Structural)]
pub struct Enemy {
    pub id: u64,
    pub position: Vec3,
    pub velocity: Vec2,
}

/// A repeating timer, counted in microseconds: the time run since the last
/// period ended, and the length of a period.
#[derive(Clone, Copy, Debug, PartialEq, Eq, Structural)]
pub struct EnemySpawnTimer {
    pub elapsed: u64,
    pub interval: u64,
}

impl EnemySpawnTimer {
    /// The time run is short of the period, which is positive and no
    /// longer than `MAX_INTERVAL`.
    pub open spec fn wf(&self) -> bool {
        self.elapsed < self.interval <= MAX_INTERVAL
    }

    /// Whether the timer is well formed.
    pub fn is_wf(&self) -> (r: bool)
        ensures
            r == self.wf(),
    {
        self.elapsed < self.interval && self.interval <= MAX_INTERVAL
    }

    /// Periods that end within the next `dt` microseconds.
    pub open spec fn periods_within(&self, dt: int) -> int {
        (self.elapsed + dt) / (self.interval as int)
    }

    /// Time run in the current period after `dt` more microseconds.
    pub open spec fn elapsed_after(&self, dt: int) -> int {
        (self.elapsed + dt) % (self.interval as int)
    }

    /// A timer at the start of a period of `interval` microseconds.
    pub fn new(interval: u64) -> (r: EnemySpawnTimer)
        requires
            0 < interval <= MAX_INTERVAL,
        ensures
            r == (EnemySpawnTimer { elapsed: 0, interval }),
            r.wf(),
    {
        EnemySpawnTimer { elapsed: 0, interval }
    }

    /// Advances the timer by `dt` microseconds and returns how many periods
    /// ended, which is more than one when `dt` spans several.
    pub fn tick(&mut self, dt: u32) -> (finished: u32)
        requires
            old(self).wf(),
        ensures
            finished == old(self).periods_within(dt as int),
            final(self).elapsed == old(self).elapsed_after(dt as int),
            final(self).interval == old(self).interval,
            final(self).wf(),
    {
        let (elapsed, finished) = repeating_tick(self.elapsed, self.interval, dt);
        self.elapsed = elapsed;
        finished
    }
}

/// `Timer::tick` of bevy, on a repeating timer that is not paused. The
/// timer is made with `Timer::new` and `Timer::set_elapsed`, and read after
/// the tick with `Timer::elapsed` and `Timer::times_finished_this_tick`. All
/// times are in microseconds. Trusted: the tick adds `dt` to the time run;
/// the periods counted are that sum divided by the period, and the time
/// left running is the remainder. The tick holds the count in 32 bits and
/// the remainder in 64 bits of nanoseconds: the time run is short of the
/// period and the period no longer than `MAX_INTERVAL`, so both fit.
#[verifier::external_body]
fn repeating_tick(elapsed: u64, interval: u64, dt: u32) -> (r: (u64, u32))
    requires
        elapsed < interval <= MAX_INTERVAL,
    ensures
        r.0 == (elapsed + dt) % (interval as int),
        r.1 == (elapsed + dt) / (interval as int),
{
    let mut timer = Timer::new(Duration::from_micros(interval), TimerMode::Repeating);
    timer.set_elapsed(Duration::from_micros(elapsed));
    timer.tick(Duration::from_micros(dt as u64));
    (timer.elapsed().as_micros() as u64, timer.times_finished_this_tick())
}

/// The velocity of an enemy at `enemy` that chases a player at `player`:
/// `pawn_speed` straight toward the player, or rest inside the dead zone.
pub open spec fn pursuit(player: Vector, enemy: Vector, pawn_speed: int) -> Vector {
    let gap = player.minus(enemy);
    if gap.len2() > DEAD_ZONE * DEAD_ZONE {
        gap.with_length_floor(pawn_speed)
    } else {
        Vector::zero()
    }
}

/// An enemy steered toward a player at `player`.
pub open spec fn steered(enemy: Enemy, player: Vec3, pawn_speed: int) -> Enemy {
    Enemy {
        velocity: pursuit(player.planar(), enemy.position.planar(), pawn_speed).stored(),
        ..enemy
    }
}

/// Every enemy steered toward a player at `player`.
pub open spec fn chased(enemies: Seq<Enemy>, player: Vec3, pawn_speed: int) -> Seq<Enemy> {
    Seq::new(enemies.len(), |i: int| steered(enemies[i], player, pawn_speed))
}

/// Pursuit outside and inside the dead zone. Inside, the velocity is
/// exactly zero. Outside, for a pawn speed that is not negative, the
/// velocity points along the gap: each component has the gap's sign or is
/// zero, and the velocity lies within one thousandth of the gap's line. Its
/// length is the pawn speed rounded toward zero: never above it, and above
/// it once both components are moved two thousandths outward.
pub proof fn lemma_pursuit(player: Vector, enemy: Vector, pawn_speed: int)
    requires
        0 <= pawn_speed <= LIMIT,
    ensures
        ({
            let gap = player.minus(enemy);
            let v = pursuit(player, enemy, pawn_speed);
            &&& gap.len2() <= DEAD_ZONE * DEAD_ZONE ==> v.is_zero()
            &&& gap.len2() > DEAD_ZONE * DEAD_ZONE ==> {
                &&& v.len2() <= pawn_speed * pawn_speed
                &&& (abs(v.x) + 2) * (abs(v.x) + 2) + (abs(v.y) + 2) * (abs(v.y) + 2) > pawn_speed
                    * pawn_speed
                &&& gap.x >= 0 ==> v.x >= 0
                &&& gap.x <= 0 ==> v.x <= 0
                &&& gap.y >= 0 ==> v.y >= 0
                &&& gap.y <= 0 ==> v.y <= 0
                &&& abs(v.x * gap.y - v.y * gap.x) < max(abs(gap.x), abs(gap.y))
            }
        }),
{
    let gap = player.minus(enemy);
    if gap.len2() > DEAD_ZONE * DEAD_ZONE {
        lemma_with_length_floor_bounded(gap, pawn_speed);
        lemma_with_length_floor_direction(gap, pawn_speed);
        lemma_norm_dominates(gap);
        lemma_sqrt_ceil_bounds(gap.fine_len2());
        let c = gap.norm_ceil();
        let n = gap.fine_len2() as int;
        if c <= pawn_speed {
            assert(c * c <= LIMIT * LIMIT) by (nonlinear_arith)
                requires
                    0 <= c <= LIMIT,
            ;
            assert(n > LIMIT * LIMIT) by (nonlinear_arith)
                requires
                    n == gap.len2() * (PRECISION * PRECISION),
                    gap.len2() > DEAD_ZONE * DEAD_ZONE,
                    PRECISION == 0x8_0000,
                    DEAD_ZONE == 10_000,
                    LIMIT == 0x8000_0000,
            ;
        }
        lemma_with_length_floor_close(gap, pawn_speed);
    }
}

/// Whether every enemy stands within `LIMIT` of the origin.
pub open spec fn all_in_limit(enemies: Seq<Enemy>) -> bool {
    forall|i: int| 0 <= i < enemies.len() ==> (#[trigger] enemies[i]).position.planar().within(
        LIMIT as int,
    )
}

/// Whether every enemy stands within `LIMIT` of the origin.
pub fn enemies_in_limit(enemies: &Vec<Enemy>) -> (r: bool)
    ensures
        r == all_in_limit(enemies@),
{
    let mut i: usize = 0;
    while i < enemies.len()
        invariant
            0 <= i <= enemies@.len(),
            forall|j: int| 0 <= j < i ==> (#[trigger] enemies@[j]).position.planar().within(
                LIMIT as int,
            ),
        decreases enemies@.len() - i,
    {
        let at = enemies[i].position;
        if !(in_limit(at.x) && in_limit(at.y)) {
            return false;
        }
        i = i + 1;
    }
    true
}

/// The velocity for one enemy that chases a player at `player`.
pub fn pursuit_velocity(config: &Configuration, player: Vec3, enemy: Vec3) -> (r: Vec2)
    requires
        config.wf(),
        player.planar().within(LIMIT as int),
        enemy.planar().within(LIMIT as int),
    ensures
        r@ == pursuit(player.planar(), enemy.planar(), config.pawn_speed as int),
        r@.within(LIMIT as int),
{
    let gap = player.xy().minus(enemy.xy());
    if gap.length_squared() > square(DEAD_ZONE) {
        gap.with_length_floor(config.pawn_speed)
    } else {
        Vec2::zero()
    }
}

/// Steers every enemy toward the player. Each gets its pursuit velocity at
/// once, with no smoothing; nothing else about it changes.
pub fn enemies_follow_player(config: &Configuration, player: Vec3, enemies: &mut Vec<Enemy>)
    requires
        config.wf(),
        player.planar().within(LIMIT as int),
        all_in_limit(old(enemies)@),
    ensures
        final(enemies)@ == chased(old(enemies)@, player, config.pawn_speed as int),
        all_in_limit(final(enemies)@),
{
    let ghost before = enemies@;
    let mut i: usize = 0;
    while i < enemies.len()
        invariant
            config.wf(),
            player.planar().within(LIMIT as int),
            all_in_limit(before),
            0 <= i <= enemies@.len(),
            enemies@.len() == before.len(),
            forall|j: int| i <= j < before.len() ==> enemies@[j] == before[j],
            forall|j: int|
                0 <= j < i ==> (#[trigger] enemies@[j]) == steered(
                    before[j],
                    player,
                    config.pawn_speed as int,
                ),
        decreases enemies@.len() - i,
    {
        let enemy = enemies[i];
        assert(enemy == before[i as int]);
        let velocity = pursuit_velocity(config, player, enemy.position);
        enemies.set(i, Enemy { velocity, ..enemy });
        i = i + 1;
    }
}

/// Runs the spawn timer for `dt` microseconds. Returns one new enemy at the
/// spawn point for every period that ended.
pub fn spawn_enemies(timer: &mut EnemySpawnTimer, dt: u32, spritesheet: Spritesheet) -> (spawned:
    Vec<EnemyBundle>)
    requires
        old(timer).wf(),
    ensures
        spawned@.len() == old(timer).periods_within(dt as int),
        forall|i: int|
            0 <= i < spawned@.len() ==> (#[trigger] spawned@[i]) == enemy_at(
                spritesheet,
                spawn_point(),
            ),
        final(timer).elapsed == old(timer).elapsed_after(dt as int),
        final(timer).interval == old(timer).interval,
        final(timer).wf(),
{
    let count = timer.tick(dt);
    let mut spawned: Vec<EnemyBundle> = Vec::new();
    let mut i: u32 = 0;
    while i < count
        invariant
            0 <= i <= count,
            spawned@.len() == i,
            forall|j: int|
                0 <= j < spawned@.len() ==> (#[trigger] spawned@[j]) == enemy_at(
                    spritesheet,
                    spawn_point(),
                ),
        decreases count - i,
    {
        spawned.push(
            EnemyBundle::new(spritesheet, Vec3 { x: 350_000, y: 970_000, z: 10_000 }),
        );
        i = i + 1;
    }
    spawned
}

} // verus!
