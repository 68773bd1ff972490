//! The motion integrator: directional input becomes velocity by
//! acceleration, braking and a speed cap.

use vstd::prelude::*;
use crate::config::Configuration;
use crate::fixed::{
    abs, div_toward_zero, lemma_abs_product, lemma_division, lemma_product_bound, magnitude,
    square, wide_product, within, LIMIT, MICROS_PER_SECOND, REACH,
};
use crate::player::Player;
use crate::vec2::{
    lemma_with_length_floor_bounded, lemma_with_length_shrinks, Vec2, Vector,
};

verus! {

/// Which of the four movement keys are held.
#[derive(Clone, Copy, Debug, PartialEq, Eq, Structural)]
pub struct MoveInput {
    pub left: bool,
    pub right: bool,
    pub up: bool,
    pub down: bool,
}

/// Largest magnitude of a change of speed within one tick.
pub const STEP_LIMIT: i64 = 10_000_000_000_000;

/// The change of speed that a rate per second makes in `dt` microseconds,
/// rounded toward zero.
pub open spec fn step(rate: int, dt: int) -> int {
    div_toward_zero(rate * dt, MICROS_PER_SECOND as int)
}

/// The sum of the unit axes of the keys held. It is not normalised: a
/// diagonal has both components set.
pub open spec fn input_direction(keys: MoveInput) -> Vector {
    Vector {
        x: (if keys.right { 1int } else { 0 }) - (if keys.left { 1int } else { 0 }),
        y: (if keys.up { 1int } else { 0 }) - (if keys.down { 1int } else { 0 }),
    }
}

/// Speed after gaining `gain` along `direction`.
pub open spec fn accelerate(speed: Vector, direction: Vector, gain: int) -> Vector {
    speed.plus(direction.with_length_floor(gain))
}

/// Speed after braking by `loss`: zero if the brake exceeds the speed, else
/// the speed shortened by `loss` along itself.
pub open spec fn brake(speed: Vector, loss: int) -> Vector {
    if loss * loss > speed.len2() {
        Vector::zero()
    } else {
        speed.minus(speed.with_length_ceil(loss))
    }
}

/// Speed cut back to `max_speed` along itself where it is longer.
pub open spec fn limit(speed: Vector, max_speed: int) -> Vector {
    if max_speed < 0 || speed.len2() > max_speed * max_speed {
        speed.with_length_floor(max_speed)
    } else {
        speed
    }
}

/// Speed after one tick of `dt` microseconds with the given input direction.
pub open spec fn integrate(speed: Vector, direction: Vector, config: Configuration, dt: int)
    -> Vector {
    let moved = if !direction.is_zero() {
        accelerate(speed, direction, step(config.acceleration as int, dt))
    } else {
        brake(speed, step(config.decceleration as int, dt))
    };
    limit(moved, config.max_speed as int)
}

/// Speed after `ticks` ticks without input.
pub open spec fn coast(speed: Vector, config: Configuration, dt: int, ticks: nat) -> Vector
    decreases ticks,
{
    if ticks == 0 {
        speed
    } else {
        coast(integrate(speed, Vector::zero(), config, dt), config, dt, (ticks - 1) as nat)
    }
}

/// A vector no longer than `bound` has both components within `bound`.
pub proof fn lemma_len2_bounds_components(v: Vector, bound: int)
    requires
        v.len2() <= bound * bound,
    ensures
        v.within(abs(bound)),
{
    assert(v.within(abs(bound))) by (nonlinear_arith)
        requires
            v.x * v.x + v.y * v.y <= bound * bound,
    ;
}

/// After any tick the speed is no longer than the cap.
pub proof fn lemma_integrate_capped(
    speed: Vector,
    direction: Vector,
    config: Configuration,
    dt: int,
)
    ensures
        integrate(speed, direction, config, dt).len2() <= config.max_speed * config.max_speed,
{
    let moved = if !direction.is_zero() {
        accelerate(speed, direction, step(config.acceleration as int, dt))
    } else {
        brake(speed, step(config.decceleration as int, dt))
    };
    lemma_with_length_floor_bounded(moved, config.max_speed as int);
}

/// Braking moves no component away from zero or across it, and shortens
/// every non-zero speed when the brake is positive.
pub proof fn lemma_brake_shrinks(speed: Vector, loss: int)
    requires
        0 <= loss,
    ensures
        ({
            let after = brake(speed, loss);
            &&& speed.x >= 0 ==> 0 <= after.x <= speed.x
            &&& speed.x <= 0 ==> speed.x <= after.x <= 0
            &&& speed.y >= 0 ==> 0 <= after.y <= speed.y
            &&& speed.y <= 0 ==> speed.y <= after.y <= 0
            &&& loss > 0 && speed.x != 0 ==> after.x != speed.x
            &&& loss > 0 && speed.y != 0 ==> after.y != speed.y
        }),
{
    if loss * loss <= speed.len2() {
        lemma_with_length_shrinks(speed, loss);
    }
}

/// Capping at a non-negative speed moves no component away from zero or
/// across it.
pub proof fn lemma_limit_shrinks(speed: Vector, max_speed: int)
    requires
        0 <= max_speed,
    ensures
        ({
            let after = limit(speed, max_speed);
            &&& speed.x >= 0 ==> 0 <= after.x <= speed.x
            &&& speed.x <= 0 ==> speed.x <= after.x <= 0
            &&& speed.y >= 0 ==> 0 <= after.y <= speed.y
            &&& speed.y <= 0 ==> speed.y <= after.y <= 0
        }),
{
    if speed.len2() > max_speed * max_speed {
        lemma_with_length_shrinks(speed, max_speed);
    }
}

/// A tick without input never lengthens the speed and never turns a
/// component's sign; with a positive brake it shortens every non-zero
/// component, and zero stays zero.
pub proof fn lemma_idle_tick(speed: Vector, config: Configuration, dt: int)
    requires
        0 <= config.max_speed,
        0 <= step(config.decceleration as int, dt),
    ensures
        ({
            let after = integrate(speed, Vector::zero(), config, dt);
            &&& speed.x >= 0 ==> 0 <= after.x <= speed.x
            &&& speed.x <= 0 ==> speed.x <= after.x <= 0
            &&& speed.y >= 0 ==> 0 <= after.y <= speed.y
            &&& speed.y <= 0 ==> speed.y <= after.y <= 0
            &&& step(config.decceleration as int, dt) > 0 && speed.x != 0 ==> after.x != speed.x
            &&& step(config.decceleration as int, dt) > 0 && speed.y != 0 ==> after.y != speed.y
            &&& after.len2() <= speed.len2()
        }),
{
    let loss = step(config.decceleration as int, dt);
    let braked = brake(speed, loss);
    lemma_brake_shrinks(speed, loss);
    lemma_limit_shrinks(braked, config.max_speed as int);
    let after = integrate(speed, Vector::zero(), config, dt);
    assert(after.len2() <= speed.len2()) by (nonlinear_arith)
        requires
            abs(after.x) <= abs(speed.x),
            abs(after.y) <= abs(speed.y),
    ;
}

/// Braking never overshoots zero. Over any number of ticks without input, no
/// component of the speed grows or changes sign, and with a positive brake
/// the speed is exactly zero from tick `|x| + |y|` on, where it then stays.
pub proof fn lemma_coast_reaches_zero(speed: Vector, config: Configuration, dt: int, ticks: nat)
    requires
        0 <= config.max_speed,
        0 <= step(config.decceleration as int, dt),
    ensures
        ({
            let after = coast(speed, config, dt, ticks);
            &&& speed.x >= 0 ==> 0 <= after.x <= speed.x
            &&& speed.x <= 0 ==> speed.x <= after.x <= 0
            &&& speed.y >= 0 ==> 0 <= after.y <= speed.y
            &&& speed.y <= 0 ==> speed.y <= after.y <= 0
            &&& after.len2() <= speed.len2()
            &&& step(config.decceleration as int, dt) > 0 ==> abs(after.x) + abs(after.y) <= abs(
                speed.x,
            ) + abs(speed.y) - ticks || after.is_zero()
            &&& step(config.decceleration as int, dt) > 0 && ticks >= abs(speed.x) + abs(speed.y)
                ==> after.is_zero()
        }),
    decreases ticks,
{
    if ticks > 0 {
        let next = integrate(speed, Vector::zero(), config, dt);
        lemma_idle_tick(speed, config, dt);
        lemma_coast_reaches_zero(next, config, dt, (ticks - 1) as nat);
    }
}

/// Once at rest, a player without input stays at rest.
pub proof fn lemma_rest_is_stable(config: Configuration, dt: int, ticks: nat)
    ensures
        coast(Vector::zero(), config, dt, ticks).is_zero(),
    decreases ticks,
{
    if ticks > 0 {
        lemma_rest_is_stable(config, dt, (ticks - 1) as nat);
    }
}

/// The change of speed that `rate` makes in `dt` microseconds.
pub fn step_of(rate: i64, dt: u32) -> (r: i64)
    requires
        within(rate as int, LIMIT as int),
    ensures
        r == step(rate as int, dt as int),
        within(r as int, STEP_LIMIT as int),
        rate >= 0 ==> r >= 0,
{
    let product: u128 = wide_product(magnitude(rate), dt as u64);
    proof {
        lemma_product_bound(abs(rate as int), dt as int, LIMIT as int, u32::MAX as int);
        lemma_abs_product(rate as int, dt as int);
        lemma_division(product as int, MICROS_PER_SECOND as int);
        assert(product / 1_000_000 <= STEP_LIMIT) by (nonlinear_arith)
            requires
                0 <= product <= LIMIT * u32::MAX,
                LIMIT == 0x8000_0000,
                STEP_LIMIT == 10_000_000_000_000,
        ;
    }
    let q: u128 = product / (MICROS_PER_SECOND as u128);
    if rate >= 0 {
        q as i64
    } else {
        -(q as i64)
    }
}

/// The direction that the held keys ask for.
pub fn direction_of(keys: MoveInput) -> (r: Vec2)
    ensures
        r@ == input_direction(keys),
{
    let mut x: i64 = 0;
    let mut y: i64 = 0;
    if keys.left {
        x = x - 1;
    }
    if keys.right {
        x = x + 1;
    }
    if keys.up {
        y = y + 1;
    }
    if keys.down {
        y = y - 1;
    }
    Vec2 { x, y }
}

/// Speed after braking by `loss`.
pub fn brake_by(speed: Vec2, loss: i64) -> (r: Vec2)
    requires
        speed@.within(LIMIT as int),
        within(loss as int, STEP_LIMIT as int),
    ensures
        r@ == brake(speed@, loss as int),
        r@.within(LIMIT + STEP_LIMIT),
{
    let loss2: u128 = square(loss);
    if loss2 > speed.length_squared() {
        Vec2::zero()
    } else {
        let force = speed.with_length_ceil(loss);
        speed.minus(force)
    }
}

/// Speed cut back to `max_speed` where it is longer.
pub fn limit_to(speed: Vec2, max_speed: i64) -> (r: Vec2)
    requires
        speed@.within(REACH as int),
        within(max_speed as int, LIMIT as int),
    ensures
        r@ == limit(speed@, max_speed as int),
        r@.len2() <= max_speed * max_speed,
        r@.within(LIMIT as int),
{
    let cap2: u128 = square(max_speed);
    proof {
        lemma_with_length_floor_bounded(speed@, max_speed as int);
        lemma_len2_bounds_components(limit(speed@, max_speed as int), max_speed as int);
    }
    if max_speed < 0 || speed.length_squared() > cap2 {
        speed.with_length_floor(max_speed)
    } else {
        speed
    }
}

/// One tick of the motion integrator. The direction asked for is recorded,
/// then the speed gains along it, or brakes when nothing is asked for, and
/// is capped at `max_speed`.
pub fn keyboard_input_system(config: &Configuration, dt: u32, keys: MoveInput, player: &mut Player)
    requires
        config.wf(),
        old(player).wf(),
    ensures
        final(player).direction@ == input_direction(keys),
        final(player).direction@.within(1),
        final(player).speed@ == integrate(
            old(player).speed@,
            input_direction(keys),
            *config,
            dt as int,
        ),
        final(player).speed@.len2() <= config.max_speed * config.max_speed,
        final(player).wf(),
        final(player).position == old(player).position,
        final(player).life == old(player).life,
        final(player).dash == old(player).dash,
        final(player).attack == old(player).attack,
{
    let direction = direction_of(keys);
    player.direction = direction;
    let moved = if !direction.is_zero() {
        let gain = step_of(config.acceleration, dt);
        let push = direction.with_length_floor(gain);
        player.speed.plus(push)
    } else {
        brake_by(player.speed, step_of(config.decceleration, dt))
    };
    player.speed = limit_to(moved, config.max_speed);
}

} // verus!
