//! The dash state machine: full speed for a fixed time, then a decay to
//! rest, then a pause, then removal.

use vstd::prelude::*;
use crate::config::Configuration;
use crate::fixed::{
    abs, div_ceil, div_toward_zero, lemma_division_ceil, lemma_sqrt_floor_unique, square, LIMIT,
    PRECISION,
};
use crate::motion::{step, step_of, STEP_LIMIT};
use crate::player::{Dash, Player};
use crate::vec2::{lemma_with_length_shrinks, Vec2, Vector};

verus! {

/// The mathematical model of a `Dash`.
pub struct DashState {
    pub speed: Vector,
    pub duration: int,
    pub cooldown: int,
}

impl View for Dash {
    type V = DashState;

    open spec fn view(&self) -> DashState {
        DashState {
            speed: self.speed@,
            duration: self.duration as int,
            cooldown: self.cooldown as int,
        }
    }
}

/// The model of a dash that may be absent.
pub open spec fn dash_view(dash: Option<Dash>) -> Option<DashState> {
    match dash {
        Some(d) => Some(d@),
        None => None,
    }
}

/// The phase that a dash is in. `Absent` is the state of a player without one.
#[derive(Clone, Copy, Debug, PartialEq, Eq, Structural)]
pub enum DashPhase {
    Absent,
    Active,
    Decelerating,
    Cooldown,
}

/// The phase of a dash: active while time remains, then decelerating while
/// speed remains, then cooling down.
pub open spec fn phase(state: Option<DashState>) -> DashPhase {
    match state {
        None => DashPhase::Absent,
        Some(d) => if d.duration > 0 {
            DashPhase::Active
        } else if !d.speed.is_zero() {
            DashPhase::Decelerating
        } else {
            DashPhase::Cooldown
        },
    }
}

/// Residual speed after decaying by `loss`: zero once the decay reaches the
/// speed, else the speed shortened by `loss` along itself.
pub open spec fn decay(speed: Vector, loss: int) -> Vector {
    if loss * loss >= speed.len2() {
        Vector::zero()
    } else {
        speed.minus(speed.with_length_ceil(loss))
    }
}

/// The dash that a trigger creates: `dash_speed` along the direction asked
/// for, or no speed at all when no direction is asked for.
pub open spec fn created(direction: Vector, config: Configuration) -> DashState {
    DashState {
        speed: direction.with_length_floor(config.dash_speed as int),
        duration: config.dash_duration as int,
        cooldown: config.dash_cooldown as int,
    }
}

/// One tick of a dash that is present. Exactly one thing happens: the
/// active time runs, or the speed decays, or the pause runs, or the dash
/// ends.
pub open spec fn tick(d: DashState, config: Configuration, dt: int) -> Option<DashState> {
    if d.duration > 0 {
        Some(DashState { duration: d.duration - dt, ..d })
    } else if !d.speed.is_zero() {
        Some(DashState { speed: decay(d.speed, step(config.dash_deceleration as int, dt)), ..d })
    } else if d.cooldown > 0 {
        Some(DashState { cooldown: d.cooldown - dt, ..d })
    } else {
        None
    }
}

/// One tick of the state machine. The trigger counts only while no dash is
/// present.
pub open spec fn next(
    state: Option<DashState>,
    pressed: bool,
    direction: Vector,
    config: Configuration,
    dt: int,
) -> Option<DashState> {
    match state {
        None => if pressed {
            Some(created(direction, config))
        } else {
            None
        },
        Some(d) => tick(d, config, dt),
    }
}

/// The state after one tick for each entry of `presses`, in order.
pub open spec fn run(
    state: Option<DashState>,
    presses: Seq<bool>,
    direction: Vector,
    config: Configuration,
    dt: int,
) -> Option<DashState>
    decreases presses.len(),
{
    if presses.len() == 0 {
        state
    } else {
        run(
            next(state, presses[0], direction, config, dt),
            presses.skip(1),
            direction,
            config,
            dt,
        )
    }
}

/// The state of a dash after `ticks` ticks, if it has not ended before.
pub open spec fn after(d: DashState, config: Configuration, dt: int, ticks: nat) -> Option<
    DashState,
>
    decreases ticks,
{
    if ticks == 0 {
        Some(d)
    } else {
        match tick(d, config, dt) {
            Some(e) => after(e, config, dt, (ticks - 1) as nat),
            None => None,
        }
    }
}

/// Ticks of `dt` that it takes to run a countdown of `time` down to zero or
/// below.
pub open spec fn ticks_to_spend(time: int, dt: int) -> nat {
    if time <= 0 {
        0
    } else {
        div_ceil(time, dt) as nat
    }
}

/// Ticks that it takes to decay `speed` to zero at `loss` per tick.
pub open spec fn ticks_to_stop(speed: Vector, loss: int) -> nat
    decreases abs(speed.x) + abs(speed.y),
    when loss > 0
    via ticks_to_stop_decreases
{
    if speed.is_zero() {
        0
    } else {
        1 + ticks_to_stop(decay(speed, loss), loss)
    }
}

#[via_fn]
proof fn ticks_to_stop_decreases(speed: Vector, loss: int) {
    lemma_decay_shrinks(speed, loss);
}

/// The number of the tick at which a dash ends, counted from its present
/// state: the ticks that spend its active time, the ticks that bring its
/// speed to rest, the ticks that spend its pause, and the tick that removes
/// it.
pub open spec fn lifetime(d: DashState, config: Configuration, dt: int) -> nat {
    ticks_to_spend(d.duration, dt) + ticks_to_stop(
        d.speed,
        step(config.dash_deceleration as int, dt),
    ) + ticks_to_spend(d.cooldown, dt) + 1
}

/// Decay moves no component away from zero or across it, and with a
/// positive loss it shortens every non-zero component.
pub proof fn lemma_decay_shrinks(speed: Vector, loss: int)
    requires
        0 <= loss,
    ensures
        ({
            let rest = decay(speed, loss);
            &&& speed.x >= 0 ==> 0 <= rest.x <= speed.x
            &&& speed.x <= 0 ==> speed.x <= rest.x <= 0
            &&& speed.y >= 0 ==> 0 <= rest.y <= speed.y
            &&& speed.y <= 0 ==> speed.y <= rest.y <= 0
            &&& loss > 0 && speed.x != 0 ==> rest.x != speed.x
            &&& loss > 0 && speed.y != 0 ==> rest.y != speed.y
        }),
{
    if loss * loss < speed.len2() {
        lemma_with_length_shrinks(speed, loss);
    }
}

/// The phases of a dash follow one another and never overlap. A tick of an
/// active dash runs its time and nothing else; a tick of a decelerating dash
/// changes its speed and nothing else; a tick of a dash that cools down runs
/// its pause and nothing else, or ends the dash once the pause is spent.
pub proof fn lemma_phases_are_sequential(d: DashState, config: Configuration, dt: int)
    ensures
        phase(Some(d)) == DashPhase::Active ==> tick(d, config, dt) == Some(
            DashState { duration: d.duration - dt, ..d },
        ),
        phase(Some(d)) == DashPhase::Decelerating ==> tick(d, config, dt) == Some(
            DashState { speed: decay(d.speed, step(config.dash_deceleration as int, dt)), ..d },
        ),
        phase(Some(d)) == DashPhase::Cooldown && d.cooldown > 0 ==> tick(d, config, dt) == Some(
            DashState { cooldown: d.cooldown - dt, ..d },
        ),
        phase(Some(d)) == DashPhase::Cooldown && d.cooldown <= 0 ==> tick(d, config, dt) is None,
{
}

/// Spending one tick of a running countdown leaves one tick fewer to spend.
proof fn lemma_ticks_to_spend_step(time: int, dt: int)
    requires
        time > 0,
        dt > 0,
    ensures
        ticks_to_spend(time, dt) == ticks_to_spend(time - dt, dt) + 1,
{
    lemma_division_ceil(time, dt);
    let q = div_ceil(time, dt);
    if time - dt > 0 {
        lemma_division_ceil(time - dt, dt);
        let r = div_ceil(time - dt, dt);
        assert(q == r + 1) by (nonlinear_arith)
            requires
                time <= q * dt < time + dt,
                time - dt <= r * dt < time,
                dt > 0,
        ;
    } else {
        assert(q == 1) by (nonlinear_arith)
            requires
                time <= q * dt < time + dt,
                0 < time <= dt,
        ;
    }
}

/// While a dash is present the trigger has no effect: whatever is pressed
/// during ticks at whose start the dash is still there, the state machine
/// ends where it would have ended with nothing pressed.
pub proof fn lemma_trigger_ignored_while_present(
    d: DashState,
    presses: Seq<bool>,
    direction: Vector,
    config: Configuration,
    dt: int,
)
    requires
        presses.len() > 0 ==> after(d, config, dt, (presses.len() - 1) as nat) is Some,
    ensures
        run(Some(d), presses, direction, config, dt) == after(d, config, dt, presses.len()),
    decreases presses.len(),
{
    if presses.len() > 0 {
        let rest = presses.skip(1);
        match tick(d, config, dt) {
            Some(e) => {
                if rest.len() > 0 {
                    lemma_trigger_ignored_while_present(e, rest, direction, config, dt);
                }
            },
            None => {},
        }
    }
}

/// A trigger creates a dash only from absence, and then the dash that the
/// configuration describes along the direction asked for.
pub proof fn lemma_trigger_creates_from_absent(
    state: Option<DashState>,
    direction: Vector,
    config: Configuration,
    dt: int,
)
    ensures
        state is None ==> next(state, true, direction, config, dt) == Some(
            created(direction, config),
        ),
        state is None ==> next(state, false, direction, config, dt) is None,
        state is Some ==> next(state, true, direction, config, dt) == next(
            state,
            false,
            direction,
            config,
            dt,
        ),
{
}

/// The total lifetime of a dash. With a positive tick and a positive decay
/// per tick, a dash is present after `ticks` ticks exactly while `ticks` is
/// below `lifetime`: the ticks of its active time, then those of its decay,
/// then those of its pause, then the one that removes it.
pub proof fn lemma_dash_lifetime(d: DashState, config: Configuration, dt: int, ticks: nat)
    requires
        dt > 0,
        step(config.dash_deceleration as int, dt) > 0,
    ensures
        after(d, config, dt, ticks) is Some <==> ticks < lifetime(d, config, dt),
    decreases ticks,
{
    let loss = step(config.dash_deceleration as int, dt);
    if ticks > 0 {
        match tick(d, config, dt) {
            Some(e) => {
                lemma_dash_lifetime(e, config, dt, (ticks - 1) as nat);
                if d.duration > 0 {
                    lemma_ticks_to_spend_step(d.duration, dt);
                } else if !d.speed.is_zero() {
                    assert(ticks_to_stop(d.speed, loss) == 1 + ticks_to_stop(
                        decay(d.speed, loss),
                        loss,
                    ));
                } else {
                    lemma_ticks_to_spend_step(d.cooldown, dt);
                }
            },
            None => {},
        }
    }
}

/// A speed along one axis, horizontal or vertical.
pub open spec fn along_axis(speed: int, horizontal: bool) -> Vector {
    if horizontal {
        Vector { x: speed, y: 0 }
    } else {
        Vector { x: 0, y: speed }
    }
}

/// Along an axis a decay takes exactly `loss` off the speed, or all of it
/// once `loss` reaches it.
proof fn lemma_axis_decay(speed: int, horizontal: bool, loss: int)
    requires
        loss > 0,
    ensures
        decay(along_axis(speed, horizontal), loss) == along_axis(
            if abs(speed) <= loss {
                0
            } else if speed > 0 {
                speed - loss
            } else {
                speed + loss
            },
            horizontal,
        ),
{
    let v = along_axis(speed, horizontal);
    let p = PRECISION as int;
    let e = abs(speed);
    assert(v.len2() == speed * speed) by (nonlinear_arith)
        requires
            v.len2() == v.x * v.x + v.y * v.y,
            (v.x == speed && v.y == 0) || (v.x == 0 && v.y == speed),
    ;
    assert(loss * loss >= speed * speed <==> e <= loss) by (nonlinear_arith)
        requires
            e == abs(speed),
            loss > 0,
    ;
    if e > loss {
        let f = e * p;
        assert(v.fine_len2() == f * f && f > 0 && f * loss >= 0) by (nonlinear_arith)
            requires
                v.fine_len2() == ((v.x * p) * (v.x * p) + (v.y * p) * (v.y * p)) as nat,
                (v.x == speed && v.y == 0) || (v.x == 0 && v.y == speed),
                f == abs(speed) * p,
                p == 0x8_0000,
                speed != 0,
                loss > 0,
        ;
        assert(f * f < (f + 1) * (f + 1)) by (nonlinear_arith)
            requires
                f > 0,
        ;
        lemma_sqrt_floor_unique(v.fine_len2(), f as nat);
        assert(div_ceil(f * loss, f) == loss) by (nonlinear_arith)
            requires
                f > 0,
                loss > 0,
        ;
        assert(div_ceil(0, f) == 0) by (nonlinear_arith)
            requires
                f > 0,
        ;
        assert(speed * p * loss == if speed > 0 {
            f * loss
        } else {
            -(f * loss)
        }) by (nonlinear_arith)
            requires
                f == abs(speed) * p,
        ;
    }
}

/// Along an axis, the ticks that bring a speed to rest are the speed
/// divided by the loss per tick, rounded up.
pub proof fn lemma_ticks_to_stop_on_axis(speed: int, horizontal: bool, loss: int)
    requires
        loss > 0,
    ensures
        ticks_to_stop(along_axis(speed, horizontal), loss) == div_ceil(abs(speed), loss),
    decreases abs(speed),
{
    let e = abs(speed);
    lemma_axis_decay(speed, horizontal, loss);
    lemma_division_ceil(e, loss);
    if speed == 0 {
        assert(along_axis(speed, horizontal).is_zero());
    } else if e <= loss {
        assert(along_axis(0, horizontal) == Vector::zero());
        assert(div_ceil(e, loss) == 1) by (nonlinear_arith)
            requires
                0 < e <= loss,
                e <= div_ceil(e, loss) * loss < e + loss,
        ;
    } else {
        let rest = if speed > 0 {
            speed - loss
        } else {
            speed + loss
        };
        lemma_ticks_to_stop_on_axis(rest, horizontal, loss);
        lemma_division_ceil(e - loss, loss);
        assert(div_ceil(e, loss) == div_ceil(e - loss, loss) + 1) by (nonlinear_arith)
            requires
                e <= div_ceil(e, loss) * loss < e + loss,
                e - loss <= div_ceil(e - loss, loss) * loss < e,
                loss > 0,
        ;
    }
}

/// A dash created along an axis starts with exactly the dash speed along
/// that axis.
pub proof fn lemma_created_on_axis(forward: bool, horizontal: bool, config: Configuration)
    ensures
        created(along_axis(if forward { 1 } else { -1 }, horizontal), config).speed == along_axis(
            if forward {
                config.dash_speed as int
            } else {
                -config.dash_speed
            },
            horizontal,
        ),
{
    let unit: int = if forward {
        1
    } else {
        -1
    };
    let v = along_axis(unit, horizontal);
    let p = PRECISION as int;
    let m = config.dash_speed as int;
    assert(v.fine_len2() == p * p && p * p < (p + 1) * (p + 1)) by (nonlinear_arith)
        requires
            v.fine_len2() == ((v.x * p) * (v.x * p) + (v.y * p) * (v.y * p)) as nat,
            (v.x == unit && v.y == 0) || (v.x == 0 && v.y == unit),
            unit == 1 || unit == -1,
            p > 0,
    ;
    lemma_sqrt_floor_unique(v.fine_len2(), p as nat);
    assert(div_toward_zero(unit * p * m, p) == unit * m && div_toward_zero(0 * p * m, p) == 0)
        by (nonlinear_arith)
        requires
            unit == 1 || unit == -1,
            p > 0,
    ;
}

/// The total lifetime of a dash created along an axis, in ticks: the active
/// time divided by the tick, then the dash speed divided by the decay per
/// tick, then the pause divided by the tick, each rounded up, and one tick
/// more to remove it. The same configuration and tick always give the same
/// lifetime.
pub proof fn lemma_axis_dash_lifetime(
    forward: bool,
    horizontal: bool,
    config: Configuration,
    dt: int,
)
    requires
        dt > 0,
        step(config.dash_deceleration as int, dt) > 0,
    ensures
        lifetime(
            created(along_axis(if forward { 1 } else { -1 }, horizontal), config),
            config,
            dt,
        ) == ticks_to_spend(config.dash_duration as int, dt) + div_ceil(
            abs(config.dash_speed as int),
            step(config.dash_deceleration as int, dt),
        ) + ticks_to_spend(config.dash_cooldown as int, dt) + 1,
{
    lemma_created_on_axis(forward, horizontal, config);
    let speed: int = if forward {
        config.dash_speed as int
    } else {
        -config.dash_speed
    };
    lemma_ticks_to_stop_on_axis(speed, horizontal, step(config.dash_deceleration as int, dt));
}

/// Residual speed after decaying by `loss`.
pub fn decay_by(speed: Vec2, loss: i64) -> (r: Vec2)
    requires
        speed@.within(LIMIT as int),
        0 <= loss <= STEP_LIMIT,
    ensures
        r@ == decay(speed@, loss as int),
        r@.within(LIMIT as int),
{
    proof {
        lemma_decay_shrinks(speed@, loss as int);
    }
    if square(loss) >= speed.length_squared() {
        Vec2::zero()
    } else {
        let force = speed.with_length_ceil(loss);
        speed.minus(force)
    }
}

/// The phase that the player's dash is in.
pub fn dash_phase(dash: &Option<Dash>) -> (r: DashPhase)
    ensures
        r == phase(dash_view(*dash)),
{
    match dash {
        None => DashPhase::Absent,
        Some(d) => {
            if d.duration > 0 {
                DashPhase::Active
            } else if !d.speed.is_zero() {
                DashPhase::Decelerating
            } else {
                DashPhase::Cooldown
            }
        },
    }
}

/// The velocity that the player's body is given: its speed, and the dash's
/// residual speed on top while a dash is present.
pub open spec fn applied(speed: Vector, dash: Option<DashState>) -> Vector {
    match dash {
        Some(d) => speed.plus(d.speed),
        None => speed,
    }
}

/// The velocity to give to the player's body.
pub fn apply_force(player: &Player) -> (r: Vec2)
    requires
        player.wf(),
    ensures
        r@ == applied(player.speed@, dash_view(player.dash)),
        r@.within(2 * LIMIT),
{
    match player.dash {
        Some(d) => player.speed.plus(d.speed),
        None => player.speed,
    }
}

/// One tick of the dash state machine on the player. A trigger while no
/// dash is present creates one along the player's direction. A dash that is
/// present runs its active time, then decays, then pauses, and is removed
/// on the tick after its pause is spent.
pub fn dash(config: &Configuration, dt: u32, pressed: bool, player: &mut Player)
    requires
        config.wf(),
        old(player).wf(),
    ensures
        dash_view(final(player).dash) == next(
            dash_view(old(player).dash),
            pressed,
            old(player).direction@,
            *config,
            dt as int,
        ),
        final(player).wf(),
        final(player).position == old(player).position,
        final(player).speed == old(player).speed,
        final(player).direction == old(player).direction,
        final(player).life == old(player).life,
        final(player).attack == old(player).attack,
{
    match player.dash {
        None => {
            if pressed {
                player.dash = Some(
                    Dash {
                        speed: player.direction.with_length_floor(config.dash_speed),
                        duration: config.dash_duration,
                        cooldown: config.dash_cooldown,
                    },
                );
            }
        },
        Some(d) => {
            if d.duration > 0 {
                player.dash = Some(Dash { duration: d.duration - dt as i64, ..d });
            } else if !d.speed.is_zero() {
                let loss = step_of(config.dash_deceleration, dt);
                player.dash = Some(Dash { speed: decay_by(d.speed, loss), ..d });
            } else if d.cooldown > 0 {
                player.dash = Some(Dash { cooldown: d.cooldown - dt as i64, ..d });
            } else {
                player.dash = None;
            }
        },
    }
}

} // verus!
