//! The input system: movement keys drive the motion integrator, the attack
//! key creates a hitbox.

use vstd::prelude::*;
use crate::attack::{trigger_attack, triggered};
use crate::config::Configuration;
use crate::motion::{input_direction, integrate, keyboard_input_system, MoveInput};
use crate::player::Player;
use crate::vec2::Vec2;

verus! {

/// What the input device reports for one tick: the movement keys held, and
/// whether the dash key was pressed since the last tick and the attack key
/// is held.
#[derive(Clone, Copy, Debug, PartialEq, Eq, Structural)]
pub struct Keys {
    pub movement: MoveInput,
    pub dash: bool,
    pub attack: bool,
}

/// The direction of the keys held, as it is stored on the player.
pub open spec fn stored_direction(keys: MoveInput) -> Vec2 {
    Vec2 { x: input_direction(keys).x as i64, y: input_direction(keys).y as i64 }
}

/// One tick of input: the motion integrator runs on the movement keys, then
/// the attack key is read against the new direction.
pub fn keyboard_input(config: &Configuration, dt: u32, keys: Keys, player: &mut Player)
    requires
        config.wf(),
        old(player).wf(),
    ensures
        final(player).direction == stored_direction(keys.movement),
        final(player).speed@ == integrate(
            old(player).speed@,
            input_direction(keys.movement),
            *config,
            dt as int,
        ),
        final(player).speed@.len2() <= config.max_speed * config.max_speed,
        final(player).attack == triggered(
            old(player).attack,
            keys.attack,
            stored_direction(keys.movement),
        ),
        final(player).wf(),
        final(player).position == old(player).position,
        final(player).life == old(player).life,
        final(player).dash == old(player).dash,
{
    keyboard_input_system(config, dt, keys.movement, player);
    trigger_attack(keys.attack, player);
}

} // verus!
