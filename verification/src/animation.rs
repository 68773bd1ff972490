//! Which animation the player's sprite plays.

use vstd::prelude::*;
use crate::player::Player;
use crate::vec2::Vec2;

verus! {

/// Standing, and the fallback of every choice without an attack.
pub const ANIM_IDLE: usize = 1;

/// Walking with no push to the right.
pub const ANIM_WALK_LEFT: usize = 2;

/// Standing while pushed to the right.
pub const ANIM_IDLE_RIGHT: usize = 3;

/// Walking to the right.
pub const ANIM_WALK_RIGHT: usize = 4;

/// Attacking to the right.
pub const ANIM_ATTACK_RIGHT: usize = 5;

/// Attacking downward.
pub const ANIM_ATTACK_DOWN: usize = 6;

/// Attacking upward.
pub const ANIM_ATTACK_UP: usize = 7;

/// Attacking with no push up, down or to the right.
pub const ANIM_ATTACK_LEFT: usize = 8;

/// The animation for a direction and an attack flag. An attack goes first
/// and looks at the vertical axis before the horizontal one. Without an
/// attack a moving player walks, and a player at rest stands. A dash does
/// not change the choice.
pub open spec fn animation_index(direction: Vec2, attacking: bool) -> usize {
    if attacking {
        if direction.y > 0 {
            ANIM_ATTACK_UP
        } else if direction.y < 0 {
            ANIM_ATTACK_DOWN
        } else if direction.x > 0 {
            ANIM_ATTACK_RIGHT
        } else {
            ANIM_ATTACK_LEFT
        }
    } else if !direction@.is_zero() {
        if direction.x > 0 {
            ANIM_WALK_RIGHT
        } else {
            ANIM_WALK_LEFT
        }
    } else {
        if direction.x > 0 {
            ANIM_IDLE_RIGHT
        } else {
            ANIM_IDLE
        }
    }
}

/// A player at rest who does not attack always stands: the table never
/// yields `ANIM_IDLE_RIGHT`.
pub proof fn lemma_rest_is_idle(direction: Vec2, attacking: bool)
    ensures
        animation_index(direction, attacking) != ANIM_IDLE_RIGHT,
        direction@.is_zero() && !attacking ==> animation_index(direction, attacking) == ANIM_IDLE,
{
}

/// The animation that the player's sprite is to play.
pub fn animate(player: &Player) -> (index: usize)
    ensures
        index == animation_index(player.direction, player.attack is Some),
{
    let direction = player.direction;
    if player.attack.is_some() {
        if direction.y > 0 {
            ANIM_ATTACK_UP
        } else if direction.y < 0 {
            ANIM_ATTACK_DOWN
        } else if direction.x > 0 {
            ANIM_ATTACK_RIGHT
        } else {
            ANIM_ATTACK_LEFT
        }
    } else if !direction.is_zero() {
        if direction.x > 0 {
            ANIM_WALK_RIGHT
        } else {
            ANIM_WALK_LEFT
        }
    } else {
        if direction.x > 0 {
            ANIM_IDLE_RIGHT
        } else {
            ANIM_IDLE
        }
    }
}

} // verus!
