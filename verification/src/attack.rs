//! The melee attack: a short-lived hitbox in front of the player that slows
//! its owner while it lasts.

use vstd::prelude::*;
use crate::components::{Collider, Duration};
use crate::fixed::LIMIT;
use crate::player::Player;
use crate::vec2::{Vec2, Vec3, Vector};

verus! {

/// Time that an attack stays active, in microseconds.
pub const ATTACK_DURATION: i64 = 450_000;

/// Side of the square hitbox, in thousandths of a unit.
pub const ATTACK_SIZE: i64 = 70_000;

/// Distance of the hitbox from its owner for each unit of direction, in
/// thousandths of a unit.
pub const ATTACK_OFFSET: i64 = 50_000;

/// A melee hitbox: where it sits relative to its owner, its shape, and how
/// long it stays. A sensor reports contacts without pushing anything.
#[derive(Clone, Copy, Debug, PartialEq, Eq, Structural)]
pub struct AttackBundle {
    pub transform: Vec3,
    pub collider: Collider,
    pub sensor: bool,
    pub duration: Duration,
}

/// The hitbox placed at `position`.
pub open spec fn hitbox_at(position: Vec3) -> AttackBundle {
    AttackBundle {
        transform: position,
        collider: Collider::Cuboid { width: ATTACK_SIZE, height: ATTACK_SIZE },
        sensor: true,
        duration: Duration(ATTACK_DURATION),
    }
}

impl Default for AttackBundle {
    fn default() -> (r: AttackBundle)
        ensures
            r == hitbox_at(Vec3 { x: 0, y: 0, z: 0 }),
    {
        AttackBundle {
            transform: Vec3 { x: 0, y: 0, z: 0 },
            collider: Collider::Cuboid { width: ATTACK_SIZE, height: ATTACK_SIZE },
            sensor: true,
            duration: Duration(ATTACK_DURATION),
        }
    }
}

impl AttackBundle {
    /// A fresh hitbox at `position`, relative to its owner.
    pub fn new(position: Vec3) -> (r: AttackBundle)
        ensures
            r == hitbox_at(position),
    {
        AttackBundle {
            transform: position,
            collider: Collider::Cuboid { width: ATTACK_SIZE, height: ATTACK_SIZE },
            sensor: true,
            duration: Duration(ATTACK_DURATION),
        }
    }
}

/// Where a new hitbox sits relative to its owner: `ATTACK_OFFSET` along each
/// axis of the direction, which is taken as it is, not normalised.
pub open spec fn hitbox_offset(direction: Vec2) -> Vec3 {
    Vec3 {
        x: (direction.x * ATTACK_OFFSET) as i64,
        y: (direction.y * ATTACK_OFFSET) as i64,
        z: 0,
    }
}

/// The attack after the trigger is read: a new one where the trigger is
/// held and none exists, else what was there.
pub open spec fn triggered(attack: Option<AttackBundle>, pressed: bool, direction: Vec2)
    -> Option<AttackBundle> {
    if pressed && attack is None {
        Some(hitbox_at(hitbox_offset(direction)))
    } else {
        attack
    }
}

/// One tick of an attack on the velocity about to be applied: while the
/// attack lasts the velocity is halved and the attack's time runs; once its
/// time is spent the attack is removed and the velocity passes unchanged.
pub open spec fn attack_step(velocity: Vector, attack: Option<AttackBundle>, dt: int) -> (
    Vector,
    Option<AttackBundle>,
) {
    match attack {
        None => (velocity, None),
        Some(a) => if a.duration.0 > 0 {
            (
                velocity.half(),
                Some(AttackBundle { duration: Duration((a.duration.0 - dt) as i64), ..a }),
            )
        } else {
            (velocity, None)
        },
    }
}

/// Reads the attack trigger: where it is held and the player has no attack,
/// a hitbox is created ahead of the player, along its direction.
pub fn trigger_attack(pressed: bool, player: &mut Player)
    requires
        old(player).direction@.within(LIMIT as int),
    ensures
        final(player).attack == triggered(old(player).attack, pressed, old(player).direction),
        old(player).wf() && old(player).direction@.within(1) ==> final(player).wf(),
        final(player).position == old(player).position,
        final(player).speed == old(player).speed,
        final(player).direction == old(player).direction,
        final(player).life == old(player).life,
        final(player).dash == old(player).dash,
{
    if pressed && player.attack.is_none() {
        let offset = Vec3 {
            x: player.direction.x * ATTACK_OFFSET,
            y: player.direction.y * ATTACK_OFFSET,
            z: 0,
        };
        player.attack = Some(AttackBundle::new(offset));
    }
}

/// One tick of the attack. Takes the velocity about to be applied to the
/// player's body and returns the velocity to apply.
pub fn attack(dt: u32, velocity: Vec2, player: &mut Player) -> (r: Vec2)
    ensures
        (r@, final(player).attack) == attack_step(velocity@, old(player).attack, dt as int),
        final(player).position == old(player).position,
        final(player).speed == old(player).speed,
        final(player).direction == old(player).direction,
        final(player).life == old(player).life,
        final(player).dash == old(player).dash,
        old(player).wf() ==> final(player).wf(),
{
    match player.attack {
        None => velocity,
        Some(a) => {
            if a.duration.0 > 0 {
                player.attack = Some(
                    AttackBundle { duration: Duration(a.duration.0 - dt as i64), ..a },
                );
                velocity.half()
            } else {
                player.attack = None;
                velocity
            }
        },
    }
}

/// Where the player's hitbox is in the world: the player's place moved by
/// the hitbox's offset.
pub open spec fn hitbox_place(player: Player) -> Option<Vector> {
    match player.attack {
        Some(a) => Some(player.position.planar().plus(a.transform.planar())),
        None => None,
    }
}

/// Where the player's hitbox is in the world, if there is one.
pub fn hitbox_position(player: &Player) -> (r: Option<Vec2>)
    requires
        player.wf(),
    ensures
        match r {
            Some(place) => hitbox_place(*player) == Some(place@),
            None => hitbox_place(*player) is None,
        },
{
    match player.attack {
        Some(a) => Some(player.position.xy().plus(a.transform.xy())),
        None => None,
    }
}

} // verus!
