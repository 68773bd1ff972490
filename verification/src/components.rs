//! Plain descriptions of what an entity is made of: its body, its shape,
//! its countdown and its sprites.

use vstd::prelude::*;

verus! {

/// The shape of a collision volume, with its sizes in thousandths of a unit.
#[derive(Clone, Copy, Debug, PartialEq, Eq, Structural)]
pub enum Collider {
    Cuboid { width: i64, height: i64 },
    Capsule { height: i64, radius: i64 },
}

/// How the physics engine treats a body.
#[derive(Clone, Copy, Debug, PartialEq, Eq, Structural)]
pub enum RigidBody {
    Dynamic,
    Static,
}

/// Which movements of a body are switched off.
#[derive(Clone, Copy, Debug, PartialEq, Eq, Structural)]
pub enum LockedAxes {
    Free,
    RotationLocked,
}

/// A countdown in microseconds.
#[derive(Clone, Copy, Debug, PartialEq, Eq, Structural)]
pub struct Duration(pub i64);

/// The token under which the asset store knows a sprite sheet.
#[derive(Clone, Copy, Debug, PartialEq, Eq, Structural)]
pub struct Spritesheet(pub u64);

} // verus!
