//! The player record and the dash attached to it.

use vstd::prelude::*;
use crate::attack::AttackBundle;
use crate::config::in_limit;
use crate::fixed::LIMIT;
use crate::vec2::{Vec2, Vec3};

verus! {

/// A dash in progress: the velocity it still adds, the time it stays at full
/// speed and the pause that follows once its velocity is spent.
#[derive(Clone, Copy, Debug, PartialEq, Eq, Structural)]
pub struct Dash {
    pub speed: Vec2,
    pub duration: i64,
    pub cooldown: i64,
}

impl Dash {
    /// The residual velocity lies within `LIMIT`.
    pub open spec fn wf(&self) -> bool {
        self.speed@.within(LIMIT as int)
    }
}

/// The player: where it is, the velocity it has built up, the direction last
/// asked for, its health, and at most one dash and one attack.
#[derive(Clone, Copy, Debug, PartialEq, Eq, Structural)]
pub struct Player {
    pub position: Vec3,
    pub speed: Vec2,
    pub direction: Vec2,
    pub life: u64,
    pub dash: Option<Dash>,
    pub attack: Option<AttackBundle>,
}

impl Player {
    /// The position, the velocities, the direction and the place of the
    /// hitbox lie within `LIMIT`.
    pub open spec fn wf(&self) -> bool {
        &&& self.position.planar().within(LIMIT as int)
        &&& self.speed@.within(LIMIT as int)
        &&& self.direction@.within(LIMIT as int)
        &&& self.dash matches Some(dash) ==> dash.wf()
        &&& self.attack matches Some(attack) ==> attack.transform.planar().within(LIMIT as int)
    }

    /// Whether the record is well formed.
    pub fn is_wf(&self) -> (r: bool)
        ensures
            r == self.wf(),
    {
        let dash_ok = match self.dash {
            Some(dash) => in_limit(dash.speed.x) && in_limit(dash.speed.y),
            None => true,
        };
        let attack_ok = match self.attack {
            Some(attack) => in_limit(attack.transform.x) && in_limit(attack.transform.y),
            None => true,
        };
        in_limit(self.position.x) && in_limit(self.position.y) && in_limit(self.speed.x)
            && in_limit(self.speed.y) && in_limit(self.direction.x) && in_limit(self.direction.y)
            && dash_ok && attack_ok
    }
}

} // verus!
