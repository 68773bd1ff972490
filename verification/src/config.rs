//! Tunable constants of the game.

use vstd::prelude::*;
use crate::fixed::{within, LIMIT};

verus! {

/// The tunables that every rule reads and none changes. Speeds are in
/// thousandths of a unit per second, accelerations in thousandths of a unit
/// per second squared, times in microseconds.
#[derive(Clone, Copy, Debug, PartialEq, Eq, Structural)]
pub struct Configuration {
    pub acceleration: i64,
    pub decceleration: i64,
    pub max_speed: i64,
    pub dash_speed: i64,
    pub dash_deceleration: i64,
    pub dash_duration: i64,
    pub dash_cooldown: i64,
    pub pawn_speed: i64,
}

impl Configuration {
    /// Every speed and acceleration lies within `LIMIT` of zero, and the
    /// dash deceleration is not negative: nothing caps a dash, so one that
    /// sped up would outgrow every bound. No other sign is checked.
    pub open spec fn wf(&self) -> bool {
        &&& within(self.acceleration as int, LIMIT as int)
        &&& within(self.decceleration as int, LIMIT as int)
        &&& within(self.max_speed as int, LIMIT as int)
        &&& within(self.dash_speed as int, LIMIT as int)
        &&& 0 <= self.dash_deceleration <= LIMIT
        &&& within(self.pawn_speed as int, LIMIT as int)
    }

    /// Whether the configuration is well formed.
    pub fn is_wf(&self) -> (r: bool)
        ensures
            r == self.wf(),
    {
        in_limit(self.acceleration) && in_limit(self.decceleration) && in_limit(self.max_speed)
            && in_limit(self.dash_speed) && 0 <= self.dash_deceleration && in_limit(
            self.dash_deceleration,
        ) && in_limit(
            self.pawn_speed,
        )
    }
}

/// Whether `v` lies within `LIMIT` of zero.
pub fn in_limit(v: i64) -> (r: bool)
    ensures
        r == within(v as int, LIMIT as int),
{
    -LIMIT <= v && v <= LIMIT
}

impl Default for Configuration {
    fn default() -> (r: Configuration)
        ensures
            r == (Configuration {
                acceleration: 3_000_000,
                decceleration: 2_000_000,
                max_speed: 400_000,
                dash_speed: 1_000_000,
                dash_deceleration: 10_000_000,
                dash_duration: 100_000,
                dash_cooldown: 1_000_000,
                pawn_speed: 300_000,
            }),
            r.wf(),
    {
        Configuration {
            acceleration: 3_000_000,
            decceleration: 2_000_000,
            max_speed: 400_000,
            dash_speed: 1_000_000,
            dash_deceleration: 10_000_000,
            dash_duration: 100_000,
            dash_cooldown: 1_000_000,
            pawn_speed: 300_000,
        }
    }
}

} // verus!
