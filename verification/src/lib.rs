//! Deterministic core of a small top-down action game: player motion, dash and
//! melee state machines, enemy spawning and pursuit, collision damage, death
//! timers and camera framing.
//!
//! Every quantity is a fixed-point integer. Lengths and speeds are counted in
//! thousandths of a world unit, times in microseconds, so that each rule is an
//! exact function of its inputs and can be stated and proved over the integers.

pub mod fixed;
pub mod vec2;
pub mod config;
pub mod components;
pub mod attack;
pub mod player;
pub mod motion;
pub mod dash;
pub mod input;
pub mod enemy;
pub mod combat;
pub mod camera;
pub mod animation;
pub mod walls;
pub mod scene;
pub mod phase;
