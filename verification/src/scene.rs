//! What the game starts with: a camera, the map and the player.

use vstd::prelude::*;
use crate::camera::{Camera, ScalingMode};
use crate::components::{Collider, LockedAxes, RigidBody, Spritesheet};
use crate::player::Player;
use crate::vec2::{Vec2, Vec3};

verus! {

/// Health that the player starts with.
pub const PLAYER_LIFE: u64 = 5;

/// Index of the animation that a new player plays.
pub const PLAYER_ANIMATION: usize = 1;

/// The player as it starts: at rest at its starting place, in full health,
/// with no dash and no attack.
pub open spec fn new_player() -> Player {
    Player {
        position: Vec3 { x: 700_000, y: 600_000, z: 20_000 },
        speed: Vec2 { x: 0, y: 0 },
        direction: Vec2 { x: 0, y: 0 },
        life: PLAYER_LIFE,
        dash: None,
        attack: None,
    }
}

/// What the player is made of.
#[derive(Clone, Copy, Debug, PartialEq, Eq, Structural)]
pub struct PlayerBundle {
    pub player: Player,
    pub locked_axes: LockedAxes,
    pub rigid_body: RigidBody,
    pub collider: Collider,
    pub animation: usize,
    pub spritesheet: Spritesheet,
}

/// The player made with the given sprite sheet.
pub open spec fn player_with(spritesheet: Spritesheet) -> PlayerBundle {
    PlayerBundle {
        player: new_player(),
        locked_axes: LockedAxes::RotationLocked,
        rigid_body: RigidBody::Dynamic,
        collider: Collider::Capsule { height: 15_000, radius: 20_000 },
        animation: PLAYER_ANIMATION,
        spritesheet,
    }
}

impl PlayerBundle {
    pub fn new(spritesheet: Spritesheet) -> (r: PlayerBundle)
        ensures
            r == player_with(spritesheet),
            r.player.wf(),
    {
        PlayerBundle {
            player: Player {
                position: Vec3 { x: 700_000, y: 600_000, z: 20_000 },
                speed: Vec2 { x: 0, y: 0 },
                direction: Vec2 { x: 0, y: 0 },
                life: PLAYER_LIFE,
                dash: None,
                attack: None,
            },
            locked_axes: LockedAxes::RotationLocked,
            rigid_body: RigidBody::Dynamic,
            collider: Collider::Capsule { height: 15_000, radius: 20_000 },
            animation: PLAYER_ANIMATION,
            spritesheet,
        }
    }
}

/// The token under which the asset store knows a map.
#[derive(Clone, Copy, Debug, PartialEq, Eq, Structural)]
pub struct MapHandle(pub u64);

/// The map and where it lies.
#[derive(Clone, Copy, Debug, PartialEq, Eq, Structural)]
pub struct MapBundle {
    pub map: MapHandle,
    pub transform: Vec3,
}

/// What is created at startup.
#[derive(Clone, Copy, Debug, PartialEq, Eq, Structural)]
pub struct Scene {
    pub camera: Camera,
    pub map: MapBundle,
    pub player: PlayerBundle,
}

/// The camera as it starts: centred on its place, showing the window's
/// size, in front of every layer.
pub open spec fn new_camera() -> Camera {
    Camera {
        viewport_origin: Vec2 { x: 500, y: 500 },
        scaling_mode: ScalingMode::WindowSize,
        transform: Vec3 { x: 0, y: 0, z: 999_900 },
    }
}

/// The scene made of the given map and player sprite sheet: the map lies
/// one unit behind the origin.
pub open spec fn scene_of(map: MapHandle, spritesheet: Spritesheet) -> Scene {
    Scene {
        camera: new_camera(),
        map: MapBundle { map, transform: Vec3 { x: 0, y: 0, z: -1_000i64 } },
        player: player_with(spritesheet),
    }
}

/// What the engine is to create at startup.
pub fn setup(map: MapHandle, player_spritesheet: Spritesheet) -> (scene: Scene)
    ensures
        scene == scene_of(map, player_spritesheet),
        scene.player.player.wf(),
{
    Scene {
        camera: Camera {
            viewport_origin: Vec2 { x: 500, y: 500 },
            scaling_mode: ScalingMode::WindowSize,
            transform: Vec3 { x: 0, y: 0, z: 999_900 },
        },
        map: MapBundle { map, transform: Vec3 { x: 0, y: 0, z: -1_000 } },
        player: PlayerBundle::new(player_spritesheet),
    }
}

} // verus!
