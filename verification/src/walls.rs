//! The walls that close the arena.

use vstd::prelude::*;
use crate::components::{Collider, RigidBody};
use crate::fixed::UNIT;
use crate::vec2::Vec3;

verus! {

/// A rectangle by its width and height, in thousandths of a unit.
#[derive(Clone, Copy, Debug, PartialEq, Eq, Structural)]
pub struct Rectangle {
    pub width: i64,
    pub height: i64,
}

impl Rectangle {
    pub fn new(width: i64, height: i64) -> (r: Rectangle)
        ensures
            r == (Rectangle { width, height }),
    {
        Rectangle { width, height }
    }

    /// The rectangle of one unit by one unit.
    pub open spec fn unit() -> Rectangle {
        Rectangle { width: UNIT, height: UNIT }
    }
}

/// The colour of a flat material.
#[derive(Clone, Copy, Debug, PartialEq, Eq, Structural)]
pub enum Color {
    White,
    Purple,
}

/// Where a thing is and how much it is stretched along each axis, both in
/// thousandths.
#[derive(Clone, Copy, Debug, PartialEq, Eq, Structural)]
pub struct Transform {
    pub translation: Vec3,
    pub scale: Vec3,
}

/// A flat coloured mesh.
#[derive(Clone, Copy, Debug, PartialEq, Eq, Structural)]
pub struct MaterialMesh2dBundle {
    pub mesh: Rectangle,
    pub transform: Transform,
    pub material: Color,
}

/// A wall: a body that never moves, with a unit collider and a unit mesh
/// that its transform stretches to the wall's size.
#[derive(Clone, Copy, Debug, PartialEq, Eq, Structural)]
pub struct WallBundle {
    pub rigid_body: RigidBody,
    pub collider: Collider,
    pub material: MaterialMesh2dBundle,
}

/// The wall of the given size, centre and colour.
pub open spec fn wall(rectangle: Rectangle, position: Vec3, color: Color) -> WallBundle {
    WallBundle {
        rigid_body: RigidBody::Static,
        collider: Collider::Cuboid { width: UNIT, height: UNIT },
        material: MaterialMesh2dBundle {
            mesh: Rectangle::unit(),
            transform: Transform {
                translation: position,
                scale: Vec3 { x: rectangle.width, y: rectangle.height, z: UNIT },
            },
            material: color,
        },
    }
}

/// The three walls of the arena: left, right and bottom. The top is open.
pub open spec fn arena() -> Seq<WallBundle> {
    seq![
        wall(
            Rectangle { width: 20_000, height: 850_000 },
            Vec3 { x: -600_000i64, y: 0, z: 0 },
            Color::Purple,
        ),
        wall(
            Rectangle { width: 20_000, height: 850_000 },
            Vec3 { x: 600_000, y: 0, z: 0 },
            Color::Purple,
        ),
        wall(
            Rectangle { width: 1_200_000, height: 20_000 },
            Vec3 { x: 0, y: -350_000i64, z: 0 },
            Color::Purple,
        ),
    ]
}

impl WallBundle {
    /// A wall of the size of `rectangle`, centred at `position`.
    pub fn new(rectangle: Rectangle, position: Vec3, color: Color) -> (r: WallBundle)
        ensures
            r == wall(rectangle, position, color),
    {
        WallBundle {
            rigid_body: RigidBody::Static,
            collider: Collider::Cuboid { width: UNIT, height: UNIT },
            material: MaterialMesh2dBundle {
                mesh: Rectangle { width: UNIT, height: UNIT },
                transform: Transform {
                    translation: position,
                    scale: Vec3 { x: rectangle.width, y: rectangle.height, z: UNIT },
                },
                material: color,
            },
        }
    }
}

/// The walls of the arena, for the engine to create.
pub fn wall_e() -> (walls: Vec<WallBundle>)
    ensures
        walls@ == arena(),
{
    let mut walls: Vec<WallBundle> = Vec::new();
    walls.push(
        WallBundle::new(
            Rectangle::new(20_000, 850_000),
            Vec3 { x: -600_000, y: 0, z: 0 },
            Color::Purple,
        ),
    );
    walls.push(
        WallBundle::new(
            Rectangle::new(20_000, 850_000),
            Vec3 { x: 600_000, y: 0, z: 0 },
            Color::Purple,
        ),
    );
    walls.push(
        WallBundle::new(
            Rectangle::new(1_200_000, 20_000),
            Vec3 { x: 0, y: -350_000, z: 0 },
            Color::Purple,
        ),
    );
    walls
}

} // verus!
