//! The component kinds an entity may hold, and the resources shared between systems.

use vstd::prelude::*;
use crate::vector::Vector2;

verus! {

/// What hitting a ball does to the player.
#[derive(Clone, Copy, Debug, PartialEq, Eq, Structural)]
pub enum BallType {
    Good,
    Neutral,
    Bad,
}

/// Marks a decoration: an entity counted and culled by the population upkeep.
#[derive(Clone, Copy, Debug, PartialEq, Eq, Structural)]
pub struct ObamaComponent;

impl Default for ObamaComponent {
    fn default() -> (c: ObamaComponent)
        ensures
            c == ObamaComponent,
    {
        ObamaComponent
    }
}

/// Where an entity is, how large it is drawn and which way it faces.
///
/// `pos` is in thousandths of a unit, `scale` in thousandths, `angle` in millionths of a
/// radian.
#[derive(Clone, Copy, Debug, PartialEq, Eq, Structural)]
pub struct Transform {
    pub pos: Vector2,
    pub scale: Vector2,
    pub angle: i64,
}

impl Default for Transform {
    /// At the origin, at natural size, facing along the first axis.
    fn default() -> (t: Transform)
        ensures
            t == (Transform {
                pos: Vector2 { x: 0, y: 0 },
                scale: Vector2 { x: 1000, y: 1000 },
                angle: 0,
            }),
    {
        Transform {
            pos: Vector2 { x: 0, y: 0 },
            angle: 0,
            scale: Vector2 { x: 1000, y: 1000 },
        }
    }
}

/// How far an entity moves in one second, in thousandths of a unit.
#[derive(Clone, Copy, Debug, PartialEq, Eq, Structural)]
pub struct Velocity(pub Vector2);

/// The greatest speed an entity may keep, in thousandths of a unit per second.
#[derive(Clone, Copy, Debug, PartialEq, Eq, Structural)]
pub struct MaxVelocity(pub i32);

/// The circle that stands for an entity in collisions; `radius` in thousandths of a unit.
#[derive(Clone, Copy, Debug, PartialEq, Eq, Structural)]
pub struct BoundingCircle {
    pub radius: i32,
}

impl Default for BoundingCircle {
    /// A circle of radius one.
    fn default() -> (c: BoundingCircle)
        ensures
            c == (BoundingCircle { radius: 1000 }),
    {
        BoundingCircle { radius: 1000 }
    }
}

/// A stretch applied to an entity's scale, and the scale it had before.
#[derive(Clone, Copy, Debug, PartialEq, Eq, Structural)]
pub struct StretchComponent {
    pub amount: i32,
    pub original: Vector2,
}

/// An orbit round the player: radii in thousandths of a unit, `angle` in millionths of a
/// radian, `angular_velocity` in millionths of a radian per step.
#[derive(Clone, Copy, Debug, PartialEq, Eq, Structural)]
pub struct OrbitComponent {
    pub radius: i32,
    pub target_radius: i32,
    pub angular_velocity: i64,
    pub angle: i64,
}

/// How an entity comes back once it has left the play circle: the circle's radius in
/// thousandths of a unit, and the range of speeds it may get.
#[derive(Clone, Copy, Debug, PartialEq, Eq, Structural)]
pub struct RespawnComponent {
    pub max_radius: i32,
    pub max_speed: i32,
    pub min_speed: i32,
}

/// Whether the player hit a bad ball in the last collision pass.
#[derive(Clone, Copy, Debug, PartialEq, Eq, Structural)]
pub struct HitBad(pub bool);

/// Whether the player hit a neutral ball in the last collision pass.
#[derive(Clone, Copy, Debug, PartialEq, Eq, Structural)]
pub struct HitNeutral(pub bool);

/// Whether the player hit a good ball in the last collision pass.
#[derive(Clone, Copy, Debug, PartialEq, Eq, Structural)]
pub struct HitGood(pub bool);

/// A request to shake the screen by so many thousandths of a pixel.
#[derive(Clone, Copy, Debug, PartialEq, Eq, Structural)]
pub struct ScreenShake(pub Option<i32>);

} // verus!
