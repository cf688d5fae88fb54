//! The fixed numbers of the game.

use vstd::prelude::*;

verus! {

/// Width of the arena, in whole game units.
pub const ARENA_WIDTH: u32 = 640;

/// Height of the arena, in whole game units.
pub const ARENA_HEIGHT: u32 = 480;

/// Width and height of the arena, in whole game units.
pub const RESOLUTION: (u32, u32) = (640, 480);

/// Screen pixels per game unit.
pub const UPSCALING: u32 = 2;

/// How far outside the arena, in whole game units, a decoration may drift before it is
/// removed.
pub const OFF_SCREEN_MARGIN: i32 = 100;

/// The number of decorations below which new ones are spawned.
pub const POPULATION_FLOOR: usize = 4;

/// Where a ball goes when the player has hit it, far outside the arena: the value of both
/// coordinates, in thousandths of a unit.
pub const OFF_STAGE: i32 = 5_000_000;

/// What a held direction key adds to the player's velocity in one frame, in thousandths
/// of a unit per second.
pub const KEY_ACCELERATION: i32 = 15_000;

} // verus!
