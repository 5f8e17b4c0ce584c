//! Layout and movement constants of the play field, in pixels.

use vstd::prelude::*;

verus! {

/// Width of a laser sprite.
pub const LASER_WIDTH: i32 = 4;

/// Height of a laser sprite; a laser is expired once its y sinks below
/// `-LASER_HEIGHT`, i.e. once it is entirely above the play area.
pub const LASER_HEIGHT: i32 = 32;

/// Side length of an enemy's square bounding box.
pub const ENEMY_SIZE: i32 = 60;

/// Side length of the player's square sprite.
pub const PLAYER_SIZE: i32 = 100;

/// Horizontal gap between neighbouring enemies of a row.
pub const X_GAP_SIZE: i32 = 10;

/// Vertical gap between enemy rows.
pub const Y_GAP_SIZE: i32 = 10;

/// Number of formation advances per period: after this many advances,
/// one of them a downward drop, the horizontal direction reverses.
pub const MOVES_PER_ROW: i32 = 10;

/// Step, in pixels, of every single movement: player moves, enemy
/// shifts and enemy drops.
pub const MOVE_SIZE: i32 = 10;

/// Distance a laser climbs on each tick.
pub const LASER_ADVANCE_SIZE: i32 = 20;

/// Vertical distance above the player's top-left corner at which a
/// fired laser is spawned.
pub const LASER_Y_OFFSET: i32 = 50;

} // verus!
