//! Tunable parameters of the simulation.

use vstd::prelude::*;

verus! {

/// Width of the level grid, in tiles.
pub const MAP_WIDTH: i32 = 80;

/// Height of the level grid, in tiles.
pub const MAP_HEIGHT: i32 = 43;

/// Hit points restored by a healing potion.
pub const HEAL_AMOUNT: i32 = 40;

/// Damage dealt by a lightning bolt, regardless of the target's defense.
pub const LIGHTNING_DAMAGE: i32 = 40;

/// How far, in tiles, a lightning bolt looks for its target.
pub const LIGHTNING_RANGE: i32 = 5;

/// How far, in tiles, a confusion scroll may be aimed.
pub const CONFUSE_RANGE: i32 = 8;

/// Number of turns a confused monster stumbles around.
pub const CONFUSE_NUM_TURNS: i32 = 10;

/// How far, in tiles, a freeze scroll may be aimed.
pub const FREEZE_RANGE: i32 = 10;

/// Number of turns a frozen monster stands still.
pub const FREEZE_NUM_TURNS: i32 = 10;

/// Radius of a fireball's blast, in tiles.
pub const FIREBALL_RADIUS: i32 = 3;

/// Damage dealt by a fireball to everything in its blast.
pub const FIREBALL_DAMAGE: i32 = 25;

/// How far, in tiles, a blink scroll may carry the player.
pub const BLINK_RADIUS: i32 = 100;

/// Largest width or height of a generated room.
pub const ROOM_MAX_SIZE: i32 = 10;

/// Smallest width or height of a generated room.
pub const ROOM_MIN_SIZE: i32 = 6;

/// Number of candidate rooms tried while generating a level.
pub const MAX_ROOMS: i32 = 30;

/// Upper bound on the monsters spawned in one room.
pub const MAX_ROOM_MONSTERS: i32 = 3;

/// Upper bound on the items spawned in one room.
pub const MAX_ROOM_ITEMS: i32 = 2;

/// Index of the player in the actor registry.
pub const PLAYER: usize = 0;

/// Experience needed for the first level-up.
pub const LEVEL_UP_BASE: i32 = 200;

/// Additional experience needed per level already gained.
pub const LEVEL_UP_FACTOR: i32 = 150;

/// Whether walls at the edge of the field of view are lit.
pub const FOV_LIGHT_WALLS: bool = true;

/// Radius of the player's field of view, in tiles.
pub const TORCH_RADIUS: i32 = 10;

/// Most options a single-letter menu can offer.
pub const MAX_MENU_OPTIONS: usize = 26;

} // verus!
