//! Program-wide dimensions, in grid units.
//!
//! ```text
//! |-----------------------|-----|
//! |game                   |stats|
//! |                       |-----|
//! |                       |opts.|
//! |                       |-----|
//! |                       |adv. |
//! |-----------------------|-----|
//! ```
use vstd::prelude::*;

verus! {

/// Horizontal indent of a line of panel text.
pub const WIDTH_UI_INDENT: i32 = 5;

/// Height of a line of panel text.
pub const HEIGHT_UI_LINE: i32 = 7;

/// Side of one grid unit, in pixels.
pub const SIZE_GRID_PIXELS: i32 = 5;

/// Width of the program window.
pub const WIDTH_WINDOW_GRIDS: i32 = 200;

/// Height of the program window.
pub const HEIGHT_WINDOW_GRIDS: i32 = 150;

/// Width of the simulated grid.
pub const WIDTH_GAME_GRIDS: i32 = WIDTH_WINDOW_GRIDS - 50;

/// Height of the simulated grid.
pub const HEIGHT_GAME_GRIDS: i32 = HEIGHT_WINDOW_GRIDS;

/// Width of the statistics panel.
pub const WIDTH_STAT_GRIDS: i32 = WIDTH_WINDOW_GRIDS - WIDTH_GAME_GRIDS;

/// Height of the statistics panel.
pub const HEIGHT_STAT_GRIDS: i32 = HEIGHT_WINDOW_GRIDS - 100;

/// Width of the advanced settings panel.
pub const WIDTH_ADVANCED_GRIDS: i32 = WIDTH_STAT_GRIDS;

/// Height of the advanced settings panel.
pub const HEIGHT_ADVANCED_GRIDS: i32 = HEIGHT_STAT_GRIDS;

/// Width of the options panel.
pub const WIDTH_OPTION_GRIDS: i32 = WIDTH_STAT_GRIDS;

/// Height of the options panel.
pub const HEIGHT_OPTION_GRIDS: i32 = HEIGHT_STAT_GRIDS;

/// Left edge of the simulated grid.
pub const POS_GAME_X: i32 = 0;

/// Top edge of the simulated grid.
pub const POS_GAME_Y: i32 = 0;

/// Left edge of the statistics panel, right of the grid.
pub const POS_STAT_X: i32 = POS_GAME_X + WIDTH_GAME_GRIDS;

/// Top edge of the statistics panel.
pub const POS_STAT_Y: i32 = POS_GAME_Y;

/// Left edge of the options panel, under the statistics.
pub const POS_OPTION_X: i32 = POS_STAT_X;

/// Top edge of the options panel.
pub const POS_OPTION_Y: i32 = POS_STAT_Y + HEIGHT_STAT_GRIDS;

/// Left edge of the advanced settings panel, under the options.
pub const POS_ADVANCED_X: i32 = POS_STAT_X;

/// Top edge of the advanced settings panel.
pub const POS_ADVANCED_Y: i32 = POS_OPTION_Y + HEIGHT_OPTION_GRIDS;

/// Number of random draws that seed a new game.
pub const INITIAL_POPULATION: i32 = 2000;

} // verus!
