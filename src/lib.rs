//! Conway's Game of Life: a bounded grid engine with cumulative statistics,
//! and the small panel model that displays them.

pub mod coord;
pub mod count;
pub mod dead_end;
pub mod game;
pub mod gol;
pub mod params;
pub mod ui;
