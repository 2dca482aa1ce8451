//! Conway's Game of Life on a fixed-size toroidal grid: the grid, the
//! neighbour count with wrap-around edges, the step rule, and laws about them.
use vstd::prelude::*;

pub mod grid;
pub mod laws;
pub mod rules;

verus! {

/// Width of the grid used by the application.
pub const GRID_WIDTH: usize = 30;

/// Height of the grid used by the application.
pub const GRID_HEIGHT: usize = 20;

/// Chance that a cell starts alive, as `ALIVE_NUMERATOR / ALIVE_DENOMINATOR`.
pub const ALIVE_NUMERATOR: u32 = 999;

/// See [`ALIVE_NUMERATOR`].
pub const ALIVE_DENOMINATOR: u32 = 1000;

} // verus!
