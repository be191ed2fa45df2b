//! The fixed size of the display and how its cells are numbered.

use vstd::prelude::*;

verus! {

/// Cells in a row of the display.
pub const SCREEN_WIDTH: usize = 40;

/// Rows of the display.
pub const SCREEN_HEIGHT: usize = 40;

/// Cells of the display.
pub const SCREEN_CELLS: usize = SCREEN_WIDTH * SCREEN_HEIGHT;

/// The place of a cell in a frame stored row after row.
pub open spec fn cell_index(column: int, row: int) -> int {
    row * SCREEN_WIDTH + column
}

/// The place of a cell in a frame stored row after row.
pub fn index_of(column: usize, row: usize) -> (index: usize)
    requires
        column < SCREEN_WIDTH,
        row < SCREEN_HEIGHT,
    ensures
        index == cell_index(column as int, row as int),
        index < SCREEN_CELLS,
{
    row * SCREEN_WIDTH + column
}

} // verus!
