//! One sampled point of the surface, after projection.

use vstd::prelude::*;
use crate::ramp::{glyph_of, shade};
use crate::screen::{cell_index, SCREEN_HEIGHT, SCREEN_WIDTH};
use crate::single::Single;

verus! {

/// What the compositor needs to know of a surface point.
///
/// `screen_x` grows to the right from the left edge of the display and
/// `screen_y` grows downwards from its top edge, both in cells and before
/// they are cut to whole numbers. `inverse_depth` is one over the distance from the viewer:
/// the larger, the nearer. `luminance` is positive where the surface faces
/// the light.
#[derive(Clone, Copy, Debug)]
pub struct Sample {
    pub screen_x: Single,
    pub screen_y: Single,
    pub inverse_depth: Single,
    pub luminance: Single,
}

/// A screen coordinate cut down to its whole part and held inside
/// `0..limit`: what lies before the first cell goes to the first, what lies
/// past the last goes to the last.
pub open spec fn held_within(coordinate: Single, limit: int) -> int {
    if coordinate.floor_scaled(0) < limit {
        coordinate.floor_scaled(0) as int
    } else {
        limit - 1
    }
}

impl Sample {
    /// The column the sample falls into.
    pub open spec fn column(self) -> int {
        held_within(self.screen_x, SCREEN_WIDTH as int)
    }

    /// The row the sample falls into.
    pub open spec fn row(self) -> int {
        held_within(self.screen_y, SCREEN_HEIGHT as int)
    }

    /// The place of the sample's cell in a frame.
    pub open spec fn cell(self) -> int {
        cell_index(self.column(), self.row())
    }

    /// The surface faces the light at this point.
    pub open spec fn lit(self) -> bool {
        self.luminance.positive()
    }

    /// The glyph that shows the sample's brightness.
    pub open spec fn glyph(self) -> u8 {
        glyph_of(self.luminance)
    }

    /// The column and the row the sample falls into.
    pub fn locate(&self) -> (place: (usize, usize))
        ensures
            place.0 == self.column(),
            place.1 == self.row(),
            place.0 < SCREEN_WIDTH,
            place.1 < SCREEN_HEIGHT,
    {
        let column: u64 = self.screen_x.capped_floor(0, (SCREEN_WIDTH - 1) as u64);
        let row: u64 = self.screen_y.capped_floor(0, (SCREEN_HEIGHT - 1) as u64);
        (column as usize, row as usize)
    }

    /// Whether the surface faces the light at this point.
    pub fn is_lit(&self) -> (r: bool)
        ensures
            r == self.lit(),
    {
        self.luminance.is_positive()
    }

    /// The glyph that shows the sample's brightness.
    pub fn shade(&self) -> (g: u8)
        ensures
            g == self.glyph(),
    {
        shade(&self.luminance)
    }
}

} // verus!
