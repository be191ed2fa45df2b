//! The display grid: a glyph and a depth for every cell.

use vstd::prelude::*;
use crate::sample::Sample;
use crate::screen::{cell_index, index_of, SCREEN_CELLS, SCREEN_HEIGHT, SCREEN_WIDTH};
use crate::single::{zero, Single};

verus! {

/// The glyph of a cell that nothing was drawn into: a space.
pub const BLANK: u8 = 32;

/// What one cell of the display holds: the glyph it shows and the inverse
/// depth of the surface point that put it there.
pub struct Cell {
    pub glyph: u8,
    pub depth: Single,
}

/// A cell that nothing was drawn into: blank, at inverse depth zero.
pub open spec fn blank_cell() -> Cell {
    Cell { glyph: BLANK, depth: zero() }
}

/// The frame before anything is drawn.
pub open spec fn blank_frame() -> Seq<Cell> {
    Seq::new(SCREEN_CELLS as nat, |i: int| blank_cell())
}

/// A sample takes its cell if it is lit and nearer than what the cell holds.
pub open spec fn wins(cell: Cell, sample: Sample) -> bool {
    sample.lit() && sample.inverse_depth.above(cell.depth)
}

/// The frame after one more sample: the sample's cell shows the sample if
/// the sample wins it, and nothing else changes.
pub open spec fn plotted(frame: Seq<Cell>, sample: Sample) -> Seq<Cell> {
    if wins(frame[sample.cell()], sample) {
        frame.update(sample.cell(), Cell { glyph: sample.glyph(), depth: sample.inverse_depth })
    } else {
        frame
    }
}

/// The two buffers of a frame, each stored row after row.
pub struct Grid {
    glyphs: Vec<u8>,
    depths: Vec<Single>,
}

impl View for Grid {
    type V = Seq<Cell>;

    closed spec fn view(&self) -> Seq<Cell> {
        Seq::new(
            SCREEN_CELLS as nat,
            |i: int| Cell { glyph: self.glyphs@[i], depth: self.depths@[i] },
        )
    }
}

impl Grid {
    #[verifier::type_invariant]
    spec fn sized(self) -> bool {
        self.glyphs@.len() == SCREEN_CELLS && self.depths@.len() == SCREEN_CELLS
    }

    /// A grid always has one cell for each place on the display.
    pub proof fn lemma_cell_count(self)
        ensures
            self@.len() == SCREEN_CELLS,
    {
    }

    /// A grid with nothing drawn into it.
    pub fn new() -> (grid: Grid)
        ensures
            grid@ == blank_frame(),
    {
        let mut glyphs: Vec<u8> = Vec::new();
        let mut depths: Vec<Single> = Vec::new();
        let mut count: usize = 0;
        while count < SCREEN_CELLS
            invariant
                count <= SCREEN_CELLS,
                glyphs@.len() == count,
                depths@.len() == count,
                forall|i: int| 0 <= i < count ==> glyphs@[i] == BLANK,
                forall|i: int| 0 <= i < count ==> depths@[i] == zero(),
            decreases SCREEN_CELLS - count,
        {
            glyphs.push(BLANK);
            depths.push(Single { bits: 0 });
            count += 1;
        }
        let grid = Grid { glyphs, depths };
        assert(grid@ =~= blank_frame());
        grid
    }

    /// The glyph that a cell shows.
    pub fn glyph_at(&self, column: usize, row: usize) -> (g: u8)
        requires
            column < SCREEN_WIDTH,
            row < SCREEN_HEIGHT,
        ensures
            g == self@[cell_index(column as int, row as int)].glyph,
    {
        proof {
            use_type_invariant(self);
        }
        self.glyphs[index_of(column, row)]
    }

    /// The inverse depth that a cell holds.
    pub fn depth_at(&self, column: usize, row: usize) -> (d: Single)
        requires
            column < SCREEN_WIDTH,
            row < SCREEN_HEIGHT,
        ensures
            d == self@[cell_index(column as int, row as int)].depth,
    {
        proof {
            use_type_invariant(self);
        }
        self.depths[index_of(column, row)]
    }

    /// Draws one sample: its cell takes the sample's glyph and depth if the
    /// sample is lit and nearer than what the cell holds; otherwise the
    /// grid stays as it is.
    pub fn plot(&mut self, sample: &Sample)
        ensures
            final(self)@ == plotted(old(self)@, *sample),
    {
        proof {
            use_type_invariant(&*self);
        }
        if !sample.is_lit() {
            return ;
        }
        let (column, row) = sample.locate();
        let index = index_of(column, row);
        if sample.inverse_depth.is_above(&self.depths[index]) {
            self.depths[index] = sample.inverse_depth;
            self.glyphs[index] = sample.shade();
            assert(self@ =~= plotted(old(self)@, *sample));
        }
    }
}

} // verus!
