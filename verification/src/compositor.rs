//! Composing a frame from a run of samples, and what holds of the result.

use vstd::prelude::*;
use crate::grid::{blank_cell, blank_frame, plotted, wins, Cell, Grid, BLANK};
use crate::ramp::{level_of, ramp, RAMP_LENGTH};
use crate::sample::Sample;
use crate::screen::SCREEN_CELLS;
use crate::single::lemma_above_zero;

verus! {

/// The frame that a run of samples leaves: each sample in turn is drawn
/// into the frame left by those before it, starting from a blank frame.
pub open spec fn composed(samples: Seq<Sample>) -> Seq<Cell>
    decreases samples.len(),
{
    if samples.len() == 0 {
        blank_frame()
    } else {
        plotted(composed(samples.drop_last()), samples.last())
    }
}

/// What a cell holds once a sample has taken it.
pub open spec fn showing(sample: Sample) -> Cell {
    Cell { glyph: sample.glyph(), depth: sample.inverse_depth }
}

/// A sample contends for a cell if it falls into that cell, is lit, and
/// has an inverse depth above zero.
pub open spec fn contends(sample: Sample, cell: int) -> bool {
    sample.cell() == cell && sample.lit() && sample.inverse_depth.positive()
}

/// Sample `k` is the first among the nearest contenders for a cell: no
/// contender is nearer, and every contender before it is farther.
pub open spec fn first_nearest(samples: Seq<Sample>, cell: int, k: int) -> bool {
    &&& 0 <= k < samples.len()
    &&& contends(samples[k], cell)
    &&& forall|j: int|
        0 <= j < samples.len() && contends(#[trigger] samples[j], cell)
            ==> !samples[j].inverse_depth.above(samples[k].inverse_depth)
    &&& forall|j: int|
        0 <= j < k && contends(#[trigger] samples[j], cell)
            ==> samples[k].inverse_depth.above(samples[j].inverse_depth)
}

/// Composes a frame from a run of samples.
pub fn compose(samples: &[Sample]) -> (grid: Grid)
    ensures
        grid@ == composed(samples@),
{
    let mut grid = Grid::new();
    let mut done: usize = 0;
    while done < samples.len()
        invariant
            done <= samples.len(),
            grid@ == composed(samples@.take(done as int)),
        decreases samples.len() - done,
    {
        grid.plot(&samples[done]);
        proof {
            let grown = samples@.take(done + 1);
            assert(grown.drop_last() =~= samples@.take(done as int));
            assert(grown.last() == samples@[done as int]);
        }
        done += 1;
    }
    assert(samples@.take(done as int) =~= samples@);
    grid
}

/// Every sample falls into a cell of the display.
pub proof fn lemma_cell_on_screen(sample: Sample)
    ensures
        0 <= sample.cell() < SCREEN_CELLS,
{
}

/// A composed frame has one cell for each place on the display.
pub proof fn lemma_composed_size(samples: Seq<Sample>)
    ensures
        composed(samples).len() == SCREEN_CELLS,
    decreases samples.len(),
{
    if samples.len() > 0 {
        lemma_composed_size(samples.drop_last());
        lemma_cell_on_screen(samples.last());
    }
}

/// A sample that is not nearer than what its cell holds changes nothing.
pub proof fn lemma_not_nearer_keeps_frame(frame: Seq<Cell>, sample: Sample)
    requires
        !sample.inverse_depth.above(frame[sample.cell()].depth),
    ensures
        plotted(frame, sample) == frame,
{
}

/// Drawing never moves a cell farther away: what a cell held before a
/// sample is not nearer than what it holds after.
pub proof fn lemma_depth_never_recedes(frame: Seq<Cell>, sample: Sample, cell: int)
    requires
        frame.len() == SCREEN_CELLS,
        0 <= cell < SCREEN_CELLS,
    ensures
        !frame[cell].depth.above(plotted(frame, sample)[cell].depth),
{
    lemma_cell_on_screen(sample);
}

/// What a cell holds stays as it is through any run of later samples of
/// which none that falls into the cell wins it: samples that are not nearer
/// than what the cell holds, or that face away from the light, change
/// nothing there, whatever is drawn into other cells meanwhile.
pub proof fn lemma_cell_kept(before: Seq<Sample>, later: Seq<Sample>, cell: int)
    requires
        0 <= cell < SCREEN_CELLS,
        forall|k: int|
            0 <= k < later.len() && (#[trigger] later[k]).cell() == cell ==> !wins(
                composed(before)[cell],
                later[k],
            ),
    ensures
        composed(before + later)[cell] == composed(before)[cell],
    decreases later.len(),
{
    if later.len() == 0 {
        assert(before + later =~= before);
    } else {
        let all = before + later;
        assert(all.drop_last() =~= before + later.drop_last());
        assert(all.last() == later.last());
        lemma_cell_kept(before, later.drop_last(), cell);
        lemma_composed_size(all.drop_last());
        lemma_cell_on_screen(later.last());
    }
}

/// A cell of a composed frame is blank or shows a glyph of the ramp.
pub proof fn lemma_glyph_from_ramp(samples: Seq<Sample>, cell: int)
    requires
        0 <= cell < SCREEN_CELLS,
    ensures
        composed(samples)[cell].glyph == BLANK || exists|level: int|
            0 <= level < RAMP_LENGTH && composed(samples)[cell].glyph == #[trigger] ramp()[level],
    decreases samples.len(),
{
    if samples.len() > 0 {
        let earlier = samples.drop_last();
        let newest = samples.last();
        lemma_glyph_from_ramp(earlier, cell);
        lemma_composed_size(earlier);
        lemma_cell_on_screen(newest);
        if newest.cell() == cell && wins(composed(earlier)[cell], newest) {
            let level = level_of(newest.luminance) as int;
            assert(composed(samples)[cell].glyph == ramp()[level]);
        }
    }
}

/// The index of the sample that a cell shows, or -1 for a cell that no
/// sample contends for.
proof fn lemma_leader(samples: Seq<Sample>, cell: int) -> (k: int)
    requires
        0 <= cell < SCREEN_CELLS,
    ensures
        k == -1 || first_nearest(samples, cell, k),
        k == -1 ==> composed(samples)[cell] == blank_cell(),
        k == -1 ==> forall|j: int|
            0 <= j < samples.len() ==> !contends(#[trigger] samples[j], cell),
        k != -1 ==> composed(samples)[cell] == showing(samples[k]),
    decreases samples.len(),
{
    if samples.len() == 0 {
        -1
    } else {
        let earlier = samples.drop_last();
        let newest = samples.last();
        let frame = composed(earlier);
        let leader = lemma_leader(earlier, cell);
        lemma_composed_size(earlier);
        lemma_cell_on_screen(newest);
        lemma_above_zero(newest.inverse_depth);
        assert(forall|j: int| 0 <= j < earlier.len() ==> earlier[j] == samples[j]);
        if newest.cell() == cell && wins(frame[cell], newest) {
            let k = samples.len() - 1;
            assert(first_nearest(samples, cell, k));
            k
        } else {
            if leader != -1 {
                assert(first_nearest(samples, cell, leader));
            }
            leader
        }
    }
}

/// Each cell of a composed frame shows the nearest sample that contends for
/// it, and of several equally near the one that came first; a cell that no
/// sample contends for is blank.
pub proof fn lemma_cell_shows_first_nearest(samples: Seq<Sample>, cell: int)
    requires
        0 <= cell < SCREEN_CELLS,
    ensures
        (forall|j: int| 0 <= j < samples.len() ==> !contends(#[trigger] samples[j], cell))
            ==> composed(samples)[cell] == blank_cell(),
        forall|k: int|
            #![trigger first_nearest(samples, cell, k)]
            first_nearest(samples, cell, k) ==> composed(samples)[cell] == showing(samples[k]),
        (exists|j: int| 0 <= j < samples.len() && contends(#[trigger] samples[j], cell))
            ==> exists|k: int| first_nearest(samples, cell, k),
{
    let leader = lemma_leader(samples, cell);
    assert forall|k: int|
        #![trigger first_nearest(samples, cell, k)]
        first_nearest(samples, cell, k) implies composed(samples)[cell] == showing(
        samples[k],
    ) by {
        assert(leader != -1);
        if k < leader {
            assert(samples[leader].inverse_depth.above(samples[k].inverse_depth));
        } else if leader < k {
            assert(samples[k].inverse_depth.above(samples[leader].inverse_depth));
        }
    }
}

} // verus!
