//! Turning a frame into the bytes that show it on a terminal.

use vstd::prelude::*;
use crate::compositor::{compose, composed};
use crate::grid::{Cell, Grid};
use crate::sample::Sample;
use crate::screen::{cell_index, SCREEN_HEIGHT, SCREEN_WIDTH};

verus! {

/// The byte that ends a line.
pub const NEWLINE: u8 = 10;

/// The number of bytes of a frame's text: the cursor sequence, then for
/// each row its glyphs and a newline.
pub const FRAME_BYTES: usize = 3 + SCREEN_HEIGHT * (SCREEN_WIDTH + 1);

/// The sequence that sends the cursor to the top left corner: escape, `[`,
/// `H`.
pub open spec fn cursor_home() -> Seq<u8> {
    seq![27u8, 91u8, 72u8]
}

/// One row of a frame as text: its glyphs from left to right, then a
/// newline.
pub open spec fn line(frame: Seq<Cell>, row: int) -> Seq<u8> {
    Seq::new(SCREEN_WIDTH as nat, |column: int| frame[cell_index(column, row)].glyph).push(
        NEWLINE,
    )
}

/// The first `rows` rows of a frame as text, from the top down.
pub open spec fn lines(frame: Seq<Cell>, rows: nat) -> Seq<u8>
    decreases rows,
{
    if rows == 0 {
        Seq::empty()
    } else {
        lines(frame, (rows - 1) as nat) + line(frame, rows - 1)
    }
}

/// A frame as text: the cursor goes home, then every row follows.
pub open spec fn frame_text(frame: Seq<Cell>) -> Seq<u8> {
    cursor_home() + lines(frame, SCREEN_HEIGHT as nat)
}

/// Every row of text is as long as every other.
pub proof fn lemma_lines_length(frame: Seq<Cell>, rows: nat)
    ensures
        lines(frame, rows).len() == rows * (SCREEN_WIDTH + 1),
    decreases rows,
{
    if rows > 0 {
        lemma_lines_length(frame, (rows - 1) as nat);
    }
}

/// The text of a frame is always of the same length.
pub proof fn lemma_frame_text_length(frame: Seq<Cell>)
    ensures
        frame_text(frame).len() == FRAME_BYTES,
{
    lemma_lines_length(frame, SCREEN_HEIGHT as nat);
}

/// Where a row's bytes stand among the first `rows` rows of text.
proof fn lemma_lines_at(frame: Seq<Cell>, rows: nat, row: int, offset: int)
    requires
        0 <= row < rows,
        0 <= offset <= SCREEN_WIDTH,
    ensures
        lines(frame, rows)[row * (SCREEN_WIDTH + 1) + offset] == line(frame, row)[offset],
    decreases rows,
{
    let above = lines(frame, (rows - 1) as nat);
    let index = row * (SCREEN_WIDTH + 1) + offset;
    lemma_lines_length(frame, (rows - 1) as nat);
    assert(lines(frame, rows) == above + line(frame, rows - 1));
    if row < rows - 1 {
        lemma_lines_at(frame, (rows - 1) as nat, row, offset);
        assert(index < above.len()) by (nonlinear_arith)
            requires
                index == row * (SCREEN_WIDTH + 1) + offset,
                above.len() == (rows - 1) * (SCREEN_WIDTH + 1),
                0 <= row < rows - 1,
                0 <= offset <= SCREEN_WIDTH,
        ;
    } else {
        assert(index == above.len() + offset) by (nonlinear_arith)
            requires
                index == row * (SCREEN_WIDTH + 1) + offset,
                above.len() == (rows - 1) * (SCREEN_WIDTH + 1),
                row == rows - 1,
        ;
    }
}

/// Where a cell's glyph stands in the text of a frame, and where the
/// newlines stand: after the three bytes that send the cursor home, each
/// row takes one byte for each of its cells, from left to right, and one
/// more for the newline.
pub proof fn lemma_frame_text_at(frame: Seq<Cell>, column: int, row: int)
    requires
        0 <= column < SCREEN_WIDTH,
        0 <= row < SCREEN_HEIGHT,
    ensures
        frame_text(frame)[3 + row * (SCREEN_WIDTH + 1) + column] == frame[cell_index(
            column,
            row,
        )].glyph,
        frame_text(frame)[3 + row * (SCREEN_WIDTH + 1) + SCREEN_WIDTH] == NEWLINE,
        frame_text(frame).subrange(0, 3) == cursor_home(),
{
    lemma_lines_at(frame, SCREEN_HEIGHT as nat, row, column);
    lemma_lines_at(frame, SCREEN_HEIGHT as nat, row, SCREEN_WIDTH as int);
    lemma_lines_length(frame, SCREEN_HEIGHT as nat);
    assert(frame_text(frame).subrange(0, 3) =~= cursor_home());
}

/// The text of a frame depends on the samples alone: two runs that hold
/// the same samples in the same order give the same text, byte for byte.
pub proof fn lemma_same_samples_same_text(first: Seq<Sample>, second: Seq<Sample>)
    requires
        first.len() == second.len(),
        forall|i: int| 0 <= i < first.len() ==> first[i] == second[i],
    ensures
        frame_text(composed(first)) == frame_text(composed(second)),
{
    assert(first =~= second);
}

/// The bytes that show a grid on a terminal in place of what was there.
pub fn present(grid: &Grid) -> (text: Vec<u8>)
    ensures
        text@ == frame_text(grid@),
        text@.len() == FRAME_BYTES,
{
    let mut text: Vec<u8> = Vec::with_capacity(FRAME_BYTES);
    text.push(27);
    text.push(91);
    text.push(72);
    assert(text@ =~= cursor_home() + lines(grid@, 0));
    let mut row: usize = 0;
    while row < SCREEN_HEIGHT
        invariant
            row <= SCREEN_HEIGHT,
            text@ == cursor_home() + lines(grid@, row as nat),
        decreases SCREEN_HEIGHT - row,
    {
        let ghost above = text@;
        let mut column: usize = 0;
        while column < SCREEN_WIDTH
            invariant
                row < SCREEN_HEIGHT,
                column <= SCREEN_WIDTH,
                text@.len() == above.len() + column,
                text@.take(above.len() as int) == above,
                forall|c: int|
                    0 <= c < column ==> text@[above.len() + c] == grid@[cell_index(
                        c,
                        row as int,
                    )].glyph,
            decreases SCREEN_WIDTH - column,
        {
            let glyph = grid.glyph_at(column, row);
            text.push(glyph);
            assert(text@.take(above.len() as int) =~= above);
            column += 1;
        }
        text.push(NEWLINE);
        assert(text@ =~= above + line(grid@, row as int));
        assert(above + line(grid@, row as int) =~= cursor_home() + lines(grid@, (row + 1) as nat));
        row += 1;
    }
    proof {
        lemma_frame_text_length(grid@);
    }
    text
}

/// The text of the frame that a run of samples leaves.
pub fn render_frame(samples: &[Sample]) -> (text: Vec<u8>)
    ensures
        text@ == frame_text(composed(samples@)),
        text@.len() == FRAME_BYTES,
{
    let grid = compose(samples);
    present(&grid)
}

} // verus!
