use torus::compositor::compose;
use torus::grid::{Grid, BLANK};
use torus::sample::Sample;
use torus::screen::{index_of, SCREEN_CELLS, SCREEN_HEIGHT, SCREEN_WIDTH};
use torus::single::Single;

fn single(x: f32) -> Single {
    Single { bits: x.to_bits() }
}

fn sample(screen_x: f32, screen_y: f32, inverse_depth: f32, luminance: f32) -> Sample {
    Sample {
        screen_x: single(screen_x),
        screen_y: single(screen_y),
        inverse_depth: single(inverse_depth),
        luminance: single(luminance),
    }
}

fn lit_cells(grid: &Grid) -> Vec<(usize, usize, u8)> {
    let mut found = Vec::new();
    for row in 0..SCREEN_HEIGHT {
        for column in 0..SCREEN_WIDTH {
            let glyph = grid.glyph_at(column, row);
            if glyph != BLANK {
                found.push((column, row, glyph));
            }
        }
    }
    found
}

#[test]
fn screen_is_forty_by_forty() {
    assert_eq!(SCREEN_WIDTH, 40);
    assert_eq!(SCREEN_HEIGHT, 40);
    assert_eq!(SCREEN_CELLS, SCREEN_WIDTH * SCREEN_HEIGHT);
}

#[test]
fn cells_are_numbered_row_after_row() {
    assert_eq!(index_of(0, 0), 0);
    assert_eq!(index_of(39, 0), 39);
    assert_eq!(index_of(0, 1), 40);
    assert_eq!(index_of(7, 3), 127);
    assert_eq!(index_of(39, 39), 1599);
}

#[test]
fn new_grid_is_blank_at_depth_zero() {
    let grid = Grid::new();
    for row in 0..SCREEN_HEIGHT {
        for column in 0..SCREEN_WIDTH {
            assert_eq!(grid.glyph_at(column, row), b' ');
            assert_eq!(grid.depth_at(column, row).bits, 0);
        }
    }
}

#[test]
fn sample_is_located_by_cutting_towards_zero() {
    assert_eq!(sample(20.0, 20.0, 0.2, 1.0).locate(), (20, 20));
    assert_eq!(sample(12.99, 7.01, 0.2, 1.0).locate(), (12, 7));
    assert_eq!(sample(0.5, 0.999, 0.2, 1.0).locate(), (0, 0));
    assert_eq!(sample(38.999, 39.0, 0.2, 1.0).locate(), (38, 39));
}

#[test]
fn sample_off_screen_is_held_at_the_edge() {
    assert_eq!(sample(-0.5, -3.0, 0.2, 1.0).locate(), (0, 0));
    assert_eq!(sample(40.0, 39.999, 0.2, 1.0).locate(), (39, 39));
    assert_eq!(sample(1000.0, -1000.0, 0.2, 1.0).locate(), (39, 0));
    assert_eq!(sample(f32::INFINITY, f32::NEG_INFINITY, 0.2, 1.0).locate(), (39, 0));
    assert_eq!(sample(f32::NAN, f32::NAN, 0.2, 1.0).locate(), (0, 0));
}

#[test]
fn sample_is_lit_only_above_zero() {
    assert!(sample(1.0, 1.0, 0.2, 0.001).is_lit());
    assert!(sample(1.0, 1.0, 0.2, 1.4).is_lit());
    assert!(!sample(1.0, 1.0, 0.2, 0.0).is_lit());
    assert!(!sample(1.0, 1.0, 0.2, -0.0).is_lit());
    assert!(!sample(1.0, 1.0, 0.2, -0.7).is_lit());
    assert!(!sample(1.0, 1.0, 0.2, f32::NAN).is_lit());
}

#[test]
fn sample_shade_follows_luminance() {
    assert_eq!(sample(1.0, 1.0, 0.2, 0.01).shade(), b'.');
    assert_eq!(sample(1.0, 1.0, 0.2, 1.0).shade(), b'*');
    assert_eq!(sample(1.0, 1.0, 0.2, 1.41).shade(), b'@');
}

#[test]
fn plot_draws_a_lit_sample_into_its_cell() {
    let mut grid = Grid::new();
    grid.plot(&sample(12.6, 7.2, 0.2, 1.0));
    assert_eq!(grid.glyph_at(12, 7), b'*');
    assert_eq!(grid.depth_at(12, 7).bits, 0.2_f32.to_bits());
    assert_eq!(lit_cells(&grid), vec![(12, 7, b'*')]);
}

#[test]
fn plot_puts_x_across_and_y_down() {
    let mut grid = Grid::new();
    grid.plot(&sample(30.0, 2.0, 0.2, 0.5));
    assert_eq!(grid.glyph_at(30, 2), b':');
    assert_eq!(grid.glyph_at(2, 30), b' ');
}

#[test]
fn plot_skips_a_sample_that_faces_away() {
    let mut grid = Grid::new();
    grid.plot(&sample(12.0, 7.0, 0.9, 0.0));
    grid.plot(&sample(12.0, 7.0, 0.9, -0.5));
    grid.plot(&sample(12.0, 7.0, 0.9, f32::NAN));
    assert!(lit_cells(&grid).is_empty());
    assert_eq!(grid.depth_at(12, 7).bits, 0);
}

#[test]
fn plot_skips_a_facing_away_sample_even_when_nearer() {
    let mut grid = Grid::new();
    grid.plot(&sample(12.0, 7.0, 0.2, 1.0));
    grid.plot(&sample(12.0, 7.0, 0.9, -1.0));
    assert_eq!(grid.glyph_at(12, 7), b'*');
    assert_eq!(grid.depth_at(12, 7).bits, 0.2_f32.to_bits());
}

#[test]
fn plot_lets_the_nearer_sample_take_the_cell() {
    let mut grid = Grid::new();
    grid.plot(&sample(12.0, 7.0, 0.2, 1.0));
    grid.plot(&sample(12.3, 7.9, 0.25, 0.5));
    assert_eq!(grid.glyph_at(12, 7), b':');
    assert_eq!(grid.depth_at(12, 7).bits, 0.25_f32.to_bits());
}

#[test]
fn plot_keeps_the_cell_against_a_farther_sample() {
    let mut grid = Grid::new();
    grid.plot(&sample(12.0, 7.0, 0.25, 0.5));
    grid.plot(&sample(12.0, 7.0, 0.2, 1.0));
    assert_eq!(grid.glyph_at(12, 7), b':');
    assert_eq!(grid.depth_at(12, 7).bits, 0.25_f32.to_bits());
}

#[test]
fn plot_lets_the_first_of_equally_near_samples_stay() {
    let mut grid = Grid::new();
    grid.plot(&sample(12.0, 7.0, 0.25, 0.5));
    grid.plot(&sample(12.0, 7.0, 0.25, 1.0));
    assert_eq!(grid.glyph_at(12, 7), b':');
}

#[test]
fn plot_never_draws_at_or_behind_depth_zero() {
    let mut grid = Grid::new();
    grid.plot(&sample(12.0, 7.0, 0.0, 1.0));
    grid.plot(&sample(12.0, 7.0, -0.0, 1.0));
    grid.plot(&sample(12.0, 7.0, -0.3, 1.0));
    grid.plot(&sample(12.0, 7.0, f32::NAN, 1.0));
    assert!(lit_cells(&grid).is_empty());
}

#[test]
fn plot_leaves_a_cell_alone_once_nothing_nearer_comes() {
    let mut grid = Grid::new();
    grid.plot(&sample(5.0, 5.0, 0.3, 1.2));
    let glyph = grid.glyph_at(5, 5);
    let depth = grid.depth_at(5, 5).bits;
    let mut offered: f32 = 0.3;
    while offered > -0.1 {
        grid.plot(&sample(5.0, 5.0, offered, 0.4));
        assert_eq!(grid.glyph_at(5, 5), glyph);
        assert_eq!(grid.depth_at(5, 5).bits, depth);
        offered -= 0.01;
    }
    grid.plot(&sample(6.0, 5.0, 0.9, 0.4));
    assert_eq!(grid.glyph_at(5, 5), glyph);
    assert_eq!(grid.depth_at(5, 5).bits, depth);
}

#[test]
fn compose_of_nothing_is_blank() {
    let grid = compose(&Vec::new());
    assert!(lit_cells(&grid).is_empty());
}

#[test]
fn compose_shows_the_first_of_the_nearest_in_each_cell() {
    let samples = vec![
        sample(3.0, 4.0, 0.20, 0.3),
        sample(9.0, 9.0, 0.10, 0.6),
        sample(3.5, 4.5, 0.30, 0.9),
        sample(3.2, 4.2, 0.30, 1.3),
        sample(3.0, 4.0, 0.40, -1.0),
        sample(9.0, 9.0, 0.05, 1.3),
        sample(3.9, 4.9, 0.25, 0.1),
        sample(20.0, 0.0, 0.0, 1.0),
    ];
    let grid = compose(&samples);
    assert_eq!(lit_cells(&grid), vec![(3, 4, b'!'), (9, 9, b':')]);
    assert_eq!(grid.depth_at(3, 4).bits, 0.30_f32.to_bits());
    assert_eq!(grid.depth_at(9, 9).bits, 0.10_f32.to_bits());
}

#[test]
fn compose_is_plot_after_plot() {
    let samples = vec![
        sample(1.0, 1.0, 0.2, 0.2),
        sample(1.0, 1.0, 0.3, 0.7),
        sample(2.0, 1.0, 0.1, 1.1),
        sample(1.0, 1.0, 0.25, 1.4),
    ];
    let composed = compose(&samples);
    let mut plotted = Grid::new();
    for s in &samples {
        plotted.plot(s);
    }
    for row in 0..SCREEN_HEIGHT {
        for column in 0..SCREEN_WIDTH {
            assert_eq!(composed.glyph_at(column, row), plotted.glyph_at(column, row));
            assert_eq!(composed.depth_at(column, row).bits, plotted.depth_at(column, row).bits);
        }
    }
}
