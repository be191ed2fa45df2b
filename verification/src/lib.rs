//! Rasterises samples of a torus surface into a frame of text.
//!
//! The geometry of the surface is the caller's business: it hands over, for
//! each sampled surface point, the projected screen position, the inverse
//! depth and the luminance, each as the bit pattern of a single-precision
//! number. Everything that decides what ends up on screen is here: which
//! cell a sample falls into, whether it faces the light, whether it is nearer
//! than what the cell already shows, which glyph stands for its brightness,
//! and the bytes that put the finished frame on a terminal.

pub mod compositor;
pub mod grid;
pub mod presenter;
pub mod ramp;
pub mod sample;
pub mod screen;
pub mod single;

pub use compositor::compose;
pub use grid::Grid;
pub use presenter::{present, render_frame};
pub use sample::Sample;
pub use screen::{SCREEN_HEIGHT, SCREEN_WIDTH};
pub use single::Single;
