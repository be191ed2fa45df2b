//! The luminance ramp: twelve glyphs from dim to bright.

use vstd::prelude::*;
use vstd::arithmetic::div_mod::lemma_multiply_divide_lt;
use vstd::arithmetic::power2::{lemma2_to64, lemma_pow2_pos, pow2};
use crate::single::Single;

verus! {

/// The number of glyphs on the ramp.
pub const RAMP_LENGTH: usize = 12;

/// The glyphs of the ramp, dimmest first: `.,-~:;=!*#$@`.
pub open spec fn ramp() -> Seq<u8> {
    seq![46u8, 44u8, 45u8, 126u8, 58u8, 59u8, 61u8, 33u8, 42u8, 35u8, 36u8, 64u8]
}

/// The place on the ramp for a luminance: the whole part of eight times the
/// luminance, held to the last place of the ramp.
pub open spec fn level_of(luminance: Single) -> nat {
    if luminance.floor_scaled(3) < RAMP_LENGTH {
        luminance.floor_scaled(3)
    } else {
        (RAMP_LENGTH - 1) as nat
    }
}

/// The glyph that stands for a luminance.
pub open spec fn glyph_of(luminance: Single) -> u8 {
    ramp()[level_of(luminance) as int]
}

/// The glyph at a place on the ramp.
pub fn glyph(level: usize) -> (g: u8)
    requires
        level < RAMP_LENGTH,
    ensures
        g == ramp()[level as int],
{
    let glyphs: [u8; RAMP_LENGTH] = [46, 44, 45, 126, 58, 59, 61, 33, 42, 35, 36, 64];
    glyphs[level]
}

/// The place on the ramp for a luminance.
pub fn level(luminance: &Single) -> (r: usize)
    ensures
        r == level_of(*luminance),
        r < RAMP_LENGTH,
{
    luminance.capped_floor(3, (RAMP_LENGTH - 1) as u64) as usize
}

/// The glyph that stands for a luminance.
pub fn shade(luminance: &Single) -> (g: u8)
    ensures
        g == glyph_of(*luminance),
{
    glyph(level(luminance))
}

/// A luminance above zero whose square is at most two finds its place on the
/// ramp without being held back: eight times such a luminance has a whole
/// part of at most eleven.
pub proof fn lemma_level_within_ramp(luminance: Single)
    requires
        luminance.positive(),
        luminance.scaled() * luminance.scaled() <= 2 * (pow2(149) * pow2(149)),
    ensures
        luminance.floor_scaled(3) < RAMP_LENGTH,
        level_of(luminance) == luminance.floor_scaled(3),
{
    let s = luminance.magnitude() as int;
    let u = pow2(149) as int;
    lemma_pow2_pos(149);
    lemma2_to64();
    assert(2 * s < 3 * u) by (nonlinear_arith)
        requires
            s * s <= 2 * (u * u),
            s > 0,
            u > 0,
    ;
    assert(s * 8 < u * 12);
    lemma_multiply_divide_lt(s * 8, u, 12);
}

} // verus!
