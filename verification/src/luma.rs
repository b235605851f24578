//! Brightness computation and the glyph ramp for `LuminanceGlyph` mode:
//! a fixed-point BT.601-style luma weighting maps each RGB pixel to a
//! brightness in 0..=255, which selects one of ten ramp glyphs ordered
//! darkest to brightest.

use vstd::prelude::*;

verus! {

/// Number of glyphs in the brightness ramp.
pub open spec fn ramp_len() -> int {
    10
}

/// Fixed-point perceptual brightness of an RGB pixel:
/// `(r*77 + g*150 + b*29) / 256`, always in 0..=255.
pub open spec fn spec_brightness(r: u8, g: u8, b: u8) -> int {
    (r * 77 + g * 150 + b * 29) / 256
}

/// Ramp index selected by a brightness value: `brightness * 9 / 255`.
pub open spec fn spec_glyph_index(brightness: int) -> int {
    (brightness * (ramp_len() - 1)) / 255
}

/// The ramp glyph (an ASCII byte) at index `i`, darkest to brightest:
/// the characters of `" .:-=+*#%@"`.
pub open spec fn spec_ramp_glyph(i: int) -> u8 {
    if i == 0 { 32u8 }       // ' '
    else if i == 1 { 46u8 }  // '.'
    else if i == 2 { 58u8 }  // ':'
    else if i == 3 { 45u8 }  // '-'
    else if i == 4 { 61u8 }  // '='
    else if i == 5 { 43u8 }  // '+'
    else if i == 6 { 42u8 }  // '*'
    else if i == 7 { 35u8 }  // '#'
    else if i == 8 { 37u8 }  // '%'
    else { 64u8 }            // '@'
}

/// The glyph chosen for a pixel: ramp glyph at the index selected by its
/// brightness.
pub open spec fn spec_luma_glyph(r: u8, g: u8, b: u8) -> u8 {
    spec_ramp_glyph(spec_glyph_index(spec_brightness(r, g, b)))
}

/// Compute the fixed-point brightness of one pixel.
pub fn brightness(r: u8, g: u8, b: u8) -> (v: u8)
    ensures
        v == spec_brightness(r, g, b),
{
    let sum: u32 = (r as u32) * 77 + (g as u32) * 150 + (b as u32) * 29;
    (sum / 256) as u8
}

/// Select the ramp index for a brightness value.
pub fn glyph_index(brightness: u8) -> (i: u8)
    ensures
        i == spec_glyph_index(brightness as int),
        i < ramp_len(),
{
    ((brightness as u32) * 9 / 255) as u8
}

/// Look up the ramp glyph byte at index `i`.
pub fn ramp_glyph(i: u8) -> (g: u8)
    requires
        i < ramp_len(),
    ensures
        g == spec_ramp_glyph(i as int),
{
    match i {
        0 => 32,
        1 => 46,
        2 => 58,
        3 => 45,
        4 => 61,
        5 => 43,
        6 => 42,
        7 => 35,
        8 => 37,
        _ => 64,
    }
}

/// The glyph for one pixel's RGB value.
pub fn luma_glyph(r: u8, g: u8, b: u8) -> (g_: u8)
    ensures
        g_ == spec_luma_glyph(r, g, b),
{
    ramp_glyph(glyph_index(brightness(r, g, b)))
}

/// Monotonicity of the luminance mapping: a pixel at least as bright as
/// another is never mapped to an earlier (darker) ramp index.
pub proof fn lemma_glyph_index_monotonic(b1: int, b2: int)
    requires
        0 <= b1 <= b2 <= 255,
    ensures
        spec_glyph_index(b1) <= spec_glyph_index(b2),
{
    assert((b1 * 9) / 255 <= (b2 * 9) / 255) by (nonlinear_arith)
        requires 0 <= b1 <= b2;
}

} // verus!
