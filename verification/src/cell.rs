//! Terminal cell model: an RGB color, a glyph, and one cell as handed
//! from the pixel mapper to the escape encoder.

use vstd::prelude::*;

verus! {

/// One 8-bit-per-channel RGB color.
#[derive(Clone, Copy, PartialEq, Eq, Structural, Debug)]
pub struct Rgb {
    pub r: u8,
    pub g: u8,
    pub b: u8,
}

/// What a cell displays: the fixed upper-half-block character (which
/// paints its top half in the foreground color and its bottom half in
/// the background color), or a single ASCII byte from the glyph ramp.
#[derive(Clone, Copy, PartialEq, Eq, Structural, Debug)]
pub enum Glyph {
    UpperHalf,
    Ascii(u8),
}

/// One terminal cell: a glyph, its foreground color, and an optional
/// background color (absent cells leave the terminal default visible).
#[derive(Clone, Copy, Debug)]
pub struct Cell {
    pub glyph: Glyph,
    pub fg: Rgb,
    pub bg: Option<Rgb>,
}

} // verus!
