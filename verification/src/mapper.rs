//! Pixel mapper: converts one row of a raw interleaved-RGB frame into a
//! row of terminal cells, under either render mode. A frame holds exactly
//! `width * height * 3` bytes, three channels per pixel, row-major, no
//! padding.

use vstd::prelude::*;
use crate::cell::{Cell, Glyph, Rgb};
use crate::geometry::{RenderMode, TargetRaster};
use crate::luma::spec_luma_glyph;
use crate::luma::luma_glyph;

verus! {

/// Byte offset of pixel `(x, y)` in a frame of the given width.
pub open spec fn pixel_index(width: int, x: int, y: int) -> int {
    (y * width + x) * 3
}

/// The exact number of bytes a frame for this raster holds.
pub open spec fn spec_frame_byte_len(raster: TargetRaster) -> int {
    raster.width * raster.height * 3
}

/// `spec_frame_byte_len` as an executable value.
pub fn frame_byte_len(raster: TargetRaster) -> (n: u64)
    requires
        raster.wf(),
    ensures
        n == spec_frame_byte_len(raster),
{
    proof {
        vstd::arithmetic::mul::lemma_mul_upper_bound(
            raster.width as int, 65534, raster.height as int, 131070);
    }
    (raster.width as u64) * (raster.height as u64) * 3
}

/// The pixel at `(x, y)` of a raw frame.
pub open spec fn spec_pixel(frame: Seq<u8>, width: int, x: int, y: int) -> Rgb {
    Rgb {
        r: frame[pixel_index(width, x, y)],
        g: frame[pixel_index(width, x, y) + 1],
        b: frame[pixel_index(width, x, y) + 2],
    }
}

/// Number of output rows a frame produces: `CellDoubled` consumes source
/// rows in pairs, `LuminanceGlyph` one per output row.
pub open spec fn display_height(raster: TargetRaster, mode: RenderMode) -> int {
    match mode {
        RenderMode::CellDoubled => (raster.height as int) / 2,
        RenderMode::LuminanceGlyph => raster.height as int,
    }
}

/// The cell at output position `(x, y)`: in `CellDoubled` mode the pixel
/// at `(x, 2y)` is the foreground and `(x, 2y+1)` the background of an
/// upper-half-block glyph; in `LuminanceGlyph` mode the pixel at `(x, y)`
/// supplies both the ramp glyph (via its brightness) and the foreground
/// color, with no background.
pub open spec fn spec_cell_at(
    frame: Seq<u8>, raster: TargetRaster, mode: RenderMode, x: int, y: int) -> Cell {
    let w = raster.width as int;
    match mode {
        RenderMode::CellDoubled => Cell {
            glyph: Glyph::UpperHalf,
            fg: spec_pixel(frame, w, x, 2 * y),
            bg: Some(spec_pixel(frame, w, x, 2 * y + 1)),
        },
        RenderMode::LuminanceGlyph => {
            let p = spec_pixel(frame, w, x, y);
            Cell { glyph: Glyph::Ascii(spec_luma_glyph(p.r, p.g, p.b)), fg: p, bg: None }
        },
    }
}

/// One full output row of cells.
pub open spec fn spec_row_cells(
    frame: Seq<u8>, raster: TargetRaster, mode: RenderMode, y: int) -> Seq<Cell> {
    Seq::new(raster.width as nat, |x: int| spec_cell_at(frame, raster, mode, x, y))
}

/// Read the pixel at `(x, y)` from a frame buffer of the exact size for
/// `raster`.
pub fn read_pixel(frame: &Vec<u8>, raster: TargetRaster, x: u32, y: u32) -> (p: Rgb)
    requires
        raster.wf(),
        frame@.len() == spec_frame_byte_len(raster),
        x < raster.width,
        y < raster.height,
    ensures
        p == spec_pixel(frame@, raster.width as int, x as int, y as int),
{
    let n: usize = frame.len();
    proof {
        assert((y as int) * (raster.width as int) + (x as int)
            < (raster.width as int) * (raster.height as int)) by (nonlinear_arith)
            requires x < raster.width, y < raster.height;
        assert(((y as int) * (raster.width as int) + (x as int)) * 3 + 2 < n);
    }
    let base: usize = ((y as usize) * (raster.width as usize) + (x as usize)) * 3;
    Rgb { r: frame[base], g: frame[base + 1], b: frame[base + 2] }
}

/// Map output row `y` of a frame to its cells.
pub fn map_row(frame: &Vec<u8>, raster: TargetRaster, mode: RenderMode, y: u32) -> (row: Vec<Cell>)
    requires
        raster.wf(),
        frame@.len() == spec_frame_byte_len(raster),
        y < display_height(raster, mode),
    ensures
        row@ == spec_row_cells(frame@, raster, mode, y as int),
{
    let mut row: Vec<Cell> = Vec::new();
    let mut x: u32 = 0;
    while x < raster.width
        invariant
            raster.wf(),
            frame@.len() == spec_frame_byte_len(raster),
            y < display_height(raster, mode),
            x <= raster.width,
            row@.len() == x as int,
            forall|j: int| 0 <= j < x as int
                ==> row@[j] == spec_cell_at(frame@, raster, mode, j, y as int),
        decreases raster.width - x,
    {
        let cell = match mode {
            RenderMode::CellDoubled => {
                let fg = read_pixel(frame, raster, x, 2 * y);
                let bg = read_pixel(frame, raster, x, 2 * y + 1);
                Cell { glyph: Glyph::UpperHalf, fg, bg: Some(bg) }
            },
            RenderMode::LuminanceGlyph => {
                let p = read_pixel(frame, raster, x, y);
                Cell { glyph: Glyph::Ascii(luma_glyph(p.r, p.g, p.b)), fg: p, bg: None }
            },
        };
        row.push(cell);
        x = x + 1;
    }
    proof {
        assert(row@ =~= spec_row_cells(frame@, raster, mode, y as int));
    }
    row
}

} // verus!
