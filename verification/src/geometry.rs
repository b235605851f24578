//! Geometry resolution: choose a target raster (width, height in source
//! pixels) from the terminal cell grid, the source dimensions, and the
//! render mode. Terminal cells are assumed twice as tall as wide.

use vstd::prelude::*;

verus! {

/// The two rendering strategies.
///
/// `CellDoubled` packs two vertically stacked source pixels into one
/// terminal cell via a half-height glyph with independent foreground and
/// background colors. `LuminanceGlyph` maps one source pixel to one cell,
/// choosing a glyph from a brightness ramp.
#[derive(Clone, Copy, PartialEq, Eq, Structural, Debug)]
pub enum RenderMode {
    CellDoubled,
    LuminanceGlyph,
}

/// The raster the decoder is asked to produce, in source pixels.
#[derive(Clone, Copy, PartialEq, Eq, Structural, Debug)]
pub struct TargetRaster {
    pub width: u32,
    pub height: u32,
}

impl TargetRaster {
    /// Well-formedness: both dimensions even and at least 2 (rows are
    /// consumed in pairs by `CellDoubled`), and bounded by what a
    /// terminal of at most `u16::MAX` cells per axis can show.
    pub open spec fn wf(self) -> bool {
        &&& self.width % 2 == 0
        &&& self.height % 2 == 0
        &&& self.width >= 2
        &&& self.height >= 2
        &&& self.width <= 65534
        &&& self.height <= 131070
    }
}

/// Largest even integer not above `n`.
pub open spec fn even_floor(n: int) -> int {
    (n / 2) * 2
}

/// A dimension that rounded down to 0 is clamped to the smallest valid
/// even value.
pub open spec fn clamp_nonzero(n: int) -> int {
    if n == 0 { 2 } else { n }
}

/// The pair (width, height) chosen in `CellDoubled` mode before even
/// rounding: the canvas is `cols x 2*rows` addressable pixels; the wider
/// of video and canvas fixes one axis, the other is derived from the
/// source aspect ratio by floor division.
pub open spec fn pre_raster_cell_doubled(sw: int, sh: int, cols: int, rows: int) -> (int, int) {
    let ew = cols;
    let eh = 2 * rows;
    if sw * eh > ew * sh {
        (ew, (ew * sh) / sw)
    } else {
        ((eh * sw) / sh, eh)
    }
}

/// The pair (width, height) chosen in `LuminanceGlyph` mode before even
/// rounding: width starts at the column count and height follows from the
/// aspect ratio halved (cells are twice as tall as wide); if that height
/// does not fit, height is fixed to the row count and width re-derived.
pub open spec fn pre_raster_luminance(sw: int, sh: int, cols: int, rows: int) -> (int, int) {
    let h0 = (cols * sh) / (2 * sw);
    if h0 > rows {
        ((rows * 2 * sw) / sh, rows)
    } else {
        (cols, h0)
    }
}

pub open spec fn pre_raster(sw: int, sh: int, cols: int, rows: int, mode: RenderMode) -> (int, int) {
    match mode {
        RenderMode::CellDoubled => pre_raster_cell_doubled(sw, sh, cols, rows),
        RenderMode::LuminanceGlyph => pre_raster_luminance(sw, sh, cols, rows),
    }
}

/// The resolved raster: the mode's preliminary pair, each axis rounded
/// down to even and clamped away from zero.
pub open spec fn spec_resolve(sw: int, sh: int, cols: int, rows: int, mode: RenderMode) -> (int, int) {
    let (w, h) = pre_raster(sw, sh, cols, rows, mode);
    (clamp_nonzero(even_floor(w)), clamp_nonzero(even_floor(h)))
}

/// Round `n` down to an even value, clamping 0 up to 2.
fn even_clamp(n: u32) -> (r: u32)
    requires
        n <= 131070,
    ensures
        r == clamp_nonzero(even_floor(n as int)),
        r % 2 == 0,
        2 <= r <= 131070,
{
    let e = (n / 2) * 2;
    if e == 0 { 2 } else { e }
}

/// Compute the target raster for a source of `src_w x src_h` pixels shown
/// on a terminal of `cols x rows` cells under `mode`.
///
/// Always succeeds: the result is even on both axes, at least 2x2, and
/// approximates the source aspect ratio as closely as floor division and
/// even rounding allow (see `lemma_resolve_valid`).
pub fn resolve(src_w: u32, src_h: u32, cols: u16, rows: u16, mode: RenderMode) -> (r: TargetRaster)
    requires
        src_w >= 1,
        src_h >= 1,
        cols >= 1,
        rows >= 1,
    ensures
        r.wf(),
        (r.width as int, r.height as int) == spec_resolve(
            src_w as int, src_h as int, cols as int, rows as int, mode),
{
    let sw = src_w as u64;
    let sh = src_h as u64;
    let ew = cols as u64;
    let eh = 2 * (rows as u64);
    proof {
        lemma_mul_le(sw as int, eh as int, 0xFFFF_FFFF, 131070);
        lemma_mul_le(ew as int, sh as int, 65535, 0xFFFF_FFFF);
        lemma_mul_le(eh as int, sw as int, 131070, 0xFFFF_FFFF);
    }
    match mode {
        RenderMode::CellDoubled => {
            let (w, h): (u64, u64) = if sw * eh > ew * sh {
                let hq = (ew * sh) / sw;
                proof {
                    lemma_div_bound_int((ew * sh) as int, sw as int, eh as int);
                }
                (ew, hq)
            } else {
                let wq = (eh * sw) / sh;
                proof {
                    assert(((eh * sw) as int) < (sh as int) * (ew as int + 1)) by (nonlinear_arith)
                        requires (sw as int) * (eh as int) <= (ew as int) * (sh as int), sh >= 1;
                    lemma_div_bound_int((eh * sw) as int, sh as int, ew as int + 1);
                }
                (wq, eh)
            };
            TargetRaster { width: even_clamp(w as u32), height: even_clamp(h as u32) }
        },
        RenderMode::LuminanceGlyph => {
            let h0 = (ew * sh) / (2 * sw);
            if h0 > rows as u64 {
                proof {
                    lemma_mul_le((rows as u64 * 2) as int, sw as int, 131070, 0xFFFF_FFFF);
                }
                let wq = ((rows as u64) * 2 * sw) / sh;
                proof {
                    lemma_luminance_rederived_width(sw as int, sh as int, ew as int, rows as int);
                }
                TargetRaster { width: even_clamp(wq as u32), height: even_clamp(rows as u32) }
            } else {
                TargetRaster { width: even_clamp(ew as u32), height: even_clamp(h0 as u32) }
            }
        },
    }
}

/// In `LuminanceGlyph` mode, when the derived height exceeds the row
/// count, the re-derived width `rows * 2 * sw / sh` stays below the
/// column count.
proof fn lemma_luminance_rederived_width(sw: int, sh: int, ew: int, rows: int)
    requires
        sw >= 1,
        sh >= 1,
        ew >= 1,
        rows >= 1,
        (ew * sh) / (2 * sw) > rows,
    ensures
        (rows * 2 * sw) / sh < ew,
{
    assert((ew * sh) / (2 * sw) > rows);
    assert(ew * sh >= (2 * sw) * (rows + 1)) by (nonlinear_arith)
        requires sw >= 1, sh >= 1, (ew * sh) / (2 * sw) > rows;
    assert(rows * 2 * sw < ew * sh) by (nonlinear_arith)
        requires ew * sh >= (2 * sw) * (rows + 1), sw >= 1;
    lemma_div_bound_int(rows * 2 * sw, sh, ew);
}

/// Validity of the resolved raster, for every terminal of at least one
/// cell per axis and every positive source aspect ratio: both dimensions
/// come out even and at least 2, each axis lies within the even-rounding
/// error (less than 2) of the mode's exact floor-divided choice unless
/// that choice collapsed below 2 and was clamped to the minimum, and the
/// floor-divided choice itself reproduces the source aspect ratio exactly
/// up to the floor, stated in cross-multiplied form per mode and branch.
pub proof fn lemma_resolve_valid(sw: int, sh: int, cols: int, rows: int, mode: RenderMode)
    requires
        sw >= 1,
        sh >= 1,
        cols >= 1,
        rows >= 1,
    ensures
        ({
            let (w, h) = spec_resolve(sw, sh, cols, rows, mode);
            w % 2 == 0 && h % 2 == 0 && 2 <= w && 2 <= h
        }),
        ({
            let (pw, ph) = pre_raster(sw, sh, cols, rows, mode);
            let (w, h) = spec_resolve(sw, sh, cols, rows, mode);
            &&& (pw - 1 <= w <= pw || (pw <= 1 && w == 2))
            &&& (ph - 1 <= h <= ph || (ph <= 1 && h == 2))
        }),
        ({
            let (pw, ph) = pre_raster(sw, sh, cols, rows, mode);
            match mode {
                RenderMode::CellDoubled => if sw * (2 * rows) > cols * sh {
                    pw == cols && ph * sw <= cols * sh < (ph + 1) * sw
                } else {
                    ph == 2 * rows && pw * sh <= (2 * rows) * sw < (pw + 1) * sh
                },
                RenderMode::LuminanceGlyph => if (cols * sh) / (2 * sw) > rows {
                    ph == rows && pw * sh <= (2 * rows) * sw < (pw + 1) * sh
                } else {
                    pw == cols && ph * (2 * sw) <= cols * sh < (ph + 1) * (2 * sw)
                },
            }
        }),
{
    assert(cols * sh >= 0 && (2 * rows) * sw >= 0 && sw * (2 * rows) >= 0) by (nonlinear_arith)
        requires sw >= 1, sh >= 1, cols >= 1, rows >= 1;
    match mode {
        RenderMode::CellDoubled => {
            if sw * (2 * rows) > cols * sh {
                lemma_div_char(cols * sh, sw);
                lemma_even_clamp(cols);
                lemma_even_clamp((cols * sh) / sw);
            } else {
                lemma_div_char((2 * rows) * sw, sh);
                assert((2 * rows) * sw == sw * (2 * rows)) by (nonlinear_arith);
                lemma_even_clamp(2 * rows);
                lemma_even_clamp(((2 * rows) * sw) / sh);
            }
        },
        RenderMode::LuminanceGlyph => {
            if (cols * sh) / (2 * sw) > rows {
                assert(rows * 2 * sw == (2 * rows) * sw) by (nonlinear_arith);
                lemma_div_char((2 * rows) * sw, sh);
                lemma_even_clamp(rows);
                lemma_even_clamp(((2 * rows) * sw) / sh);
            } else {
                lemma_div_char(cols * sh, 2 * sw);
                lemma_even_clamp(cols);
                lemma_even_clamp((cols * sh) / (2 * sw));
            }
        },
    }
}

/// Floor division characterized by cross multiplication.
proof fn lemma_div_char(n: int, d: int)
    requires
        n >= 0,
        d >= 1,
    ensures
        (n / d) * d <= n < (n / d + 1) * d,
        n / d >= 0,
{
    assert((n / d) * d <= n < (n / d + 1) * d && n / d >= 0) by (nonlinear_arith)
        requires n >= 0, d >= 1;
}

/// Even rounding with the zero clamp moves a nonnegative value by less
/// than 2, and always lands on an even value of at least 2, except that
/// values below 2 land exactly on 2.
proof fn lemma_even_clamp(n: int)
    requires
        n >= 0,
    ensures
        clamp_nonzero(even_floor(n)) % 2 == 0,
        clamp_nonzero(even_floor(n)) >= 2,
        n - 1 <= clamp_nonzero(even_floor(n)) <= n || (n <= 1 && clamp_nonzero(even_floor(n)) == 2),
{
    assert(n - 1 <= (n / 2) * 2 <= n && (n / 2) * 2 % 2 == 0 && (n / 2) * 2 >= 0) by (nonlinear_arith)
        requires n >= 0;
}

/// Products grow monotonically with their nonnegative factors.
proof fn lemma_mul_le(a: int, b: int, ca: int, cb: int)
    requires
        0 <= a <= ca,
        0 <= b <= cb,
    ensures
        a * b <= ca * cb,
{
    assert(a * b <= ca * cb) by (nonlinear_arith)
        requires 0 <= a <= ca, 0 <= b <= cb;
}

proof fn lemma_div_bound_int(n: int, d: int, bound: int)
    requires
        d >= 1,
        n >= 0,
        n < d * bound,
    ensures
        n / d < bound,
{
    assert(n / d < bound) by (nonlinear_arith)
        requires d >= 1, n >= 0, n < d * bound;
}

} // verus!
