//! Escape encoder: serializes one row of cells into ANSI bytes, setting
//! a foreground or background color only when it differs from the last
//! color emitted in the row (color-state compression). Every row begins
//! with unset color state and ends with a full style reset followed by
//! carriage return and line feed, so no color state leaks across rows.

use vstd::prelude::*;
use crate::cell::{Cell, Glyph, Rgb};

verus! {

/// Decimal digit bytes of `n`, most significant first, no leading zeros
/// (a single `'0'` for zero).
pub open spec fn dec_digits(n: nat) -> Seq<u8>
    decreases n,
{
    if n < 10 {
        seq![(n + 48) as u8]
    } else {
        dec_digits(n / 10).push(((n % 10) + 48) as u8)
    }
}

/// `ESC [ 38 ; 2 ; r ; g ; b m` — set the foreground to an RGB color.
pub open spec fn sgr_fg(c: Rgb) -> Seq<u8> {
    seq![27u8, 91u8, 51u8, 56u8, 59u8, 50u8, 59u8]
        + dec_digits(c.r as nat) + seq![59u8]
        + dec_digits(c.g as nat) + seq![59u8]
        + dec_digits(c.b as nat) + seq![109u8]
}

/// `ESC [ 48 ; 2 ; r ; g ; b m` — set the background to an RGB color.
pub open spec fn sgr_bg(c: Rgb) -> Seq<u8> {
    seq![27u8, 91u8, 52u8, 56u8, 59u8, 50u8, 59u8]
        + dec_digits(c.r as nat) + seq![59u8]
        + dec_digits(c.g as nat) + seq![59u8]
        + dec_digits(c.b as nat) + seq![109u8]
}

/// `ESC [ 0 m` — reset all styling.
pub open spec fn sgr_reset() -> Seq<u8> {
    seq![27u8, 91u8, 48u8, 109u8]
}

/// Carriage return plus line feed.
pub open spec fn crlf() -> Seq<u8> {
    seq![13u8, 10u8]
}

/// `ESC [ H` — move the cursor to the top-left corner.
pub open spec fn cursor_home() -> Seq<u8> {
    seq![27u8, 91u8, 72u8]
}

/// The UTF-8 bytes of a glyph: the upper-half-block character, or a
/// single ASCII byte.
pub open spec fn glyph_bytes(g: Glyph) -> Seq<u8> {
    match g {
        Glyph::UpperHalf => seq![0xE2u8, 0x96u8, 0x80u8],
        Glyph::Ascii(b) => seq![b],
    }
}

/// `n` space characters.
pub open spec fn spaces(n: int) -> Seq<u8> {
    Seq::new(if n >= 0 { n as nat } else { 0 }, |i: int| 32u8)
}

/// Encoder state while walking a row: bytes emitted so far, the last
/// foreground and background colors set (`None` when unset), and how
/// many color-set sequences of each kind have been emitted.
pub struct EncState {
    pub bytes: Seq<u8>,
    pub last_fg: Option<Rgb>,
    pub last_bg: Option<Rgb>,
    pub fg_sets: int,
    pub bg_sets: int,
}

/// The state at the start of a row: nothing emitted, both colors unset.
pub open spec fn enc_init() -> EncState {
    EncState { bytes: Seq::empty(), last_fg: None, last_bg: None, fg_sets: 0, bg_sets: 0 }
}

/// Encode one cell: emit a foreground-set sequence only if the cell's
/// foreground differs from the last one set, likewise for a background
/// the cell carries, then the glyph bytes.
pub open spec fn enc_cell(st: EncState, c: Cell) -> EncState {
    let fg_new = st.last_fg != Some(c.fg);
    let fgb = if fg_new { sgr_fg(c.fg) } else { Seq::<u8>::empty() };
    let bg_new = match c.bg {
        Some(b) => st.last_bg != Some(b),
        None => false,
    };
    let bgb = match c.bg {
        Some(b) => if bg_new { sgr_bg(b) } else { Seq::<u8>::empty() },
        None => Seq::<u8>::empty(),
    };
    EncState {
        bytes: st.bytes + fgb + bgb + glyph_bytes(c.glyph),
        last_fg: Some(c.fg),
        last_bg: match c.bg {
            Some(b) => Some(b),
            None => st.last_bg,
        },
        fg_sets: st.fg_sets + if fg_new { 1int } else { 0int },
        bg_sets: st.bg_sets + if bg_new { 1int } else { 0int },
    }
}

/// Encoder state after the first `i` cells of a row.
pub open spec fn enc_cells(cells: Seq<Cell>, i: int) -> EncState
    decreases i,
{
    if i <= 0 {
        enc_init()
    } else {
        enc_cell(enc_cells(cells, i - 1), cells[i - 1])
    }
}

/// The left padding of a row: a style reset followed by the horizontal
/// offset in spaces; nothing when the offset is zero.
pub open spec fn row_prefix(offset_x: int) -> Seq<u8> {
    if offset_x > 0 {
        sgr_reset() + spaces(offset_x)
    } else {
        Seq::<u8>::empty()
    }
}

/// All bytes of one encoded row: padding, the cells under color-state
/// compression starting from unset state, then a style reset and CRLF.
pub open spec fn spec_row_bytes(cells: Seq<Cell>, offset_x: int) -> Seq<u8> {
    row_prefix(offset_x) + enc_cells(cells, cells.len() as int).bytes + sgr_reset() + crlf()
}

/// Append the decimal digits of `v`.
fn push_dec_u8(out: &mut Vec<u8>, v: u8)
    ensures
        final(out)@ == old(out)@ + dec_digits(v as nat),
{
    proof {
        reveal_with_fuel(dec_digits, 4);
    }
    if v >= 100 {
        assert(v as nat / 10 / 10 == v as nat / 100) by (nonlinear_arith);
        out.push(v / 100 + 48);
        out.push((v / 10) % 10 + 48);
        out.push(v % 10 + 48);
        assert(out@ =~= old(out)@ + dec_digits(v as nat));
    } else if v >= 10 {
        out.push(v / 10 + 48);
        out.push(v % 10 + 48);
        assert(out@ =~= old(out)@ + dec_digits(v as nat));
    } else {
        out.push(v + 48);
        assert(out@ =~= old(out)@ + dec_digits(v as nat));
    }
}

/// Append a foreground-set sequence for `c`.
fn push_sgr_fg(out: &mut Vec<u8>, c: Rgb)
    ensures
        final(out)@ == old(out)@ + sgr_fg(c),
{
    out.push(27);
    out.push(91);
    out.push(51);
    out.push(56);
    out.push(59);
    out.push(50);
    out.push(59);
    push_dec_u8(out, c.r);
    out.push(59);
    push_dec_u8(out, c.g);
    out.push(59);
    push_dec_u8(out, c.b);
    out.push(109);
    assert(out@ =~= old(out)@ + sgr_fg(c));
}

/// Append a background-set sequence for `c`.
fn push_sgr_bg(out: &mut Vec<u8>, c: Rgb)
    ensures
        final(out)@ == old(out)@ + sgr_bg(c),
{
    out.push(27);
    out.push(91);
    out.push(52);
    out.push(56);
    out.push(59);
    out.push(50);
    out.push(59);
    push_dec_u8(out, c.r);
    out.push(59);
    push_dec_u8(out, c.g);
    out.push(59);
    push_dec_u8(out, c.b);
    out.push(109);
    assert(out@ =~= old(out)@ + sgr_bg(c));
}

/// Append a style reset.
fn push_reset(out: &mut Vec<u8>)
    ensures
        final(out)@ == old(out)@ + sgr_reset(),
{
    out.push(27);
    out.push(91);
    out.push(48);
    out.push(109);
    assert(out@ =~= old(out)@ + sgr_reset());
}

/// Append CRLF.
fn push_crlf(out: &mut Vec<u8>)
    ensures
        final(out)@ == old(out)@ + crlf(),
{
    out.push(13);
    out.push(10);
    assert(out@ =~= old(out)@ + crlf());
}

/// Append a cursor-home sequence.
pub fn push_cursor_home(out: &mut Vec<u8>)
    ensures
        final(out)@ == old(out)@ + cursor_home(),
{
    out.push(27);
    out.push(91);
    out.push(72);
    assert(out@ =~= old(out)@ + cursor_home());
}

/// Append `n` spaces.
fn push_spaces(out: &mut Vec<u8>, n: usize)
    ensures
        final(out)@ == old(out)@ + spaces(n as int),
{
    let mut i: usize = 0;
    while i < n
        invariant
            i <= n,
            out@ == old(out)@ + spaces(i as int),
        decreases n - i,
    {
        out.push(32);
        proof {
            assert(out@ =~= old(out)@ + spaces(i as int + 1));
        }
        i = i + 1;
    }
}

/// Append the bytes of a glyph.
fn push_glyph(out: &mut Vec<u8>, g: Glyph)
    ensures
        final(out)@ == old(out)@ + glyph_bytes(g),
{
    match g {
        Glyph::UpperHalf => {
            out.push(0xE2);
            out.push(0x96);
            out.push(0x80);
        },
        Glyph::Ascii(b) => {
            out.push(b);
        },
    }
    assert(out@ =~= old(out)@ + glyph_bytes(g));
}

/// Append one encoded row: left padding, the cells with color-state
/// compression starting from unset state, then a reset and CRLF.
pub fn encode_row(out: &mut Vec<u8>, cells: &Vec<Cell>, offset_x: usize)
    ensures
        final(out)@ == old(out)@ + spec_row_bytes(cells@, offset_x as int),
{
    if offset_x > 0 {
        push_reset(out);
        push_spaces(out, offset_x);
    }
    assert(out@ =~= old(out)@ + row_prefix(offset_x as int));
    let ghost base: Seq<u8> = out@;
    let mut last_fg: Option<Rgb> = None;
    let mut last_bg: Option<Rgb> = None;
    let mut i: usize = 0;
    while i < cells.len()
        invariant
            i <= cells@.len(),
            out@ == base + enc_cells(cells@, i as int).bytes,
            last_fg == enc_cells(cells@, i as int).last_fg,
            last_bg == enc_cells(cells@, i as int).last_bg,
            base == old(out)@ + row_prefix(offset_x as int),
        decreases cells@.len() - i,
    {
        let c = cells[i];
        let need_fg = match last_fg {
            Some(f) => f != c.fg,
            None => true,
        };
        if need_fg {
            push_sgr_fg(out, c.fg);
            last_fg = Some(c.fg);
        }
        match c.bg {
            Some(b) => {
                let need_bg = match last_bg {
                    Some(pb) => pb != b,
                    None => true,
                };
                if need_bg {
                    push_sgr_bg(out, b);
                }
                last_bg = Some(b);
            },
            None => {},
        }
        push_glyph(out, c.glyph);
        proof {
            assert(out@ =~= base + enc_cells(cells@, i as int + 1).bytes);
        }
        i = i + 1;
    }
    push_reset(out);
    push_crlf(out);
    assert(out@ =~= old(out)@ + spec_row_bytes(cells@, offset_x as int));
}

/// Color-state compression emits a color-set sequence only on an actual
/// change: a row whose cells all share one foreground color produces
/// exactly one foreground-set sequence, however long the row is.
pub proof fn lemma_uniform_fg_single_set(cells: Seq<Cell>, f: Rgb)
    requires
        cells.len() >= 1,
        forall|i: int| 0 <= i < cells.len() ==> cells[i].fg == f,
    ensures
        enc_cells(cells, cells.len() as int).fg_sets == 1,
{
    lemma_uniform_fg_rec(cells, f, cells.len() as int);
}

proof fn lemma_uniform_fg_rec(cells: Seq<Cell>, f: Rgb, i: int)
    requires
        1 <= i <= cells.len(),
        forall|j: int| 0 <= j < cells.len() ==> cells[j].fg == f,
    ensures
        enc_cells(cells, i).fg_sets == 1,
        enc_cells(cells, i).last_fg == Some(f),
    decreases i,
{
    if i == 1 {
        assert(enc_cells(cells, 0) == enc_init());
        assert(cells[0].fg == f);
    } else {
        lemma_uniform_fg_rec(cells, f, i - 1);
    }
}

/// A row whose cells all carry one background color likewise produces
/// exactly one background-set sequence.
pub proof fn lemma_uniform_bg_single_set(cells: Seq<Cell>, b: Rgb)
    requires
        cells.len() >= 1,
        forall|i: int| 0 <= i < cells.len() ==> cells[i].bg == Some(b),
    ensures
        enc_cells(cells, cells.len() as int).bg_sets == 1,
{
    lemma_uniform_bg_rec(cells, b, cells.len() as int);
}

proof fn lemma_uniform_bg_rec(cells: Seq<Cell>, b: Rgb, i: int)
    requires
        1 <= i <= cells.len(),
        forall|j: int| 0 <= j < cells.len() ==> cells[j].bg == Some(b),
    ensures
        enc_cells(cells, i).bg_sets == 1,
        enc_cells(cells, i).last_bg == Some(b),
    decreases i,
{
    if i == 1 {
        assert(enc_cells(cells, 0) == enc_init());
        assert(cells[0].bg == Some(b));
    } else {
        lemma_uniform_bg_rec(cells, b, i - 1);
    }
}

/// A row without background colors produces no background-set sequence.
pub proof fn lemma_no_bg_no_set(cells: Seq<Cell>, i: int)
    requires
        0 <= i <= cells.len(),
        forall|j: int| 0 <= j < cells.len() ==> cells[j].bg is None,
    ensures
        enc_cells(cells, i).bg_sets == 0,
    decreases i,
{
    if i > 0 {
        lemma_no_bg_no_set(cells, i - 1);
        assert(cells[i - 1].bg is None);
    }
}

/// The luminance mapping is pure: pixels with identical RGB values are
/// mapped to the identical ramp glyph and the identical foreground
/// escape bytes.
pub proof fn lemma_luma_mapping_pure(p1: Rgb, p2: Rgb)
    requires
        p1 == p2,
    ensures
        crate::luma::spec_luma_glyph(p1.r, p1.g, p1.b) == crate::luma::spec_luma_glyph(p2.r, p2.g, p2.b),
        sgr_fg(p1) == sgr_fg(p2),
{
}

} // verus!
