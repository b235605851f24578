//! Frame renderer: one raw frame in, one ANSI byte buffer out. Emits a
//! cursor-home sequence, the vertical centering padding, then every
//! output row through the pixel mapper and escape encoder.

use vstd::prelude::*;
use crate::geometry::{RenderMode, TargetRaster};
use crate::mapper::{display_height, map_row, spec_frame_byte_len, spec_row_cells};
use crate::encoder::{crlf, cursor_home, encode_row, push_cursor_home, spec_row_bytes};

verus! {

/// Half the unused terminal cells on an axis, zero when the displayed
/// size already fills or exceeds the terminal.
pub open spec fn center_offset(term: int, shown: int) -> int {
    if term >= shown {
        (term - shown) / 2
    } else {
        0
    }
}

/// Horizontal centering offset of a frame, in cells.
pub open spec fn spec_offset_x(raster: TargetRaster, term_cols: int) -> int {
    center_offset(term_cols, raster.width as int)
}

/// Vertical centering offset of a frame, in rows.
pub open spec fn spec_offset_y(raster: TargetRaster, mode: RenderMode, term_rows: int) -> int {
    center_offset(term_rows, display_height(raster, mode))
}

/// `n` blank lines (CRLF pairs).
pub open spec fn blank_lines(n: int) -> Seq<u8>
    decreases n,
{
    if n <= 0 {
        Seq::<u8>::empty()
    } else {
        blank_lines(n - 1) + crlf()
    }
}

/// The encoded bytes of the first `y` output rows of a frame.
pub open spec fn rows_bytes(
    frame: Seq<u8>, raster: TargetRaster, mode: RenderMode, offset_x: int, y: int) -> Seq<u8>
    decreases y,
{
    if y <= 0 {
        Seq::<u8>::empty()
    } else {
        rows_bytes(frame, raster, mode, offset_x, y - 1)
            + spec_row_bytes(spec_row_cells(frame, raster, mode, y - 1), offset_x)
    }
}

/// Everything written to the terminal for one frame: cursor home, the
/// vertical padding, then every output row with its horizontal padding.
pub open spec fn spec_render_frame(
    frame: Seq<u8>, raster: TargetRaster, mode: RenderMode, term_cols: int, term_rows: int)
    -> Seq<u8> {
    cursor_home()
        + blank_lines(spec_offset_y(raster, mode, term_rows))
        + rows_bytes(frame, raster, mode, spec_offset_x(raster, term_cols),
            display_height(raster, mode))
}

/// Render one frame of the exact byte size for `raster` into the ANSI
/// byte stream that paints it centered on a `term_cols x term_rows`
/// terminal. The output buffer is cleared and refilled, so one buffer
/// can be reused across frames without reallocating.
pub fn render_frame_into(
    out: &mut Vec<u8>, frame: &Vec<u8>, raster: TargetRaster, mode: RenderMode,
    term_cols: u16, term_rows: u16)
    requires
        raster.wf(),
        frame@.len() == spec_frame_byte_len(raster),
    ensures
        final(out)@ == spec_render_frame(frame@, raster, mode, term_cols as int, term_rows as int),
{
    out.clear();
    push_cursor_home(out);

    let shown_rows: u32 = match mode {
        RenderMode::CellDoubled => raster.height / 2,
        RenderMode::LuminanceGlyph => raster.height,
    };
    let offset_y: u32 = if term_rows as u32 >= shown_rows {
        (term_rows as u32 - shown_rows) / 2
    } else {
        0
    };
    let offset_x: u32 = if term_cols as u32 >= raster.width {
        (term_cols as u32 - raster.width) / 2
    } else {
        0
    };
    assert(offset_y == spec_offset_y(raster, mode, term_rows as int));
    assert(offset_x == spec_offset_x(raster, term_cols as int));

    let mut i: u32 = 0;
    while i < offset_y
        invariant
            i <= offset_y,
            out@ == cursor_home() + blank_lines(i as int),
        decreases offset_y - i,
    {
        out.push(13);
        out.push(10);
        proof {
            assert(out@ =~= cursor_home() + blank_lines(i as int + 1));
        }
        i = i + 1;
    }

    let ghost head: Seq<u8> = out@;
    let mut y: u32 = 0;
    while y < shown_rows
        invariant
            raster.wf(),
            frame@.len() == spec_frame_byte_len(raster),
            y <= shown_rows,
            shown_rows == display_height(raster, mode),
            offset_x <= u16::MAX,
            out@ == head + rows_bytes(frame@, raster, mode, offset_x as int, y as int),
        decreases shown_rows - y,
    {
        let row = map_row(frame, raster, mode, y);
        encode_row(out, &row, offset_x as usize);
        proof {
            assert(out@ =~= head
                + rows_bytes(frame@, raster, mode, offset_x as int, y as int + 1));
        }
        y = y + 1;
    }
    proof {
        assert(out@ =~= spec_render_frame(
            frame@, raster, mode, term_cols as int, term_rows as int));
    }
}

/// Render one frame into a fresh buffer.
pub fn render_frame(
    frame: &Vec<u8>, raster: TargetRaster, mode: RenderMode, term_cols: u16, term_rows: u16)
    -> (out: Vec<u8>)
    requires
        raster.wf(),
        frame@.len() == spec_frame_byte_len(raster),
    ensures
        out@ == spec_render_frame(frame@, raster, mode, term_cols as int, term_rows as int),
{
    let mut out: Vec<u8> = Vec::new();
    render_frame_into(&mut out, frame, raster, mode, term_cols, term_rows);
    out
}

/// Render a frame after checking its shape: returns the encoded bytes
/// exactly when the buffer holds `width * height * 3` bytes, and `None`
/// on any other length (a malformed buffer is rejected before any
/// mapping begins).
pub fn render_frame_checked(
    frame: &Vec<u8>, raster: TargetRaster, mode: RenderMode, term_cols: u16, term_rows: u16)
    -> (out: Option<Vec<u8>>)
    requires
        raster.wf(),
    ensures
        match out {
            Some(bytes) => shape_ok(frame@.len() as int, raster)
                && bytes@ == spec_render_frame(
                    frame@, raster, mode, term_cols as int, term_rows as int),
            None => !shape_ok(frame@.len() as int, raster),
        },
{
    let expected = crate::mapper::frame_byte_len(raster);
    if frame.len() as u64 == expected {
        Some(render_frame(frame, raster, mode, term_cols, term_rows))
    } else {
        None
    }
}

/// A buffer of length `len` has the right shape for `raster` exactly
/// when it holds `width * height * 3` bytes.
pub open spec fn shape_ok(len: int, raster: TargetRaster) -> bool {
    len == spec_frame_byte_len(raster)
}

/// Round-trip sizing: the byte count the frame source is asked to
/// deliver per frame is exactly `width * height * 3`, and a buffer of
/// exactly that many bytes always passes the shape check, so a full
/// frame read can never be rejected as malformed.
pub proof fn lemma_frame_size_round_trip(raster: TargetRaster)
    requires
        raster.wf(),
    ensures
        spec_frame_byte_len(raster) == raster.width * raster.height * 3,
        shape_ok(raster.width * raster.height * 3, raster),
{
}

} // verus!
