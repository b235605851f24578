use video2ascii::geometry::{RenderMode, TargetRaster};
use video2ascii::mapper::frame_byte_len;
use video2ascii::render::{render_frame, render_frame_checked};

fn uniform_frame(raster: TargetRaster, rgb: (u8, u8, u8)) -> Vec<u8> {
    let n = (raster.width * raster.height) as usize;
    let mut f = Vec::with_capacity(n * 3);
    for _ in 0..n {
        f.push(rgb.0);
        f.push(rgb.1);
        f.push(rgb.2);
    }
    f
}

fn count_occurrences(haystack: &[u8], needle: &[u8]) -> usize {
    if needle.is_empty() || haystack.len() < needle.len() {
        return 0;
    }
    (0..=haystack.len() - needle.len())
        .filter(|&i| &haystack[i..i + needle.len()] == needle)
        .count()
}

#[test]
fn frame_size_is_width_height_channels() {
    let raster = TargetRaster { width: 4, height: 4 };
    assert_eq!(frame_byte_len(raster), 48);
    let raster = TargetRaster { width: 80, height: 44 };
    assert_eq!(frame_byte_len(raster), 80 * 44 * 3);
}

#[test]
fn exact_sized_buffer_is_never_rejected() {
    let raster = TargetRaster { width: 4, height: 4 };
    let frame = vec![0u8; 48];
    for mode in [RenderMode::CellDoubled, RenderMode::LuminanceGlyph] {
        assert!(render_frame_checked(&frame, raster, mode, 10, 10).is_some());
    }
}

#[test]
fn wrong_sized_buffer_is_rejected() {
    let raster = TargetRaster { width: 4, height: 4 };
    for bad in [0usize, 47, 49, 96] {
        let frame = vec![0u8; bad];
        assert!(render_frame_checked(&frame, raster, RenderMode::CellDoubled, 10, 10).is_none());
    }
}

#[test]
fn uniform_row_sets_each_color_once() {
    // A 10x2 cell-doubled raster shown on a 10x1 terminal: one output
    // row of ten identically colored cells must set the foreground once
    // and the background once, not once per cell.
    let raster = TargetRaster { width: 10, height: 2 };
    let frame = uniform_frame(raster, (10, 20, 30));
    let out = render_frame(&frame, raster, RenderMode::CellDoubled, 10, 1);
    assert_eq!(count_occurrences(&out, b"[38;2;"), 1);
    assert_eq!(count_occurrences(&out, b"[48;2;"), 1);
}

#[test]
fn uniform_luminance_row_sets_foreground_once_and_no_background() {
    let raster = TargetRaster { width: 8, height: 2 };
    let frame = uniform_frame(raster, (200, 100, 50));
    // Terminal of exactly one row per output row and no horizontal slack.
    let out = render_frame(&frame, raster, RenderMode::LuminanceGlyph, 8, 2);
    // One foreground set per row (state resets at row boundaries).
    assert_eq!(count_occurrences(&out, b"[38;2;"), 2);
    assert_eq!(count_occurrences(&out, b"[48;2;"), 0);
}

#[test]
fn changing_colors_set_state_per_change() {
    // Two pixels per row with different colors: two foreground sets in
    // the single luminance row.
    let raster = TargetRaster { width: 2, height: 2 };
    let frame = vec![
        255, 0, 0, 0, 255, 0, // row 0
        255, 0, 0, 255, 0, 0, // row 1: same color twice
    ];
    let out = render_frame(&frame, raster, RenderMode::LuminanceGlyph, 2, 2);
    assert_eq!(count_occurrences(&out, b"[38;2;255;0;0m"), 2);
    assert_eq!(count_occurrences(&out, b"[38;2;0;255;0m"), 1);
    assert_eq!(count_occurrences(&out, b"[38;2;"), 3);
}

#[test]
fn cell_doubled_exact_bytes() {
    let raster = TargetRaster { width: 2, height: 2 };
    let frame = vec![
        255, 0, 0, 0, 255, 0, // top pixels: foregrounds
        0, 0, 255, 255, 255, 0, // bottom pixels: backgrounds
    ];
    let out = render_frame(&frame, raster, RenderMode::CellDoubled, 2, 1);
    let expected = "\x1b[H\
        \x1b[38;2;255;0;0m\x1b[48;2;0;0;255m\u{2580}\
        \x1b[38;2;0;255;0m\x1b[48;2;255;255;0m\u{2580}\
        \x1b[0m\r\n";
    assert_eq!(out, expected.as_bytes().to_vec());
}

#[test]
fn luminance_exact_bytes() {
    let raster = TargetRaster { width: 2, height: 2 };
    let frame = vec![
        0, 0, 0, 255, 255, 255, // row 0: black then white
        255, 255, 255, 255, 255, 255, // row 1: white twice
    ];
    let out = render_frame(&frame, raster, RenderMode::LuminanceGlyph, 2, 2);
    let expected = "\x1b[H\
        \x1b[38;2;0;0;0m \x1b[38;2;255;255;255m@\x1b[0m\r\n\
        \x1b[38;2;255;255;255m@@\x1b[0m\r\n";
    assert_eq!(out, expected.as_bytes().to_vec());
}

#[test]
fn centering_pads_blank_lines_and_spaces() {
    // A 2x2 raster in cell-doubled mode shows one row; on a 4x3
    // terminal that leaves offsets of one row and one column.
    let raster = TargetRaster { width: 2, height: 2 };
    let frame = uniform_frame(raster, (1, 2, 3));
    let out = render_frame(&frame, raster, RenderMode::CellDoubled, 4, 3);
    let expected = "\x1b[H\r\n\
        \x1b[0m \x1b[38;2;1;2;3m\x1b[48;2;1;2;3m\u{2580}\u{2580}\x1b[0m\r\n";
    assert_eq!(out, expected.as_bytes().to_vec());
}

#[test]
fn rendering_is_deterministic() {
    let raster = TargetRaster { width: 4, height: 4 };
    let frame: Vec<u8> = (0..48u8).collect();
    for mode in [RenderMode::CellDoubled, RenderMode::LuminanceGlyph] {
        let a = render_frame(&frame, raster, mode, 10, 10);
        let b = render_frame(&frame, raster, mode, 10, 10);
        assert_eq!(a, b);
    }
}
