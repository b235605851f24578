use video2ascii::geometry::{resolve, RenderMode, TargetRaster};

#[test]
fn cell_doubled_wide_video_is_width_bound() {
    // An 80x24 terminal offers an 80x48 canvas in cell-doubled mode; a
    // 1920x1080 source is relatively wider, so width is fixed at 80 and
    // the height follows the aspect ratio: 80*1080/1920 = 45, rounded
    // down to the even 44, within the 48-row canvas.
    let r = resolve(1920, 1080, 80, 24, RenderMode::CellDoubled);
    assert_eq!(r, TargetRaster { width: 80, height: 44 });
    assert!(r.width == 80);
    assert!(r.height % 2 == 0);
    assert!(r.height <= 48);
}

#[test]
fn cell_doubled_tall_video_is_height_bound() {
    // A 9:16 portrait source on the same terminal: height is fixed at
    // the 48-pixel canvas height, width follows: 48*1080/1920 = 27,
    // rounded down to 26.
    let r = resolve(1080, 1920, 80, 24, RenderMode::CellDoubled);
    assert_eq!(r, TargetRaster { width: 26, height: 48 });
}

#[test]
fn luminance_fitting_height() {
    // Width starts at 80 columns; height = 80*1080/(2*1920) = 22 fits
    // within 24 rows.
    let r = resolve(1920, 1080, 80, 24, RenderMode::LuminanceGlyph);
    assert_eq!(r, TargetRaster { width: 80, height: 22 });
}

#[test]
fn luminance_rederives_width_when_too_tall() {
    // A portrait source would need more rows than the terminal has, so
    // height is fixed at the row count and width re-derived:
    // 24*2*1080/1920 = 27, rounded down to 26.
    let r = resolve(1080, 1920, 80, 24, RenderMode::LuminanceGlyph);
    assert_eq!(r, TargetRaster { width: 26, height: 24 });
}

#[test]
fn degenerate_dimensions_clamp_to_two() {
    // An extremely tall source on a 1x1 terminal collapses the derived
    // width to 0, which is clamped to the minimum even raster.
    let r = resolve(1, 1000, 1, 1, RenderMode::CellDoubled);
    assert_eq!(r, TargetRaster { width: 2, height: 2 });
}

#[test]
fn raster_always_even_and_nonzero() {
    let sizes = [(1u16, 1u16), (3, 2), (80, 24), (199, 53), (65535, 1)];
    let videos = [(1u32, 1u32), (1920, 1080), (7, 1300), (4096, 4096)];
    for &(cols, rows) in sizes.iter() {
        for &(sw, sh) in videos.iter() {
            for mode in [RenderMode::CellDoubled, RenderMode::LuminanceGlyph] {
                let r = resolve(sw, sh, cols, rows, mode);
                assert!(r.width >= 2 && r.width % 2 == 0);
                assert!(r.height >= 2 && r.height % 2 == 0);
            }
        }
    }
}
