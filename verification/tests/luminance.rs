use video2ascii::luma::{brightness, glyph_index, luma_glyph, ramp_glyph};

#[test]
fn brightness_extremes() {
    assert_eq!(brightness(0, 0, 0), 0);
    assert_eq!(brightness(255, 255, 255), 255);
}

#[test]
fn brightness_weighting() {
    // (128*77 + 64*150 + 32*29) / 256 = 20384 / 256 = 79
    assert_eq!(brightness(128, 64, 32), 79);
    // Green carries the largest weight.
    assert!(brightness(0, 200, 0) > brightness(200, 0, 0));
    assert!(brightness(200, 0, 0) > brightness(0, 0, 200));
}

#[test]
fn glyph_index_extremes() {
    assert_eq!(glyph_index(0), 0);
    assert_eq!(glyph_index(255), 9);
    // 79 * 9 / 255 = 2
    assert_eq!(glyph_index(79), 2);
}

#[test]
fn glyph_index_monotone_over_all_brightness_values() {
    let mut prev = 0u8;
    for b in 0..=255u8 {
        let i = glyph_index(b);
        assert!(i >= prev);
        assert!(i < 10);
        prev = i;
    }
}

#[test]
fn ramp_is_the_ascii_art_alphabet() {
    let ramp: Vec<u8> = (0..10u8).map(ramp_glyph).collect();
    assert_eq!(ramp, b" .:-=+*#%@".to_vec());
}

#[test]
fn luma_glyph_samples() {
    assert_eq!(luma_glyph(0, 0, 0), b' ');
    assert_eq!(luma_glyph(255, 255, 255), b'@');
    assert_eq!(luma_glyph(128, 64, 32), b':');
}

#[test]
fn luma_mapping_is_deterministic() {
    for &(r, g, b) in [(0u8, 0u8, 0u8), (12, 200, 7), (255, 1, 128)].iter() {
        assert_eq!(luma_glyph(r, g, b), luma_glyph(r, g, b));
        assert_eq!(brightness(r, g, b), brightness(r, g, b));
    }
}
