use video2ascii::probe::{parse_audio_codec, parse_video_metadata, ProbeError};

#[test]
fn full_probe_output_parses() {
    let out = b"width=1920\n\
        height=1080\n\
        r_frame_rate=30000/1001\n\
        duration=12.500000\n\
        codec_name=h264\n\
        bit_rate=1200000\n"
        .to_vec();
    let d = parse_video_metadata(&out).unwrap();
    assert_eq!(d.width, 1920);
    assert_eq!(d.height, 1080);
    assert_eq!((d.fps_num, d.fps_den), (30000, 1001));
    assert_eq!(d.video_codec, b"h264".to_vec());
    assert_eq!(d.bitrate, Some(1200000));
}

#[test]
fn integer_frame_rate_is_accepted() {
    let out = b"width=640\nheight=480\nr_frame_rate=25\n".to_vec();
    let d = parse_video_metadata(&out).unwrap();
    assert_eq!((d.fps_num, d.fps_den), (25, 1));
}

#[test]
fn unparsable_frame_rate_falls_back() {
    let out = b"width=640\nheight=480\nr_frame_rate=abc\n".to_vec();
    let d = parse_video_metadata(&out).unwrap();
    assert_eq!((d.fps_num, d.fps_den), (30, 1));
}

#[test]
fn zero_denominator_keeps_default() {
    let out = b"width=640\nheight=480\nr_frame_rate=30/0\n".to_vec();
    let d = parse_video_metadata(&out).unwrap();
    assert_eq!((d.fps_num, d.fps_den), (30, 1));
}

#[test]
fn double_slash_rate_is_ignored() {
    let out = b"width=640\nheight=480\nr_frame_rate=1/2/3\n".to_vec();
    let d = parse_video_metadata(&out).unwrap();
    assert_eq!((d.fps_num, d.fps_den), (30, 1));
}

#[test]
fn missing_width_fails_distinctly() {
    let out = b"height=480\ncodec_name=h264\n".to_vec();
    assert_eq!(parse_video_metadata(&out), Err(ProbeError::MissingDimensions));
}

#[test]
fn zero_height_fails_distinctly() {
    let out = b"width=640\nheight=0\n".to_vec();
    assert_eq!(parse_video_metadata(&out), Err(ProbeError::MissingDimensions));
}

#[test]
fn unparsable_dimension_counts_as_missing() {
    let out = b"width=banana\nheight=480\n".to_vec();
    assert_eq!(parse_video_metadata(&out), Err(ProbeError::MissingDimensions));
}

#[test]
fn empty_output_fails() {
    let out = Vec::new();
    assert_eq!(parse_video_metadata(&out), Err(ProbeError::MissingDimensions));
}

#[test]
fn keys_and_values_are_trimmed() {
    let out = b"  width = 640 \r\n height =480\r\n".to_vec();
    let d = parse_video_metadata(&out).unwrap();
    assert_eq!((d.width, d.height), (640, 480));
}

#[test]
fn later_lines_win() {
    let out = b"width=320\nwidth=640\nheight=480\n".to_vec();
    let d = parse_video_metadata(&out).unwrap();
    assert_eq!(d.width, 640);
}

#[test]
fn defaults_without_optional_fields() {
    let out = b"width=2\nheight=2\n".to_vec();
    let d = parse_video_metadata(&out).unwrap();
    assert_eq!((d.fps_num, d.fps_den), (30, 1));
    assert_eq!(d.video_codec, b"Unknown".to_vec());
    assert_eq!(d.bitrate, None);
}

#[test]
fn bad_bit_rate_is_ignored() {
    let out = b"width=2\nheight=2\nbit_rate=N/A\n".to_vec();
    let d = parse_video_metadata(&out).unwrap();
    assert_eq!(d.bitrate, None);
}

#[test]
fn huge_bit_rate_is_ignored() {
    // One digit beyond what a u64 can hold.
    let out = b"width=2\nheight=2\nbit_rate=99999999999999999999\n".to_vec();
    let d = parse_video_metadata(&out).unwrap();
    assert_eq!(d.bitrate, None);
}

#[test]
fn audio_codec_is_read() {
    let out = b"codec_name=aac\n".to_vec();
    assert_eq!(parse_audio_codec(&out), Some(b"aac".to_vec()));
}

#[test]
fn audio_codec_absent() {
    let out = b"something=else\n".to_vec();
    assert_eq!(parse_audio_codec(&out), None);
}
