use hypetrigger::video_size::{find_size, VideoSizeScanner};

const LOG: &[&str] = &[
    "ffmpeg version 6.0 Copyright (c) 2000-2023 the FFmpeg developers",
    "Input #0, mov,mp4,m4a,3gp,3g2,mj2, from 'test.mp4':",
    "  Duration: 00:00:10.00, start: 0.000000, bitrate: 1205 kb/s",
    "  Stream #0:0[0x1](und): Video: h264 (High) (avc1 / 0x31637661), yuv420p(progressive), 1920x1080 [SAR 1:1 DAR 16:9], 1070 kb/s, 30 fps, 30 tbr, 15360 tbn (default)",
    "Stream mapping:",
    "  Stream #0:0 (h264) -> fps:default",
    "Output #0, rawvideo, to 'pipe:1':",
    "  Metadata:",
    "    encoder         : Lavf60.3.100",
    "  Stream #0:0: Video: rawvideo (RGB[24] / 0x18424752), rgb24(pc, gbr/unknown/unknown, progressive), 1280x720 [SAR 1:1 DAR 16:9], q=2-31, 44236 kb/s, 2 fps, 2 tbn",
];

#[test]
fn output_stream_size_is_found_after_the_output_header() {
    let mut scanner = VideoSizeScanner::new();
    let mut found = Vec::new();
    for line in LOG {
        if let Some(size) = scanner.on_line(line.as_bytes()) {
            found.push(size);
        }
    }
    assert_eq!(found, vec![(1280, 720)]);
}

#[test]
fn input_stream_lines_are_ignored() {
    let mut scanner = VideoSizeScanner::new();
    assert_eq!(scanner.on_line(LOG[3].as_bytes()), None);
}

#[test]
fn size_token_rules() {
    assert_eq!(find_size(b"1280x720"), Some((1280, 720)));
    assert_eq!(find_size(b"a, 640x480, b"), Some((640, 480)));
    assert_eq!(find_size(b"(RGB[24] / 0x18424752), rgb24, 3x2,"), Some((3, 2)));
    assert_eq!(find_size(b"(RGB[24] / 0x18424752)"), None);
    assert_eq!(find_size(b"a1280x720 "), None);
    assert_eq!(find_size(b" 1280x720]"), None);
    assert_eq!(find_size(b" 1280x"), None);
    assert_eq!(find_size(b" x720"), None);
    assert_eq!(find_size(b" 4294967295x1"), Some((4294967295, 1)));
    assert_eq!(find_size(b" 4294967296x1 2x3"), Some((2, 3)));
    assert_eq!(find_size(b""), None);
}

#[test]
fn header_line_itself_reports_nothing() {
    let mut scanner = VideoSizeScanner::new();
    assert_eq!(scanner.on_line(b"Output #0, rawvideo, to 'pipe:1': Stream #0:0: Video: 10x10"), None);
    assert_eq!(scanner.on_line(b"  Stream #0:0: Video: rawvideo, rgb24, 10x20, 2 fps"), Some((10, 20)));
    assert_eq!(scanner.on_line(b"  Stream #0:1: Audio: aac, 48000 Hz"), None);
}
