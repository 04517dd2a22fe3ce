use clipper_studio::subtitle::{format_ass_time, format_srt_time, format_vtt_time, generate_ass, to_srt, to_vtt, SubtitleSegment};

#[test]
fn test_format_ass_time_zero() {
    assert_eq!(format_ass_time(0), "0:00:00.00");
}

#[test]
fn test_format_ass_time_seconds_only() {
    assert_eq!(format_ass_time(1500), "0:00:01.50");
    assert_eq!(format_ass_time(10), "0:00:00.01");
}

#[test]
fn test_format_ass_time_minutes() {
    assert_eq!(format_ass_time(90000), "0:01:30.00");
}

#[test]
fn test_format_ass_time_hours() {
    assert_eq!(format_ass_time(3661500), "1:01:01.50");
    assert_eq!(format_ass_time(3600000), "1:00:00.00");
}

#[test]
fn test_format_ass_time_large_value() {
    assert_eq!(format_ass_time(360_000_000), "100:00:00.00");
}

fn make_segment(start_ms: i64, end_ms: i64, text: &str) -> SubtitleSegment {
    SubtitleSegment {
        id: 0,
        video_id: 1,
        language: "zh".into(),
        start_ms,
        end_ms,
        text: text.into(),
        source: "asr".into(),
    }
}

#[test]
fn test_generate_ass_empty_segments() {
    let segments: Vec<SubtitleSegment> = vec![];
    let result = generate_ass(&segments, 0);
    assert!(result.contains("[Script Info]"));
    assert!(result.contains("[Events]"));
    assert!(!result.contains("Dialogue:"));
}

#[test]
fn test_generate_ass_single_segment() {
    let segments = vec![make_segment(1000, 3000, "Hello")];
    let result = generate_ass(&segments, 0);
    assert!(result.contains("Dialogue: 0,0:00:01.00,0:00:03.00,Default,,0,0,0,,Hello\n"));
}

#[test]
fn test_generate_ass_with_base_offset() {
    let segments = vec![make_segment(3_600_000, 3_601_000, "offset test")];
    let result = generate_ass(&segments, 3_600_000);
    assert!(result.contains("Dialogue: 0,0:00:00.00,0:00:01.00,Default,,0,0,0,,offset test\n"));
}

#[test]
fn test_generate_ass_clamps_negative_start() {
    let segments = vec![make_segment(500, 2000, "clamp test")];
    let result = generate_ass(&segments, 1000);
    assert!(result.contains("Dialogue: 0,0:00:00.00,0:00:01.00,Default,,0,0,0,,clamp test\n"));
}

#[test]
fn test_generate_ass_multiple_segments() {
    let segments = vec![make_segment(1000, 3000, "first"), make_segment(4000, 6000, "second")];
    let result = generate_ass(&segments, 0);
    assert!(result.contains("Dialogue: 0,0:00:01.00,0:00:03.00,Default,,0,0,0,,first\n"));
    assert!(result.contains("Dialogue: 0,0:00:04.00,0:00:06.00,Default,,0,0,0,,second\n"));
}

#[test]
fn ass_time_negative_follows_truncating_division() {
    assert_eq!(format_ass_time(-1500), "0:00:-1.-50");
    assert_eq!(format_ass_time(-3_600_000), "-1:00:00.00");
}

#[test]
fn srt_and_vtt_times() {
    assert_eq!(format_srt_time(3_723_045), "01:02:03,045");
    assert_eq!(format_vtt_time(3_723_045), "01:02:03.045");
    assert_eq!(format_srt_time(0), "00:00:00,000");
    assert_eq!(format_srt_time(360_000_000), "100:00:00,000");
}

#[test]
fn srt_document_numbers_cues_and_clamps() {
    let segs = vec![make_segment(1000, 2500, "a"), make_segment(500, 4000, "b")];
    let out = to_srt(&segs, 1000);
    assert_eq!(out, "1\n00:00:00,000 --> 00:00:01,500\na\n\n2\n00:00:00,000 --> 00:00:03,000\nb\n\n");
}

#[test]
fn vtt_document_has_header() {
    let segs = vec![make_segment(61_000, 62_500, "x")];
    let out = to_vtt(&segs, 0);
    assert_eq!(out, "WEBVTT\n\n00:01:01.000 --> 00:01:02.500\nx\n\n");
}

#[test]
fn ass_time_truncates_to_centiseconds() {
    assert_eq!(format_ass_time(3_599_999), "0:59:59.99");
    assert_eq!(format_ass_time(36_000_009), "10:00:00.00");
    assert_eq!(format_ass_time(90_061_015), "25:01:01.01");
}
