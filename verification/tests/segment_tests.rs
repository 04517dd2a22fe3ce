use clipper_studio::segment::{default_min_segment, default_min_silence, detect_segments, DetectedSegment};

/// Windows quieter than the threshold, as the envelope reader marks them.
fn quiet_windows(values: &[f32], threshold: f32) -> Vec<bool> {
    values.iter().map(|v| *v < threshold).collect()
}

fn spans(segs: &[DetectedSegment]) -> Vec<(i64, i64)> {
    segs.iter().map(|s| (s.start_ms, s.end_ms)).collect()
}

#[test]
fn test_no_silence() {
    let quiet = quiet_windows(&[0.5, 0.6, 0.7, 0.8, 0.9], 0.05);
    let segs = detect_segments(&quiet, 1000, 2000, 1000);
    assert_eq!(segs.len(), 1);
    assert_eq!(segs[0].start_ms, 0);
    assert_eq!(segs[0].end_ms, 5000);
}

#[test]
fn test_one_silence_gap() {
    let quiet = quiet_windows(&[0.5, 0.6, 0.5, 0.01, 0.01, 0.01, 0.5, 0.6, 0.5], 0.05);
    let segs = detect_segments(&quiet, 1000, 2000, 1000);
    assert_eq!(segs.len(), 2);
    assert_eq!(segs[0].start_ms, 0);
    assert_eq!(segs[0].end_ms, 4500);
    assert_eq!(segs[1].start_ms, 4500);
    assert_eq!(segs[1].end_ms, 9000);
}

#[test]
fn test_short_silence_ignored() {
    let quiet = quiet_windows(&[0.5, 0.01, 0.5], 0.05);
    let segs = detect_segments(&quiet, 1000, 2000, 1000);
    assert_eq!(segs.len(), 1);
}

#[test]
fn test_empty_envelope() {
    let quiet = quiet_windows(&[], 0.05);
    let segs = detect_segments(&quiet, 1000, default_min_silence(), default_min_segment());
    assert!(segs.is_empty());
}

#[test]
fn segment_defaults() {
    assert_eq!(default_min_silence(), 3000);
    assert_eq!(default_min_segment(), 10000);
}

#[test]
fn short_segments_merge_into_neighbours() {
    // loud 1s, silent 3s, loud 1s: both halves are shorter than the minimum
    // segment, so they collapse into one.
    let quiet = vec![false, true, true, true, false];
    let segs = detect_segments(&quiet, 1000, 2000, 5000);
    assert_eq!(spans(&segs), vec![(0, 5000)]);
}

#[test]
fn all_quiet_splits_at_the_middle() {
    let quiet = vec![true, true, true, true];
    let segs = detect_segments(&quiet, 500, 1000, 100);
    assert_eq!(spans(&segs), vec![(0, 1000), (1000, 2000)]);
}

#[test]
fn segments_cover_the_recording_without_gaps() {
    // 40 windows of 500 ms: loud, quiet 4 s, loud, short quiet, loud, quiet to the end.
    let mut quiet = vec![false; 40];
    for q in quiet.iter_mut().take(18).skip(10) {
        *q = true;
    }
    quiet[25] = true;
    for q in quiet.iter_mut().skip(34) {
        *q = true;
    }
    for (min_silence, min_segment) in [(3000, 10000), (0, 0), (1000, 2000), (20000, 1)] {
        let segs = detect_segments(&quiet, 500, min_silence, min_segment);
        assert!(!segs.is_empty());
        assert_eq!(segs[0].start_ms, 0);
        assert_eq!(segs[segs.len() - 1].end_ms, 20000);
        for s in &segs {
            assert!(s.start_ms < s.end_ms);
        }
        for pair in segs.windows(2) {
            assert_eq!(pair[0].end_ms, pair[1].start_ms);
        }
    }
}
