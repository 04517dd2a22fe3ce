use clipper_studio::asr::mentions_retry_keyword;
use clipper_studio::media::content_type_for_lower;
use clipper_studio::storage::is_video_extension;
use clipper_studio::text::{decimal_string, join_strings, replace_all, str_contains, str_starts_with};

#[test]
fn joining() {
    assert_eq!(join_strings(&vec![], ","), "");
    assert_eq!(join_strings(&vec!["a".to_string()], ","), "a");
    assert_eq!(join_strings(&vec!["a".to_string(), "".to_string(), "c".to_string()], ", "), "a, , c");
}

#[test]
fn replacing_matches_std() {
    for (s, from, to) in [("ffmpeg", "ffmpeg", "ffprobe"), ("aaa", "aa", "b"), ("", "x", "y"), ("abcabc", "c", ""), ("主播主播", "主", "x")] {
        assert_eq!(replace_all(s, from, to), s.replace(from, to));
    }
}

#[test]
fn small_helpers() {
    assert_eq!(decimal_string(0), "0");
    assert_eq!(decimal_string(18446744073709551615), "18446744073709551615");
    assert!(str_contains("hello", "ll"));
    assert!(str_contains("hello", ""));
    assert!(!str_contains("he", "hello"));
    assert!(str_starts_with("hello", "he"));
    assert!(!str_starts_with("he", "hello"));
}

#[test]
fn checks_after_lower_casing() {
    use_checks();
}

fn use_checks() {
    assert!(mentions_retry_keyword("network unreachable"));
    assert!(!mentions_retry_keyword("Network unreachable"));
    assert_eq!(content_type_for_lower("webm"), "video/webm");
    assert_eq!(content_type_for_lower("WEBM"), "application/octet-stream");
    assert!(is_video_extension("mkv"));
    assert!(!is_video_extension("MKV"));
    assert!(!is_video_extension("xml"));
}
