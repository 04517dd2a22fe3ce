use clipper_studio::sessions::{group_into_sessions, parse_timestamp_secs, str_lt};
use clipper_studio::storage::RecordingFileMeta;

fn file(room: Option<&str>, at: Option<&str>, dur_ms: Option<i64>, name: &str) -> RecordingFileMeta {
    RecordingFileMeta {
        room_id: room.map(|s| s.to_string()),
        streamer_name: Some("主播".to_string()),
        stream_title: Some(format!("标题{}", name)),
        recorded_at: at.map(|s| s.to_string()),
        duration_ms: dur_ms,
        file_path: format!("/w/{}", name),
        file_name: name.to_string(),
        extension: "flv".to_string(),
        associated_files: vec![],
    }
}

fn names(s: &clipper_studio::storage::RecordingSession) -> Vec<String> {
    s.files.iter().map(|f| f.file_name.clone()).collect()
}

#[test]
fn timestamps_use_the_rough_calendar() {
    assert_eq!(parse_timestamp_secs("2024-01-01 00:00:00"), Some(63831542400));
    assert_eq!(parse_timestamp_secs("2024-03-05 08:15:02"), Some(63837101702));
    assert_eq!(parse_timestamp_secs("2024-03-05"), None);
    assert_eq!(parse_timestamp_secs("2024-xx-05 08:15:02"), None);
}

#[test]
fn string_order_is_by_characters() {
    assert!(str_lt("2024-01-01", "2024-01-02"));
    assert!(str_lt("", "a"));
    assert!(!str_lt("b", "a"));
    assert!(!str_lt("a", "a"));
}

#[test]
fn close_files_share_a_session() {
    let files = vec![
        file(Some("1"), Some("2024-01-01 20:00:00"), Some(3_600_000), "a"),
        file(Some("1"), Some("2024-01-01 21:30:00"), Some(600_000), "b"),
    ];
    let s = group_into_sessions(&files, 3600);
    assert_eq!(s.len(), 1);
    assert_eq!(s[0].room_id, "1");
    assert_eq!(s[0].started_at, "2024-01-01 20:00:00");
    assert_eq!(s[0].title, "标题a");
    assert_eq!(names(&s[0]), vec!["a", "b"]);
}

#[test]
fn a_long_gap_starts_a_new_session_latest_first() {
    let files = vec![
        file(Some("1"), Some("2024-01-01 23:00:00"), Some(600_000), "late"),
        file(Some("1"), Some("2024-01-01 20:00:00"), Some(600_000), "early"),
    ];
    let s = group_into_sessions(&files, 3600);
    assert_eq!(s.len(), 2);
    assert_eq!(names(&s[0]), vec!["late"]);
    assert_eq!(names(&s[1]), vec!["early"]);
}

#[test]
fn rooms_never_share_a_session() {
    let files = vec![
        file(Some("1"), Some("2024-01-01 20:00:00"), Some(60_000), "one"),
        file(Some("2"), Some("2024-01-01 20:00:30"), Some(60_000), "two"),
        file(None, None, None, "loose"),
    ];
    let s = group_into_sessions(&files, 3600);
    assert_eq!(s.len(), 3);
    for sess in &s {
        for f in &sess.files {
            let room = f.room_id.clone().unwrap_or_else(|| "unknown".to_string());
            assert_eq!(room, sess.room_id);
        }
    }
    let total: usize = s.iter().map(|x| x.files.len()).sum();
    assert_eq!(total, 3);
}

#[test]
fn no_files_no_sessions() {
    assert!(group_into_sessions(&vec![], 3600).is_empty());
}
