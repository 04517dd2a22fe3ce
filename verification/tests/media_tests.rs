use clipper_studio::media::{components, content_type, origin_allowed, starts_with_path, MediaServer};

#[test]
fn path_prefixes_match_whole_components() {
    assert!(starts_with_path("/data/ws/a.mp4", "/data/ws"));
    assert!(starts_with_path("/data/ws/a.mp4", "/data/ws/"));
    assert!(starts_with_path("/data//ws/a.mp4", "/data/ws"));
    assert!(!starts_with_path("/data/wsx/a.mp4", "/data/ws"));
    assert!(!starts_with_path("data/ws/a.mp4", "/data/ws"));
    assert_eq!(components("/a//b/").len(), 3);
}

#[test]
fn media_server_allows_registered_directories() {
    let mut s = MediaServer::new(41000);
    assert_eq!(s.port(), 41000);
    assert!(!s.is_canonical_allowed("/data/ws/a.mp4"));
    s.allow_prefix("/data/ws".to_string());
    s.allow_prefix("/data/ws".to_string());
    assert_eq!(s.allowed_prefixes.len(), 1);
    assert!(s.is_canonical_allowed("/data/ws/sub/a.mp4"));
    assert!(!s.is_canonical_allowed("/etc/passwd"));
    assert_eq!(
        s.file_url("/data/ws/直播 1.mp4"),
        "http://127.0.0.1:41000/serve?path=%2Fdata%2Fws%2F%E7%9B%B4%E6%92%AD%201.mp4"
    );
}

#[test]
fn origins() {
    assert!(origin_allowed("tauri://localhost"));
    assert!(origin_allowed("http://localhost:1420"));
    assert!(origin_allowed("http://127.0.0.1:5173"));
    assert!(!origin_allowed("http://evil.example"));
    assert!(!origin_allowed("http://localhost"));
}

#[test]
fn content_types_ignore_case() {
    assert_eq!(content_type(&Some("MP4".to_string())), "video/mp4");
    assert_eq!(content_type(&Some("flv".to_string())), "video/x-flv");
    assert_eq!(content_type(&Some("M4A".to_string())), "audio/mp4");
    assert_eq!(content_type(&Some("xyz".to_string())), "application/octet-stream");
    assert_eq!(content_type(&None), "application/octet-stream");
}
