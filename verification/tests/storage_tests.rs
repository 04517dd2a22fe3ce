use clipper_studio::storage::{
    associated_names, detect_adapter, listed_file_sliceable, parse_recording_name, parse_streamer_dir_name,
    recording_file_meta, scan_bililive_recorder, scan_generic, scan_workspace, ListedFile,
    RootEntry,
};

fn listed(path: &str, name: &str, ext: Option<&str>, associated: Vec<&str>) -> ListedFile {
    ListedFile {
        path: path.to_string(),
        name: Some(name.to_string()),
        extension: ext.map(|e| e.to_string()),
        is_file: true,
        associated: associated.into_iter().map(|s| s.to_string()).collect(),
    }
}

#[test]
fn recording_names_are_parsed() {
    let n = parse_recording_name("录制-123456-20240101-203000-123-晚间直播.flv").unwrap();
    assert_eq!(n.room_id, "123456");
    assert_eq!(n.date, "20240101");
    assert_eq!(n.time, "203000");
    assert_eq!(n.millis, "123");
    assert_eq!(n.title, "晚间直播");
    assert_eq!(n.ext, "flv");
}

#[test]
fn recording_names_are_refused() {
    assert!(parse_recording_name("录制-abc-20240101-203000-123-x.flv").is_none());
    assert!(parse_recording_name("录制-1-2024011-203000-123-x.flv").is_none());
    assert!(parse_recording_name("录制-1-20240101-203000-123-x.mkv").is_none());
    assert!(parse_recording_name("录制-1-20240101-203000-123-.flv").is_none());
    assert!(parse_recording_name("video.mp4").is_none());
}

#[test]
fn streamer_directories() {
    assert_eq!(
        parse_streamer_dir_name("22603245-某主播"),
        Some(("22603245".to_string(), "某主播".to_string()))
    );
    assert_eq!(parse_streamer_dir_name("abc-x"), None);
    assert_eq!(parse_streamer_dir_name("123-"), None);
}

#[test]
fn side_file_names() {
    assert_eq!(
        associated_names("a/b"),
        vec!["a/b.xml", "a/b.txt", "a/b.srt", "a/b.ass"]
    );
}

#[test]
fn file_meta_from_recording_name() {
    let f = listed(
        "/w/1-主播/录制-1-20240305-081502-000-早场.flv",
        "录制-1-20240305-081502-000-早场.flv",
        Some("FLV"),
        vec!["/w/1-主播/录制-1-20240305-081502-000-早场.xml"],
    );
    let m = recording_file_meta(&f, &Some("9".to_string()), &Some("主播".to_string())).unwrap();
    assert_eq!(m.room_id.as_deref(), Some("1"));
    assert_eq!(m.streamer_name.as_deref(), Some("主播"));
    assert_eq!(m.stream_title.as_deref(), Some("早场"));
    assert_eq!(m.recorded_at.as_deref(), Some("2024-03-05 08:15:02"));
    assert_eq!(m.extension, "flv");
    assert_eq!(m.duration_ms, None);
    assert_eq!(m.associated_files.len(), 1);
}

#[test]
fn file_meta_falls_back_to_directory_room() {
    let f = listed("/w/clip.mp4", "clip.mp4", Some("mp4"), vec![]);
    let m = recording_file_meta(&f, &Some("9".to_string()), &None).unwrap();
    assert_eq!(m.room_id.as_deref(), Some("9"));
    assert_eq!(m.recorded_at, None);
    let not_video = listed("/w/notes.txt", "notes.txt", Some("txt"), vec![]);
    assert!(recording_file_meta(&not_video, &None, &None).is_none());
}

#[test]
fn adapter_detection() {
    let rec = "录制-5-20240101-000000-000-t.flv";
    let dir = RootEntry::Dir {
        name: "5-主播".to_string(),
        path: "/w/5-主播".to_string(),
        entries: vec![listed("/w/5-主播/x", rec, Some("flv"), vec![])],
    };
    assert_eq!(detect_adapter(&None, &vec![dir]), "bililive-recorder");
    assert_eq!(
        detect_adapter(&Some("{\"roomId\": 1}".to_string()), &vec![]),
        "bililive-recorder"
    );
    assert_eq!(detect_adapter(&Some("{}".to_string()), &vec![]), "generic");
}

#[test]
fn recorder_scan_reads_directories_and_root_files() {
    let rec = "录制-5-20240101-000000-000-t.flv";
    let entries = vec![
        RootEntry::Dir {
            name: "5-主播".to_string(),
            path: "/w/5-主播".to_string(),
            entries: vec![listed("/w/5-主播/a", rec, Some("flv"), vec![])],
        },
        RootEntry::File(listed("/w/loose.mp4", "loose.mp4", Some("mp4"), vec![])),
    ];
    let r = scan_bililive_recorder("/w", &entries);
    assert_eq!(r.adapter_id, "bililive-recorder");
    assert_eq!(r.files.len(), 2);
    assert_eq!(r.streamer_dirs.len(), 1);
    assert_eq!(r.streamer_dirs[0].room_id, "5");
    assert_eq!(r.streamer_dirs[0].name, "主播");
    let both = scan_workspace("/w", &None, &entries, &vec![]);
    assert_eq!(both.adapter_id, "bililive-recorder");
}

#[test]
fn generic_scan_keeps_videos_only() {
    let files = vec![
        listed("/w/a.mkv", "a.mkv", Some("mkv"), vec![]),
        listed("/w/b.txt", "b.txt", Some("txt"), vec![]),
    ];
    let r = scan_generic("/w", &files);
    assert_eq!(r.adapter_id, "generic");
    assert_eq!(r.files.len(), 1);
    assert!(r.streamer_dirs.is_empty());
    let w = scan_workspace("/w", &None, &vec![], &files);
    assert_eq!(w.adapter_id, "generic");
    assert_eq!(w.files.len(), 1);
}

#[test]
fn unicode_decimal_digits_match_the_name_patterns() {
    let (room, name) = parse_streamer_dir_name("٣-主播").unwrap();
    assert_eq!((room.as_str(), name.as_str()), ("٣", "主播"));
    let n = parse_recording_name("录制-٣-20240101-203000-123-t.flv").unwrap();
    assert_eq!(n.room_id, "٣");
    let dir = RootEntry::Dir {
        name: "٣-name".to_string(),
        path: "/w/٣-name".to_string(),
        entries: vec![listed("/w/٣-name/录制-٣-20240101-203000-123-t.flv", "录制-٣-20240101-203000-123-t.flv", Some("flv"), vec![])],
    };
    assert_eq!(detect_adapter(&None, &vec![dir]), "bililive-recorder");
    assert!(parse_streamer_dir_name("x3-name").is_none());
    assert!(parse_streamer_dir_name("-name").is_none());
}

#[test]
fn recorded_at_cuts_date_and_time_at_byte_offsets() {
    // Arabic-Indic digits take two bytes: the date cuts fall on boundaries.
    let f = listed("/w/a.flv", "录制-1-٢٠٢٤٠١٠١-203000-123-t.flv", Some("flv"), vec![]);
    assert!(listed_file_sliceable(&f));
    let m = recording_file_meta(&f, &None, &None).unwrap();
    assert_eq!(m.recorded_at.as_deref(), Some("٢٠-٢-٤ 20:30:00"));
    // Fullwidth digits take three bytes: the cut at byte 4 falls inside one.
    let g = listed("/w/b.flv", "录制-1-２０２４０１０１-203000-123-t.flv", Some("flv"), vec![]);
    assert!(parse_recording_name("录制-1-２０２４０１０１-203000-123-t.flv").is_some());
    assert!(!listed_file_sliceable(&g));
    // Not a video: no record is made, so nothing is cut.
    let h = listed("/w/b.txt", "录制-1-２０２４０１０１-203000-123-t.flv", Some("txt"), vec![]);
    assert!(listed_file_sliceable(&h));
    let plain = listed("/w/c.flv", "录制-1-20240101-203000-123-t.flv", Some("flv"), vec![]);
    assert_eq!(recording_file_meta(&plain, &None, &None).unwrap().recorded_at.as_deref(), Some("2024-01-01 20:30:00"));
}
