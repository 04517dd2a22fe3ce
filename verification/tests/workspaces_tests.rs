use clipper_studio::storage::{RecordingFileMeta, RecordingSession, StreamerDir};
use clipper_studio::workspaces::{
    active_workspace_from, clip_dir, count_videos_sql, create_workspace_sql, delete_workspace_sql,
    has_danmaku, known_video_update, new_video_insert_sql, scan_reset_sql, scan_result,
    session_insert_sql, set_active_sql, streamer_insert_sql, streamer_lookup_sql,
    update_workspace_sql, video_lookup_sql, workspace_by_id_sql, workspace_by_path_sql,
    CreateWorkspaceRequest, UpdateWorkspaceRequest,
};

fn update(name: Option<&str>, auto: Option<bool>, dir: Option<&str>, adapter: Option<&str>) -> UpdateWorkspaceRequest {
    UpdateWorkspaceRequest {
        workspace_id: 4,
        name: name.map(|s| s.to_string()),
        auto_scan: auto,
        clip_output_dir: dir.map(|s| s.to_string()),
        adapter_id: adapter.map(|s| s.to_string()),
    }
}

fn meta(assoc: Vec<&str>) -> RecordingFileMeta {
    RecordingFileMeta {
        room_id: Some("1".into()),
        streamer_name: Some("主播".into()),
        stream_title: Some("今晚's".into()),
        recorded_at: Some("2024-01-01 20:00:00".into()),
        duration_ms: Some(60000),
        file_path: "/w/a.flv".into(),
        file_name: "a.flv".into(),
        extension: "flv".into(),
        associated_files: assoc.into_iter().map(|s| s.to_string()).collect(),
    }
}

#[test]
fn creating_workspaces() {
    let req = CreateWorkspaceRequest {
        name: "录播's".into(),
        path: "/data/rec".into(),
        adapter_id: "generic".into(),
        adapter_config: Some(String::new()),
    };
    assert_eq!(
        create_workspace_sql(&req),
        "INSERT INTO workspaces (name, path, adapter_id, adapter_config) VALUES ('录播''s', '/data/rec', 'generic', NULL)"
    );
    assert_eq!(
        workspace_by_path_sql("/data/rec"),
        "SELECT id, name, path, adapter_id, adapter_config, auto_scan, clip_output_dir, created_at FROM workspaces WHERE path = '/data/rec'"
    );
    assert!(workspace_by_id_sql(4).ends_with("FROM workspaces WHERE id = 4"));
}

#[test]
fn updating_workspaces() {
    assert_eq!(
        update_workspace_sql(&update(Some("新名"), Some(false), Some("  "), Some(" generic "))).unwrap(),
        "UPDATE workspaces SET name = '新名', auto_scan = 0, adapter_id = 'generic', clip_output_dir = NULL, updated_at = datetime('now') WHERE id = 4"
    );
    assert_eq!(
        update_workspace_sql(&update(None, None, Some("/out"), None)).unwrap(),
        "UPDATE workspaces SET clip_output_dir = '/out', updated_at = datetime('now') WHERE id = 4"
    );
    assert_eq!(update_workspace_sql(&update(Some(" "), None, None, None)).unwrap_err(), "工作区名称不能为空");
    assert_eq!(update_workspace_sql(&update(None, None, None, Some(""))).unwrap_err(), "适配器类型不能为空");
    assert_eq!(
        update_workspace_sql(&update(None, None, None, Some("nas"))).unwrap_err(),
        "未知的适配器类型: nas"
    );
    assert_eq!(update_workspace_sql(&update(None, None, None, None)).unwrap_err(), "没有需要更新的字段");
}

#[test]
fn deleting_and_activating() {
    assert_eq!(
        delete_workspace_sql(7),
        vec![
            "DELETE FROM videos WHERE workspace_id = 7",
            "DELETE FROM recording_sessions WHERE workspace_id = 7",
            "DELETE FROM workspaces WHERE id = 7"
        ]
    );
    assert_eq!(active_workspace_from("12"), Some(12));
    assert_eq!(active_workspace_from("-3"), Some(-3));
    assert_eq!(active_workspace_from("x"), None);
    assert_eq!(
        set_active_sql(Some(5)),
        "INSERT OR REPLACE INTO settings_kv (key, value) VALUES ('active_workspace_id', '5')"
    );
    assert_eq!(set_active_sql(None), "DELETE FROM settings_kv WHERE key = 'active_workspace_id'");
}

#[test]
fn clip_directories() {
    assert_eq!(clip_dir("/data/ws", &None), "/data/ws/clips");
    assert_eq!(clip_dir("/data/ws/", &Some(String::new())), "/data/ws/clips");
    assert_eq!(clip_dir("/data/ws", &Some("/out".into())), "/out");
}

#[test]
fn scan_writes() {
    assert_eq!(scan_reset_sql(3).len(), 3);
    assert_eq!(scan_reset_sql(3)[2], "DELETE FROM recording_sessions WHERE workspace_id = 3");
    let sd = StreamerDir { room_id: "22".into(), name: "O'Neil".into(), dir_path: "/w/22-O'Neil".into() };
    assert_eq!(
        streamer_insert_sql(&sd),
        "INSERT OR IGNORE INTO streamers (platform, room_id, name) VALUES ('bilibili', '22', 'O''Neil')"
    );
    assert_eq!(streamer_lookup_sql("22"), "SELECT id FROM streamers WHERE room_id = '22'");
    let sess = RecordingSession {
        room_id: "22".into(),
        streamer_name: "x".into(),
        title: "夜".into(),
        started_at: String::new(),
        files: vec![meta(vec![]), meta(vec![])],
    };
    assert_eq!(
        session_insert_sql(3, None, &sess),
        "INSERT INTO recording_sessions (workspace_id, streamer_id, title, started_at, file_count) VALUES (3, NULL, '夜', NULL, 2)"
    );
    assert_eq!(video_lookup_sql("/w/a'b.flv"), "SELECT id, workspace_id FROM videos WHERE file_path = '/w/a''b.flv'");
    assert_eq!(count_videos_sql(3), "SELECT COUNT(*) as cnt FROM videos WHERE workspace_id = 3");
}

#[test]
fn known_videos_move_into_the_workspace() {
    let (same, moved) = known_video_update(3, Some(9), Some(2), 40, Some(3), None);
    assert!(!moved);
    assert_eq!(
        same,
        "UPDATE videos SET session_id = 9, streamer_id = 2, file_missing = 0, duration_ms = CASE WHEN duration_ms IS NULL OR duration_ms = 0 THEN NULL ELSE duration_ms END WHERE id = 40"
    );
    let (other, moved) = known_video_update(3, None, None, 40, Some(8), Some(1000));
    assert!(moved);
    assert!(other.contains(", file_missing = 0, workspace_id = 3, duration_ms"));
    assert!(other.contains("THEN 1000 ELSE"));
    assert!(known_video_update(3, None, None, 1, None, None).1);
}

#[test]
fn new_videos_record_their_danmaku() {
    assert!(has_danmaku(&meta(vec!["/w/a.txt", "/w/a.xml"])));
    assert!(!has_danmaku(&meta(vec!["/w/a.txt", "/w/.xml", "/w/xml"])));
    let sql = new_video_insert_sql(&meta(vec!["/w/a.xml"]), 2048, Some(1920), Some(1080), 3, Some(2), None, "bililive-recorder");
    assert_eq!(
        sql,
        "INSERT INTO videos (file_path, file_name, file_size, duration_ms, width, height, workspace_id, streamer_id, session_id, stream_title, recorded_at, adapter_id, has_danmaku, file_missing) VALUES ('/w/a.flv', 'a.flv', 2048, 60000, 1920, 1080, 3, 2, NULL, '今晚''s', '2024-01-01 20:00:00', 'bililive-recorder', 1, 0)"
    );
}

#[test]
fn scan_reports() {
    let r = scan_result(2, 10, 3, 1);
    assert_eq!((r.new_files, r.total_files, r.total_sessions, r.streamers), (2, 10, 3, 1));
}
