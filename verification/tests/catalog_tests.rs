use clipper_studio::catalog::{
    attach_videos, import_insert_sql, like_escape, list_sessions_query, list_streamers_query,
    list_videos_query, page_window, session_videos_sql, where_clause, ImportVideoRequest,
    ListSessionsRequest, ListStreamersRequest, ListVideosRequest, SessionInfo, VideoInfo,
};

fn videos_request() -> ListVideosRequest {
    ListVideosRequest {
        workspace_id: None,
        streamer_id: None,
        sort_by: None,
        sort_order: None,
        search: None,
        date_from: None,
        date_to: None,
        page: None,
        page_size: None,
        tag_ids: None,
    }
}

fn video(id: i64, session: Option<i64>) -> VideoInfo {
    VideoInfo {
        id,
        file_path: format!("/w/{}.flv", id),
        file_name: format!("{}.flv", id),
        file_hash: None,
        file_size: 1,
        duration_ms: None,
        width: None,
        height: None,
        format_name: None,
        video_codec: None,
        audio_codec: None,
        has_subtitle: false,
        has_danmaku: false,
        has_envelope: false,
        workspace_id: Some(1),
        session_id: session,
        streamer_id: None,
        streamer_name: None,
        stream_title: None,
        recorded_at: None,
        created_at: String::new(),
    }
}

fn session(id: i64) -> SessionInfo {
    SessionInfo {
        id,
        workspace_id: 1,
        streamer_id: None,
        streamer_name: None,
        title: Some(format!("s{}", id)),
        started_at: None,
        file_count: 0,
        videos: vec![],
    }
}

#[test]
fn pages() {
    assert_eq!(page_window(None, None), (1, 50, 0));
    assert_eq!(page_window(Some(0), Some(500)), (1, 200, 0));
    assert_eq!(page_window(Some(3), Some(20)), (3, 20, 40));
}

#[test]
fn search_text_is_escaped_for_like() {
    assert_eq!(like_escape("50% o'clock"), "50\\% o''clock");
    assert_eq!(where_clause(&vec![]), "");
    assert_eq!(where_clause(&vec!["a = 1".to_string(), "b = 2".to_string()]), "WHERE a = 1 AND b = 2");
}

#[test]
fn unfiltered_video_list() {
    let q = list_videos_query(&videos_request());
    assert_eq!(q.count_sql, "SELECT COUNT(*) as cnt FROM videos v ");
    assert_eq!(
        q.page_sql,
        "SELECT v.*, st.name as streamer_name FROM videos v LEFT JOIN streamers st ON v.streamer_id = st.id  ORDER BY v.created_at DESC LIMIT 50 OFFSET 0"
    );
    assert_eq!((q.page, q.page_size), (1, 50));
}

#[test]
fn filtered_video_list() {
    let mut r = videos_request();
    r.workspace_id = Some(2);
    r.streamer_id = Some(-1);
    r.search = Some("a'b".into());
    r.date_from = Some("2024-01-01".into());
    r.date_to = Some("2024-01-31".into());
    r.tag_ids = Some(vec![3, 0, 5]);
    r.sort_by = Some("recorded_at".into());
    r.sort_order = Some("asc".into());
    r.page = Some(2);
    r.page_size = Some(10);
    let q = list_videos_query(&r);
    let where_part = "WHERE v.workspace_id = 2 AND v.streamer_id IS NULL AND (v.stream_title LIKE '%a''b%' OR v.file_name LIKE '%a''b%') AND v.recorded_at >= '2024-01-01' AND v.recorded_at < '2024-01-31T' AND v.id IN (SELECT video_id FROM video_tags WHERE tag_id IN (3,5) GROUP BY video_id HAVING COUNT(DISTINCT tag_id) = 2)";
    assert_eq!(q.count_sql, format!("SELECT COUNT(*) as cnt FROM videos v {}", where_part));
    assert!(q.page_sql.ends_with(" ORDER BY v.recorded_at ASC LIMIT 10 OFFSET 10"));
    let mut e = videos_request();
    e.search = Some(String::new());
    e.date_from = Some(String::new());
    e.tag_ids = Some(vec![-1, 0]);
    assert_eq!(list_videos_query(&e).count_sql, "SELECT COUNT(*) as cnt FROM videos v ");
}

#[test]
fn session_and_streamer_lists() {
    let r = ListSessionsRequest {
        workspace_id: Some(1),
        streamer_id: Some(4),
        sort_order: Some("asc".into()),
        search: Some("夜".into()),
        date_from: None,
        date_to: None,
        page: None,
        page_size: None,
    };
    let q = list_sessions_query(&r);
    assert_eq!(
        q.count_sql,
        "SELECT COUNT(*) as cnt FROM recording_sessions s WHERE s.workspace_id = 1 AND s.streamer_id = 4 AND s.title LIKE '%夜%'"
    );
    assert!(q.page_sql.ends_with("ORDER BY s.started_at ASC LIMIT 50 OFFSET 0"));
    let all = list_streamers_query(&ListStreamersRequest { workspace_id: None, page: None, page_size: None });
    assert_eq!(all.count_sql, "SELECT COUNT(*) as cnt FROM streamers");
    assert!(all.page_sql.contains("LEFT JOIN videos v ON st.id = v.streamer_id GROUP BY st.id"));
    let ws = list_streamers_query(&ListStreamersRequest { workspace_id: Some(3), page: Some(2), page_size: Some(5) });
    assert_eq!(
        ws.count_sql,
        "SELECT COUNT(DISTINCT st.id) as cnt FROM streamers st INNER JOIN videos v ON st.id = v.streamer_id WHERE v.workspace_id = 3"
    );
    assert!(ws.page_sql.ends_with("WHERE v.workspace_id = 3 GROUP BY st.id ORDER BY st.name LIMIT 5 OFFSET 5"));
}

#[test]
fn sessions_get_their_videos() {
    let sessions = vec![session(1), session(0), session(2), session(1)];
    assert_eq!(
        session_videos_sql(&sessions).unwrap(),
        "SELECT v.*, st.name as streamer_name FROM videos v LEFT JOIN streamers st ON v.streamer_id = st.id WHERE v.session_id IN (1,2,1) ORDER BY v.session_id, v.recorded_at ASC"
    );
    assert!(session_videos_sql(&vec![session(0)]).is_none());
    let videos = vec![video(10, Some(1)), video(11, Some(2)), video(12, Some(1)), video(13, None)];
    let r = attach_videos(&sessions, &videos);
    let ids: Vec<Vec<i64>> = r.iter().map(|s| s.videos.iter().map(|v| v.id).collect()).collect();
    assert_eq!(ids, vec![vec![10, 12], vec![], vec![11], vec![]]);
    assert_eq!(r[2].title.as_deref(), Some("s2"));
}

#[test]
fn import_row() {
    let req = ImportVideoRequest { file_path: "/w/it's.flv".into(), workspace_id: Some(2) };
    assert_eq!(
        import_insert_sql(&req, "it's.flv", &Some("abc".into()), 1024, Some(5000), Some(1920), None),
        "INSERT INTO videos (file_path, file_name, file_hash, file_size, duration_ms, width, height, workspace_id) VALUES ('/w/it''s.flv', 'it''s.flv', 'abc', 1024, 5000, 1920, NULL, 2)"
    );
}

#[test]
fn consecutive_pages_follow_on() {
    assert_eq!(page_window(Some(1), Some(20)), (1, 20, 0));
    assert_eq!(page_window(Some(2), Some(20)), (2, 20, 20));
    assert_eq!(page_window(Some(3), Some(20)), (3, 20, 40));
    assert_eq!(page_window(None, Some(500)), (1, 200, 0));
}
