use clipper_studio::dashboard::{app_info, dashboard_queries, get_setting_sql, set_setting_sql, track_event_sql};

#[test]
fn application_description() {
    let a = app_info("0.1.0".into(), "/d".into(), "/c/config.toml".into(), "/bin/ffmpeg", Some("6.1".into()), "", 0, 41000);
    assert!(a.ffmpeg_available && !a.ffprobe_available && !a.has_workspaces);
    assert_eq!(a.media_server_port, 41000);
    assert!(app_info(String::new(), String::new(), String::new(), "", None, "p", 2, 1).has_workspaces);
}

#[test]
fn statistics_of_the_whole_library() {
    let q = dashboard_queries(None);
    assert!(q.videos.ends_with("FROM videos "));
    assert_eq!(q.streamers, "SELECT COUNT(*) as cnt FROM streamers");
    assert_eq!(q.sessions, "SELECT COUNT(*) as cnt FROM recording_sessions ");
    assert!(q.recent_clips.ends_with("FROM clip_tasks t  ORDER BY t.created_at DESC LIMIT 10"));
    assert!(q.top_streamers.ends_with("st.id = v.streamer_id  GROUP BY st.id ORDER BY vcnt DESC LIMIT 5"));
}

#[test]
fn statistics_of_one_workspace() {
    let q = dashboard_queries(Some(4));
    assert!(q.videos.ends_with("FROM videos WHERE workspace_id = 4"));
    assert_eq!(
        q.streamers,
        "SELECT COUNT(DISTINCT streamer_id) as cnt FROM videos WHERE workspace_id = 4 AND streamer_id IS NOT NULL"
    );
    assert!(q.clips.ends_with("FROM clip_tasks t INNER JOIN videos v ON t.video_id = v.id WHERE v.workspace_id = 4"));
    assert!(q.clip_outputs.ends_with("INNER JOIN videos v ON co.video_id = v.id WHERE v.workspace_id = 4"));
    assert!(q.top_streamers.contains("WHERE v.workspace_id = 4 GROUP BY st.id"));
}

#[test]
fn settings_statements() {
    assert_eq!(get_setting_sql("a'b"), "SELECT value FROM settings_kv WHERE key = 'a''b'");
    assert_eq!(set_setting_sql("k", "v'"), "INSERT OR REPLACE INTO settings_kv (key, value) VALUES ('k', 'v''')");
    assert_eq!(track_event_sql("open", &None), "INSERT INTO analytics_events (event, properties) VALUES ('open', NULL)");
    assert_eq!(
        track_event_sql("clip", &Some("{\"n\":1}".into())),
        "INSERT INTO analytics_events (event, properties) VALUES ('clip', '{\"n\":1}')"
    );
}
