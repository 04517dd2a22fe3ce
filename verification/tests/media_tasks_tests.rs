use clipper_studio::media_tasks::{clear_finished_media_sql, list_media_tasks_sql, media_task_deletable, media_task_status_sql};
use clipper_studio::media_tasks::{
    merge_count_check, merge_found_check, merge_sources_sql, merge_task_sql, merged_name,
    output_dir, probe_tool_path, transcode_source_sql, transcode_task_sql, transcoded_name,
    virtual_merge_check, MergeRequest,
};

#[test]
fn output_names_and_directories() {
    assert_eq!(transcoded_name("录制.part1.flv", None), "录制_transcoded.mp4");
    assert_eq!(transcoded_name("a.flv", Some(true)), "a_transcoded.m4a");
    assert_eq!(merged_name("a.b.flv"), "a_merged.mp4");
    assert_eq!(output_dir(&Some("/u".into()), &Some("/w".into()), "/src"), "/u");
    assert_eq!(output_dir(&None, &Some("/w".into()), "/src"), "/w");
    assert_eq!(output_dir(&None, &None, "/src"), "/src");
}

#[test]
fn transcode_records() {
    assert_eq!(transcode_source_sql(5), "SELECT file_path, file_name, duration_ms FROM videos WHERE id = 5");
    assert_eq!(
        transcode_task_sql(5, "/o/it's.mp4", 2),
        "INSERT INTO media_tasks (task_type, video_ids, output_path, preset_id, status) VALUES ('transcode', '[5]', '/o/it''s.mp4', 2, 'pending')"
    );
}

#[test]
fn merge_checks_and_records() {
    assert_eq!(merge_count_check(1).unwrap_err(), "至少需要选择 2 个视频");
    assert!(merge_count_check(2).is_ok());
    assert_eq!(merge_found_check(1, 2).unwrap_err(), "部分视频不存在");
    assert_eq!(
        merge_sources_sql(&vec![3, 1]),
        "SELECT v.id, v.file_path, v.file_name, w.clip_output_dir as ws_clip_output_dir FROM videos v LEFT JOIN workspaces w ON v.workspace_id = w.id WHERE v.id IN (3,1) ORDER BY INSTR(',3,1,', ',' || v.id || ',')"
    );
    assert_eq!(probe_tool_path("/opt/ffmpeg/bin/ffmpeg"), "/opt/ffprobe/bin/ffprobe");
    assert!(virtual_merge_check("virtual", &Ok(true)).is_ok());
    assert!(virtual_merge_check("virtual", &Err("probe".into())).is_err());
    assert!(virtual_merge_check("physical", &Ok(false)).is_ok());
    let req = MergeRequest { video_ids: vec![3, 1], mode: "virtual".into(), preset_id: None, output_dir: None };
    assert_eq!(
        merge_task_sql(&req, "/o/a_merged.mp4"),
        "INSERT INTO media_tasks (task_type, video_ids, output_path, preset_id, status) VALUES ('merge', '[3,1]', '/o/a_merged.mp4', NULL, 'pending')"
    );
}

#[test]
fn media_task_bookkeeping_statements() {
    assert_eq!(
        list_media_tasks_sql(&Some("merge".to_string())),
        "SELECT * FROM media_tasks WHERE task_type = 'merge' ORDER BY created_at DESC"
    );
    assert_eq!(list_media_tasks_sql(&None), "SELECT * FROM media_tasks  ORDER BY created_at DESC");
    assert_eq!(
        media_task_status_sql(4, "completed", &None),
        "UPDATE media_tasks SET status = 'completed', progress = 1.0, completed_at = datetime('now') WHERE id = 4"
    );
    assert_eq!(
        media_task_status_sql(4, "failed", &Some("it's broken".to_string())),
        "UPDATE media_tasks SET status = 'failed', progress = progress, error_message = 'it''s broken' WHERE id = 4"
    );
    assert_eq!(media_task_deletable("processing").unwrap_err(), "请先取消该任务");
    assert_eq!(media_task_deletable("pending").unwrap_err(), "请先取消该任务");
    assert!(media_task_deletable("failed").is_ok());
    let (outputs, delete) = clear_finished_media_sql();
    assert!(outputs.starts_with("SELECT output_path FROM media_tasks"));
    assert_eq!(delete, "DELETE FROM media_tasks WHERE status NOT IN ('pending','processing')");
}
