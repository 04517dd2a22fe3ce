use clipper_studio::clip_tasks::clear_finished_clip_sql;
use clipper_studio::clip_tasks::{
    batch_retry_check, batch_retry_outcome, batch_retry_queries, burned_overlays,
    clear_outputs_sql, clip_output_insert_sql, clip_task_insert_sql, clip_video_sql,
    delete_batch_result, delete_batch_sql, delete_task_sql, list_clip_tasks_sql,
    prepared_burn_options, retry_check, retry_file_name, retry_reset_outcome, retry_reset_sql,
    retry_task_sql, sidecar_paths, task_status_sql,
};
use clipper_studio::clips::CreateClipRequest;

fn request() -> CreateClipRequest {
    CreateClipRequest {
        video_id: 7,
        start_ms: 1000,
        end_ms: 2000,
        title: Some("it's".into()),
        preset_id: Some(2),
        output_dir: None,
        include_danmaku: true,
        include_subtitle: false,
        export_subtitle: true,
        export_danmaku: false,
        batch_id: Some("batch-1".into()),
        batch_title: None,
    }
}

#[test]
fn recording_a_clip_task() {
    assert_eq!(
        clip_task_insert_sql(&request()),
        "INSERT INTO clip_tasks (video_id, start_time_ms, end_time_ms, title, preset_id, status, batch_id, batch_title, include_danmaku, include_subtitle, export_subtitle, export_danmaku) VALUES (7, 1000, 2000, 'it''s', 2, 'pending', 'batch-1', NULL, 1, 0, 1, 0)"
    );
    let mut r = request();
    r.title = None;
    r.preset_id = None;
    assert!(clip_task_insert_sql(&r).contains("VALUES (7, 1000, 2000, '', NULL, 'pending'"));
}

#[test]
fn task_states() {
    assert_eq!(task_status_sql(3, "processing", &None), "UPDATE clip_tasks SET status = 'processing' WHERE id = 3");
    assert_eq!(
        task_status_sql(3, "completed", &None),
        "UPDATE clip_tasks SET status = 'completed', completed_at = datetime('now') WHERE id = 3"
    );
    assert_eq!(
        task_status_sql(3, "failed", &Some("it's broken".into())),
        "UPDATE clip_tasks SET status = 'failed', error_message = 'it''s broken' WHERE id = 3"
    );
}

#[test]
fn retrying() {
    assert_eq!(retry_check("pending").unwrap_err(), "任务正在执行中，无法重试");
    assert!(retry_check("cancelled").is_ok());
    assert!(retry_task_sql(5).ends_with("FROM clip_tasks t WHERE t.id = 5"));
    assert!(clip_video_sql(7).ends_with("WHERE v.id = 7"));
    assert_eq!(
        retry_reset_sql(5),
        "UPDATE clip_tasks SET status = 'pending', progress = 0, error_message = NULL, completed_at = NULL WHERE id = 5 AND status IN ('failed', 'cancelled', 'completed')"
    );
    assert_eq!(retry_reset_outcome(0).unwrap_err(), "任务状态已变更，无法重试（可能正在执行中）");
    assert!(retry_reset_outcome(1).is_ok());
    assert_eq!(clear_outputs_sql(5), "DELETE FROM clip_outputs WHERE clip_task_id = 5");
    assert_eq!(
        retry_file_name(&Some(String::new()), true, &None, &None, &None, 60_000, 120_000, "v.flv"),
        "clip-0100-0200.mp4"
    );
    assert_eq!(
        retry_file_name(&Some("片段".into()), false, &Some("主播".into()), &None, &None, 0, 1000, "v.flv"),
        "主播-片段-000000-000001.mp4"
    );
}

#[test]
fn outputs_and_overlays() {
    assert_eq!(
        clip_output_insert_sql(5, 7, "/o/a.mp4", "mp4", 99, true, false),
        "INSERT INTO clip_outputs (clip_task_id, video_id, output_path, format, variant, file_size, include_danmaku, include_subtitle) VALUES (5, 7, '/o/a.mp4', 'mp4', 'original', 99, 1, 0)"
    );
    let b = prepared_burn_options(true, true, Some("/tmp/d.ass".into()), None);
    assert_eq!(b.burn_codec, "auto");
    assert_eq!(b.burn_crf, Some(23));
    assert_eq!(burned_overlays(&b), (true, false));
    assert_eq!(sidecar_paths("/o/a"), ("/o/a.srt".to_string(), "/o/a.xml".to_string()));
}

#[test]
fn batch_retries() {
    let (a, q) = batch_retry_queries("b'1");
    assert_eq!(a, "SELECT COUNT(*) AS cnt FROM clip_tasks WHERE batch_id = 'b''1' AND status IN ('pending', 'processing')");
    assert!(q.ends_with("AND status IN ('failed', 'cancelled', 'completed') ORDER BY id ASC"));
    assert_eq!(batch_retry_check(1, 3).unwrap_err(), "批次中有任务正在执行，请等待完成后再重试");
    assert_eq!(batch_retry_check(0, 0).unwrap_err(), "批次中没有可重试的任务");
    assert!(batch_retry_check(0, 2).is_ok());
    assert_eq!(batch_retry_outcome(2, Some("x".into())), Ok(2));
    assert_eq!(batch_retry_outcome(0, Some("x".into())), Err("x".to_string()));
    assert_eq!(batch_retry_outcome(0, None), Err("批次重试失败".to_string()));
}

#[test]
fn listing_and_deleting() {
    assert_eq!(
        list_clip_tasks_sql(None, None, &None, &None),
        "SELECT t.*, co.output_path FROM clip_tasks t LEFT JOIN clip_outputs co ON co.clip_task_id = t.id LEFT JOIN videos v ON t.video_id = v.id  ORDER BY t.created_at DESC"
    );
    assert!(list_clip_tasks_sql(Some(1), Some(2), &Some("2024-0'1-01".into()), &Some("2024-01-31".into())).contains(
        "WHERE t.video_id = 1 AND v.workspace_id = 2 AND t.created_at >= '2024-01-01 00:00:00' AND t.created_at <= '2024-01-31 23:59:59'"
    ));
    let (q, dels) = delete_task_sql(5);
    assert_eq!(q, "SELECT output_path FROM clip_outputs WHERE clip_task_id = 5");
    assert_eq!(dels, vec!["DELETE FROM clip_outputs WHERE clip_task_id = 5", "DELETE FROM clip_tasks WHERE id = 5"]);
    let (a, o, x, t) = delete_batch_sql("b1");
    assert!(a.ends_with("FROM clip_tasks WHERE batch_id = 'b1'"));
    assert_eq!(o, "SELECT output_path FROM clip_outputs WHERE clip_task_id IN (SELECT id FROM clip_tasks WHERE batch_id = 'b1' AND status NOT IN ('pending','processing'))");
    assert!(x.starts_with("DELETE FROM clip_outputs WHERE clip_task_id IN ("));
    assert_eq!(t, "DELETE FROM clip_tasks WHERE batch_id = 'b1' AND status NOT IN ('pending','processing')");
    let r = delete_batch_result(3, 1);
    assert_eq!((r.deleted, r.skipped), (3, 1));
}

#[test]
fn clearing_finished_clip_tasks() {
    let (outputs, delete_outputs, delete_tasks) = clear_finished_clip_sql();
    assert!(outputs.contains("status NOT IN ('pending','processing')"));
    assert!(delete_outputs.starts_with("DELETE FROM clip_outputs"));
    assert_eq!(delete_tasks, "DELETE FROM clip_tasks WHERE status NOT IN ('pending','processing')");
}
