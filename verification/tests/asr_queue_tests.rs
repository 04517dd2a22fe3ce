use clipper_studio::asr_queue::{
    enqueue_check, enqueue_insert_sql, mark_cancelled_sql, mark_failed_sql, retry_count_sql,
    submitted_sql,
};
use clipper_studio::asr_queue::{
    choose_provider, max_chars_setting, poll_step, AsrQueue, CancelOutcome, PollAction, PollReport,
    ProviderChoice, QueueEntry,
};

fn entry(task: i64, video: i64) -> QueueEntry {
    QueueEntry {
        asr_task_id: task,
        video_id: video,
        video_file_name: format!("v{}.flv", video),
        video_file_path: format!("/w/v{}.flv", video),
        language: "Chinese".to_string(),
    }
}

#[test]
fn tasks_run_first_in_first_out() {
    let mut q = AsrQueue::new();
    assert!(!q.has_active_tasks());
    q.push(entry(1, 10));
    q.push(entry(2, 20));
    let first = q.take_next().unwrap();
    assert_eq!(first.entry.asr_task_id, 1);
    assert!(!first.cancelled);
    let snap = q.snapshot();
    assert_eq!(snap.len(), 2);
    assert_eq!((snap[0].task_id, snap[0].status.as_str()), (1, "converting"));
    assert_eq!((snap[1].task_id, snap[1].status.as_str()), (2, "queued"));
    q.set_running_status("recognizing");
    assert_eq!(q.snapshot()[0].status, "recognizing");
    q.finish(1);
    assert_eq!(q.take_next().unwrap().entry.asr_task_id, 2);
    q.finish(2);
    assert!(q.take_next().is_none());
    assert!(!q.has_active_tasks());
}

#[test]
fn one_task_per_video() {
    let mut q = AsrQueue::new();
    q.push(entry(1, 10));
    assert_eq!(q.may_enqueue(10).unwrap_err(), "该视频已有排队中的 ASR 任务");
    assert!(q.may_enqueue(11).is_ok());
    q.take_next();
    assert_eq!(q.may_enqueue(10).unwrap_err(), "该视频已有正在执行的 ASR 任务");
}

#[test]
fn cancelling_waiting_and_running_tasks() {
    let mut q = AsrQueue::new();
    q.push(entry(1, 10));
    q.push(entry(2, 20));
    q.push(entry(3, 30));
    q.take_next();
    match q.cancel(3).unwrap() {
        CancelOutcome::Dequeued(e) => assert_eq!(e.video_id, 30),
        CancelOutcome::Flagged => panic!("task 3 was waiting"),
    }
    assert!(matches!(q.cancel(1).unwrap(), CancelOutcome::Flagged));
    assert!(q.check_cancelled(1));
    assert!(!q.check_cancelled(2));
    assert_eq!(q.cancel(99).err().unwrap(), "任务不在队列中");
    q.finish(1);
    assert!(!q.check_cancelled(1));
}

#[test]
fn a_flagged_task_that_starts_later_is_reported_cancelled() {
    let mut q = AsrQueue::new();
    q.push(entry(5, 50));
    assert_eq!(q.take_next().unwrap().entry.asr_task_id, 5);
    assert!(matches!(q.cancel(5).unwrap(), CancelOutcome::Flagged));
    q.push(entry(7, 70));
    q.push(entry(5, 51));
    let seven = q.take_next().unwrap();
    assert_eq!((seven.entry.asr_task_id, seven.cancelled), (7, false));
    let five = q.take_next().unwrap();
    assert_eq!((five.entry.asr_task_id, five.cancelled), (5, true));
    assert!(!q.check_cancelled(5));
}

#[test]
fn polling_policy() {
    assert!(matches!(poll_step(0, PollReport::Pending), (0, PollAction::Continue)));
    assert!(matches!(poll_step(1, PollReport::Processing), (1, PollAction::Progress)));
    assert!(matches!(poll_step(0, PollReport::Completed), (0, PollAction::Import)));
    match poll_step(0, PollReport::RetryableError("busy".into())) {
        (1, PollAction::Retry { delay_secs, notice }) => {
            assert_eq!(delay_secs, 5);
            assert_eq!(notice, "重试中（第 1 次）...");
        }
        _ => panic!("expected a retry"),
    }
    match poll_step(1, PollReport::RetryableError("busy".into())) {
        (2, PollAction::Retry { delay_secs, .. }) => assert_eq!(delay_secs, 10),
        _ => panic!("expected a retry"),
    }
    match poll_step(2, PollReport::RetryableError("busy".into())) {
        (3, PollAction::Fail(m)) => assert_eq!(m, "重试次数已用尽: busy"),
        _ => panic!("expected failure"),
    }
    match poll_step(2, PollReport::QueryFailed("down".into())) {
        (3, PollAction::Fail(m)) => assert_eq!(m, "轮询失败: down"),
        _ => panic!("expected failure"),
    }
    assert!(matches!(poll_step(0, PollReport::QueryFailed("x".into())), (1, PollAction::Continue)));
    match poll_step(0, PollReport::PermanentError("bad audio".into())) {
        (0, PollAction::Fail(m)) => assert_eq!(m, "bad audio"),
        _ => panic!("expected failure"),
    }
}

#[test]
fn provider_settings() {
    assert_eq!(choose_provider(&Some("disabled".into()), &None, &None, &None).err().unwrap(), "ASR 功能已禁用");
    assert_eq!(
        choose_provider(&Some("remote".into()), &None, &None, &None).err().unwrap(),
        "请先配置远程 ASR 地址"
    );
    match choose_provider(&Some("remote".into()), &Some("http://x".into()), &Some("k".into()), &None) {
        Ok(ProviderChoice::Remote { url, api_key }) => {
            assert_eq!(url, "http://x");
            assert_eq!(api_key.as_deref(), Some("k"));
        }
        _ => panic!("expected remote"),
    }
    assert!(matches!(choose_provider(&None, &None, &None, &Some("9000".into())), Ok(ProviderChoice::Local { port: 9000 })));
    assert!(matches!(choose_provider(&None, &None, &None, &Some("99999".into())), Ok(ProviderChoice::Local { port: 8765 })));
    assert_eq!(max_chars_setting(&None), 15);
    assert_eq!(max_chars_setting(&Some("20".into())), 20);
    assert_eq!(max_chars_setting(&Some("x".into())), 15);
}

#[test]
fn recovered_tasks_join_in_order_without_pathless_ones() {
    let mut q = AsrQueue::new();
    q.push(entry(1, 10));
    let mut pathless = entry(3, 30);
    pathless.video_file_path = String::new();
    q.recover(vec![entry(2, 20), pathless, entry(4, 40)]);
    let ids: Vec<i64> = q.snapshot().iter().map(|i| i.task_id).collect();
    assert_eq!(ids, vec![1, 2, 4]);
}

#[test]
fn enqueue_refusals_and_statements() {
    assert_eq!(enqueue_check(1, "/v.flv").unwrap_err(), "该视频已有进行中的 ASR 任务");
    assert_eq!(enqueue_check(0, "").unwrap_err(), "视频文件路径为空");
    assert!(enqueue_check(0, "/v.flv").is_ok());
    assert_eq!(
        enqueue_insert_sql(7, "zh"),
        "INSERT INTO asr_tasks (video_id, status, asr_provider_id, language) VALUES (7, 'queued', 'queue', 'zh')"
    );
    assert_eq!(
        submitted_sql(3, "local", "r'1"),
        "UPDATE asr_tasks SET status = 'processing', asr_provider_id = 'local', remote_task_id = 'r''1', started_at = datetime('now') WHERE id = 3"
    );
    assert_eq!(
        mark_failed_sql(3, "boom"),
        "UPDATE asr_tasks SET status = 'failed', error_message = 'boom' WHERE id = 3"
    );
    assert_eq!(mark_cancelled_sql(-2), "UPDATE asr_tasks SET status = 'cancelled' WHERE id = -2");
    assert_eq!(retry_count_sql(5, 2), "UPDATE asr_tasks SET retry_count = 2 WHERE id = 5");
}
