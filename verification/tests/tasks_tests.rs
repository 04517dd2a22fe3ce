use clipper_studio::tasks::{final_outcome, TaskQueue, TaskStatus};
use clipper_studio::watcher::{file_change_event, is_video_file, CreatedPath};

#[test]
fn task_outcomes() {
    assert_eq!(final_outcome(&Ok(())), (TaskStatus::Completed, "完成".to_string()));
    assert_eq!(
        final_outcome(&Err("Task cancelled".to_string())),
        (TaskStatus::Cancelled, "已取消".to_string())
    );
    assert_eq!(
        final_outcome(&Err("disk full".to_string())),
        (TaskStatus::Failed, "disk full".to_string())
    );
}

fn created(path: &str, ext: Option<&str>) -> CreatedPath {
    CreatedPath { path: path.to_string(), extension: ext.map(|e| e.to_string()) }
}

#[test]
fn watcher_announces_new_videos_only() {
    assert!(is_video_file(&Some("FLV".to_string())));
    assert!(!is_video_file(&Some("xml".to_string())));
    assert!(!is_video_file(&None));
    let ev = file_change_event(
        3,
        "/w",
        &vec![created("/w/a.flv", Some("flv")), created("/w/a.xml", Some("xml")), created("/w/b.MKV", Some("MKV"))],
    )
    .unwrap();
    assert_eq!(ev.workspace_id, 3);
    assert_eq!(ev.workspace_path, "/w");
    assert_eq!(ev.new_files, vec!["/w/a.flv", "/w/b.MKV"]);
    assert!(file_change_event(3, "/w", &vec![created("/w/x.txt", Some("txt"))]).is_none());
}

/// Runs a started task to its end the way the executor does.
fn run_to_end(q: &mut TaskQueue, task_id: i64, result: Result<(), String>) -> (TaskStatus, String) {
    q.finish(task_id, &result)
}

#[test]
fn test_submit_runs_handler_to_completion() {
    let mut q = TaskQueue::new(2);
    let t = q.submit(1);
    assert_eq!(q.next_to_start(), Some(t));
    let mut counter = 0;
    counter += 1;
    let (status, message) = run_to_end(&mut q, 1, Ok(()));
    assert_eq!(counter, 1);
    assert_eq!(status, TaskStatus::Completed);
    assert_eq!(message, "完成");
    assert!(!q.has_active_tasks(), "queue should be empty after task finishes");
}

#[test]
fn test_has_active_tasks_during_run() {
    let mut q = TaskQueue::new(2);
    let t = q.submit(10);
    assert_eq!(q.next_to_start(), Some(t));
    assert!(q.has_active_tasks(), "task should be active while running");
    let cancelled = q.cancel(10);
    assert!(cancelled, "cancel should return true for known task");
    assert!(q.is_cancelled(t));
    run_to_end(&mut q, 10, Ok(()));
    assert!(!q.has_active_tasks(), "task should be cleared after cancel");
}

#[test]
fn test_cancel_unknown_task_returns_false() {
    let mut q = TaskQueue::new(2);
    assert!(!q.cancel(9999));
}

#[test]
fn test_concurrency_limit_serializes_excess_tasks() {
    let mut q = TaskQueue::new(1);
    let tokens: Vec<usize> = (0..3).map(|id| q.submit(id)).collect();
    let mut max_seen = 0;
    let mut active = 0;
    for id in 0..3i64 {
        let started = q.next_to_start();
        assert_eq!(started, Some(tokens[id as usize]));
        active += 1;
        assert_eq!(q.next_to_start(), None);
        if active > max_seen {
            max_seen = active;
        }
        run_to_end(&mut q, id, Ok(()));
        active -= 1;
    }
    assert_eq!(max_seen, 1, "with concurrency=1, no two tasks should run simultaneously");
    assert!(!q.has_active_tasks());
}

#[test]
fn test_concurrency_limit_two_tasks_run_in_parallel() {
    let mut q = TaskQueue::new(2);
    q.submit(0);
    q.submit(1);
    let mut running = 0;
    while q.next_to_start().is_some() {
        running += 1;
    }
    assert_eq!(running, 2, "with concurrency=2, both tasks should run together");
}

#[test]
fn test_cancel_all_cancels_active_tasks() {
    let mut q = TaskQueue::new(4);
    let tokens: Vec<usize> = (0..3).map(|id| q.submit(id)).collect();
    while q.next_to_start().is_some() {}
    assert!(q.has_active_tasks());
    assert_eq!(q.cancel_all(), 3);
    let observed = tokens.iter().filter(|t| q.is_cancelled(**t)).count();
    assert_eq!(observed, 3, "all 3 tasks should observe cancellation");
    for id in 0..3 {
        let (status, message) = run_to_end(&mut q, id, Err("Task cancelled".to_string()));
        assert_eq!(status, TaskStatus::Cancelled);
        assert_eq!(message, "已取消");
    }
    assert!(!q.has_active_tasks());
}

#[test]
fn test_failed_task_clears_from_active() {
    let mut q = TaskQueue::new(2);
    q.submit(99);
    q.next_to_start();
    let (status, message) = run_to_end(&mut q, 99, Err("simulated failure".to_string()));
    assert_eq!(status, TaskStatus::Failed);
    assert_eq!(message, "simulated failure");
    assert!(!q.has_active_tasks(), "failed task should be cleared from registry");
}

#[test]
fn test_has_active_tasks_sync_when_empty() {
    let q = TaskQueue::new(2);
    assert!(!q.has_active_tasks_sync());
}

#[test]
fn resubmitted_id_gets_a_fresh_token() {
    let mut q = TaskQueue::new(2);
    let first = q.submit(5);
    q.cancel(5);
    let second = q.submit(5);
    assert_ne!(first, second);
    assert!(q.is_cancelled(first));
    assert!(!q.is_cancelled(second));
    assert!(!q.is_cancelled(1000));
}

#[test]
fn each_submitted_task_starts_once() {
    let mut q = TaskQueue::new(2);
    let a = q.submit(1);
    let b = q.submit(2);
    let c = q.submit(1);
    let mut started = Vec::new();
    while let Some(t) = q.next_to_start() {
        started.push(t);
    }
    assert_eq!(started, vec![a, b]);
    q.finish(1, &Ok(()));
    let mut more = Vec::new();
    while let Some(t) = q.next_to_start() {
        more.push(t);
    }
    assert_eq!(more, vec![c]);
    assert_eq!(q.next_to_start(), None);
}
