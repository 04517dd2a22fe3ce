use clipper_studio::asr_tasks::{asr_wav_args, asr_wav_name};
use clipper_studio::asr_queue::ProviderChoice;
use clipper_studio::asr_tasks::{
    asr_language, asr_task_insert_sql, bearer, command_provider, completion_sql, endpoints,
    existing_subtitles_check, poll_finished, poll_step, reported_state, service_base, PollStep,
    RemoteStatus,
};

#[test]
fn service_choice_from_the_interface() {
    assert_eq!(
        command_provider(&Some("disabled".into()), &None, &None, &None).err().unwrap(),
        "ASR 功能已禁用，请在设置中启用"
    );
    assert_eq!(
        command_provider(&Some("remote".into()), &None, &None, &None).err().unwrap(),
        "请先在设置中配置远程 ASR 地址"
    );
    assert_eq!(
        command_provider(&Some("remote".into()), &Some("ftp://x".into()), &None, &None).err().unwrap(),
        "远程 ASR 地址协议不受支持，仅允许 http:// 或 https://（当前：ftp://x）"
    );
    assert!(matches!(
        command_provider(&Some("remote".into()), &Some("https://x".into()), &None, &None),
        Ok(ProviderChoice::Remote { .. })
    ));
    assert!(matches!(command_provider(&None, &None, &None, &None), Ok(ProviderChoice::Local { port: 8765 })));
}

#[test]
fn submitting() {
    assert_eq!(asr_language(&Some("English".into()), &Some("Japanese".into())), "English");
    assert_eq!(asr_language(&Some(String::new()), &Some("Japanese".into())), "Japanese");
    assert_eq!(asr_language(&None, &None), "Chinese");
    assert_eq!(existing_subtitles_check(3, false).unwrap_err(), "该视频已有字幕，使用 force=true 覆盖");
    assert!(existing_subtitles_check(3, true).is_ok());
    assert!(existing_subtitles_check(0, false).is_ok());
    assert_eq!(
        asr_task_insert_sql(7, "local", "r'1", "Chinese"),
        "INSERT INTO asr_tasks (video_id, status, asr_provider_id, remote_task_id, language, started_at) VALUES (7, 'processing', 'local', 'r''1', 'Chinese', datetime('now'))"
    );
}

#[test]
fn polling_a_submitted_task() {
    assert!(poll_finished("completed") && poll_finished("failed"));
    assert!(!poll_finished("processing"));
    assert!(matches!(poll_step(1, 0, &RemoteStatus::Pending), PollStep::Unchanged));
    assert!(matches!(poll_step(1, 0, &RemoteStatus::Processing), PollStep::Progress));
    assert!(matches!(poll_step(1, 0, &RemoteStatus::Completed), PollStep::Import));
    match poll_step(9, 1, &RemoteStatus::RetryableError("busy".into())) {
        PollStep::Retry { sql, delay_secs } => {
            assert_eq!(delay_secs, 10);
            assert_eq!(sql, "UPDATE asr_tasks SET retry_count = 2, error_message = 'busy' WHERE id = 9");
        }
        _ => panic!("expected a retry"),
    }
    match poll_step(9, 2, &RemoteStatus::RetryableError("it's busy".into())) {
        PollStep::Fail { sql } => {
            assert_eq!(sql, "UPDATE asr_tasks SET status = 'failed', error_message = 'it''s busy' WHERE id = 9")
        }
        _ => panic!("expected failure"),
    }
    let (a, b) = completion_sql(9, 12, 7);
    assert_eq!(
        a,
        "UPDATE asr_tasks SET status = 'completed', progress = 1.0, segment_count = 12, completed_at = datetime('now') WHERE id = 9"
    );
    assert_eq!(b, "UPDATE videos SET has_subtitle = 1 WHERE id = 7");
}

#[test]
fn service_replies() {
    assert!(matches!(reported_state(&Some("pending".into()), &None, true), Ok(RemoteStatus::Pending)));
    assert!(matches!(
        reported_state(&Some("failed".into()), &Some("Connection reset".into()), true),
        Ok(RemoteStatus::RetryableError(_))
    ));
    assert!(matches!(
        reported_state(&Some("failed".into()), &Some("Connection reset".into()), false),
        Ok(RemoteStatus::PermanentError(_))
    ));
    match reported_state(&Some("failed".into()), &None, true) {
        Ok(RemoteStatus::PermanentError(e)) => assert_eq!(e, "Unknown error"),
        _ => panic!("expected a permanent error"),
    }
    assert_eq!(reported_state(&None, &None, true).err().unwrap(), "Unknown ASR status: unknown");
    assert_eq!(service_base("http://x:1//"), "http://x:1");
    let (a, t, h) = endpoints("http://x", "abc");
    assert_eq!((a.as_str(), t.as_str(), h.as_str()), ("http://x/v1/asr", "http://x/v1/tasks/abc", "http://x/v1/health"));
    assert_eq!(bearer("k"), "Bearer k");
}

#[test]
fn audio_conversion_for_recognition() {
    assert_eq!(asr_wav_name(1700000000123), "clipper_asr_1700000000123.wav");
    assert_eq!(
        asr_wav_args("/v/a.flv", "/tmp/clipper_asr_1.wav"),
        vec!["-i", "/v/a.flv", "-ar", "16000", "-ac", "1", "-c:a", "pcm_s16le", "-y", "/tmp/clipper_asr_1.wav"]
    );
}

#[test]
fn poll_step_ignores_retry_count_off_the_retry_path() {
    assert!(matches!(poll_step(4, -1, &RemoteStatus::Processing), PollStep::Progress));
    match poll_step(4, -1, &RemoteStatus::PermanentError("gone".into())) {
        PollStep::Fail { sql } => {
            assert_eq!(sql, "UPDATE asr_tasks SET status = 'failed', error_message = 'gone' WHERE id = 4")
        },
        _ => panic!("a permanent error fails the task"),
    }
}
