use clipper_studio::subtitle::SubtitleSegment;
use clipper_studio::subtitle_edits::{
    clear_asr_lines_sql, delete_subtitle_sql, import_line_sql, list_asr_tasks_sql,
    list_subtitles_sql, merge_count_check, merge_statements, merged_segment, repair_candidates_sql,
    repair_result, repair_shift_sql, search_subtitles_sql, segment_insert_sql, split_point_check,
    split_text, update_subtitle_sql, SubtitleListResponse,
};

fn seg(id: i64, start: i64, end: i64, text: &str) -> SubtitleSegment {
    SubtitleSegment {
        id,
        video_id: 2,
        language: "zh".into(),
        start_ms: start,
        end_ms: end,
        text: text.into(),
        source: "asr".into(),
    }
}

#[test]
fn reading_subtitles() {
    assert_eq!(list_subtitles_sql(2), "SELECT * FROM subtitle_segments WHERE video_id = 2 ORDER BY start_ms ASC");
    assert_eq!(
        search_subtitles_sql("it's", Some(2)),
        "SELECT s.* FROM subtitle_segments s INNER JOIN subtitle_fts fts ON s.id = fts.rowid WHERE fts.text MATCH 'it''s' AND s.video_id = 2 ORDER BY s.start_ms ASC"
    );
    assert!(search_subtitles_sql("x", None).ends_with("MATCH 'x' ORDER BY s.start_ms ASC"));
    assert_eq!(list_asr_tasks_sql(None), "SELECT * FROM asr_tasks  ORDER BY created_at DESC");
    assert_eq!(list_asr_tasks_sql(Some(3)), "SELECT * FROM asr_tasks WHERE video_id = 3 ORDER BY created_at DESC");
    let r = SubtitleListResponse { segments: vec![seg(1, 0, 1, "a")], base_ms: 5 };
    assert_eq!(r.segments.len(), 1);
}

#[test]
fn editing_segments() {
    assert_eq!(
        update_subtitle_sql(9, "it's", 100, 200),
        "UPDATE subtitle_segments SET text = 'it''s', start_ms = 100, end_ms = 200 WHERE id = 9"
    );
    assert_eq!(delete_subtitle_sql(9), "DELETE FROM subtitle_segments WHERE id = 9");
    assert_eq!(
        segment_insert_sql(2, "zh", 0, 1000, "你好", "manual"),
        "INSERT INTO subtitle_segments (video_id, language, start_ms, end_ms, text, source) VALUES (2, 'zh', 0, 1000, '你好', 'manual')"
    );
}

#[test]
fn merging_segments() {
    assert_eq!(merge_count_check(1).unwrap_err(), "至少选择 2 个字幕段");
    let (q, d) = merge_statements(&vec![4, 5]);
    assert_eq!(q, "SELECT * FROM subtitle_segments WHERE id IN (4,5) ORDER BY start_ms ASC");
    assert_eq!(d, "DELETE FROM subtitle_segments WHERE id IN (4,5)");
    assert_eq!(merged_segment(&vec![]).err().unwrap(), "未找到指定的字幕段");
    let m = merged_segment(&vec![seg(4, 100, 900, "你好，"), seg(5, 1000, 2000, "世界")]).unwrap();
    assert_eq!((m.id, m.video_id, m.start_ms, m.end_ms), (0, 2, 100, 2000));
    assert_eq!(m.text, "你好，世界");
    assert_eq!(m.language, "zh");
    assert_eq!(m.source, "manual");
}

#[test]
fn splitting_segments() {
    assert_eq!(split_point_check(100, 100, 200).unwrap_err(), "拆分时间点必须在字幕段时间范围内");
    assert!(split_point_check(200, 100, 200).is_err());
    assert!(split_point_check(150, 100, 200).is_ok());
    assert_eq!(split_text("你好世界", 2), ("你好".to_string(), "世界".to_string()));
    assert_eq!(split_text("你好", 9), ("你好".to_string(), String::new()));
}

#[test]
fn importing_recognised_lines() {
    assert_eq!(import_line_sql(2, "Chinese", 0, 500, "   "), None);
    assert_eq!(
        import_line_sql(2, "Chinese", 0, 500, " 好的 ").unwrap(),
        "INSERT INTO subtitle_segments (video_id, language, start_ms, end_ms, text, source) VALUES (2, 'Chinese', 0, 500, '好的', 'asr')"
    );
    assert_eq!(clear_asr_lines_sql(2), "DELETE FROM subtitle_segments WHERE video_id = 2 AND source = 'asr'");
}

#[test]
fn repairing_timestamps() {
    assert_eq!(
        repair_candidates_sql(),
        "SELECT DISTINCT s.video_id, v.recorded_at FROM subtitle_segments s JOIN videos v ON v.id = s.video_id WHERE s.start_ms > 10000000000000"
    );
    assert_eq!(
        repair_shift_sql(3, 42),
        "UPDATE subtitle_segments SET start_ms = start_ms - 42, end_ms = end_ms - 42 WHERE video_id = 3 AND start_ms > 10000000000000"
    );
    let r = repair_result(4, &vec![3, 0, 5]);
    assert_eq!((r.videos_checked, r.videos_fixed, r.segments_fixed), (4, 2, 8));
}

#[test]
fn split_segments_makes_two_manual_halves() {
    let seg = clipper_studio::subtitle::SubtitleSegment {
        id: 9,
        video_id: 4,
        language: "zh".to_string(),
        start_ms: 1000,
        end_ms: 3000,
        text: "你好世界".to_string(),
        source: "asr".to_string(),
    };
    let (a, b) = match clipper_studio::subtitle_edits::split_segments(&seg, 2000, 2) {
        Ok(p) => p,
        Err(e) => panic!("{}", e),
    };
    assert_eq!((a.video_id, a.start_ms, a.end_ms, a.text.as_str(), a.source.as_str()), (4, 1000, 2000, "你好", "manual"));
    assert_eq!((b.video_id, b.start_ms, b.end_ms, b.text.as_str(), b.source.as_str()), (4, 2000, 3000, "世界", "manual"));
    assert_eq!(a.language, "zh");
    let (a, b) = match clipper_studio::subtitle_edits::split_segments(&seg, 2999, 10) {
        Ok(p) => p,
        Err(e) => panic!("{}", e),
    };
    assert_eq!((a.text.as_str(), b.text.as_str()), ("你好世界", ""));
    match clipper_studio::subtitle_edits::split_segments(&seg, 3000, 1) {
        Err(e) => assert_eq!(e, "拆分时间点必须在字幕段时间范围内"),
        Ok(_) => panic!("split point outside the segment"),
    }
    assert!(clipper_studio::subtitle_edits::split_segments(&seg, 1000, 1).is_err());
}
