use clipper_studio::clips::{
    batch_folder_name, batch_item_request, batch_title, build_batch_clip_filename, build_clip_name,
    burn_availability, can_delete_task, clip_extension, clip_output_file_name, dedup_file_name,
    format_relative_time_range, local_datetime_cn, sanitize_filename, BatchClipItem,
    CreateClipRequest,
};

fn s(x: &str) -> Option<String> {
    Some(x.to_string())
}

fn request(title: Option<&str>, batch: bool) -> CreateClipRequest {
    CreateClipRequest {
        video_id: 7,
        start_ms: 60_000,
        end_ms: 180_000,
        title: title.map(|t| t.to_string()),
        preset_id: None,
        output_dir: None,
        include_danmaku: false,
        include_subtitle: false,
        export_subtitle: false,
        export_danmaku: false,
        batch_id: if batch { s("batch-1") } else { None },
        batch_title: None,
    }
}

#[test]
fn unsafe_characters_become_underscores() {
    assert_eq!(sanitize_filename("a/b:c*?\"<>|\\d"), "a_b_c_______d");
    assert_eq!(sanitize_filename("正常名字"), "正常名字");
}

#[test]
fn clip_names_use_wall_clock_times() {
    assert_eq!(
        build_clip_name(&s("主播"), &s("晚间直播"), &s("片段1"), &s("2026-04-05 21:30:00"), 60_000, 120_000, "x.flv"),
        "主播-晚间直播-片段1-260405-2131-260405-2132"
    );
    assert_eq!(
        build_clip_name(&None, &None, &s("c"), &s("2026-04-05 23:50:00"), 1_200_000, 1_260_000, "x.flv"),
        "c-260406-0010-260406-0011"
    );
}

#[test]
fn clip_names_without_recording_time_use_offsets() {
    assert_eq!(
        build_clip_name(&s("主播"), &s("标题"), &None, &None, 60_000, 120_000, "x.flv"),
        "主播-标题-000100-000200"
    );
    assert_eq!(
        build_clip_name(&None, &None, &None, &s("bad"), 1, 2, "video.part.flv"),
        "video_1-2"
    );
}

#[test]
fn long_stream_titles_are_shortened() {
    let long = "一二三四五六七八九十一二三四五六七八九十一二";
    assert_eq!(
        build_clip_name(&None, &s(long), &None, &None, 0, 1000, "x"),
        "一二三四五六七八九十一二三四五六七八九十...-000000-000001"
    );
}

#[test]
fn batch_file_names() {
    assert_eq!(build_batch_clip_filename(&s("片段1"), &None, 60_000, 180_000), "片段1-0100-0300");
    assert_eq!(build_batch_clip_filename(&None, &None, 0, 1000), "clip-0000-0001");
    assert_eq!(
        build_batch_clip_filename(&s("片段1"), &s("2026-04-07 21:30:00"), 0, 900_000),
        "片段1-260407-2130-260407-2145"
    );
    assert_eq!(format_relative_time_range(3_723_000, 3_725_000), "010203-010205");
    assert_eq!(format_relative_time_range(59_000, 3_600_000), "000059-010000");
    assert_eq!(format_relative_time_range(59_000, 125_000), "0059-0205");
    assert_eq!(build_batch_clip_filename(&None, &None, 3_000_000, 3_700_000), "clip-005000-010140");
}

#[test]
fn output_names() {
    assert_eq!(clip_extension(Some(true)), "m4a");
    assert_eq!(clip_extension(None), "mp4");
    let batch = clip_output_file_name(&request(Some("片段:1"), true), &s("主播"), &None, &None, "v.flv", "mp4");
    assert_eq!(batch, "片段_1-0100-0300.mp4");
    let single = clip_output_file_name(&request(None, false), &s("主播"), &None, &None, "v.flv", "m4a");
    assert_eq!(single, "主播-000100-000300.m4a");
    assert_eq!(dedup_file_name("clip", 1_700_000_000, "mp4"), "clip_1700000000.mp4");
}

#[test]
fn batch_items_get_their_margins() {
    let item = BatchClipItem {
        start_ms: 1000,
        end_ms: 5000,
        title: s("片段"),
        preset_id: Some(3),
        offset_before_ms: 2000,
        offset_after_ms: 500,
        audio_only: false,
        include_danmaku: true,
        include_subtitle: false,
        export_subtitle: true,
        export_danmaku: false,
    };
    let r = batch_item_request(9, &item, Some(4), "/out/batch", "batch-1", "标题");
    assert_eq!((r.start_ms, r.end_ms), (0, 5500));
    assert_eq!(r.video_id, 9);
    assert_eq!(r.preset_id, Some(4));
    assert_eq!(r.output_dir.as_deref(), Some("/out/batch"));
    assert_eq!(r.batch_id.as_deref(), Some("batch-1"));
    assert!(r.include_danmaku && r.export_subtitle);
}

#[test]
fn batch_folders_and_titles() {
    let long = "一二三四五六七八九十一二三四五六七八九十一二";
    assert_eq!(
        batch_folder_name("20260405", "2130", &s("主播"), &s(long)),
        "20260405_2130_主播_一二三四五六七八九十一二三四五六七八九十"
    );
    assert_eq!(batch_folder_name("20260405", "2130", &s(""), &None), "20260405_2130");
    assert_eq!(batch_title(&s("主播"), &s("标题"), "2026年4月5日 21:30"), "[主播] 标题 - 2026年4月5日 21:30");
    assert_eq!(batch_title(&None, &s(""), "now"), "切片任务 - now");
    assert_eq!(local_datetime_cn("2026", "04", "05", "21", "03"), "2026年4月5日 21:03");
}

#[test]
fn deletion_and_burn_checks() {
    assert_eq!(can_delete_task("processing").unwrap_err(), "请先取消该任务");
    assert!(can_delete_task("failed").is_ok());
    let b = burn_availability(true, false, "");
    assert!(b.has_danmaku_xml && !b.has_subtitle && !b.has_danmaku_factory);
    assert!(burn_availability(false, false, "/bin/DanmakuFactory").has_danmaku_factory);
}
