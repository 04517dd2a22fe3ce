use clipper_studio::clipper::{
    apply_quality_args, burn_source, encoder_candidates, encoder_listed, parse_progress_line,
    plan_clip_args, resolve_video_codec, BurnOptions, BurnSource, PresetOptions, ProgressLine,
};

// apply_quality_args

#[test]
fn test_apply_quality_args_videotoolbox_skipped() {
    let mut args: Vec<String> = Vec::new();
    apply_quality_args("h264_videotoolbox", Some(23), &mut args);
    assert!(args.is_empty(), "VideoToolbox should not append any quality args");
}

#[test]
fn test_apply_quality_args_nvenc() {
    let mut args: Vec<String> = Vec::new();
    apply_quality_args("h264_nvenc", Some(20), &mut args);
    assert_eq!(
        args,
        vec!["-cq".to_string(), "20".to_string(), "-b:v".to_string(), "0".to_string()]
    );
}

#[test]
fn test_apply_quality_args_qsv() {
    let mut args: Vec<String> = Vec::new();
    apply_quality_args("hevc_qsv", Some(24), &mut args);
    assert_eq!(args, vec!["-global_quality".to_string(), "24".to_string()]);
}

#[test]
fn test_apply_quality_args_amf() {
    let mut args: Vec<String> = Vec::new();
    apply_quality_args("h264_amf", Some(28), &mut args);
    assert_eq!(args, vec!["-q:v".to_string(), "28".to_string()]);
}

#[test]
fn test_apply_quality_args_software_libx264() {
    let mut args: Vec<String> = Vec::new();
    apply_quality_args("libx264", Some(23), &mut args);
    assert_eq!(args, vec!["-crf".to_string(), "23".to_string()]);
}

#[test]
fn test_apply_quality_args_software_libx265() {
    let mut args: Vec<String> = Vec::new();
    apply_quality_args("libx265", Some(28), &mut args);
    assert_eq!(args, vec!["-crf".to_string(), "28".to_string()]);
}

#[test]
fn test_apply_quality_args_none_crf_no_args() {
    let mut args: Vec<String> = Vec::new();
    apply_quality_args("libx264", None, &mut args);
    assert!(args.is_empty(), "None crf should not append any args");
}

#[test]
fn test_apply_quality_args_preserves_existing_args() {
    let mut args: Vec<String> = vec!["-i".to_string(), "input.mp4".to_string()];
    apply_quality_args("libx264", Some(20), &mut args);
    assert_eq!(
        args,
        vec![
            "-i".to_string(),
            "input.mp4".to_string(),
            "-crf".to_string(),
            "20".to_string()
        ]
    );
}

// resolve_video_codec: with a missing FFmpeg no hardware encoder is usable.

#[test]
fn test_resolve_video_codec_passthrough_unknown() {
    let result = resolve_video_codec("libsvtav1", &Vec::new());
    assert_eq!(result, "libsvtav1");
}

#[test]
fn test_resolve_video_codec_passthrough_copy() {
    let result = resolve_video_codec("copy", &Vec::new());
    assert_eq!(result, "copy");
}

#[test]
fn test_resolve_video_codec_h264_falls_back_when_ffmpeg_missing() {
    let result = resolve_video_codec("h264", &Vec::new());
    assert_eq!(result, "libx264");
}

#[test]
fn test_resolve_video_codec_h265_falls_back_when_ffmpeg_missing() {
    let result = resolve_video_codec("h265", &Vec::new());
    assert_eq!(result, "libx265");
}

#[test]
fn test_resolve_video_codec_hevc_alias_falls_back() {
    let result = resolve_video_codec("hevc", &Vec::new());
    assert_eq!(result, "libx265");
}

#[test]
fn resolve_video_codec_prefers_best_usable() {
    let usable = vec!["h264_qsv".to_string(), "h264_nvenc".to_string()];
    assert_eq!(resolve_video_codec("auto", &usable), "h264_nvenc");
    assert_eq!(resolve_video_codec("h265", &usable), "libx265");
    let hevc = vec!["hevc_amf".to_string()];
    assert_eq!(resolve_video_codec("hevc", &hevc), "hevc_amf");
}

#[test]
fn encoder_candidates_by_hint() {
    assert_eq!(
        encoder_candidates("h264"),
        vec!["h264_videotoolbox", "h264_nvenc", "h264_qsv", "h264_amf"]
    );
    assert_eq!(
        encoder_candidates("hevc"),
        vec!["hevc_videotoolbox", "hevc_nvenc", "hevc_qsv", "hevc_amf"]
    );
    assert!(encoder_candidates("copy").is_empty());
    assert!(encoder_listed(" V..... h264_nvenc  NVIDIA", "h264_nvenc"));
    assert!(!encoder_listed(" V..... libx264", "h264_nvenc"));
}

// needs_burn

fn make_burn_options(
    burn_danmaku: bool,
    burn_subtitle: bool,
    danmaku_path: Option<String>,
    subtitle_path: Option<String>,
) -> BurnOptions {
    BurnOptions {
        burn_danmaku,
        burn_subtitle,
        danmaku_ass_path: danmaku_path,
        subtitle_ass_path: subtitle_path,
        burn_codec: "auto".to_string(),
        burn_crf: Some(23),
    }
}

#[test]
fn test_needs_burn_both_disabled() {
    let opts = make_burn_options(false, false, None, None);
    assert!(!opts.needs_burn());
}

#[test]
fn test_needs_burn_danmaku_with_path() {
    let opts = make_burn_options(true, false, Some("/tmp/d.ass".to_string()), None);
    assert!(opts.needs_burn());
}

#[test]
fn test_needs_burn_danmaku_without_path() {
    let opts = make_burn_options(true, false, None, None);
    assert!(!opts.needs_burn(), "burn flag without ASS path should not trigger burn");
}

#[test]
fn test_needs_burn_subtitle_with_path() {
    let opts = make_burn_options(false, true, None, Some("/tmp/s.ass".to_string()));
    assert!(opts.needs_burn());
}

#[test]
fn test_needs_burn_subtitle_without_path() {
    let opts = make_burn_options(false, true, None, None);
    assert!(!opts.needs_burn());
}

#[test]
fn test_needs_burn_both_enabled_both_paths() {
    let opts = make_burn_options(
        true,
        true,
        Some("/tmp/d.ass".to_string()),
        Some("/tmp/s.ass".to_string()),
    );
    assert!(opts.needs_burn());
}

#[test]
fn test_needs_burn_path_present_but_flag_off() {
    let opts = make_burn_options(false, false, Some("/tmp/d.ass".to_string()), None);
    assert!(!opts.needs_burn());
}

#[test]
fn burn_source_choices() {
    let both = make_burn_options(true, true, Some("d".to_string()), Some("s".to_string()));
    match burn_source(&both) {
        BurnSource::Merge { danmaku, subtitle } => {
            assert_eq!(danmaku, "d");
            assert_eq!(subtitle, "s");
        }
        _ => panic!("expected a merge"),
    }
    let sub_only = make_burn_options(true, true, None, Some("s".to_string()));
    assert!(matches!(burn_source(&sub_only), BurnSource::Single(p) if p == "s"));
    let none = make_burn_options(true, false, None, Some("s".to_string()));
    assert!(matches!(burn_source(&none), BurnSource::Skip));
}

// clip planning

fn preset(codec: &str, crf: Option<u32>, audio_only: Option<bool>) -> PresetOptions {
    PresetOptions { codec: codec.to_string(), crf, audio_only }
}

#[test]
fn clip_args_stream_copy() {
    let args = plan_clip_args("ffmpeg", "in.flv", "out.mp4", 61_500, 125_250, &preset("copy", None, None), "")
        .unwrap();
    assert_eq!(
        args,
        vec![
            "-ss", "61.500", "-i", "in.flv", "-t", "63.750", "-c", "copy", "-y", "-progress",
            "pipe:1", "out.mp4"
        ]
    );
}

#[test]
fn clip_args_reencode_and_audio() {
    let args = plan_clip_args("ffmpeg", "a", "b", 0, 1000, &preset("h264", Some(23), None), "libx264")
        .unwrap();
    assert_eq!(
        args,
        vec![
            "-ss", "0.000", "-i", "a", "-t", "1.000", "-c:v", "libx264", "-c:a", "aac", "-crf",
            "23", "-y", "-progress", "pipe:1", "b"
        ]
    );
    let audio = plan_clip_args("ffmpeg", "a", "b", 0, 5, &preset("copy", None, Some(true)), "").unwrap();
    assert_eq!(audio[6..9], ["-vn", "-acodec", "aac"]);
}

#[test]
fn test_execute_clip_empty_ffmpeg_path() {
    let result = plan_clip_args("", "/tmp/in.mp4", "/tmp/out.mp4", 0, 1000, &preset("copy", None, None), "");
    assert_eq!(result, Err("FFmpeg not available".to_string()));
}

#[test]
fn test_execute_clip_invalid_range_zero_duration() {
    let result =
        plan_clip_args("/usr/bin/ffmpeg", "/tmp/in.mp4", "/tmp/out.mp4", 1000, 1000, &preset("copy", None, None), "");
    assert!(result.is_err());
    assert!(result.unwrap_err().contains("Invalid time range"));
}

#[test]
fn test_execute_clip_invalid_range_negative() {
    let result =
        plan_clip_args("/usr/bin/ffmpeg", "/tmp/in.mp4", "/tmp/out.mp4", 2000, 1000, &preset("copy", None, None), "");
    assert!(result.is_err());
    assert!(result.unwrap_err().contains("Invalid time range"));
}

#[test]
fn progress_lines() {
    assert!(matches!(parse_progress_line("out_time_us=1500000"), ProgressLine::OutTimeUs(1_500_000)));
    assert!(matches!(parse_progress_line("out_time_us=N/A"), ProgressLine::Other));
    match parse_progress_line("speed= 2.5x") {
        ProgressLine::Speed(s) => assert_eq!(s, "2.5"),
        _ => panic!("expected speed"),
    }
    assert!(matches!(parse_progress_line("progress=end"), ProgressLine::End));
    assert!(matches!(parse_progress_line("frame=12"), ProgressLine::Other));
}
