use clipper_studio::merger::{
    check_merge_compatibility, check_merge_inputs, concat_list_content, physical_merge_arg_list,
    virtual_merge_arg_list, VideoFormat,
};

fn fmt(codec: &str, w: u32, h: u32) -> VideoFormat {
    VideoFormat { video_codec: Some(codec.to_string()), width: Some(w), height: Some(h) }
}

#[test]
fn test_check_merge_compatibility_single_file() {
    let result = check_merge_compatibility(&Vec::new());
    assert!(result.is_ok());
    assert!(result.unwrap());
}

#[test]
fn test_check_merge_compatibility_empty_inputs() {
    let result = check_merge_compatibility(&Vec::new());
    assert!(result.is_ok());
    assert!(result.unwrap());
}

#[test]
fn test_check_merge_compatibility_invalid_probe() {
    // Two inputs whose probes fail (no ffprobe): the check reports the error.
    let probes = vec![
        Err("Failed to run ffprobe".to_string()),
        Err("Failed to run ffprobe".to_string()),
    ];
    let result = check_merge_compatibility(&probes);
    assert!(result.is_err());
}

#[test]
fn merge_compatibility_verdicts() {
    let same = vec![Ok(fmt("h264", 1920, 1080)), Ok(fmt("h264", 1920, 1080))];
    assert_eq!(check_merge_compatibility(&same), Ok(true));
    let differ = vec![Ok(fmt("h264", 1920, 1080)), Ok(fmt("hevc", 1920, 1080)), Err("x".to_string())];
    assert_eq!(check_merge_compatibility(&differ), Ok(false));
    let err_first = vec![Ok(fmt("h264", 1, 1)), Err("boom".to_string()), Ok(fmt("hevc", 1, 1))];
    assert_eq!(check_merge_compatibility(&err_first), Err("boom".to_string()));
}

#[test]
fn concat_list_escapes_quotes() {
    let inputs = vec!["/a/b.mp4".to_string(), "/x/it's.mp4".to_string()];
    assert_eq!(concat_list_content(&inputs), "file '/a/b.mp4'\nfile '/x/it'\\''s.mp4'\n");
}

#[test]
fn merge_argument_lists() {
    assert_eq!(check_merge_inputs("", 3), Err("FFmpeg not available".to_string()));
    assert_eq!(check_merge_inputs("ffmpeg", 1), Err("至少需要 2 个视频才能合并".to_string()));
    assert_eq!(check_merge_inputs("ffmpeg", 2), Ok(()));
    let v = virtual_merge_arg_list("/tmp/list.txt", "out.mp4");
    assert_eq!(
        v,
        vec!["-f", "concat", "-safe", "0", "-i", "/tmp/list.txt", "-c", "copy", "-y", "-progress", "pipe:1", "out.mp4"]
    );
    let inputs = vec!["a.mp4".to_string(), "b.mp4".to_string()];
    let p = physical_merge_arg_list(&inputs, "o.mp4", "h264_nvenc", Some(23));
    assert_eq!(
        p,
        vec![
            "-i", "a.mp4", "-i", "b.mp4", "-filter_complex",
            "[0:v:0][0:a:0][1:v:0][1:a:0]concat=n=2:v=1:a=1[outv][outa]", "-map", "[outv]",
            "-map", "[outa]", "-c:v", "h264_nvenc", "-cq", "23", "-b:v", "0", "-c:a", "aac",
            "-y", "-progress", "pipe:1", "o.mp4"
        ]
    );
}
