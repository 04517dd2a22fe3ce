use clipper_studio::config::AppConfig;
use clipper_studio::deps::{ffprobe_file_name, redetected_tool_path, set_dep_custom_path, set_deps_proxy};
use clipper_studio::manifest::HostOs;

#[test]
fn ffmpeg_path_takes_ffprobe_beside_it() {
    let mut c = AppConfig::default();
    let r = set_dep_custom_path(&mut c, "ffmpeg", "/opt/ff/ffmpeg", Some("/opt/ff/ffprobe".to_string()));
    assert!(r.is_ok());
    assert_eq!(c.ffmpeg.ffmpeg_path, "/opt/ff/ffmpeg");
    assert_eq!(c.ffmpeg.ffprobe_path, "/opt/ff/ffprobe");

    let mut d = AppConfig::default();
    d.ffmpeg.ffprobe_path = "/old/ffprobe".to_string();
    set_dep_custom_path(&mut d, "ffmpeg", "/x/ffmpeg", None).unwrap();
    assert_eq!(d.ffmpeg.ffprobe_path, "/old/ffprobe");
}

#[test]
fn danmaku_converter_path_and_unknown_dependency() {
    let mut c = AppConfig::default();
    set_dep_custom_path(&mut c, "danmaku-factory", "/bin/DanmakuFactory", None).unwrap();
    assert_eq!(c.tools.danmaku_factory_path, "/bin/DanmakuFactory");
    let err = set_dep_custom_path(&mut c, "whisper", "/x", None).unwrap_err();
    assert_eq!(err, "Custom path not supported for 'whisper', use settings directly");
    assert_eq!(c.tools.danmaku_factory_path, "/bin/DanmakuFactory");
}

#[test]
fn configured_path_comes_before_detected_one() {
    assert_eq!(redetected_tool_path("/cfg/ffmpeg", Some("/bin/ffmpeg".to_string())), "/cfg/ffmpeg");
    assert_eq!(redetected_tool_path("", Some("/bin/ffmpeg".to_string())), "/bin/ffmpeg");
    assert_eq!(redetected_tool_path("", None), "");
    assert_eq!(ffprobe_file_name(HostOs::Windows), "ffprobe.exe");
    assert_eq!(ffprobe_file_name(HostOs::Linux), "ffprobe");
}

#[test]
fn proxy_setting() {
    let mut c = AppConfig::default();
    assert_eq!(set_deps_proxy(&mut c, "http://proxy:8080"), Some("http://proxy:8080".to_string()));
    assert_eq!(c.network.proxy_url, "http://proxy:8080");
    assert_eq!(set_deps_proxy(&mut c, ""), None);
    assert_eq!(c.network.proxy_url, "");
}
