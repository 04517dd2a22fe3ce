use clipper_studio::asr::{parse_recorded_at_legacy_buggy_ms, repair_delta};
use clipper_studio::asr::{docker_alive, invalid_path_message, ASRPathValidation};
use clipper_studio::asr::{
    build_docker_run_args, build_script_args, decide_docker_runtime_flags, docker_capability,
    is_retryable_error, launch_kind, local_service_url, native_launch_args, parse_recorded_at_to_unix_ms,
    path_validation, setup_script_name, start_check, validate_asr_url, ASRLaunchMode,
    ASRServiceStatus, ASRStartConfig, DockerCapability, HealthAction, HealthPoll, LogBuffer,
    StartCheck,
};
use clipper_studio::manifest::HostOs;

fn config() -> ASRStartConfig {
    ASRStartConfig {
        launch_mode: ASRLaunchMode::Native { base_dir: "/opt/asr".to_string() },
        port: 8765,
        device: "cpu".to_string(),
        model_size: "auto".to_string(),
        enable_align: false,
        enable_punc: true,
        model_source: "modelscope".to_string(),
        max_segment: 15,
        host: "127.0.0.1".to_string(),
    }
}

#[test]
fn script_arguments() {
    let args = build_script_args(&config());
    assert_eq!(
        args,
        vec![
            "--host", "127.0.0.1", "--port", "8765", "--device", "cpu", "--model-source",
            "modelscope", "--max-segment", "15", "--no-align", "--use-punc"
        ]
    );
    let mut c = config();
    c.model_size = "1.7b".to_string();
    c.enable_align = true;
    c.enable_punc = false;
    let args = build_script_args(&c);
    assert_eq!(&args[10..], &["--model-size", "1.7b", "--enable-align"]);
    let native = native_launch_args(&config());
    assert_eq!(&native[..3], &["-m", "app.main", "--host"]);
}

#[test]
fn docker_arguments() {
    let args = build_docker_run_args(
        &config(),
        "repo/asr:v1-cpu",
        "/data/models",
        false,
        &Some("linux/amd64".to_string()),
    );
    assert_eq!(
        &args[..13],
        &[
            "run", "--rm", "-d", "--name", "qwen3-asr-service", "-p", "127.0.0.1:8765:8765", "-v",
            "/data/models:/app/models", "--platform", "linux/amd64", "repo/asr:v1-cpu", "--host"
        ]
    );
    assert_eq!(args[13], "0.0.0.0");
    let gpu = build_docker_run_args(&config(), "img:cuda", "/m", true, &None);
    assert_eq!(&gpu[9..12], &["--gpus", "all", "img:cuda"]);
}

#[test]
fn install_directory_verdicts() {
    let ok = path_validation(HostOs::Linux, true, true, "/opt/asr/.venv/bin/python".to_string());
    assert!(ok.valid);
    assert_eq!(ok.platform, "linux");
    assert_eq!(ok.setup_hint, None);
    let none = path_validation(HostOs::Windows, false, false, String::new());
    assert!(!none.valid);
    assert_eq!(none.setup_hint.as_deref(), Some("请先运行 setup.bat 安装 Python 环境和依赖"));
    let no_main = path_validation(HostOs::MacOs, true, false, String::new());
    assert_eq!(no_main.platform, "macos");
    assert_eq!(no_main.setup_hint.as_deref(), Some("未找到入口文件 app/main.py，请检查服务目录"));
    assert_eq!(setup_script_name(HostOs::Windows), "setup.bat");
    assert_eq!(setup_script_name(HostOs::Linux), "setup.sh");
}

#[test]
fn retryable_errors_ignore_case() {
    assert!(is_retryable_error("Request TIMEOUT"));
    assert!(is_retryable_error("HTTP 503 Service Unavailable"));
    assert!(is_retryable_error("Connection refused"));
    assert!(!is_retryable_error("invalid audio"));
}

#[test]
fn remote_addresses() {
    assert!(validate_asr_url("  HTTPS://asr.example.com ").is_ok());
    assert!(validate_asr_url("http://10.0.0.2:8765").is_ok());
    assert_eq!(validate_asr_url("   ").unwrap_err(), "远程 ASR 地址不能为空");
    assert_eq!(
        validate_asr_url(" file:///etc/passwd ").unwrap_err(),
        "远程 ASR 地址协议不受支持，仅允许 http:// 或 https://（当前：file:///etc/passwd）"
    );
}

#[test]
fn container_runtime_flags() {
    let cap = |arch: &str| DockerCapability {
        installed: true,
        daemon_running: true,
        host_arch: arch.to_string(),
        host_platform: "macos".to_string(),
        version: None,
        hint: None,
    };
    assert_eq!(
        decide_docker_runtime_flags("repo/asr:v1-cpu", &cap("arm64")),
        (false, Some("linux/amd64".to_string()))
    );
    assert_eq!(decide_docker_runtime_flags("repo/asr:v1-cpu", &cap("amd64")), (false, None));
    assert_eq!(decide_docker_runtime_flags("repo/asr:v1-arm64", &cap("arm64")), (false, None));
    assert_eq!(decide_docker_runtime_flags("repo/asr:v1", &cap("amd64")), (true, None));
}

#[test]
fn container_runtime_probe() {
    let missing = docker_capability("linux".into(), "amd64".into(), None, false);
    assert!(!missing.installed);
    assert_eq!(
        missing.hint.as_deref(),
        Some("未检测到 Docker，请先安装 Docker Desktop 或 Docker Engine")
    );
    let stopped = docker_capability("linux".into(), "amd64".into(), Some(" 27.0.1\n".into()), false);
    assert!(stopped.installed && !stopped.daemon_running);
    assert_eq!(stopped.version.as_deref(), Some("27.0.1"));
    let up = docker_capability("linux".into(), "amd64".into(), Some("27".into()), true);
    assert!(up.daemon_running);
    assert_eq!(up.hint, None);
}

#[test]
fn local_address_uses_loopback_for_wildcards() {
    assert_eq!(local_service_url("0.0.0.0", 8765), "http://127.0.0.1:8765");
    assert_eq!(local_service_url("", 9000), "http://127.0.0.1:9000");
    assert_eq!(local_service_url("192.168.1.5", 80), "http://192.168.1.5:80");
}

#[test]
fn start_requests() {
    assert!(matches!(start_check(&ASRServiceStatus::Running), StartCheck::AlreadyRunning));
    assert!(matches!(start_check(&ASRServiceStatus::Stopped), StartCheck::Launch));
    assert!(matches!(
        start_check(&ASRServiceStatus::Error { message: "x".into() }),
        StartCheck::Launch
    ));
    match start_check(&ASRServiceStatus::Starting) {
        StartCheck::Refuse(m) => assert_eq!(m, "ASR 服务正在启动中，请等待"),
        _ => panic!("expected a refusal"),
    }
    assert_eq!(launch_kind(&None), None);
    assert_eq!(
        launch_kind(&Some(ASRLaunchMode::Native { base_dir: "/x".into() })).as_deref(),
        Some("native")
    );
}

#[test]
fn log_buffer_keeps_the_newest_lines() {
    let mut b = LogBuffer::new();
    for i in 0..2005 {
        b.push(format!("line {}", i));
    }
    assert_eq!(b.lines.len(), 2000);
    assert_eq!(b.lines[0], "line 5");
    assert_eq!(b.recent(2), vec!["line 2003", "line 2004"]);
    assert_eq!(b.recent(5000).len(), 2000);
}

#[test]
fn health_polling_slows_down_then_gives_up() {
    let mut p = HealthPoll::new();
    let mut probes = 0;
    loop {
        probes += 1;
        match p.step(false, false) {
            HealthAction::Retry { sleep_secs, slow_notice } => {
                if probes < 40 {
                    assert_eq!(sleep_secs, 3);
                    assert!(!slow_notice);
                } else {
                    assert_eq!(sleep_secs, 15);
                    assert_eq!(slow_notice, probes == 40);
                }
            }
            HealthAction::Fail(m) => {
                assert_eq!(m, "ASR 服务在 30 分钟内仍未就绪，已自动停止。请检查日志排查问题。");
                break;
            }
            HealthAction::Monitor => panic!("never healthy"),
        }
    }
    assert_eq!(probes, 159);
    let mut q = HealthPoll::new();
    assert!(matches!(q.step(false, true), HealthAction::Monitor));
    for _ in 0..5 {
        q.step(true, false);
    }
    assert!(matches!(q.step(true, false), HealthAction::Fail(_)));
}

#[test]
fn recording_time_in_milliseconds() {
    assert_eq!(parse_recorded_at_to_unix_ms("2026-04-05 20:30:00"), Some(1_775_421_000_000));
    assert_eq!(parse_recorded_at_to_unix_ms("1970-01-01 00:00:00"), Some(0));
    assert_eq!(parse_recorded_at_to_unix_ms("1969-12-31 23:59:59"), Some(-1000));
    assert_eq!(parse_recorded_at_to_unix_ms("2024-02-29 12:00:00"), Some(1_709_208_000_000));
    assert_eq!(parse_recorded_at_to_unix_ms("1600-03-01 00:00:00"), Some(-11_670_912_000_000));
    let a = parse_recorded_at_to_unix_ms("2026-01-31 00:00:00").unwrap();
    let b = parse_recorded_at_to_unix_ms("2026-02-01 00:00:00").unwrap();
    assert_eq!(b - a, 86_400_000);
    // Out-of-range fields carry over into the next larger unit.
    assert_eq!(parse_recorded_at_to_unix_ms("2026-02-29 00:00:00"), Some(1_772_323_200_000));
    assert_eq!(parse_recorded_at_to_unix_ms("2026-13-01 00:00:00"), Some(1_798_761_600_000));
    assert_eq!(parse_recorded_at_to_unix_ms("2026-01-00 00:00:00"), Some(1_767_139_200_000));
    assert_eq!(parse_recorded_at_to_unix_ms("2026-04-05 24:30:00"), Some(1_775_435_400_000));
    assert_eq!(parse_recorded_at_to_unix_ms("2026-04-05"), None);
    assert_eq!(parse_recorded_at_to_unix_ms("2026-04-05 20:30:-1"), None);
}

#[test]
fn docker_liveness_and_invalid_path_message() {
    assert!(docker_alive(&ASRServiceStatus::Running));
    assert!(docker_alive(&ASRServiceStatus::Starting));
    assert!(!docker_alive(&ASRServiceStatus::Stopped));
    assert!(!docker_alive(&ASRServiceStatus::Error { message: "x".to_string() }));
    let v = ASRPathValidation {
        valid: false,
        has_python_env: false,
        has_main: true,
        python_path: String::new(),
        platform: "linux".to_string(),
        setup_hint: Some("run setup.sh".to_string()),
    };
    assert_eq!(invalid_path_message(&v), "ASR 服务路径无效：run setup.sh");
}

#[test]
fn legacy_timestamps_and_repair_delta() {
    let legacy = (((2026i64 * 365 + 4 * 30 + 5) * 86400) + 20 * 3600 + 30 * 60) * 1000;
    assert_eq!(parse_recorded_at_legacy_buggy_ms("2026-04-05 20:30:00"), Some(legacy));
    assert_eq!(parse_recorded_at_legacy_buggy_ms("2026-02-30 00:00:00").is_some(), true);
    assert_eq!(repair_delta(&Some("2026-04-05 20:30:00".to_string())), Some(legacy - 1_775_421_000_000));
    assert_eq!(repair_delta(&Some(String::new())), None);
    assert_eq!(repair_delta(&None), None);
    assert_eq!(repair_delta(&Some("2026-02-30 00:00:00".to_string())), Some(63899712000000 - 1772409600000));
    assert_eq!(repair_delta(&Some("2026-02-30".to_string())), None);
}
