use clipper_studio::manifest::PluginError;
use clipper_studio::plugins::{
    auth_headers, endpoint_url, mount_params, route_recorder_action, BilibiliRecorderConfig,
    BilibiliRecorderPluginBuilder, MountBackend, MountInfo, MountRegistry,
    StorageProviderPluginBuilder,
};

fn info(server: &str, share: &str, point: &str) -> MountInfo {
    MountInfo { server: server.into(), share: share.into(), mount_point: point.into() }
}

fn points(r: &MountRegistry) -> Vec<String> {
    r.mounts.iter().map(|m| m.mount_point.clone()).collect()
}

#[test]
fn builder_ids() {
    assert_eq!(BilibiliRecorderPluginBuilder::new().id(), "builtin.recorder.bilibili");
    assert_eq!(StorageProviderPluginBuilder::new().id(), "builtin.storage.smb");
}

#[test]
fn recorder_config_defaults() {
    let d = BilibiliRecorderConfig::default();
    assert_eq!(d.api_url, "");
    let i = BilibiliRecorderConfig::initial();
    assert_eq!(i.api_url, "http://127.0.0.1:2007");
    assert_eq!(i.api_key, "");
}

#[test]
fn recorder_actions() {
    assert!(matches!(route_recorder_action("status"), Ok(clipper_studio::plugins::RecorderAction::Call(e)) if e == "/status"));
    assert!(matches!(route_recorder_action("get_rooms"), Ok(clipper_studio::plugins::RecorderAction::Call(e)) if e == "/rooms"));
    assert!(matches!(route_recorder_action("get_config"), Ok(clipper_studio::plugins::RecorderAction::GetConfig)));
    match route_recorder_action("reboot") {
        Err(PluginError::UnsupportedAction(a)) => assert_eq!(a, "reboot"),
        _ => panic!("expected a refusal"),
    }
}

#[test]
fn recorder_requests() {
    assert_eq!(endpoint_url("http://h:2007//", "/status"), "http://h:2007/status");
    let cfg = BilibiliRecorderConfig {
        api_url: "http://h".into(),
        api_key: "k1".into(),
        basic_user: "user".into(),
        basic_pass: "pass".into(),
    };
    assert_eq!(
        auth_headers(&cfg),
        vec![
            ("X-API-Key".to_string(), "k1".to_string()),
            ("Authorization".to_string(), "Basic dXNlcjpwYXNz".to_string())
        ]
    );
    assert!(auth_headers(&BilibiliRecorderConfig::initial()).is_empty());
}

#[test]
fn mount_requests() {
    match mount_params(&"".into(), &"s".into(), &"".into(), &"".into(), &"".into()) {
        Err(PluginError::InvalidPayload(m)) => assert_eq!(m, "server and share are required"),
        _ => panic!("server is required"),
    }
    let p = mount_params(&"nas.local".into(), &"media".into(), &"bob".into(), &"p@ss w".into(), &"".into())
        .unwrap();
    assert_eq!(p.username.as_deref(), Some("bob"));
    assert_eq!(p.mount_point, None);
    assert_eq!(MountBackend::build_smb_url(&p), "//bob:p%40ss%20w@nas.local/media");
    assert_eq!(MountBackend::cifs_mount_options(&p, 1000, 100), "username=bob,password=p@ss w,uid=1000,gid=100");
    assert_eq!(MountBackend::unc_path(&p), "\\\\nas.local\\media");
    let guest = mount_params(&"10.0.0.1".into(), &"pub".into(), &"".into(), &"".into(), &"".into()).unwrap();
    assert_eq!(MountBackend::build_smb_url(&guest), "//guest@10.0.0.1/pub");
    assert_eq!(MountBackend::cifs_mount_options(&guest, 0, 0), "guest,uid=0,gid=0");
}

#[test]
fn mount_helpers() {
    assert_eq!(MountBackend::auto_mount_dir_name("192.168.1.5", "share"), "192-168-1-5_share");
    assert_eq!(MountBackend::url_encode("a b"), "a%20b");
    assert_eq!(
        MountBackend::parse_net_use_drive("Drive z: is now connected to \\\\nas\\share."),
        Some("Z:".to_string())
    );
    assert_eq!(MountBackend::parse_net_use_drive("The command completed successfully."), None);
    assert!(MountBackend::is_supported("linux"));
    assert!(MountBackend::is_supported("macos"));
    assert!(!MountBackend::is_supported("freebsd"));
}

#[test]
fn registry_adds_removes_and_adopts() {
    let mut r = MountRegistry::new();
    r.add(info("a", "s", "/mnt/a"));
    r.add(info("b", "s", "/mnt/b"));
    r.remove("/mnt/a");
    assert_eq!(points(&r), vec!["/mnt/b"]);
    r.merge_detected(&vec![info("b", "s", "/mnt/b"), info("c", "s", "/mnt/c"), info("c", "t", "/mnt/c")]);
    assert_eq!(points(&r), vec!["/mnt/b", "/mnt/c"]);
    r.remove("/mnt/none");
    assert_eq!(points(&r).len(), 2);
}

#[test]
fn recorder_get_config_withholds_secrets() {
    let cfg = BilibiliRecorderConfig {
        api_url: "http://host:2007".to_string(),
        api_key: "k".to_string(),
        basic_user: String::new(),
        basic_pass: "p".to_string(),
    };
    let v = cfg.public_view();
    assert_eq!(v.api_url, "http://host:2007");
    assert!(v.has_api_key);
    assert!(!v.has_basic_auth);
    let i = BilibiliRecorderConfig::initial().public_view();
    assert_eq!(i.api_url, "http://127.0.0.1:2007");
    assert!(!i.has_api_key);
}

#[test]
fn recorder_set_config_then_get_config_reads_back() {
    let mut cfg = BilibiliRecorderConfig::initial();
    cfg.apply_update(Some("http://nas:2356".to_string()), None, Some("admin".to_string()), None);
    let v = cfg.public_view();
    assert_eq!(v.api_url, "http://nas:2356");
    assert!(!v.has_api_key);
    assert!(v.has_basic_auth);
    assert_eq!(cfg.basic_pass, "");
}

#[test]
fn recorder_request_settings_prefer_base_url() {
    let cfg = BilibiliRecorderConfig::initial();
    let r = cfg.for_request(Some("http://a".to_string()), Some("http://b".to_string()), None, None, None);
    assert_eq!(r.api_url, "http://a");
    let r = cfg.for_request(None, Some("http://b".to_string()), Some("key".to_string()), None, None);
    assert_eq!(r.api_url, "http://b");
    assert_eq!(r.api_key, "key");
    let r = cfg.for_request(None, None, None, None, None);
    assert_eq!(r.api_url, "http://127.0.0.1:2007");
}
