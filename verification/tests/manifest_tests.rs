use clipper_studio::manifest::{
    default_api_version, default_frontend_target, HostOs, PlatformCommand, PluginError,
    StdioTransport,
};

#[test]
fn test_platform_command_current_returns_correct_platform() {
    let cmd = PlatformCommand {
        windows: Some("win.exe".to_string()),
        darwin: Some("mac".to_string()),
        linux: Some("linux".to_string()),
    };
    // The tests run on Linux.
    let current = cmd.current(HostOs::Linux).unwrap();
    assert_eq!(current, "linux");
}

#[test]
fn test_platform_command_current_returns_none_when_missing() {
    let cmd = PlatformCommand::default();
    assert!(cmd.current(HostOs::Linux).is_none());
}

#[test]
fn platform_command_picks_each_platform() {
    let cmd = PlatformCommand {
        windows: Some("a.exe".to_string()),
        darwin: None,
        linux: Some("b".to_string()),
    };
    assert_eq!(cmd.current(HostOs::Windows).as_deref(), Some("a.exe"));
    assert_eq!(cmd.current(HostOs::MacOs), None);
    assert_eq!(cmd.current(HostOs::Linux).as_deref(), Some("b"));
}

#[test]
fn host_os_names() {
    assert_eq!(HostOs::from_name("linux"), Some(HostOs::Linux));
    assert_eq!(HostOs::from_name("macos"), Some(HostOs::MacOs));
    assert_eq!(HostOs::from_name("windows"), Some(HostOs::Windows));
    assert_eq!(HostOs::from_name("freebsd"), None);
}

#[test]
fn plugin_error_messages() {
    assert_eq!(PluginError::NotFound("x".to_string()).message(), "Plugin not found: x");
    assert_eq!(
        PluginError::UnsupportedAction("go".to_string()).message(),
        "Unsupported action: go"
    );
    assert_eq!(PluginError::Init("boom".to_string()).message(), "Initialization failed: boom");
    assert_eq!(PluginError::Shutdown("s".to_string()).message(), "Shutdown failed: s");
}

#[test]
fn manifest_defaults() {
    assert_eq!(default_frontend_target(), "settings");
    assert_eq!(default_api_version(), 1);
}

#[test]
fn stdio_transport_keeps_paths() {
    let t = StdioTransport::new("/bin/tool".to_string(), "/work".to_string());
    assert_eq!(t.executable, "/bin/tool");
    assert_eq!(t.working_dir, "/work");
}
