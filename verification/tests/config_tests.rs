use clipper_studio::config::AppConfig;
use std::path::PathBuf;

#[test]
fn test_default_config() {
    let config = AppConfig::default();
    assert_eq!(config.general.database_path, "data.db");
    assert_eq!(config.general.log_level, "info");
    assert!(config.ffmpeg.ffmpeg_path.is_empty());
    assert!(config.workspaces.recent.is_empty());
}

#[test]
fn test_resolve_db_path_relative() {
    let config = AppConfig::default();
    let resolved = config.resolve_db_path("/app/data");
    assert_eq!(PathBuf::from(resolved), PathBuf::from("/app/data/data.db"));
}

#[test]
fn test_recent_workspaces() {
    let mut config = AppConfig::default();
    config.add_recent_workspace("/path/a");
    config.add_recent_workspace("/path/b");
    config.add_recent_workspace("/path/a");
    assert_eq!(config.workspaces.recent, vec!["/path/a", "/path/b"]);

    config.remove_recent_workspace("/path/b");
    assert_eq!(config.workspaces.recent, vec!["/path/a"]);
}

#[test]
fn test_recent_workspaces_truncate_at_20() {
    let mut config = AppConfig::default();
    for i in 0..25 {
        config.add_recent_workspace(&format!("/path/{}", i));
    }
    assert_eq!(config.workspaces.recent.len(), 20);
    assert_eq!(config.workspaces.recent[0], "/path/24");
}

#[test]
fn test_recent_workspaces_dedup_moves_to_front() {
    let mut config = AppConfig::default();
    config.add_recent_workspace("/path/a");
    config.add_recent_workspace("/path/b");
    config.add_recent_workspace("/path/c");
    config.add_recent_workspace("/path/a");
    assert_eq!(config.workspaces.recent, vec!["/path/a", "/path/c", "/path/b"]);
}

#[test]
fn test_remove_recent_nonexistent() {
    let mut config = AppConfig::default();
    config.add_recent_workspace("/path/a");
    config.remove_recent_workspace("/path/nonexistent");
    assert_eq!(config.workspaces.recent, vec!["/path/a"]);
}

#[test]
fn test_resolve_db_path_absolute() {
    let mut config = AppConfig::default();
    config.general.database_path = "/absolute/path/my.db".to_string();
    let resolved = config.resolve_db_path("/app/data");
    assert_eq!(PathBuf::from(resolved), PathBuf::from("/absolute/path/my.db"));
}

#[test]
fn adding_twice_equals_adding_once() {
    let mut a = AppConfig::default();
    a.add_recent_workspace("/x");
    a.add_recent_workspace("/y");
    a.add_recent_workspace("/y");
    assert_eq!(a.workspaces.recent, vec!["/y", "/x"]);
}

#[test]
fn join_keeps_trailing_separator() {
    let config = AppConfig::default();
    assert_eq!(config.resolve_db_path("/app/data/"), "/app/data/data.db");
    assert_eq!(config.resolve_db_path(""), "data.db");
}
