use clipper_studio::plugin_settings::{
    enabled_flag_sql, enabled_plugin_id, enabled_plugin_ids, enabled_plugins_query,
    external_plugins_kept, is_auth_field, plugin_call_headers, plugin_call_url,
    plugin_config_entries, plugin_config_prefix, plugin_config_query, set_plugin_config_sql,
    PluginCallAuth,
};

#[test]
fn enabled_key_gives_its_plugin_id() {
    assert_eq!(enabled_plugin_id("plugin:recorder:enabled"), Some("recorder".to_string()));
    assert_eq!(enabled_plugin_id("plugin::enabled"), Some(String::new()));
    assert_eq!(enabled_plugin_id("plugin:recorder:config"), None);
    assert_eq!(enabled_plugin_id("plugins:x:enabled"), None);
    assert_eq!(enabled_plugin_id(":enabled"), None);
}

#[test]
fn enabled_ids_keep_key_order_and_skip_other_keys() {
    let keys = vec![
        "plugin:b:enabled".to_string(),
        "theme".to_string(),
        "plugin:a:enabled".to_string(),
    ];
    assert_eq!(enabled_plugin_ids(&keys), vec!["b".to_string(), "a".to_string()]);
    assert!(enabled_plugins_query().contains("LIKE 'plugin:%:enabled'"));
}

#[test]
fn enabled_flag_is_written_under_the_plugin_key() {
    assert_eq!(
        enabled_flag_sql("rec", true),
        "INSERT OR REPLACE INTO settings_kv (key, value) VALUES ('plugin:rec:enabled', 'true')"
    );
    assert_eq!(
        enabled_flag_sql("o'k", false),
        "INSERT OR REPLACE INTO settings_kv (key, value) VALUES ('plugin:o''k:enabled', 'false')"
    );
}

#[test]
fn plugin_config_written_and_read_back() {
    assert_eq!(
        set_plugin_config_sql("rec", "api_url", "http://x'y"),
        "INSERT OR REPLACE INTO settings_kv (key, value) VALUES ('plugin:rec:api_url', 'http://x''y')"
    );
    let prefix = plugin_config_prefix("rec");
    assert_eq!(prefix, "plugin:rec:");
    assert_eq!(
        plugin_config_query(&prefix),
        "SELECT key, value FROM settings_kv WHERE key LIKE 'plugin:rec:%'"
    );
    let rows = vec![
        ("plugin:rec:api_url".to_string(), "http://h".to_string()),
        ("plugin:other:x".to_string(), "1".to_string()),
        ("plugin:rec:".to_string(), "empty".to_string()),
    ];
    assert_eq!(
        plugin_config_entries(&prefix, &rows),
        vec![
            ("api_url".to_string(), "http://h".to_string()),
            (String::new(), "empty".to_string()),
        ]
    );
}

#[test]
fn quoted_plugin_id_does_not_find_its_values() {
    let prefix = plugin_config_prefix("a'b");
    assert_eq!(prefix, "plugin:a''b:");
    let rows = vec![("plugin:a'b:k".to_string(), "v".to_string())];
    assert!(plugin_config_entries(&prefix, &rows).is_empty());
}

#[test]
fn builtin_plugins_shadow_external_ones() {
    let builtin = vec!["recorder".to_string(), "storage".to_string()];
    let external = vec![
        "x".to_string(),
        "storage".to_string(),
        "y".to_string(),
        "x".to_string(),
    ];
    assert_eq!(external_plugins_kept(&builtin, &external), vec![0, 2]);
    assert_eq!(external_plugins_kept(&vec![], &vec![]), Vec::<usize>::new());
}

#[test]
fn plugin_call_addressing() {
    assert_eq!(
        plugin_call_url(&Some("http://host:9/".to_string()), "/api/list"),
        "http://host:9/api/list"
    );
    assert_eq!(plugin_call_url(&None, "status"), "http://127.0.0.1:2007/status");
    assert!(is_auth_field("base_url"));
    assert!(is_auth_field("basic_pass"));
    assert!(!is_auth_field("room_id"));
}

#[test]
fn plugin_call_credentials() {
    let auth = PluginCallAuth {
        base_url: None,
        api_key: Some("k1".to_string()),
        basic_user: Some("user".to_string()),
        basic_pass: Some("pass".to_string()),
    };
    assert_eq!(
        plugin_call_headers(&auth),
        vec![
            ("X-API-Key".to_string(), "k1".to_string()),
            ("Authorization".to_string(), "Basic dXNlcjpwYXNz".to_string()),
        ]
    );
    let no_pass = PluginCallAuth {
        base_url: None,
        api_key: Some(String::new()),
        basic_user: Some("user".to_string()),
        basic_pass: None,
    };
    assert!(plugin_call_headers(&no_pass).is_empty());
}

#[test]
fn call_body_drops_connection_fields_only() {
    let keys: Vec<String> = ["base_url", "room", "api_key", "basic_user", "x", "basic_pass", "api_keys"]
        .iter()
        .map(|s| s.to_string())
        .collect();
    assert_eq!(clipper_studio::plugin_settings::call_body_keys(&keys), vec!["room", "x", "api_keys"]);
    assert!(clipper_studio::plugin_settings::call_body_keys(&Vec::new()).is_empty());
}
