use clipper_studio::plugin_transport::{
    exit_failure_message, plugin_reply, reply_outcome, PluginReply, ReplyFields,
};
use serde_json::Value;

fn value_of(text: &str) -> Value {
    serde_json::from_str(text).unwrap()
}

#[test]
fn reply_result_member_is_returned() {
    match plugin_reply("{\"result\":{\"n\":1}}\n", true, Some(0)) {
        Ok(PluginReply::Value(v)) => assert_eq!(v, value_of("{\"n\":1}")),
        _ => panic!("expected the result member"),
    }
}

#[test]
fn reply_without_result_returns_whole_reply() {
    match plugin_reply("  {\"ok\":true}  ", true, Some(0)) {
        Ok(PluginReply::Value(v)) => assert_eq!(v, value_of("{\"ok\":true}")),
        _ => panic!("expected the whole reply"),
    }
}

#[test]
fn reply_error_member_becomes_error() {
    let r = plugin_reply("{\"error\":\"bad input\",\"result\":1}", true, Some(0));
    assert!(matches!(r, Err(ref m) if m == "bad input"));
}

#[test]
fn reply_non_string_error_is_not_an_error() {
    match plugin_reply("{\"error\":5,\"result\":2}", true, Some(0)) {
        Ok(PluginReply::Value(v)) => assert_eq!(v, value_of("2")),
        _ => panic!("a numeric error member is not an error"),
    }
}

#[test]
fn blank_reply_after_success_is_null() {
    assert!(matches!(plugin_reply(" \n", true, Some(0)), Ok(PluginReply::Null)));
    assert!(matches!(plugin_reply("", true, None), Ok(PluginReply::Null)));
}

#[test]
fn blank_reply_after_failure_reports_exit_code() {
    let r = plugin_reply("\n", false, Some(3));
    assert!(matches!(r, Err(ref m) if m == "Plugin process exited with code Some(3)"));
    let r = plugin_reply("", false, None);
    assert!(matches!(r, Err(ref m) if m == "Plugin process exited with code None"));
    assert_eq!(exit_failure_message(Some(-2)), "Plugin process exited with code Some(-2)");
}

#[test]
fn unparsable_reply_reports_parse_error() {
    let expected_detail = serde_json::from_str::<Value>("not json").unwrap_err().to_string();
    match plugin_reply("not json\n", true, Some(0)) {
        Err(m) => {
            assert_eq!(m, format!("Failed to parse plugin response: {}", expected_detail));
        },
        Ok(_) => panic!("expected a parse error"),
    }
}

#[test]
fn outcome_prefers_error_then_result_then_whole() {
    let f = ReplyFields { error: Some("e".to_string()), result: Some(value_of("1")), whole: value_of("{}") };
    assert!(matches!(reply_outcome(f), Err(ref m) if m == "e"));
    let f = ReplyFields { error: None, result: Some(value_of("1")), whole: value_of("{}") };
    assert!(matches!(reply_outcome(f), Ok(PluginReply::Value(ref v)) if *v == value_of("1")));
    let f = ReplyFields { error: None, result: None, whole: value_of("[7]") };
    assert!(matches!(reply_outcome(f), Ok(PluginReply::Value(ref v)) if *v == value_of("[7]")));
}

#[test]
fn request_line_is_the_json_object_and_a_newline() {
    let payload = value_of("{\"b\":[1,2],\"a\":\"x\"}");
    let line = clipper_studio::plugin_transport::request_line("con\"vert", &payload);
    assert_eq!(line, "{\"action\":\"con\\\"vert\",\"payload\":{\"a\":\"x\",\"b\":[1,2]}}\n");
    let mut obj = serde_json::Map::new();
    obj.insert("action".to_string(), Value::String("con\"vert".to_string()));
    obj.insert("payload".to_string(), payload);
    assert_eq!(line, format!("{}\n", serde_json::to_string(&Value::Object(obj)).unwrap()));
}
