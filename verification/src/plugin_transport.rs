//! The reply side of the stdio plugin protocol: a tool plugin answers one
//! request with one JSON line, `{"result": ...}` or `{"error": "..."}`.
//! serde_json parses the line; what the host returns is decided here.

use vstd::prelude::*;
use crate::manifest::opt_view;
use crate::text::{chars_of, int_text, push_int, push_str, string_of, trim_chars, trim_spec};

verus! {

#[verifier::external_type_specification]
#[verifier::external_body]
pub struct ExJsonValue(serde_json::Value);

/// The parts of a parsed reply line that the protocol reads.
pub struct ReplyFields {
    /// The `"error"` member, when it is a JSON string.
    pub error: Option<String>,
    /// The `"result"` member, when present.
    pub result: Option<serde_json::Value>,
    /// The whole reply.
    pub whole: serde_json::Value,
}

/// What a successful request hands back.
pub enum PluginReply {
    /// The plugin printed no reply line and exited successfully.
    Null,
    /// The reply's `"result"`, or the whole reply when it has none.
    Value(serde_json::Value),
}

/// What serde_json makes of a reply line: its error message when the
/// line is not JSON, else the `"error"` string member (if any) and
/// whether a `"result"` member is present.
pub uninterp spec fn reply_shape(line: Seq<char>) -> Result<(Option<Seq<char>>, bool), Seq<char>>;

/// The value serde_json's reply carries for a line: its `"result"`
/// member, or the whole reply when it has none.
pub uninterp spec fn reply_value(line: Seq<char>) -> serde_json::Value;

/// Parses `line` with `serde_json::from_str::<Value>` and reads its
/// `"error"` member as a string (`Value::get`, `Value::as_str`) and its
/// `"result"` member (`Value::get`); a parse error becomes its display
/// text. The contract claims only that these are serde_json's answers for
/// `line`, a function of the text alone.
#[verifier::external_body]
fn parse_reply(line: &str) -> (r: Result<ReplyFields, String>)
    ensures
        match r {
            Ok(f) => reply_shape(line@) == Ok::<(Option<Seq<char>>, bool), Seq<char>>(
                (opt_view(f.error), f.result is Some),
            ) && reply_value(line@) == match f.result {
                Some(v) => v,
                None => f.whole,
            },
            Err(e) => reply_shape(line@) == Err::<(Option<Seq<char>>, bool), Seq<char>>(e@),
        },
{
    match serde_json::from_str::<serde_json::Value>(line) {
        Ok(v) => Ok(ReplyFields {
            error: v.get("error").and_then(serde_json::Value::as_str).map(String::from),
            result: v.get("result").cloned(),
            whole: v,
        }),
        Err(e) => Err(e.to_string()),
    }
}

/// The JSON text serde_json writes for a string: quoted, with `"`, `\`
/// and control characters escaped.
pub uninterp spec fn json_string(s: Seq<char>) -> Seq<char>;

/// The compact JSON text serde_json writes for a value.
pub uninterp spec fn json_text(v: serde_json::Value) -> Seq<char>;

/// `serde_json::to_string` on a string slice. The contract claims only
/// that the result is serde_json's text for `s`, a function of `s` alone;
/// writing a string to memory does not fail.
#[verifier::external_body]
fn json_string_of(s: &str) -> (r: String)
    ensures
        r@ == json_string(s@),
{
    serde_json::to_string(s).unwrap_or_default()
}

/// `serde_json::to_string` on a JSON value. The contract claims only that
/// the result is serde_json's compact text for `v`, a function of `v`
/// alone; a value, whose object keys are strings, always serialises.
#[verifier::external_body]
fn json_text_of(v: &serde_json::Value) -> (r: String)
    ensures
        r@ == json_text(*v),
{
    serde_json::to_string(v).unwrap_or_default()
}

/// The request line sent to a plugin: the object `{"action": ..,
/// "payload": ..}` (its keys in serde_json's sorted order), then a newline.
pub open spec fn request_line_spec(action: Seq<char>, payload: serde_json::Value) -> Seq<char> {
    "{\"action\":"@ + json_string(action) + ",\"payload\":"@ + json_text(payload) + "}\n"@
}

pub fn request_line(action: &str, payload: &serde_json::Value) -> (r: String)
    ensures
        r@ == request_line_spec(action@, *payload),
{
    let a = json_string_of(action);
    let p = json_text_of(payload);
    let mut b: Vec<char> = Vec::new();
    push_str(&mut b, "{\"action\":");
    push_str(&mut b, a.as_str());
    push_str(&mut b, ",\"payload\":");
    push_str(&mut b, p.as_str());
    push_str(&mut b, "}\n");
    string_of(&b)
}

/// The message for a plugin that printed nothing and failed:
/// `format!("Plugin process exited with code {:?}", code)`.
pub open spec fn exit_message(code: Option<i32>) -> Seq<char> {
    "Plugin process exited with code "@ + match code {
        Some(c) => "Some("@ + int_text(c as int) + ")"@,
        None => "None"@,
    }
}

pub fn exit_failure_message(code: Option<i32>) -> (r: String)
    ensures
        r@ == exit_message(code),
{
    let mut b: Vec<char> = Vec::new();
    push_str(&mut b, "Plugin process exited with code ");
    match code {
        Some(c) => {
            push_str(&mut b, "Some(");
            push_int(&mut b, c as i64);
            push_str(&mut b, ")");
        },
        None => {
            push_str(&mut b, "None");
        },
    }
    proof {
        reveal_strlit("Plugin process exited with code ");
        reveal_strlit("Some(");
        reveal_strlit(")");
        reveal_strlit("None");
    }
    string_of(&b)
}

/// The answer carried by a parsed reply: its `"error"` string as the
/// error, else its `"result"`, else the whole reply.
pub fn reply_outcome(fields: ReplyFields) -> (r: Result<PluginReply, String>)
    ensures
        fields.error matches Some(e) ==> r == Err::<PluginReply, String>(e),
        fields.error is None ==> r == Ok::<PluginReply, String>(
            PluginReply::Value(
                match fields.result {
                    Some(v) => v,
                    None => fields.whole,
                },
            ),
        ),
{
    let ReplyFields { error, result, whole } = fields;
    match error {
        Some(e) => Err(e),
        None => match result {
            Some(v) => Ok(PluginReply::Value(v)),
            None => Ok(PluginReply::Value(whole)),
        },
    }
}

/// What a request returns, given the plugin's first stdout line and how
/// the process exited. A blank line gives `Null` after a successful exit
/// and the exit-code message otherwise; a line that is not JSON gives
/// the parse error; a reply with an `"error"` string gives that string;
/// any other reply gives its `"result"`, or the whole reply.
pub fn plugin_reply(line: &str, exit_ok: bool, exit_code: Option<i32>) -> (r: Result<
    PluginReply,
    String,
>)
    ensures
        trim_spec(line@).len() == 0 && exit_ok ==> r == Ok::<PluginReply, String>(PluginReply::Null),
        trim_spec(line@).len() == 0 && !exit_ok ==> (r matches Err(m) && m@ == exit_message(exit_code)),
        trim_spec(line@).len() > 0 ==> match reply_shape(trim_spec(line@)) {
            Err(e) => r matches Err(m) && m@ == "Failed to parse plugin response: "@ + e,
            Ok((Some(e), _)) => r matches Err(m) && m@ == e,
            Ok((None, _)) => r matches Ok(PluginReply::Value(v)) && v == reply_value(trim_spec(line@)),
        },
{
    let cs = chars_of(line);
    let t = trim_chars(cs.as_slice());
    if t.len() == 0 {
        if exit_ok {
            return Ok(PluginReply::Null);
        }
        return Err(exit_failure_message(exit_code));
    }
    let trimmed = string_of(&t);
    match parse_reply(trimmed.as_str()) {
        Err(e) => {
            let mut b: Vec<char> = Vec::new();
            push_str(&mut b, "Failed to parse plugin response: ");
            push_str(&mut b, e.as_str());
            proof {
                reveal_strlit("Failed to parse plugin response: ");
            }
            Err(string_of(&b))
        },
        Ok(fields) => reply_outcome(fields),
    }
}

} // verus!
