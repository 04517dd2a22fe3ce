//! Recognition tasks driven from the interface: choosing the service,
//! submitting a video, and what one poll of a submitted task records.

use vstd::prelude::*;
use crate::asr::{url_check, validate_asr_url};
use crate::asr_queue::{pow2, provider_view, ProviderChoice};
use crate::manifest::opt_view;
use crate::text::{chars_of, int_text, parse_int, parse_u16_spec, push_int, push_str, str_eq, string_of};
use crate::workspaces::quoted;

verus! {

fn push_quoted(b: &mut Vec<char>, s: &str)
    ensures
        final(b)@ == old(b)@ + quoted(s@),
{
    push_str(b, "'");
    let e = crate::sql::sql_escape(s);
    push_str(b, e.as_str());
    push_str(b, "'");
}

// ---------------------------------------------------------------- service

/// The service from the settings, as the interface chooses it: disabled
/// refuses, remote needs a valid `http(s)` address, anything else is the
/// local service on its configured port (8765 when unset or unreadable).
pub open spec fn command_provider_spec(
    mode: Option<Seq<char>>,
    url: Option<Seq<char>>,
    api_key: Option<Seq<char>>,
    port: Option<Seq<char>>,
) -> Result<(int, Seq<char>, Option<Seq<char>>, u16), Seq<char>> {
    let m = match mode {
        Some(x) => x,
        None => "local"@,
    };
    if m == "disabled"@ {
        Err("ASR 功能已禁用，请在设置中启用"@)
    } else if m == "remote"@ {
        match url {
            Some(u) => match url_check(u) {
                Some(e) => Err(e),
                None => Ok((0, u, api_key, 0)),
            },
            None => Err("请先在设置中配置远程 ASR 地址"@),
        }
    } else {
        let p = match port {
            Some(x) => match parse_u16_spec(x) {
                Some(v) => v as u16,
                None => 8765,
            },
            None => 8765,
        };
        Ok((1, Seq::empty(), None, p))
    }
}

pub fn command_provider(
    mode: &Option<String>,
    url: &Option<String>,
    api_key: &Option<String>,
    port: &Option<String>,
) -> (r: Result<ProviderChoice, String>)
    ensures
        match command_provider_spec(opt_view(*mode), opt_view(*url), opt_view(*api_key), opt_view(*port)) {
            Ok(v) => r matches Ok(p) && provider_view(p) == v,
            Err(m) => r matches Err(e) && e@ == m,
        },
{
    let m: &str = match mode {
        Some(x) => x.as_str(),
        None => "local",
    };
    if str_eq(m, "disabled") {
        return Err("ASR 功能已禁用，请在设置中启用".to_owned());
    }
    if str_eq(m, "remote") {
        return match url {
            Some(u) => {
                match validate_asr_url(u.as_str()) {
                    Err(e) => Err(e),
                    Ok(()) => Ok(
                        ProviderChoice::Remote {
                            url: u.clone(),
                            api_key: crate::storage::copy_opt_string(api_key),
                        },
                    ),
                }
            },
            None => Err("请先在设置中配置远程 ASR 地址".to_owned()),
        };
    }
    let p: u16 = match port {
        Some(x) => {
            let cs = chars_of(x.as_str());
            match parse_int(&cs, false, 0, 0xffff) {
                Some(v) => v as u16,
                None => 8765,
            }
        },
        None => 8765,
    };
    Ok(ProviderChoice::Local { port: p })
}

// ---------------------------------------------------------------- submit

/// The language asked for when not empty, else the configured one, else
/// Chinese.
pub open spec fn asr_language_spec(asked: Option<Seq<char>>, setting: Option<Seq<char>>) -> Seq<char> {
    match asked {
        Some(l) => if l.len() > 0 {
            l
        } else {
            match setting {
                Some(s) => s,
                None => "Chinese"@,
            }
        },
        None => match setting {
            Some(s) => s,
            None => "Chinese"@,
        },
    }
}

pub fn asr_language(asked: &Option<String>, setting: &Option<String>) -> (r: String)
    ensures
        r@ == asr_language_spec(opt_view(*asked), opt_view(*setting)),
{
    match asked {
        Some(l) => {
            if !l.as_str().is_empty() {
                return l.clone();
            }
        },
        None => {},
    }
    match setting {
        Some(s) => s.clone(),
        None => "Chinese".to_owned(),
    }
}

/// A video that has subtitles is recognised again only when forced.
pub fn existing_subtitles_check(count: i64, force: bool) -> (r: Result<(), String>)
    ensures
        (!force && count > 0) ==> (r matches Err(e) && e@ == "该视频已有字幕，使用 force=true 覆盖"@),
        (force || count <= 0) ==> r is Ok,
{
    if !force && count > 0 {
        Err("该视频已有字幕，使用 force=true 覆盖".to_owned())
    } else {
        Ok(())
    }
}

/// A submitted task, running at the service under its remote id.
pub open spec fn asr_task_insert_spec(
    video_id: i64,
    provider_id: Seq<char>,
    remote_task_id: Seq<char>,
    language: Seq<char>,
) -> Seq<char> {
    "INSERT INTO asr_tasks (video_id, status, asr_provider_id, remote_task_id, language, started_at) VALUES ("@
        + int_text(video_id as int) + ", 'processing', '"@ + provider_id + "', "@ + quoted(
        remote_task_id,
    ) + ", '"@ + language + "', datetime('now'))"@
}

pub fn asr_task_insert_sql(video_id: i64, provider_id: &str, remote_task_id: &str, language: &str) -> (r:
    String)
    ensures
        r@ == asr_task_insert_spec(video_id, provider_id@, remote_task_id@, language@),
{
    let mut b: Vec<char> = Vec::new();
    push_str(
        &mut b,
        "INSERT INTO asr_tasks (video_id, status, asr_provider_id, remote_task_id, language, started_at) VALUES (",
    );
    push_int(&mut b, video_id);
    push_str(&mut b, ", 'processing', '");
    push_str(&mut b, provider_id);
    push_str(&mut b, "', ");
    push_quoted(&mut b, remote_task_id);
    push_str(&mut b, ", '");
    push_str(&mut b, language);
    push_str(&mut b, "', datetime('now'))");
    string_of(&b)
}

// ---------------------------------------------------------------- poll

/// Automatic retries of a submitted task.
pub const MAX_AUTO_RETRIES: i32 = 2;

/// A task already completed or failed is not queried again.
pub fn poll_finished(status: &str) -> (r: bool)
    ensures
        r == (status@ == "completed"@ || status@ == "failed"@),
{
    str_eq(status, "completed") || str_eq(status, "failed")
}

/// What the service reported of a task. The progress of a running one is
/// recorded by the caller.
pub enum RemoteStatus {
    Pending,
    Processing,
    Completed,
    RetryableError(String),
    PermanentError(String),
}

/// What one poll records.
pub enum PollStep {
    /// Nothing.
    Unchanged,
    /// The task's progress.
    Progress,
    /// The recognised segments, then completion.
    Import,
    /// The error and the next attempt, which waits `delay_secs`.
    Retry { sql: String, delay_secs: u64 },
    /// The failure.
    Fail { sql: String },
}

pub open spec fn fail_spec(task_id: i64, error: Seq<char>) -> Seq<char> {
    "UPDATE asr_tasks SET status = 'failed', error_message = "@ + quoted(error) + " WHERE id = "@
        + int_text(task_id as int)
}

pub open spec fn retry_spec(task_id: i64, retry_count: i32, error: Seq<char>) -> Seq<char> {
    "UPDATE asr_tasks SET retry_count = "@ + int_text(retry_count + 1) + ", error_message = "@ + quoted(
        error,
    ) + " WHERE id = "@ + int_text(task_id as int)
}

/// `(kind, statement, delay)` of a step.
pub open spec fn poll_step_view(s: PollStep) -> (int, Seq<char>, u64) {
    match s {
        PollStep::Unchanged => (0, Seq::empty(), 0),
        PollStep::Progress => (1, Seq::empty(), 0),
        PollStep::Import => (2, Seq::empty(), 0),
        PollStep::Retry { sql, delay_secs } => (3, sql@, delay_secs),
        PollStep::Fail { sql } => (4, sql@, 0),
    }
}

/// The polling policy: a retryable error is retried while fewer than two
/// retries were made, after 5·2ⁿ seconds; after that, and on a permanent
/// error, the task fails with the service's message.
pub open spec fn poll_step_spec(task_id: i64, retry_count: i32, remote: RemoteStatus) -> (int, Seq<char>, u64) {
    match remote {
        RemoteStatus::Pending => (0, Seq::empty(), 0),
        RemoteStatus::Processing => (1, Seq::empty(), 0),
        RemoteStatus::Completed => (2, Seq::empty(), 0),
        RemoteStatus::RetryableError(e) => if retry_count < MAX_AUTO_RETRIES {
            (3, retry_spec(task_id, retry_count, e@), (5 * pow2(retry_count as nat)) as u64)
        } else {
            (4, fail_spec(task_id, e@), 0)
        },
        RemoteStatus::PermanentError(e) => (4, fail_spec(task_id, e@), 0),
    }
}

fn fail_sql(task_id: i64, error: &str) -> (r: String)
    ensures
        r@ == fail_spec(task_id, error@),
{
    let mut b: Vec<char> = Vec::new();
    push_str(&mut b, "UPDATE asr_tasks SET status = 'failed', error_message = ");
    push_quoted(&mut b, error);
    push_str(&mut b, " WHERE id = ");
    push_int(&mut b, task_id);
    string_of(&b)
}

pub fn poll_step(task_id: i64, retry_count: i32, remote: &RemoteStatus) -> (r: PollStep)
    requires
        remote is RetryableError ==> retry_count >= 0,
    ensures
        poll_step_view(r) == poll_step_spec(task_id, retry_count, *remote),
{
    match remote {
        RemoteStatus::Pending => PollStep::Unchanged,
        RemoteStatus::Processing => PollStep::Progress,
        RemoteStatus::Completed => PollStep::Import,
        RemoteStatus::RetryableError(e) => {
            if retry_count < MAX_AUTO_RETRIES {
                let mut b: Vec<char> = Vec::new();
                push_str(&mut b, "UPDATE asr_tasks SET retry_count = ");
                push_int(&mut b, (retry_count + 1) as i64);
                push_str(&mut b, ", error_message = ");
                push_quoted(&mut b, e.as_str());
                push_str(&mut b, " WHERE id = ");
                push_int(&mut b, task_id);
                let delay: u64 = if retry_count == 0 { 5 } else { 10 };
                assert(pow2(0) == 1);
                assert(pow2(1) == 2);
                PollStep::Retry { sql: string_of(&b), delay_secs: delay }
            } else {
                PollStep::Fail { sql: fail_sql(task_id, e.as_str()) }
            }
        },
        RemoteStatus::PermanentError(e) => PollStep::Fail { sql: fail_sql(task_id, e.as_str()) },
    }
}

pub open spec fn completion_spec(task_id: i64, segment_count: usize, video_id: i64) -> (Seq<char>, Seq<char>) {
    (
        "UPDATE asr_tasks SET status = 'completed', progress = 1.0, segment_count = "@
            + crate::text::digits_of(segment_count as nat) + ", completed_at = datetime('now') WHERE id = "@
            + int_text(task_id as int),
        "UPDATE videos SET has_subtitle = 1 WHERE id = "@ + int_text(video_id as int),
    )
}

/// Once imported: the task completes with its segment count and the video
/// is marked as having subtitles.
pub fn completion_sql(task_id: i64, segment_count: usize, video_id: i64) -> (r: (String, String))
    ensures
        (r.0@, r.1@) == completion_spec(task_id, segment_count, video_id),
{
    let mut a: Vec<char> = Vec::new();
    push_str(&mut a, "UPDATE asr_tasks SET status = 'completed', progress = 1.0, segment_count = ");
    crate::text::push_digits(&mut a, segment_count as u64);
    push_str(&mut a, ", completed_at = datetime('now') WHERE id = ");
    push_int(&mut a, task_id);
    let mut v: Vec<char> = Vec::new();
    push_str(&mut v, "UPDATE videos SET has_subtitle = 1 WHERE id = ");
    push_int(&mut v, video_id);
    (string_of(&a), string_of(&v))
}

// ---------------------------------------------------------------- service replies

/// A reply's `status` field read as a state. A failure is retryable only
/// from the local service and only when its message says so; the remote
/// service's failures are final. An unknown state is an error.
pub open spec fn reported_state_spec(
    status: Option<Seq<char>>,
    error: Option<Seq<char>>,
    local: bool,
) -> Result<(int, Seq<char>), Seq<char>> {
    let s = match status {
        Some(x) => x,
        None => "unknown"@,
    };
    if s == "pending"@ {
        Ok((0, Seq::empty()))
    } else if s == "processing"@ {
        Ok((1, Seq::empty()))
    } else if s == "completed"@ {
        Ok((2, Seq::empty()))
    } else if s == "failed"@ {
        let e = match error {
            Some(x) => x,
            None => "Unknown error"@,
        };
        if local && crate::asr::retryable_spec(e) {
            Ok((3, e))
        } else {
            Ok((4, e))
        }
    } else {
        Err("Unknown ASR status: "@ + s)
    }
}

/// `(kind, message)` of a reported state.
pub open spec fn remote_status_view(r: RemoteStatus) -> (int, Seq<char>) {
    match r {
        RemoteStatus::Pending => (0, Seq::empty()),
        RemoteStatus::Processing => (1, Seq::empty()),
        RemoteStatus::Completed => (2, Seq::empty()),
        RemoteStatus::RetryableError(e) => (3, e@),
        RemoteStatus::PermanentError(e) => (4, e@),
    }
}

pub fn reported_state(status: &Option<String>, error: &Option<String>, local: bool) -> (r: Result<
    RemoteStatus,
    String,
>)
    ensures
        match reported_state_spec(opt_view(*status), opt_view(*error), local) {
            Ok(v) => r matches Ok(x) && remote_status_view(x) == v,
            Err(m) => r matches Err(e) && e@ == m,
        },
{
    let s: &str = match status {
        Some(x) => x.as_str(),
        None => "unknown",
    };
    if str_eq(s, "pending") {
        return Ok(RemoteStatus::Pending);
    }
    if str_eq(s, "processing") {
        return Ok(RemoteStatus::Processing);
    }
    if str_eq(s, "completed") {
        return Ok(RemoteStatus::Completed);
    }
    if str_eq(s, "failed") {
        let e: String = match error {
            Some(x) => x.clone(),
            None => "Unknown error".to_owned(),
        };
        if local && crate::asr::is_retryable_error(e.as_str()) {
            return Ok(RemoteStatus::RetryableError(e));
        }
        return Ok(RemoteStatus::PermanentError(e));
    }
    let mut b: Vec<char> = Vec::new();
    push_str(&mut b, "Unknown ASR status: ");
    push_str(&mut b, s);
    Err(string_of(&b))
}

/// `base.trim_end_matches('/')`.
pub open spec fn trim_slashes(s: Seq<char>) -> Seq<char>
    decreases s.len(),
{
    if s.len() > 0 && s.last() == '/' {
        trim_slashes(s.drop_last())
    } else {
        s
    }
}

/// A service address without trailing slashes.
pub fn service_base(base: &str) -> (r: String)
    ensures
        r@ == trim_slashes(base@),
{
    let cs = chars_of(base);
    let mut n: usize = cs.len();
    assert(cs@.take(cs.len() as int) == cs@);
    while n > 0 && cs[n - 1] == '/'
        invariant
            n <= cs.len(),
            trim_slashes(cs@.take(n as int)) == trim_slashes(cs@),
        decreases n,
    {
        assert(cs@.take(n as int).drop_last() == cs@.take(n - 1));
        n = n - 1;
    }
    let mut out: Vec<char> = Vec::new();
    let mut i: usize = 0;
    while i < n
        invariant
            i <= n <= cs.len(),
            out@ == cs@.take(i as int),
        decreases n - i,
    {
        out.push(cs[i]);
        i = i + 1;
        assert(out@ =~= cs@.take(i as int));
    }
    assert(trim_slashes(cs@.take(n as int)) == cs@.take(n as int));
    string_of(&out)
}

/// The service's endpoints: submission, one task, health.
pub open spec fn endpoints_spec(base: Seq<char>, task_id: Seq<char>) -> (Seq<char>, Seq<char>, Seq<char>) {
    (base + "/v1/asr"@, base + "/v1/tasks/"@ + task_id, base + "/v1/health"@)
}

pub fn endpoints(base: &str, task_id: &str) -> (r: (String, String, String))
    ensures
        (r.0@, r.1@, r.2@) == endpoints_spec(base@, task_id@),
{
    let mut a: Vec<char> = Vec::new();
    push_str(&mut a, base);
    push_str(&mut a, "/v1/asr");
    let mut t: Vec<char> = Vec::new();
    push_str(&mut t, base);
    push_str(&mut t, "/v1/tasks/");
    push_str(&mut t, task_id);
    let mut h: Vec<char> = Vec::new();
    push_str(&mut h, base);
    push_str(&mut h, "/v1/health");
    (string_of(&a), string_of(&t), string_of(&h))
}

/// The remote service's `Authorization` value for a key.
pub fn bearer(api_key: &str) -> (r: String)
    ensures
        r@ == "Bearer "@ + api_key@,
{
    let mut b: Vec<char> = Vec::new();
    push_str(&mut b, "Bearer ");
    push_str(&mut b, api_key);
    string_of(&b)
}


/// The temporary WAV file the audio of a video is converted into, named
/// by the time of the conversion in milliseconds.
pub fn asr_wav_name(millis: u128) -> (r: String)
    ensures
        r@ == "clipper_asr_"@ + crate::text::digits_of(millis as nat) + ".wav"@,
{
    let mut b: Vec<char> = Vec::new();
    push_str(&mut b, "clipper_asr_");
    crate::text::push_digits_wide(&mut b, millis);
    push_str(&mut b, ".wav");
    string_of(&b)
}

pub open spec fn asr_wav_args_spec(input: Seq<char>, wav_path: Seq<char>) -> Seq<Seq<char>> {
    seq!["-i"@, input, "-ar"@, "16000"@, "-ac"@, "1"@, "-c:a"@, "pcm_s16le"@, "-y"@, wav_path]
}

/// The FFmpeg arguments that turn a video's audio into the 16 kHz mono
/// 16-bit WAV the recognition service takes.
pub fn asr_wav_args(input: &str, wav_path: &str) -> (r: Vec<String>)
    ensures
        crate::config::strs(r@) == asr_wav_args_spec(input@, wav_path@),
{
    let mut r: Vec<String> = Vec::new();
    r.push("-i".to_owned());
    r.push(input.to_owned());
    r.push("-ar".to_owned());
    r.push("16000".to_owned());
    r.push("-ac".to_owned());
    r.push("1".to_owned());
    r.push("-c:a".to_owned());
    r.push("pcm_s16le".to_owned());
    r.push("-y".to_owned());
    r.push(wav_path.to_owned());
    assert(crate::config::strs(r@) == asr_wav_args_spec(input@, wav_path@));
    r
}

} // verus!
