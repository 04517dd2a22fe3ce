//! The life of clip tasks in the store: recording them, their states,
//! retrying, listing and deleting them, and the outputs they leave.

use vstd::prelude::*;
use crate::clipper::BurnOptions;
use crate::clips::{
    batch_clip_name, build_batch_clip_filename, build_clip_name, clip_name_spec, sanitize_filename,
    sanitized, CreateClipRequest, DeleteBatchResult,
};
use crate::config::strs;
use crate::manifest::opt_view;
use crate::text::{int_text, push_int, push_str, str_eq, string_of};
use crate::workspaces::quoted;

verus! {

fn push_quoted(b: &mut Vec<char>, s: &str)
    ensures
        final(b)@ == old(b)@ + quoted(s@),
{
    push_str(b, "'");
    let e = crate::sql::sql_escape(s);
    push_str(b, e.as_str());
    push_str(b, "'");
}

fn with_id(prefix: &str, id: i64) -> (r: String)
    ensures
        r@ == prefix@ + int_text(id as int),
{
    let mut b: Vec<char> = Vec::new();
    push_str(&mut b, prefix);
    push_int(&mut b, id);
    string_of(&b)
}

pub open spec fn flag(b: bool) -> Seq<char> {
    if b { "1"@ } else { "0"@ }
}

fn push_flag(b: &mut Vec<char>, v: bool)
    ensures
        final(b)@ == old(b)@ + flag(v),
{
    if v {
        push_str(b, "1");
    } else {
        push_str(b, "0");
    }
}

pub open spec fn opt_quoted(o: Option<Seq<char>>) -> Seq<char> {
    match o {
        Some(s) => quoted(s),
        None => "NULL"@,
    }
}

fn push_opt_quoted(b: &mut Vec<char>, o: &Option<String>)
    ensures
        final(b)@ == old(b)@ + opt_quoted(opt_view(*o)),
{
    match o {
        Some(s) => push_quoted(b, s.as_str()),
        None => push_str(b, "NULL"),
    }
}

// ---------------------------------------------------------------- create

/// The pending task of a clip request. Its title is the name the user gave
/// (empty when none), not the output file's name.
pub open spec fn clip_task_insert_spec(req: CreateClipRequest) -> Seq<char> {
    "INSERT INTO clip_tasks (video_id, start_time_ms, end_time_ms, title, preset_id, status, batch_id, batch_title, include_danmaku, include_subtitle, export_subtitle, export_danmaku) VALUES ("@
        + int_text(req.video_id as int) + ", "@ + int_text(req.start_ms as int) + ", "@ + int_text(
        req.end_ms as int,
    ) + ", "@ + quoted(
        match opt_view(req.title) {
            Some(t) => t,
            None => Seq::empty(),
        },
    ) + ", "@ + (match req.preset_id {
        Some(p) => int_text(p as int),
        None => "NULL"@,
    }) + ", 'pending', "@ + opt_quoted(opt_view(req.batch_id)) + ", "@ + opt_quoted(
        opt_view(req.batch_title),
    ) + ", "@ + flag(req.include_danmaku) + ", "@ + flag(req.include_subtitle) + ", "@ + flag(
        req.export_subtitle,
    ) + ", "@ + flag(req.export_danmaku) + ")"@
}

pub fn clip_task_insert_sql(req: &CreateClipRequest) -> (r: String)
    ensures
        r@ == clip_task_insert_spec(*req),
{
    let mut b: Vec<char> = Vec::new();
    push_str(
        &mut b,
        "INSERT INTO clip_tasks (video_id, start_time_ms, end_time_ms, title, preset_id, status, batch_id, batch_title, include_danmaku, include_subtitle, export_subtitle, export_danmaku) VALUES (",
    );
    push_int(&mut b, req.video_id);
    push_str(&mut b, ", ");
    push_int(&mut b, req.start_ms);
    push_str(&mut b, ", ");
    push_int(&mut b, req.end_ms);
    push_str(&mut b, ", ");
    match &req.title {
        Some(t) => push_quoted(&mut b, t.as_str()),
        None => {
            proof {
                reveal_strlit("");
            }
            push_quoted(&mut b, "");
        },
    }
    push_str(&mut b, ", ");
    match req.preset_id {
        Some(p) => push_int(&mut b, p),
        None => push_str(&mut b, "NULL"),
    }
    push_str(&mut b, ", 'pending', ");
    push_opt_quoted(&mut b, &req.batch_id);
    push_str(&mut b, ", ");
    push_opt_quoted(&mut b, &req.batch_title);
    push_str(&mut b, ", ");
    push_flag(&mut b, req.include_danmaku);
    push_str(&mut b, ", ");
    push_flag(&mut b, req.include_subtitle);
    push_str(&mut b, ", ");
    push_flag(&mut b, req.export_subtitle);
    push_str(&mut b, ", ");
    push_flag(&mut b, req.export_danmaku);
    push_str(&mut b, ")");
    string_of(&b)
}

// ---------------------------------------------------------------- status

/// A task's new state; an error is recorded with it, and a completed task
/// gets its completion time.
pub open spec fn task_status_spec(task_id: i64, status: Seq<char>, error: Option<Seq<char>>) -> Seq<
    char,
> {
    "UPDATE clip_tasks SET status = '"@ + status + "'"@ + (match error {
        Some(e) => ", error_message = "@ + quoted(e),
        None => Seq::empty(),
    }) + (if status == "completed"@ {
        ", completed_at = datetime('now')"@
    } else {
        Seq::empty()
    }) + " WHERE id = "@ + int_text(task_id as int)
}

pub fn task_status_sql(task_id: i64, status: &str, error: &Option<String>) -> (r: String)
    ensures
        r@ == task_status_spec(task_id, status@, opt_view(*error)),
{
    let mut b: Vec<char> = Vec::new();
    push_str(&mut b, "UPDATE clip_tasks SET status = '");
    push_str(&mut b, status);
    push_str(&mut b, "'");
    let ghost s1 = b@;
    match error {
        Some(e) => {
            push_str(&mut b, ", error_message = ");
            push_quoted(&mut b, e.as_str());
        },
        None => {},
    }
    assert(b@ == s1 + match opt_view(*error) {
        Some(e) => ", error_message = "@ + quoted(e),
        None => Seq::empty(),
    });
    let ghost s2 = b@;
    if str_eq(status, "completed") {
        push_str(&mut b, ", completed_at = datetime('now')");
    }
    assert(b@ == s2 + (if status@ == "completed"@ {
        ", completed_at = datetime('now')"@
    } else {
        Seq::empty()
    }));
    push_str(&mut b, " WHERE id = ");
    push_int(&mut b, task_id);
    string_of(&b)
}

// ---------------------------------------------------------------- retry

/// A running task cannot be retried.
pub fn retry_check(status: &str) -> (r: Result<(), String>)
    ensures
        (status@ == "pending"@ || status@ == "processing"@) ==> (r matches Err(e) && e@
            == "任务正在执行中，无法重试"@),
        !(status@ == "pending"@ || status@ == "processing"@) ==> r is Ok,
{
    if str_eq(status, "pending") || str_eq(status, "processing") {
        Err("任务正在执行中，无法重试".to_owned())
    } else {
        Ok(())
    }
}

/// What a retry reads of the task, with its first output.
pub open spec fn retry_task_spec(task_id: i64) -> Seq<char> {
    "SELECT t.video_id, t.start_time_ms, t.end_time_ms, t.title, t.preset_id, t.status, t.batch_id, t.batch_title, t.include_danmaku, t.include_subtitle, t.export_subtitle, t.export_danmaku, (SELECT output_path FROM clip_outputs WHERE clip_task_id = t.id LIMIT 1) AS output_path FROM clip_tasks t WHERE t.id = "@
        + int_text(task_id as int)
}

pub fn retry_task_sql(task_id: i64) -> (r: String)
    ensures
        r@ == retry_task_spec(task_id),
{
    with_id(
        "SELECT t.video_id, t.start_time_ms, t.end_time_ms, t.title, t.preset_id, t.status, t.batch_id, t.batch_title, t.include_danmaku, t.include_subtitle, t.export_subtitle, t.export_danmaku, (SELECT output_path FROM clip_outputs WHERE clip_task_id = t.id LIMIT 1) AS output_path FROM clip_tasks t WHERE t.id = ",
        task_id,
    )
}

/// What a clip reads of its video: path, names, times and clip directory.
pub open spec fn clip_video_spec(video_id: i64) -> Seq<char> {
    "SELECT v.file_path, v.file_name, v.stream_title, v.recorded_at, st.name as streamer_name, w.clip_output_dir as ws_clip_output_dir FROM videos v LEFT JOIN streamers st ON v.streamer_id = st.id LEFT JOIN workspaces w ON v.workspace_id = w.id WHERE v.id = "@
        + int_text(video_id as int)
}

pub fn clip_video_sql(video_id: i64) -> (r: String)
    ensures
        r@ == clip_video_spec(video_id),
{
    with_id(
        "SELECT v.file_path, v.file_name, v.stream_title, v.recorded_at, st.name as streamer_name, w.clip_output_dir as ws_clip_output_dir FROM videos v LEFT JOIN streamers st ON v.streamer_id = st.id LEFT JOIN workspaces w ON v.workspace_id = w.id WHERE v.id = ",
        video_id,
    )
}

/// An empty stored title counts as none.
pub open spec fn nonempty(o: Option<Seq<char>>) -> Option<Seq<char>> {
    match o {
        Some(t) => if t.len() > 0 { Some(t) } else { None },
        None => None,
    }
}

/// The name a retried task writes when it has no output yet: as when it
/// was created, an `mp4`.
pub open spec fn retry_file_name_spec(
    title: Option<Seq<char>>,
    in_batch: bool,
    streamer: Option<Seq<char>>,
    stream_title: Option<Seq<char>>,
    recorded_at: Option<Seq<char>>,
    start_ms: i64,
    end_ms: i64,
    video_name: Seq<char>,
) -> Seq<char> {
    let t = nonempty(title);
    let name = if in_batch {
        batch_clip_name(t, recorded_at, start_ms as int, end_ms as int)
    } else {
        clip_name_spec(streamer, stream_title, t, recorded_at, start_ms as int, end_ms as int, video_name)
    };
    sanitized(name) + ".mp4"@
}

pub fn retry_file_name(
    title: &Option<String>,
    in_batch: bool,
    streamer: &Option<String>,
    stream_title: &Option<String>,
    recorded_at: &Option<String>,
    start_ms: i64,
    end_ms: i64,
    video_name: &str,
) -> (r: String)
    ensures
        r@ == retry_file_name_spec(
            opt_view(*title),
            in_batch,
            opt_view(*streamer),
            opt_view(*stream_title),
            opt_view(*recorded_at),
            start_ms,
            end_ms,
            video_name@,
        ),
{
    let t: Option<String> = match title {
        Some(x) => if x.as_str().is_empty() { None } else { Some(x.clone()) },
        None => None,
    };
    assert(opt_view(t) == nonempty(opt_view(*title)));
    let name = if in_batch {
        build_batch_clip_filename(&t, recorded_at, start_ms, end_ms)
    } else {
        build_clip_name(streamer, stream_title, &t, recorded_at, start_ms, end_ms, video_name)
    };
    let safe = sanitize_filename(name.as_str());
    let mut b: Vec<char> = Vec::new();
    push_str(&mut b, safe.as_str());
    push_str(&mut b, ".mp4");
    string_of(&b)
}

/// A retry puts a finished task back to pending, only if it is still
/// finished.
pub open spec fn retry_reset_spec(task_id: i64) -> Seq<char> {
    "UPDATE clip_tasks SET status = 'pending', progress = 0, error_message = NULL, completed_at = NULL WHERE id = "@
        + int_text(task_id as int) + " AND status IN ('failed', 'cancelled', 'completed')"@
}

pub fn retry_reset_sql(task_id: i64) -> (r: String)
    ensures
        r@ == retry_reset_spec(task_id),
{
    let mut b: Vec<char> = Vec::new();
    push_str(
        &mut b,
        "UPDATE clip_tasks SET status = 'pending', progress = 0, error_message = NULL, completed_at = NULL WHERE id = ",
    );
    push_int(&mut b, task_id);
    push_str(&mut b, " AND status IN ('failed', 'cancelled', 'completed')");
    string_of(&b)
}

/// No row reset means the task started meanwhile.
pub fn retry_reset_outcome(rows_affected: u64) -> (r: Result<(), String>)
    ensures
        rows_affected == 0 ==> (r matches Err(e) && e@ == "任务状态已变更，无法重试（可能正在执行中）"@),
        rows_affected > 0 ==> r is Ok,
{
    if rows_affected == 0 {
        Err("任务状态已变更，无法重试（可能正在执行中）".to_owned())
    } else {
        Ok(())
    }
}

pub fn clear_outputs_sql(task_id: i64) -> (r: String)
    ensures
        r@ == "DELETE FROM clip_outputs WHERE clip_task_id = "@ + int_text(task_id as int),
{
    with_id("DELETE FROM clip_outputs WHERE clip_task_id = ", task_id)
}

/// The record of a finished clip's file, with what was burnt into it.
pub open spec fn clip_output_insert_spec(
    task_id: i64,
    video_id: i64,
    output_path: Seq<char>,
    format: Seq<char>,
    file_size: i64,
    burned_danmaku: bool,
    burned_subtitle: bool,
) -> Seq<char> {
    "INSERT INTO clip_outputs (clip_task_id, video_id, output_path, format, variant, file_size, include_danmaku, include_subtitle) VALUES ("@
        + int_text(task_id as int) + ", "@ + int_text(video_id as int) + ", "@ + quoted(output_path)
        + ", '"@ + format + "', 'original', "@ + int_text(file_size as int) + ", "@ + flag(
        burned_danmaku,
    ) + ", "@ + flag(burned_subtitle) + ")"@
}

pub fn clip_output_insert_sql(
    task_id: i64,
    video_id: i64,
    output_path: &str,
    format: &str,
    file_size: i64,
    burned_danmaku: bool,
    burned_subtitle: bool,
) -> (r: String)
    ensures
        r@ == clip_output_insert_spec(
            task_id,
            video_id,
            output_path@,
            format@,
            file_size,
            burned_danmaku,
            burned_subtitle,
        ),
{
    let mut b: Vec<char> = Vec::new();
    push_str(
        &mut b,
        "INSERT INTO clip_outputs (clip_task_id, video_id, output_path, format, variant, file_size, include_danmaku, include_subtitle) VALUES (",
    );
    push_int(&mut b, task_id);
    push_str(&mut b, ", ");
    push_int(&mut b, video_id);
    push_str(&mut b, ", ");
    push_quoted(&mut b, output_path);
    push_str(&mut b, ", '");
    push_str(&mut b, format);
    push_str(&mut b, "', 'original', ");
    push_int(&mut b, file_size);
    push_str(&mut b, ", ");
    push_flag(&mut b, burned_danmaku);
    push_str(&mut b, ", ");
    push_flag(&mut b, burned_subtitle);
    push_str(&mut b, ")");
    string_of(&b)
}

/// An overlay was burnt when it was asked for and its file was made.
pub fn burned_overlays(burn: &BurnOptions) -> (r: (bool, bool))
    ensures
        r.0 == (burn.burn_danmaku && burn.danmaku_ass_path.is_some()),
        r.1 == (burn.burn_subtitle && burn.subtitle_ass_path.is_some()),
{
    (
        burn.burn_danmaku && burn.danmaku_ass_path.is_some(),
        burn.burn_subtitle && burn.subtitle_ass_path.is_some(),
    )
}

/// The overlays prepared for a clip: each one asked for, with the file
/// made for it, burnt with the automatic encoder at quality 23.
pub fn prepared_burn_options(
    include_danmaku: bool,
    include_subtitle: bool,
    danmaku_ass_path: Option<String>,
    subtitle_ass_path: Option<String>,
) -> (r: BurnOptions)
    ensures
        r.burn_danmaku == include_danmaku,
        r.burn_subtitle == include_subtitle,
        opt_view(r.danmaku_ass_path) == opt_view(danmaku_ass_path),
        opt_view(r.subtitle_ass_path) == opt_view(subtitle_ass_path),
        r.burn_codec@ == "auto"@,
        r.burn_crf == Some(23u32),
{
    BurnOptions {
        burn_danmaku: include_danmaku,
        burn_subtitle: include_subtitle,
        danmaku_ass_path,
        subtitle_ass_path,
        burn_codec: "auto".to_owned(),
        burn_crf: Some(23),
    }
}

/// The side files exported beside a clip: `{stem}.srt` and `{stem}.xml`.
pub fn sidecar_paths(output_stem: &str) -> (r: (String, String))
    ensures
        r.0@ == output_stem@ + ".srt"@,
        r.1@ == output_stem@ + ".xml"@,
{
    let mut a: Vec<char> = Vec::new();
    push_str(&mut a, output_stem);
    push_str(&mut a, ".srt");
    let mut x: Vec<char> = Vec::new();
    push_str(&mut x, output_stem);
    push_str(&mut x, ".xml");
    (string_of(&a), string_of(&x))
}

// ---------------------------------------------------------------- batch retry

/// Tasks of a batch still running, and the finished ones oldest first.
pub open spec fn batch_retry_queries_spec(batch_id: Seq<char>) -> (Seq<char>, Seq<char>) {
    (
        "SELECT COUNT(*) AS cnt FROM clip_tasks WHERE batch_id = "@ + quoted(batch_id)
            + " AND status IN ('pending', 'processing')"@,
        "SELECT id FROM clip_tasks WHERE batch_id = "@ + quoted(batch_id)
            + " AND status IN ('failed', 'cancelled', 'completed') ORDER BY id ASC"@,
    )
}

pub fn batch_retry_queries(batch_id: &str) -> (r: (String, String))
    ensures
        (r.0@, r.1@) == batch_retry_queries_spec(batch_id@),
{
    let mut a: Vec<char> = Vec::new();
    push_str(&mut a, "SELECT COUNT(*) AS cnt FROM clip_tasks WHERE batch_id = ");
    push_quoted(&mut a, batch_id);
    push_str(&mut a, " AND status IN ('pending', 'processing')");
    let mut q: Vec<char> = Vec::new();
    push_str(&mut q, "SELECT id FROM clip_tasks WHERE batch_id = ");
    push_quoted(&mut q, batch_id);
    push_str(&mut q, " AND status IN ('failed', 'cancelled', 'completed') ORDER BY id ASC");
    (string_of(&a), string_of(&q))
}

/// A batch is retried only when none of it runs and some of it finished.
pub fn batch_retry_check(active: i64, finished: usize) -> (r: Result<(), String>)
    ensures
        active > 0 ==> (r matches Err(e) && e@ == "批次中有任务正在执行，请等待完成后再重试"@),
        (active <= 0 && finished == 0) ==> (r matches Err(e) && e@ == "批次中没有可重试的任务"@),
        (active <= 0 && finished > 0) ==> r is Ok,
{
    if active > 0 {
        return Err("批次中有任务正在执行，请等待完成后再重试".to_owned());
    }
    if finished == 0 {
        return Err("批次中没有可重试的任务".to_owned());
    }
    Ok(())
}

/// The result of a batch retry: how many tasks restarted, or, when none
/// did, the last error.
pub fn batch_retry_outcome(success: usize, last_err: Option<String>) -> (r: Result<usize, String>)
    ensures
        success > 0 ==> r == Ok::<usize, String>(success),
        success == 0 ==> (r matches Err(e) && e@ == match opt_view(last_err) {
            Some(m) => m,
            None => "批次重试失败"@,
        }),
{
    if success == 0 {
        return Err(
            match last_err {
                Some(e) => e,
                None => "批次重试失败".to_owned(),
            },
        );
    }
    Ok(success)
}

// ---------------------------------------------------------------- listing

/// `s` without its single quotes.
pub open spec fn unquoted(s: Seq<char>) -> Seq<char> {
    s.filter(|c: char| c != '\'')
}

fn strip_quotes(s: &str) -> (r: String)
    ensures
        r@ == unquoted(s@),
{
    let cs = crate::text::chars_of(s);
    let mut out: Vec<char> = Vec::new();
    let mut i: usize = 0;
    while i < cs.len()
        invariant
            i <= cs.len(),
            out@ == cs@.take(i as int).filter(|c: char| c != '\''),
        decreases cs.len() - i,
    {
        assert(cs@.take(i + 1) == cs@.take(i as int).push(cs@[i as int]));
        proof {
            cs@.take(i as int).lemma_filter_push(cs@[i as int], |c: char| c != '\'');
        }
        if cs[i] != '\'' {
            out.push(cs[i]);
        }
        i = i + 1;
    }
    assert(cs@.take(cs.len() as int) == cs@);
    string_of(&out)
}

/// The conditions of the clip task list: video, workspace, and a range of
/// creation days (quotes dropped from the dates).
pub open spec fn clip_task_conditions(
    video_id: Option<i64>,
    workspace_id: Option<i64>,
    date_from: Option<Seq<char>>,
    date_to: Option<Seq<char>>,
) -> Seq<Seq<char>> {
    let c1: Seq<Seq<char>> = match video_id {
        Some(v) => seq!["t.video_id = "@ + int_text(v as int)],
        None => Seq::empty(),
    };
    let c2 = match workspace_id {
        Some(w) => c1.push("v.workspace_id = "@ + int_text(w as int)),
        None => c1,
    };
    let c3 = match date_from {
        Some(d) => c2.push("t.created_at >= '"@ + unquoted(d) + " 00:00:00'"@),
        None => c2,
    };
    match date_to {
        Some(d) => c3.push("t.created_at <= '"@ + unquoted(d) + " 23:59:59'"@),
        None => c3,
    }
}

pub open spec fn list_clip_tasks_spec(
    video_id: Option<i64>,
    workspace_id: Option<i64>,
    date_from: Option<Seq<char>>,
    date_to: Option<Seq<char>>,
) -> Seq<char> {
    "SELECT t.*, co.output_path FROM clip_tasks t LEFT JOIN clip_outputs co ON co.clip_task_id = t.id LEFT JOIN videos v ON t.video_id = v.id "@
        + crate::catalog::where_spec(clip_task_conditions(video_id, workspace_id, date_from, date_to))
        + " ORDER BY t.created_at DESC"@
}

fn date_cond(head: &str, d: &str, tail: &str) -> (r: String)
    ensures
        r@ == head@ + unquoted(d@) + tail@,
{
    let s = strip_quotes(d);
    let mut b: Vec<char> = Vec::new();
    push_str(&mut b, head);
    push_str(&mut b, s.as_str());
    push_str(&mut b, tail);
    string_of(&b)
}

pub fn list_clip_tasks_sql(
    video_id: Option<i64>,
    workspace_id: Option<i64>,
    date_from: &Option<String>,
    date_to: &Option<String>,
) -> (r: String)
    ensures
        r@ == list_clip_tasks_spec(video_id, workspace_id, opt_view(*date_from), opt_view(*date_to)),
{
    let mut conds: Vec<String> = Vec::new();
    match video_id {
        Some(v) => conds.push(with_id("t.video_id = ", v)),
        None => {},
    }
    let ghost c1 = strs(conds@);
    match workspace_id {
        Some(w) => conds.push(with_id("v.workspace_id = ", w)),
        None => {},
    }
    let ghost c2 = strs(conds@);
    assert(c2 =~= match workspace_id {
        Some(w) => c1.push("v.workspace_id = "@ + int_text(w as int)),
        None => c1,
    });
    match date_from {
        Some(d) => conds.push(date_cond("t.created_at >= '", d.as_str(), " 00:00:00'")),
        None => {},
    }
    let ghost c3 = strs(conds@);
    assert(c3 =~= match opt_view(*date_from) {
        Some(d) => c2.push("t.created_at >= '"@ + unquoted(d) + " 00:00:00'"@),
        None => c2,
    });
    match date_to {
        Some(d) => conds.push(date_cond("t.created_at <= '", d.as_str(), " 23:59:59'")),
        None => {},
    }
    assert(strs(conds@) =~= clip_task_conditions(
        video_id,
        workspace_id,
        opt_view(*date_from),
        opt_view(*date_to),
    ));
    let w = crate::catalog::where_clause(&conds);
    let mut b: Vec<char> = Vec::new();
    push_str(
        &mut b,
        "SELECT t.*, co.output_path FROM clip_tasks t LEFT JOIN clip_outputs co ON co.clip_task_id = t.id LEFT JOIN videos v ON t.video_id = v.id ",
    );
    push_str(&mut b, w.as_str());
    push_str(&mut b, " ORDER BY t.created_at DESC");
    string_of(&b)
}

// ---------------------------------------------------------------- deleting

/// Deleting one finished task: its outputs (listed first when their files
/// go too), then the task.
pub open spec fn delete_task_spec(task_id: i64) -> (Seq<char>, Seq<Seq<char>>) {
    (
        "SELECT output_path FROM clip_outputs WHERE clip_task_id = "@ + int_text(task_id as int),
        seq![
            "DELETE FROM clip_outputs WHERE clip_task_id = "@ + int_text(task_id as int),
            "DELETE FROM clip_tasks WHERE id = "@ + int_text(task_id as int),
        ],
    )
}

pub fn delete_task_sql(task_id: i64) -> (r: (String, Vec<String>))
    ensures
        (r.0@, strs(r.1@)) == delete_task_spec(task_id),
{
    let q = with_id("SELECT output_path FROM clip_outputs WHERE clip_task_id = ", task_id);
    let mut v: Vec<String> = Vec::new();
    v.push(with_id("DELETE FROM clip_outputs WHERE clip_task_id = ", task_id));
    v.push(with_id("DELETE FROM clip_tasks WHERE id = ", task_id));
    assert(strs(v@) =~= delete_task_spec(task_id).1);
    (q, v)
}

/// The finished tasks of a batch.
pub open spec fn batch_done_spec(batch_id: Seq<char>) -> Seq<char> {
    "SELECT id FROM clip_tasks WHERE batch_id = "@ + quoted(batch_id)
        + " AND status NOT IN ('pending','processing')"@
}

/// Deleting a batch: its running tasks are counted and kept; the finished
/// ones lose their outputs (listed first when their files go too), then go.
pub open spec fn delete_batch_spec(batch_id: Seq<char>) -> (Seq<char>, Seq<char>, Seq<char>, Seq<char>) {
    (
        "SELECT SUM(CASE WHEN status IN ('pending','processing') THEN 1 ELSE 0 END) as active FROM clip_tasks WHERE batch_id = "@
            + quoted(batch_id),
        "SELECT output_path FROM clip_outputs WHERE clip_task_id IN ("@ + batch_done_spec(batch_id)
            + ")"@,
        "DELETE FROM clip_outputs WHERE clip_task_id IN ("@ + batch_done_spec(batch_id) + ")"@,
        "DELETE FROM clip_tasks WHERE batch_id = "@ + quoted(batch_id)
            + " AND status NOT IN ('pending','processing')"@,
    )
}

pub fn delete_batch_sql(batch_id: &str) -> (r: (String, String, String, String))
    ensures
        (r.0@, r.1@, r.2@, r.3@) == delete_batch_spec(batch_id@),
{
    let mut done: Vec<char> = Vec::new();
    push_str(&mut done, "SELECT id FROM clip_tasks WHERE batch_id = ");
    push_quoted(&mut done, batch_id);
    push_str(&mut done, " AND status NOT IN ('pending','processing')");
    let d = string_of(&done);
    let mut a: Vec<char> = Vec::new();
    push_str(
        &mut a,
        "SELECT SUM(CASE WHEN status IN ('pending','processing') THEN 1 ELSE 0 END) as active FROM clip_tasks WHERE batch_id = ",
    );
    push_quoted(&mut a, batch_id);
    let mut o: Vec<char> = Vec::new();
    push_str(&mut o, "SELECT output_path FROM clip_outputs WHERE clip_task_id IN (");
    push_str(&mut o, d.as_str());
    push_str(&mut o, ")");
    let mut x: Vec<char> = Vec::new();
    push_str(&mut x, "DELETE FROM clip_outputs WHERE clip_task_id IN (");
    push_str(&mut x, d.as_str());
    push_str(&mut x, ")");
    let mut t: Vec<char> = Vec::new();
    push_str(&mut t, "DELETE FROM clip_tasks WHERE batch_id = ");
    push_quoted(&mut t, batch_id);
    push_str(&mut t, " AND status NOT IN ('pending','processing')");
    (string_of(&a), string_of(&o), string_of(&x), string_of(&t))
}

/// What deleting a batch reports: the tasks removed and the running ones
/// left.
pub fn delete_batch_result(deleted: u64, active: i64) -> (r: DeleteBatchResult)
    ensures
        r.deleted == deleted,
        r.skipped == active as u64,
{
    DeleteBatchResult { deleted, skipped: active as u64 }
}


/// The outputs of the finished clip tasks, the statement deleting those
/// outputs' records, and the one deleting the tasks.
pub fn clear_finished_clip_sql() -> (r: (String, String, String))
    ensures
        r.0@ == "SELECT output_path FROM clip_outputs WHERE clip_task_id IN (SELECT id FROM clip_tasks WHERE status NOT IN ('pending','processing'))"@,
        r.1@ == "DELETE FROM clip_outputs WHERE clip_task_id IN (SELECT id FROM clip_tasks WHERE status NOT IN ('pending','processing'))"@,
        r.2@ == "DELETE FROM clip_tasks WHERE status NOT IN ('pending','processing')"@,
{
    (
        "SELECT output_path FROM clip_outputs WHERE clip_task_id IN (SELECT id FROM clip_tasks WHERE status NOT IN ('pending','processing'))".to_owned(),
        "DELETE FROM clip_outputs WHERE clip_task_id IN (SELECT id FROM clip_tasks WHERE status NOT IN ('pending','processing'))".to_owned(),
        "DELETE FROM clip_tasks WHERE status NOT IN ('pending','processing')".to_owned(),
    )
}

} // verus!
