//! Transcoding and merging whole videos: the requests, the names of what
//! they write and the task records they leave.

use vstd::prelude::*;
use crate::clips::{first_segment, first_segment_chars};
use crate::manifest::opt_view;
use crate::text::{
    int_text, join_with, push_all, push_int, push_str, replace_all, replace_spec, str_eq,
    string_of,
};
use crate::workspaces::quoted;

verus! {

/// Transcoding one video with an encoding preset.
pub struct TranscodeRequest {
    pub video_id: i64,
    pub preset_id: i64,
    pub output_dir: Option<String>,
}

/// Merging videos, in the order given, by stream copy (`virtual`) or by
/// re-encoding (`physical`).
pub struct MergeRequest {
    pub video_ids: Vec<i64>,
    pub mode: String,
    pub preset_id: Option<i64>,
    pub output_dir: Option<String>,
}

fn push_quoted(b: &mut Vec<char>, s: &str)
    ensures
        final(b)@ == old(b)@ + quoted(s@),
{
    push_str(b, "'");
    let e = crate::sql::sql_escape(s);
    push_str(b, e.as_str());
    push_str(b, "'");
}

/// The directory written to: the one asked for, else the workspace's clip
/// directory (merges only), else the source's directory.
pub open spec fn output_dir_spec(
    asked: Option<Seq<char>>,
    workspace_dir: Option<Seq<char>>,
    source_dir: Seq<char>,
) -> Seq<char> {
    match asked {
        Some(d) => d,
        None => match workspace_dir {
            Some(w) => w,
            None => source_dir,
        },
    }
}

pub fn output_dir(asked: &Option<String>, workspace_dir: &Option<String>, source_dir: &str) -> (r:
    String)
    ensures
        r@ == output_dir_spec(opt_view(*asked), opt_view(*workspace_dir), source_dir@),
{
    match asked {
        Some(d) => d.clone(),
        None => match workspace_dir {
            Some(w) => w.clone(),
            None => source_dir.to_owned(),
        },
    }
}

/// `{name up to its first dot}_transcoded.{ext}`, `m4a` for audio-only
/// presets.
pub open spec fn transcoded_name_spec(file_name: Seq<char>, audio_only: Option<bool>) -> Seq<char> {
    first_segment(file_name) + "_transcoded."@ + (if audio_only == Some(true) {
        "m4a"@
    } else {
        "mp4"@
    })
}

pub fn transcoded_name(file_name: &str, audio_only: Option<bool>) -> (r: String)
    ensures
        r@ == transcoded_name_spec(file_name@, audio_only),
{
    let stem = first_segment_chars(file_name);
    let mut b: Vec<char> = Vec::new();
    push_all(&mut b, &stem);
    push_str(&mut b, "_transcoded.");
    match audio_only {
        Some(true) => push_str(&mut b, "m4a"),
        _ => push_str(&mut b, "mp4"),
    }
    string_of(&b)
}

/// `{first name up to its first dot}_merged.mp4`.
pub open spec fn merged_name_spec(first_name: Seq<char>) -> Seq<char> {
    first_segment(first_name) + "_merged.mp4"@
}

pub fn merged_name(first_name: &str) -> (r: String)
    ensures
        r@ == merged_name_spec(first_name@),
{
    let stem = first_segment_chars(first_name);
    let mut b: Vec<char> = Vec::new();
    push_all(&mut b, &stem);
    push_str(&mut b, "_merged.mp4");
    string_of(&b)
}

pub open spec fn transcode_source_spec(video_id: i64) -> Seq<char> {
    "SELECT file_path, file_name, duration_ms FROM videos WHERE id = "@ + int_text(video_id as int)
}

pub fn transcode_source_sql(video_id: i64) -> (r: String)
    ensures
        r@ == transcode_source_spec(video_id),
{
    let mut b: Vec<char> = Vec::new();
    push_str(&mut b, "SELECT file_path, file_name, duration_ms FROM videos WHERE id = ");
    push_int(&mut b, video_id);
    string_of(&b)
}

/// The pending task of a transcode.
pub open spec fn transcode_task_spec(video_id: i64, output_path: Seq<char>, preset_id: i64) -> Seq<
    char,
> {
    "INSERT INTO media_tasks (task_type, video_ids, output_path, preset_id, status) VALUES ('transcode', '["@
        + int_text(video_id as int) + "]', "@ + quoted(output_path) + ", "@ + int_text(
        preset_id as int,
    ) + ", 'pending')"@
}

pub fn transcode_task_sql(video_id: i64, output_path: &str, preset_id: i64) -> (r: String)
    ensures
        r@ == transcode_task_spec(video_id, output_path@, preset_id),
{
    let mut b: Vec<char> = Vec::new();
    push_str(
        &mut b,
        "INSERT INTO media_tasks (task_type, video_ids, output_path, preset_id, status) VALUES ('transcode', '[",
    );
    push_int(&mut b, video_id);
    push_str(&mut b, "]', ");
    push_quoted(&mut b, output_path);
    push_str(&mut b, ", ");
    push_int(&mut b, preset_id);
    push_str(&mut b, ", 'pending')");
    string_of(&b)
}

/// A merge takes two videos at least.
pub fn merge_count_check(n: usize) -> (r: Result<(), String>)
    ensures
        n < 2 ==> (r matches Err(e) && e@ == "至少需要选择 2 个视频"@),
        n >= 2 ==> r is Ok,
{
    if n < 2 {
        Err("至少需要选择 2 个视频".to_owned())
    } else {
        Ok(())
    }
}

pub open spec fn id_list_spec(ids: Seq<i64>) -> Seq<char> {
    join_with(ids.map_values(|x: i64| int_text(x as int)), ","@)
}

fn id_list(ids: &Vec<i64>) -> (r: String)
    ensures
        r@ == id_list_spec(ids@),
{
    let mut texts: Vec<String> = Vec::new();
    let mut i: usize = 0;
    while i < ids.len()
        invariant
            i <= ids.len(),
            crate::config::strs(texts@) == ids@.take(i as int).map_values(|x: i64| int_text(x as int)),
        decreases ids.len() - i,
    {
        let mut b: Vec<char> = Vec::new();
        push_int(&mut b, ids[i]);
        let ghost pre = crate::config::strs(texts@);
        texts.push(string_of(&b));
        assert(crate::config::strs(texts@) =~= pre.push(int_text(ids@[i as int] as int)));
        assert(ids@.take(i + 1).map_values(|x: i64| int_text(x as int)) =~= ids@.take(
            i as int,
        ).map_values(|x: i64| int_text(x as int)).push(int_text(ids@[i as int] as int)));
        i = i + 1;
    }
    assert(ids@.take(ids.len() as int) == ids@);
    crate::text::join_strings(&texts, ",")
}

/// The videos of a merge with their workspaces' clip directories, in the
/// order of the request.
pub open spec fn merge_sources_spec(ids: Seq<i64>) -> Seq<char> {
    "SELECT v.id, v.file_path, v.file_name, w.clip_output_dir as ws_clip_output_dir FROM videos v LEFT JOIN workspaces w ON v.workspace_id = w.id WHERE v.id IN ("@
        + id_list_spec(ids) + ") ORDER BY INSTR(',"@ + id_list_spec(ids) + ",', ',' || v.id || ',')"@
}

pub fn merge_sources_sql(ids: &Vec<i64>) -> (r: String)
    ensures
        r@ == merge_sources_spec(ids@),
{
    let list = id_list(ids);
    let mut b: Vec<char> = Vec::new();
    push_str(
        &mut b,
        "SELECT v.id, v.file_path, v.file_name, w.clip_output_dir as ws_clip_output_dir FROM videos v LEFT JOIN workspaces w ON v.workspace_id = w.id WHERE v.id IN (",
    );
    push_str(&mut b, list.as_str());
    push_str(&mut b, ") ORDER BY INSTR(',");
    push_str(&mut b, list.as_str());
    push_str(&mut b, ",', ',' || v.id || ',')");
    string_of(&b)
}

/// Every video asked for must be found.
pub fn merge_found_check(found: usize, asked: usize) -> (r: Result<(), String>)
    ensures
        found != asked ==> (r matches Err(e) && e@ == "部分视频不存在"@),
        found == asked ==> r is Ok,
{
    if found != asked {
        Err("部分视频不存在".to_owned())
    } else {
        Ok(())
    }
}

/// The probe tool beside the encoder: every `ffmpeg` in its path becomes
/// `ffprobe`.
pub fn probe_tool_path(ffmpeg_path: &str) -> (r: String)
    ensures
        r@ == replace_spec(ffmpeg_path@, "ffmpeg"@, "ffprobe"@),
{
    proof {
        reveal_strlit("ffmpeg");
    }
    replace_all(ffmpeg_path, "ffmpeg", "ffprobe")
}

/// A stream-copy merge needs inputs of one format; a probe failure counts
/// as a mismatch.
pub open spec fn virtual_merge_refused(mode: Seq<char>, compatible: Result<bool, String>) -> bool {
    mode == "virtual"@ && !(compatible matches Ok(true))
}

pub fn virtual_merge_check(mode: &str, compatible: &Result<bool, String>) -> (r: Result<(), String>)
    ensures
        virtual_merge_refused(mode@, *compatible) ==> (r matches Err(e) && e@
            == "所选视频的编码/分辨率不一致，无法使用快速合并。请使用「重编码合并」模式。"@),
        !virtual_merge_refused(mode@, *compatible) ==> r is Ok,
{
    let ok = match compatible {
        Ok(b) => *b,
        Err(_) => false,
    };
    if str_eq(mode, "virtual") && !ok {
        return Err("所选视频的编码/分辨率不一致，无法使用快速合并。请使用「重编码合并」模式。".to_owned());
    }
    Ok(())
}

/// The JSON text of a list of ids: `[1,2,3]`.
pub open spec fn json_ids_spec(ids: Seq<i64>) -> Seq<char> {
    "["@ + id_list_spec(ids) + "]"@
}

/// `serde_json::to_string` on a list of ids (`unwrap_or_default` on its
/// result). The compact serializer writes `[`, the decimal values
/// separated by `,`, then `]`, and writing to memory does not fail.
#[verifier::external_body]
fn json_ids(ids: &Vec<i64>) -> (r: String)
    ensures
        r@ == json_ids_spec(ids@),
{
    serde_json::to_string(ids).unwrap_or_default()
}

/// The pending task of a merge.
pub open spec fn merge_task_spec(ids: Seq<i64>, output_path: Seq<char>, preset_id: Option<i64>) -> Seq<
    char,
> {
    "INSERT INTO media_tasks (task_type, video_ids, output_path, preset_id, status) VALUES ('merge', "@
        + quoted(json_ids_spec(ids)) + ", "@ + quoted(output_path) + ", "@ + (match preset_id {
        Some(p) => int_text(p as int),
        None => "NULL"@,
    }) + ", 'pending')"@
}

pub fn merge_task_sql(req: &MergeRequest, output_path: &str) -> (r: String)
    ensures
        r@ == merge_task_spec(req.video_ids@, output_path@, req.preset_id),
{
    let json = json_ids(&req.video_ids);
    let mut b: Vec<char> = Vec::new();
    push_str(
        &mut b,
        "INSERT INTO media_tasks (task_type, video_ids, output_path, preset_id, status) VALUES ('merge', ",
    );
    push_quoted(&mut b, json.as_str());
    push_str(&mut b, ", ");
    push_quoted(&mut b, output_path);
    push_str(&mut b, ", ");
    match req.preset_id {
        Some(p) => push_int(&mut b, p),
        None => push_str(&mut b, "NULL"),
    }
    push_str(&mut b, ", 'pending')");
    string_of(&b)
}


pub open spec fn list_media_tasks_spec(task_type: Option<Seq<char>>) -> Seq<char> {
    "SELECT * FROM media_tasks "@ + match task_type {
        Some(t) => "WHERE task_type = "@ + quoted(t),
        None => Seq::empty(),
    } + " ORDER BY created_at DESC"@
}

/// The media tasks, of one type when given, newest first.
pub fn list_media_tasks_sql(task_type: &Option<String>) -> (r: String)
    ensures
        r@ == list_media_tasks_spec(opt_view(*task_type)),
{
    let mut b: Vec<char> = Vec::new();
    push_str(&mut b, "SELECT * FROM media_tasks ");
    match task_type {
        Some(t) => {
            push_str(&mut b, "WHERE task_type = ");
            push_quoted(&mut b, t.as_str());
        },
        None => {},
    }
    push_str(&mut b, " ORDER BY created_at DESC");
    string_of(&b)
}

pub open spec fn media_status_spec(task_id: i64, status: Seq<char>, error: Option<Seq<char>>) -> Seq<char> {
    "UPDATE media_tasks SET status = '"@ + status + "', progress = "@ + (if status == "completed"@ {
        "1.0"@
    } else {
        "progress"@
    }) + match error {
        Some(e) => ", error_message = "@ + quoted(e),
        None => Seq::empty(),
    } + (if status == "completed"@ {
        ", completed_at = datetime('now')"@
    } else {
        Seq::empty()
    }) + " WHERE id = "@ + int_text(task_id as int)
}

/// Records a media task's new status (one of the fixed status words): a
/// completed task is at full progress and stamped, an error is kept.
pub fn media_task_status_sql(task_id: i64, status: &str, error: &Option<String>) -> (r: String)
    ensures
        r@ == media_status_spec(task_id, status@, opt_view(*error)),
{
    let done = str_eq(status, "completed");
    let mut b: Vec<char> = Vec::new();
    push_str(&mut b, "UPDATE media_tasks SET status = '");
    push_str(&mut b, status);
    push_str(&mut b, "', progress = ");
    if done {
        push_str(&mut b, "1.0");
    } else {
        push_str(&mut b, "progress");
    }
    match error {
        Some(e) => {
            push_str(&mut b, ", error_message = ");
            push_quoted(&mut b, e.as_str());
        },
        None => {},
    }
    if done {
        push_str(&mut b, ", completed_at = datetime('now')");
    }
    push_str(&mut b, " WHERE id = ");
    push_int(&mut b, task_id);
    string_of(&b)
}

/// A media task may be deleted once it is no longer pending or processing.
pub fn media_task_deletable(status: &str) -> (r: Result<(), String>)
    ensures
        (status@ == "pending"@ || status@ == "processing"@) ==> (r matches Err(e) && e@
            == "请先取消该任务"@),
        !(status@ == "pending"@ || status@ == "processing"@) ==> r is Ok,
{
    if str_eq(status, "pending") || str_eq(status, "processing") {
        Err("请先取消该任务".to_owned())
    } else {
        Ok(())
    }
}

/// The outputs of the finished media tasks, and the statement that then
/// deletes those tasks.
pub fn clear_finished_media_sql() -> (r: (String, String))
    ensures
        r.0@ == "SELECT output_path FROM media_tasks WHERE status NOT IN ('pending','processing') AND output_path IS NOT NULL"@,
        r.1@ == "DELETE FROM media_tasks WHERE status NOT IN ('pending','processing')"@,
{
    (
        "SELECT output_path FROM media_tasks WHERE status NOT IN ('pending','processing') AND output_path IS NOT NULL".to_owned(),
        "DELETE FROM media_tasks WHERE status NOT IN ('pending','processing')".to_owned(),
    )
}

} // verus!
