//! Workspaces: their records, the statements that create, edit and delete
//! them, and the writes that record a scan's findings.

use vstd::prelude::*;
use crate::config::{path_join, join_path, strs};
use crate::manifest::opt_view;
use crate::sql::{sql_escape, sql_escape_spec};
use crate::storage::{RecordingFileMeta, RecordingSession, StreamerDir};
use crate::text::{
    chars_of, int_text, join_strings, join_with, parse_i64_spec, parse_int, push_int, push_str,
    string_of, trim_chars, trim_spec,
};

verus! {

/// A workspace as listed.
pub struct WorkspaceInfo {
    pub id: i64,
    pub name: String,
    pub path: String,
    pub adapter_id: String,
    pub adapter_config: Option<String>,
    pub auto_scan: bool,
    pub clip_output_dir: Option<String>,
    pub created_at: String,
}

/// Fields of a workspace to change; `None` leaves one as it is.
pub struct UpdateWorkspaceRequest {
    pub workspace_id: i64,
    pub name: Option<String>,
    pub auto_scan: Option<bool>,
    pub clip_output_dir: Option<String>,
    pub adapter_id: Option<String>,
}

pub struct CreateWorkspaceRequest {
    pub name: String,
    pub path: String,
    /// `bililive-recorder`, `generic`, ...
    pub adapter_id: String,
    /// The adapter's settings as JSON text.
    pub adapter_config: Option<String>,
}

/// What a finished scan reports.
pub struct ScanResult {
    pub new_files: usize,
    pub total_files: usize,
    pub total_sessions: usize,
    pub streamers: usize,
}

/// Space used under a workspace's clip directory and left on its disk.
pub struct DiskUsageInfo {
    pub output_dir: String,
    pub dir_size_bytes: u64,
    pub disk_total_bytes: u64,
    pub disk_available_bytes: u64,
}

/// `'text'` with quotes doubled.
pub open spec fn quoted(s: Seq<char>) -> Seq<char> {
    "'"@ + sql_escape_spec(s) + "'"@
}

fn push_quoted(b: &mut Vec<char>, s: &str)
    ensures
        final(b)@ == old(b)@ + quoted(s@),
{
    push_str(b, "'");
    let e = sql_escape(s);
    push_str(b, e.as_str());
    push_str(b, "'");
}

/// The workspace columns a listing reads.
pub open spec fn workspace_columns() -> Seq<char> {
    "SELECT id, name, path, adapter_id, adapter_config, auto_scan, clip_output_dir, created_at FROM workspaces"@
}

// ---------------------------------------------------------------- create

/// Adapter settings are stored when given and not empty.
pub open spec fn adapter_config_sql(c: Option<Seq<char>>) -> Seq<char> {
    match c {
        Some(x) => if x.len() > 0 { quoted(x) } else { "NULL"@ },
        None => "NULL"@,
    }
}

pub open spec fn create_workspace_spec(req: CreateWorkspaceRequest) -> Seq<char> {
    "INSERT INTO workspaces (name, path, adapter_id, adapter_config) VALUES ("@ + quoted(req.name@)
        + ", "@ + quoted(req.path@) + ", "@ + quoted(req.adapter_id@) + ", "@ + adapter_config_sql(
        opt_view(req.adapter_config),
    ) + ")"@
}

/// The statement that records a new workspace.
pub fn create_workspace_sql(req: &CreateWorkspaceRequest) -> (r: String)
    ensures
        r@ == create_workspace_spec(*req),
{
    let mut b: Vec<char> = Vec::new();
    push_str(&mut b, "INSERT INTO workspaces (name, path, adapter_id, adapter_config) VALUES (");
    push_quoted(&mut b, req.name.as_str());
    push_str(&mut b, ", ");
    push_quoted(&mut b, req.path.as_str());
    push_str(&mut b, ", ");
    push_quoted(&mut b, req.adapter_id.as_str());
    push_str(&mut b, ", ");
    match &req.adapter_config {
        Some(c) => {
            if c.as_str().is_empty() {
                push_str(&mut b, "NULL");
            } else {
                push_quoted(&mut b, c.as_str());
            }
        },
        None => push_str(&mut b, "NULL"),
    }
    push_str(&mut b, ")");
    string_of(&b)
}

/// The statement that reads a workspace back by its path.
pub open spec fn workspace_by_path_spec(path: Seq<char>) -> Seq<char> {
    workspace_columns() + " WHERE path = "@ + quoted(path)
}

pub fn workspace_by_path_sql(path: &str) -> (r: String)
    ensures
        r@ == workspace_by_path_spec(path@),
{
    let mut b: Vec<char> = Vec::new();
    push_str(
        &mut b,
        "SELECT id, name, path, adapter_id, adapter_config, auto_scan, clip_output_dir, created_at FROM workspaces",
    );
    push_str(&mut b, " WHERE path = ");
    push_quoted(&mut b, path);
    string_of(&b)
}

// ---------------------------------------------------------------- update

/// The adapters a workspace can use.
pub open spec fn known_adapter(a: Seq<char>) -> bool {
    a == "bililive-recorder"@ || a == "generic"@
}

/// The name assignment, when a name is given.
pub open spec fn sets_name(req: UpdateWorkspaceRequest) -> Seq<Seq<char>> {
    match req.name {
        Some(n) => seq!["name = "@ + quoted(n@)],
        None => Seq::empty(),
    }
}

pub open spec fn sets_auto(req: UpdateWorkspaceRequest) -> Seq<Seq<char>> {
    match req.auto_scan {
        Some(v) => sets_name(req).push("auto_scan = "@ + (if v { "1"@ } else { "0"@ })),
        None => sets_name(req),
    }
}

pub open spec fn sets_adapter(req: UpdateWorkspaceRequest) -> Seq<Seq<char>> {
    match req.adapter_id {
        Some(a) => sets_auto(req).push("adapter_id = "@ + quoted(trim_spec(a@))),
        None => sets_auto(req),
    }
}

/// Every assignment of an update, in order. The clip directory is cleared
/// when blank; that a given one is a usable directory is checked on disk
/// by the caller.
pub open spec fn update_assignments(req: UpdateWorkspaceRequest) -> Seq<Seq<char>> {
    match req.clip_output_dir {
        Some(d) => if trim_spec(d@).len() == 0 {
            sets_adapter(req).push("clip_output_dir = NULL"@)
        } else {
            sets_adapter(req).push("clip_output_dir = "@ + quoted(d@))
        },
        None => sets_adapter(req),
    }
}

/// Why an update is refused before anything is written: a blank name, a
/// blank or unknown adapter.
pub open spec fn update_refusal(req: UpdateWorkspaceRequest) -> Option<Seq<char>> {
    let name_bad = match req.name {
        Some(n) => trim_spec(n@).len() == 0,
        None => false,
    };
    if name_bad {
        Some("工作区名称不能为空"@)
    } else {
        match req.adapter_id {
            Some(a) => {
                let t = trim_spec(a@);
                if t.len() == 0 {
                    Some("适配器类型不能为空"@)
                } else if !known_adapter(t) {
                    Some("未知的适配器类型: "@ + t)
                } else {
                    None
                }
            },
            None => None,
        }
    }
}

/// The assignments of an update, or why it is refused.
pub open spec fn update_sets(req: UpdateWorkspaceRequest) -> Result<Seq<Seq<char>>, Seq<char>> {
    match update_refusal(req) {
        Some(e) => Err(e),
        None => if update_assignments(req).len() == 0 {
            Err("没有需要更新的字段"@)
        } else {
            Ok(update_assignments(req))
        },
    }
}

pub open spec fn update_workspace_spec(req: UpdateWorkspaceRequest) -> Result<Seq<char>, Seq<char>> {
    match update_sets(req) {
        Ok(sets) => Ok(
            "UPDATE workspaces SET "@ + join_with(
                sets.push("updated_at = datetime('now')"@),
                ", "@,
            ) + " WHERE id = "@ + int_text(req.workspace_id as int),
        ),
        Err(e) => Err(e),
    }
}

fn trimmed(s: &str) -> (r: String)
    ensures
        r@ == trim_spec(s@),
{
    let cs = chars_of(s);
    let t = trim_chars(&cs);
    string_of(&t)
}

fn assignment(col: &str, value: &str) -> (r: String)
    ensures
        r@ == col@ + quoted(value@),
{
    let mut b: Vec<char> = Vec::new();
    push_str(&mut b, col);
    push_quoted(&mut b, value);
    string_of(&b)
}

/// The statement of an update, or the error it is refused with.
pub fn update_workspace_sql(req: &UpdateWorkspaceRequest) -> (r: Result<String, String>)
    ensures
        match update_workspace_spec(*req) {
            Ok(s) => r matches Ok(x) && x@ == s,
            Err(e) => r matches Err(x) && x@ == e,
        },
{
    let mut sets: Vec<String> = Vec::new();
    match &req.name {
        Some(n) => {
            let t = trimmed(n.as_str());
            if t.as_str().is_empty() {
                return Err("工作区名称不能为空".to_owned());
            }
            sets.push(assignment("name = ", n.as_str()));
        },
        None => {},
    }
    assert(strs(sets@) =~= sets_name(*req));
    match req.auto_scan {
        Some(v) => {
            let mut b: Vec<char> = Vec::new();
            push_str(&mut b, "auto_scan = ");
            if v {
                push_str(&mut b, "1");
            } else {
                push_str(&mut b, "0");
            }
            sets.push(string_of(&b));
        },
        None => {},
    }
    assert(strs(sets@) =~= sets_auto(*req));
    match &req.adapter_id {
        Some(a) => {
            let t = trimmed(a.as_str());
            if t.as_str().is_empty() {
                return Err("适配器类型不能为空".to_owned());
            }
            if !(crate::text::str_eq(t.as_str(), "bililive-recorder") || crate::text::str_eq(
                t.as_str(),
                "generic",
            )) {
                let mut b: Vec<char> = Vec::new();
                push_str(&mut b, "未知的适配器类型: ");
                push_str(&mut b, t.as_str());
                return Err(string_of(&b));
            }
            sets.push(assignment("adapter_id = ", t.as_str()));
        },
        None => {},
    }
    assert(strs(sets@) =~= sets_adapter(*req));
    match &req.clip_output_dir {
        Some(d) => {
            let t = trimmed(d.as_str());
            if t.as_str().is_empty() {
                sets.push("clip_output_dir = NULL".to_owned());
            } else {
                sets.push(assignment("clip_output_dir = ", d.as_str()));
            }
        },
        None => {},
    }
    let ghost s4 = strs(sets@);
    assert(s4 =~= update_assignments(*req));
    if sets.len() == 0 {
        return Err("没有需要更新的字段".to_owned());
    }
    sets.push("updated_at = datetime('now')".to_owned());
    assert(strs(sets@) =~= s4.push("updated_at = datetime('now')"@));
    let j = join_strings(&sets, ", ");
    let mut b: Vec<char> = Vec::new();
    push_str(&mut b, "UPDATE workspaces SET ");
    push_str(&mut b, j.as_str());
    push_str(&mut b, " WHERE id = ");
    push_int(&mut b, req.workspace_id);
    Ok(string_of(&b))
}

/// The statement that reads a workspace back by its id.
pub open spec fn workspace_by_id_spec(id: i64) -> Seq<char> {
    workspace_columns() + " WHERE id = "@ + int_text(id as int)
}

pub fn workspace_by_id_sql(id: i64) -> (r: String)
    ensures
        r@ == workspace_by_id_spec(id),
{
    let mut b: Vec<char> = Vec::new();
    push_str(
        &mut b,
        "SELECT id, name, path, adapter_id, adapter_config, auto_scan, clip_output_dir, created_at FROM workspaces",
    );
    push_str(&mut b, " WHERE id = ");
    push_int(&mut b, id);
    string_of(&b)
}

// ---------------------------------------------------------------- delete

/// Deleting a workspace removes its videos, its sessions and itself, in
/// that order.
pub open spec fn delete_workspace_spec(id: i64) -> Seq<Seq<char>> {
    seq![
        "DELETE FROM videos WHERE workspace_id = "@ + int_text(id as int),
        "DELETE FROM recording_sessions WHERE workspace_id = "@ + int_text(id as int),
        "DELETE FROM workspaces WHERE id = "@ + int_text(id as int),
    ]
}

fn with_id(prefix: &str, id: i64) -> (r: String)
    ensures
        r@ == prefix@ + int_text(id as int),
{
    let mut b: Vec<char> = Vec::new();
    push_str(&mut b, prefix);
    push_int(&mut b, id);
    string_of(&b)
}

pub fn delete_workspace_sql(id: i64) -> (r: Vec<String>)
    ensures
        strs(r@) == delete_workspace_spec(id),
{
    let mut v: Vec<String> = Vec::new();
    v.push(with_id("DELETE FROM videos WHERE workspace_id = ", id));
    v.push(with_id("DELETE FROM recording_sessions WHERE workspace_id = ", id));
    v.push(with_id("DELETE FROM workspaces WHERE id = ", id));
    assert(strs(v@) =~= delete_workspace_spec(id));
    v
}

// ---------------------------------------------------------------- active workspace

/// The stored active workspace, when it reads as an `i64`.
pub fn active_workspace_from(value: &str) -> (r: Option<i64>)
    ensures
        match parse_i64_spec(value@) {
            Some(v) => r == Some(v as i64),
            None => r is None,
        },
{
    let cs = chars_of(value);
    match parse_int(&cs, true, i64::MIN as i128, i64::MAX as i128) {
        Some(v) => Some(v as i64),
        None => None,
    }
}

pub open spec fn set_active_spec(id: Option<i64>) -> Seq<char> {
    match id {
        Some(v) => "INSERT OR REPLACE INTO settings_kv (key, value) VALUES ('active_workspace_id', '"@
            + int_text(v as int) + "')"@,
        None => "DELETE FROM settings_kv WHERE key = 'active_workspace_id'"@,
    }
}

/// The statement that records, or forgets, the active workspace.
pub fn set_active_sql(id: Option<i64>) -> (r: String)
    ensures
        r@ == set_active_spec(id),
{
    match id {
        Some(v) => {
            let mut b: Vec<char> = Vec::new();
            push_str(
                &mut b,
                "INSERT OR REPLACE INTO settings_kv (key, value) VALUES ('active_workspace_id', '",
            );
            push_int(&mut b, v);
            push_str(&mut b, "')");
            string_of(&b)
        },
        None => "DELETE FROM settings_kv WHERE key = 'active_workspace_id'".to_owned(),
    }
}

// ---------------------------------------------------------------- disk usage

/// The clip directory: the configured one when not empty, else `clips`
/// under the workspace.
pub open spec fn clip_dir_spec(ws_path: Seq<char>, clip_output_dir: Option<Seq<char>>) -> Seq<char> {
    match clip_output_dir {
        Some(d) => if d.len() > 0 { d } else { path_join(ws_path, "clips"@) },
        None => path_join(ws_path, "clips"@),
    }
}

pub fn clip_dir(ws_path: &str, clip_output_dir: &Option<String>) -> (r: String)
    ensures
        r@ == clip_dir_spec(ws_path@, opt_view(*clip_output_dir)),
{
    match clip_output_dir {
        Some(d) => {
            if !d.as_str().is_empty() {
                return d.clone();
            }
        },
        None => {},
    }
    join_path(ws_path, "clips")
}

// ---------------------------------------------------------------- scan writes

/// Before a scan's findings are written: every video of the workspace
/// leaves its session and is marked missing until found again, videos of
/// other workspaces leave this one's sessions, and the sessions go.
pub open spec fn scan_reset_spec(ws: i64) -> Seq<Seq<char>> {
    seq![
        "UPDATE videos SET session_id = NULL, file_missing = 1 WHERE workspace_id = "@ + int_text(
            ws as int,
        ),
        "UPDATE videos SET session_id = NULL WHERE session_id IN (SELECT id FROM recording_sessions WHERE workspace_id = "@
            + int_text(ws as int) + ")"@,
        "DELETE FROM recording_sessions WHERE workspace_id = "@ + int_text(ws as int),
    ]
}

pub fn scan_reset_sql(ws: i64) -> (r: Vec<String>)
    ensures
        strs(r@) == scan_reset_spec(ws),
{
    let mut v: Vec<String> = Vec::new();
    v.push(with_id("UPDATE videos SET session_id = NULL, file_missing = 1 WHERE workspace_id = ", ws));
    let mut b: Vec<char> = Vec::new();
    push_str(
        &mut b,
        "UPDATE videos SET session_id = NULL WHERE session_id IN (SELECT id FROM recording_sessions WHERE workspace_id = ",
    );
    push_int(&mut b, ws);
    push_str(&mut b, ")");
    v.push(string_of(&b));
    v.push(with_id("DELETE FROM recording_sessions WHERE workspace_id = ", ws));
    assert(strs(v@) =~= scan_reset_spec(ws));
    v
}

/// A streamer found by a scan is recorded once per room.
pub open spec fn streamer_insert_spec(d: StreamerDir) -> Seq<char> {
    "INSERT OR IGNORE INTO streamers (platform, room_id, name) VALUES ('bilibili', '"@ + d.room_id@
        + "', "@ + quoted(d.name@) + ")"@
}

pub fn streamer_insert_sql(d: &StreamerDir) -> (r: String)
    ensures
        r@ == streamer_insert_spec(*d),
{
    let mut b: Vec<char> = Vec::new();
    push_str(&mut b, "INSERT OR IGNORE INTO streamers (platform, room_id, name) VALUES ('bilibili', '");
    push_str(&mut b, d.room_id.as_str());
    push_str(&mut b, "', ");
    push_quoted(&mut b, d.name.as_str());
    push_str(&mut b, ")");
    string_of(&b)
}

pub open spec fn streamer_lookup_spec(room_id: Seq<char>) -> Seq<char> {
    "SELECT id FROM streamers WHERE room_id = '"@ + room_id + "'"@
}

pub fn streamer_lookup_sql(room_id: &str) -> (r: String)
    ensures
        r@ == streamer_lookup_spec(room_id@),
{
    let mut b: Vec<char> = Vec::new();
    push_str(&mut b, "SELECT id FROM streamers WHERE room_id = '");
    push_str(&mut b, room_id);
    push_str(&mut b, "'");
    string_of(&b)
}

pub open spec fn opt_id_sql(o: Option<i64>) -> Seq<char> {
    match o {
        Some(v) => int_text(v as int),
        None => "NULL"@,
    }
}

fn push_opt_id(b: &mut Vec<char>, o: Option<i64>)
    ensures
        final(b)@ == old(b)@ + opt_id_sql(o),
{
    match o {
        Some(v) => push_int(b, v),
        None => push_str(b, "NULL"),
    }
}

/// A session found by a scan; an unknown start is `NULL`.
pub open spec fn session_insert_spec(ws: i64, streamer_id: Option<i64>, s: RecordingSession) -> Seq<
    char,
> {
    "INSERT INTO recording_sessions (workspace_id, streamer_id, title, started_at, file_count) VALUES ("@
        + int_text(ws as int) + ", "@ + opt_id_sql(streamer_id) + ", "@ + quoted(s.title@) + ", "@
        + (if s.started_at@.len() == 0 { "NULL"@ } else { quoted(s.started_at@) }) + ", "@
        + crate::text::digits_of(s.files@.len()) + ")"@
}

pub fn session_insert_sql(ws: i64, streamer_id: Option<i64>, s: &RecordingSession) -> (r: String)
    ensures
        r@ == session_insert_spec(ws, streamer_id, *s),
{
    let mut b: Vec<char> = Vec::new();
    push_str(
        &mut b,
        "INSERT INTO recording_sessions (workspace_id, streamer_id, title, started_at, file_count) VALUES (",
    );
    push_int(&mut b, ws);
    push_str(&mut b, ", ");
    push_opt_id(&mut b, streamer_id);
    push_str(&mut b, ", ");
    push_quoted(&mut b, s.title.as_str());
    push_str(&mut b, ", ");
    if s.started_at.as_str().is_empty() {
        push_str(&mut b, "NULL");
    } else {
        push_quoted(&mut b, s.started_at.as_str());
    }
    push_str(&mut b, ", ");
    crate::text::push_digits(&mut b, s.files.len() as u64);
    push_str(&mut b, ")");
    string_of(&b)
}

pub open spec fn video_lookup_spec(file_path: Seq<char>) -> Seq<char> {
    "SELECT id, workspace_id FROM videos WHERE file_path = "@ + quoted(file_path)
}

pub fn video_lookup_sql(file_path: &str) -> (r: String)
    ensures
        r@ == video_lookup_spec(file_path@),
{
    let mut b: Vec<char> = Vec::new();
    push_str(&mut b, "SELECT id, workspace_id FROM videos WHERE file_path = ");
    push_quoted(&mut b, file_path);
    string_of(&b)
}

/// A known video found again: it joins its session and streamer, is no
/// longer missing, moves to this workspace when it was in another (and
/// then counts as new), and keeps a known duration.
pub open spec fn known_video_update_spec(
    ws: i64,
    session_id: Option<i64>,
    streamer_id: Option<i64>,
    video_id: i64,
    video_ws: Option<i64>,
    duration_ms: Option<i64>,
) -> (Seq<char>, bool) {
    let moved = video_ws != Some(ws);
    (
        "UPDATE videos SET session_id = "@ + opt_id_sql(session_id) + ", streamer_id = "@ + opt_id_sql(
            streamer_id,
        ) + ", file_missing = 0"@ + (if moved {
            ", workspace_id = "@ + int_text(ws as int)
        } else {
            Seq::empty()
        }) + ", duration_ms = CASE WHEN duration_ms IS NULL OR duration_ms = 0 THEN "@ + opt_id_sql(
            duration_ms,
        ) + " ELSE duration_ms END WHERE id = "@ + int_text(video_id as int),
        moved,
    )
}

pub fn known_video_update(
    ws: i64,
    session_id: Option<i64>,
    streamer_id: Option<i64>,
    video_id: i64,
    video_ws: Option<i64>,
    duration_ms: Option<i64>,
) -> (r: (String, bool))
    ensures
        (r.0@, r.1) == known_video_update_spec(ws, session_id, streamer_id, video_id, video_ws, duration_ms),
{
    let moved = match video_ws {
        Some(w) => w != ws,
        None => true,
    };
    let mut b: Vec<char> = Vec::new();
    push_str(&mut b, "UPDATE videos SET session_id = ");
    push_opt_id(&mut b, session_id);
    push_str(&mut b, ", streamer_id = ");
    push_opt_id(&mut b, streamer_id);
    push_str(&mut b, ", file_missing = 0");
    let ghost before = b@;
    if moved {
        push_str(&mut b, ", workspace_id = ");
        push_int(&mut b, ws);
    }
    assert(b@ == before + (if moved {
        ", workspace_id = "@ + int_text(ws as int)
    } else {
        Seq::empty()
    }));
    push_str(&mut b, ", duration_ms = CASE WHEN duration_ms IS NULL OR duration_ms = 0 THEN ");
    push_opt_id(&mut b, duration_ms);
    push_str(&mut b, " ELSE duration_ms END WHERE id = ");
    push_int(&mut b, video_id);
    (string_of(&b), moved)
}

/// The file name of a path: what follows its last `/`.
pub open spec fn last_component(p: Seq<char>) -> Seq<char>
    decreases p.len(),
{
    if p.len() == 0 {
        p
    } else if p.last() == '/' {
        Seq::empty()
    } else {
        last_component(p.drop_last()).push(p.last())
    }
}

/// A side file whose extension is `xml`: its name has a stem before `.xml`.
pub open spec fn is_xml_sidecar(p: Seq<char>) -> bool {
    let n = last_component(p);
    n.len() > 4 && n.subrange(n.len() - 4, n.len() as int) == ".xml"@
}

fn name_of(p: &Vec<char>) -> (r: Vec<char>)
    ensures
        r@ == last_component(p@),
{
    let mut start: usize = 0;
    let mut i: usize = 0;
    while i < p.len()
        invariant
            i <= p.len(),
            start <= i,
            last_component(p@.take(i as int)) == p@.subrange(start as int, i as int),
        decreases p.len() - i,
    {
        assert(p@.take(i + 1).drop_last() == p@.take(i as int));
        if p[i] == '/' {
            start = i + 1;
        }
        i = i + 1;
        assert(last_component(p@.take(i as int)) =~= p@.subrange(start as int, i as int));
    }
    assert(p@.take(p.len() as int) == p@);
    let mut out: Vec<char> = Vec::new();
    let mut k: usize = start;
    while k < p.len()
        invariant
            start <= k <= p.len(),
            out@ == p@.subrange(start as int, k as int),
        decreases p.len() - k,
    {
        out.push(p[k]);
        k = k + 1;
        assert(out@ =~= p@.subrange(start as int, k as int));
    }
    out
}

fn xml_sidecar(p: &str) -> (r: bool)
    ensures
        r == is_xml_sidecar(p@),
{
    let cs = chars_of(p);
    let n = name_of(&cs);
    let len = n.len();
    if len <= 4 {
        return false;
    }
    let r = n[len - 4] == '.' && n[len - 3] == 'x' && n[len - 2] == 'm' && n[len - 1] == 'l';
    proof {
        let tail = n@.subrange(len - 4, len as int);
        if r {
            assert(tail =~= ".xml"@) by {
                reveal_strlit(".xml");
            }
        } else {
            reveal_strlit(".xml");
            assert(tail != ".xml"@) by {
                if tail == ".xml"@ {
                    assert(tail[0] == n@[len - 4]);
                    assert(tail[1] == n@[len - 3]);
                    assert(tail[2] == n@[len - 2]);
                    assert(tail[3] == n@[len - 1]);
                }
            }
        }
    }
    r
}

/// Whether a recording has a danmaku file beside it.
pub open spec fn has_danmaku_spec(f: RecordingFileMeta) -> bool {
    exists|k: int| 0 <= k < f.associated_files@.len() && is_xml_sidecar(#[trigger] f.associated_files@[k]@)
}

pub fn has_danmaku(f: &RecordingFileMeta) -> (r: bool)
    ensures
        r == has_danmaku_spec(*f),
{
    let mut i: usize = 0;
    while i < f.associated_files.len()
        invariant
            i <= f.associated_files.len(),
            forall|k: int| 0 <= k < i ==> !is_xml_sidecar(#[trigger] f.associated_files@[k]@),
        decreases f.associated_files.len() - i,
    {
        if xml_sidecar(f.associated_files[i].as_str()) {
            return true;
        }
        i = i + 1;
    }
    false
}

pub open spec fn opt_small_sql(o: Option<i32>) -> Seq<char> {
    match o {
        Some(v) => int_text(v as int),
        None => "NULL"@,
    }
}

/// A recording met for the first time: its row, found present.
pub open spec fn new_video_insert_spec(
    f: RecordingFileMeta,
    file_size: i64,
    width: Option<i32>,
    height: Option<i32>,
    ws: i64,
    streamer_id: Option<i64>,
    session_id: Option<i64>,
    adapter_id: Seq<char>,
) -> Seq<char> {
    "INSERT INTO videos (file_path, file_name, file_size, duration_ms, width, height, workspace_id, streamer_id, session_id, stream_title, recorded_at, adapter_id, has_danmaku, file_missing) VALUES ("@
        + quoted(f.file_path@) + ", "@ + quoted(f.file_name@) + ", "@ + int_text(file_size as int)
        + ", "@ + opt_id_sql(f.duration_ms) + ", "@ + opt_small_sql(width) + ", "@ + opt_small_sql(
        height,
    ) + ", "@ + int_text(ws as int) + ", "@ + opt_id_sql(streamer_id) + ", "@ + opt_id_sql(session_id)
        + ", "@ + (match opt_view(f.stream_title) {
        Some(t) => quoted(t),
        None => "NULL"@,
    }) + ", "@ + (match opt_view(f.recorded_at) {
        Some(t) => "'"@ + t + "'"@,
        None => "NULL"@,
    }) + ", '"@ + adapter_id + "', "@ + (if has_danmaku_spec(f) { "1"@ } else { "0"@ }) + ", 0)"@
}

fn push_opt_small(b: &mut Vec<char>, o: Option<i32>)
    ensures
        final(b)@ == old(b)@ + opt_small_sql(o),
{
    match o {
        Some(v) => push_int(b, v as i64),
        None => push_str(b, "NULL"),
    }
}

pub fn new_video_insert_sql(
    f: &RecordingFileMeta,
    file_size: i64,
    width: Option<i32>,
    height: Option<i32>,
    ws: i64,
    streamer_id: Option<i64>,
    session_id: Option<i64>,
    adapter_id: &str,
) -> (r: String)
    ensures
        r@ == new_video_insert_spec(
            *f,
            file_size,
            width,
            height,
            ws,
            streamer_id,
            session_id,
            adapter_id@,
        ),
{
    let mut b: Vec<char> = Vec::new();
    push_str(
        &mut b,
        "INSERT INTO videos (file_path, file_name, file_size, duration_ms, width, height, workspace_id, streamer_id, session_id, stream_title, recorded_at, adapter_id, has_danmaku, file_missing) VALUES (",
    );
    push_quoted(&mut b, f.file_path.as_str());
    push_str(&mut b, ", ");
    push_quoted(&mut b, f.file_name.as_str());
    push_str(&mut b, ", ");
    push_int(&mut b, file_size);
    push_str(&mut b, ", ");
    push_opt_id(&mut b, f.duration_ms);
    push_str(&mut b, ", ");
    push_opt_small(&mut b, width);
    push_str(&mut b, ", ");
    push_opt_small(&mut b, height);
    push_str(&mut b, ", ");
    push_int(&mut b, ws);
    push_str(&mut b, ", ");
    push_opt_id(&mut b, streamer_id);
    push_str(&mut b, ", ");
    push_opt_id(&mut b, session_id);
    push_str(&mut b, ", ");
    match &f.stream_title {
        Some(t) => push_quoted(&mut b, t.as_str()),
        None => push_str(&mut b, "NULL"),
    }
    push_str(&mut b, ", ");
    match &f.recorded_at {
        Some(t) => {
            push_str(&mut b, "'");
            push_str(&mut b, t.as_str());
            push_str(&mut b, "'");
        },
        None => push_str(&mut b, "NULL"),
    }
    push_str(&mut b, ", '");
    push_str(&mut b, adapter_id);
    push_str(&mut b, "', ");
    if has_danmaku(f) {
        push_str(&mut b, "1");
    } else {
        push_str(&mut b, "0");
    }
    push_str(&mut b, ", 0)");
    string_of(&b)
}

pub open spec fn count_videos_spec(ws: i64) -> Seq<char> {
    "SELECT COUNT(*) as cnt FROM videos WHERE workspace_id = "@ + int_text(ws as int)
}

pub fn count_videos_sql(ws: i64) -> (r: String)
    ensures
        r@ == count_videos_spec(ws),
{
    with_id("SELECT COUNT(*) as cnt FROM videos WHERE workspace_id = ", ws)
}

/// The scan's report: the files it added, the videos the workspace now
/// holds, its sessions and streamers.
pub fn scan_result(new_files: usize, video_count: i64, sessions: usize, streamers: usize) -> (r:
    ScanResult)
    ensures
        r.new_files == new_files,
        r.total_files == video_count as usize,
        r.total_sessions == sessions,
        r.streamers == streamers,
{
    ScanResult {
        new_files,
        total_files: video_count as usize,
        total_sessions: sessions,
        streamers,
    }
}


/// Recordings of a room more than this many seconds apart belong to
/// different sessions when a scan groups them.
pub const SESSION_GAP_SECS: i64 = 3600;

} // verus!
