//! The overview the application opens with: what it knows of itself and
//! the statistics of the library, whole or of one workspace; also the
//! settings store.

use vstd::prelude::*;
use crate::manifest::opt_view;
use crate::text::{int_text, push_int, push_str, string_of};
use crate::workspaces::quoted;

verus! {

pub struct AppInfo {
    pub version: String,
    pub data_dir: String,
    pub config_path: String,
    pub ffmpeg_available: bool,
    pub ffmpeg_version: Option<String>,
    pub ffprobe_available: bool,
    pub has_workspaces: bool,
    pub media_server_port: u16,
}

/// The application's description: a tool is available when its path is
/// known, and workspaces exist when the count is positive.
pub fn app_info(
    version: String,
    data_dir: String,
    config_path: String,
    ffmpeg_path: &str,
    ffmpeg_version: Option<String>,
    ffprobe_path: &str,
    workspace_count: i32,
    media_server_port: u16,
) -> (r: AppInfo)
    ensures
        r.version@ == version@,
        r.data_dir@ == data_dir@,
        r.config_path@ == config_path@,
        r.ffmpeg_available == (ffmpeg_path@.len() > 0),
        opt_view(r.ffmpeg_version) == opt_view(ffmpeg_version),
        r.ffprobe_available == (ffprobe_path@.len() > 0),
        r.has_workspaces == (workspace_count > 0),
        r.media_server_port == media_server_port,
{
    AppInfo {
        version,
        data_dir,
        config_path,
        ffmpeg_available: !ffmpeg_path.is_empty(),
        ffmpeg_version,
        ffprobe_available: !ffprobe_path.is_empty(),
        has_workspaces: workspace_count > 0,
        media_server_port,
    }
}

pub struct DashboardStats {
    pub video_count: i64,
    pub total_duration_ms: i64,
    pub total_storage_bytes: i64,
    pub streamer_count: i64,
    pub session_count: i64,
    pub subtitle_video_count: i64,
    pub danmaku_video_count: i64,
    pub clip_total: i64,
    pub clip_completed: i64,
    pub clip_failed: i64,
    pub clip_output_bytes: i64,
    pub recent_clips: Vec<RecentClipInfo>,
    pub top_streamers: Vec<TopStreamerInfo>,
}

pub struct RecentClipInfo {
    pub id: i64,
    pub title: String,
    pub status: String,
    pub created_at: String,
}

pub struct TopStreamerInfo {
    pub name: String,
    pub video_count: i64,
    pub total_duration_ms: i64,
}

/// The seven statements of the overview, in the order they run.
pub struct DashboardQueries {
    pub videos: String,
    pub streamers: String,
    pub sessions: String,
    pub clips: String,
    pub clip_outputs: String,
    pub recent_clips: String,
    pub top_streamers: String,
}

/// `prefix` and the workspace id, or nothing for the whole library.
pub open spec fn ws_part(prefix: Seq<char>, ws: Option<i64>) -> Seq<char> {
    match ws {
        Some(id) => prefix + int_text(id as int),
        None => Seq::empty(),
    }
}

pub open spec fn dashboard_videos_spec(ws: Option<i64>) -> Seq<char> {
    "SELECT COUNT(*) as cnt, COALESCE(SUM(duration_ms),0) as dur, COALESCE(SUM(file_size),0) as sz, COALESCE(SUM(CASE WHEN has_subtitle=1 THEN 1 ELSE 0 END),0) as sub_cnt, COALESCE(SUM(CASE WHEN has_danmaku=1 THEN 1 ELSE 0 END),0) as dm_cnt FROM videos "@
        + ws_part("WHERE workspace_id = "@, ws)
}

/// Within a workspace only streamers with videos there count.
pub open spec fn dashboard_streamers_spec(ws: Option<i64>) -> Seq<char> {
    match ws {
        Some(id) => "SELECT COUNT(DISTINCT streamer_id) as cnt FROM videos WHERE workspace_id = "@
            + int_text(id as int) + " AND streamer_id IS NOT NULL"@,
        None => "SELECT COUNT(*) as cnt FROM streamers"@,
    }
}

pub open spec fn dashboard_sessions_spec(ws: Option<i64>) -> Seq<char> {
    "SELECT COUNT(*) as cnt FROM recording_sessions "@ + ws_part("WHERE workspace_id = "@, ws)
}

pub open spec fn dashboard_clips_spec(ws: Option<i64>) -> Seq<char> {
    "SELECT COUNT(*) as total, COALESCE(SUM(CASE WHEN t.status='completed' THEN 1 ELSE 0 END),0) as done, COALESCE(SUM(CASE WHEN t.status='failed' THEN 1 ELSE 0 END),0) as fail FROM clip_tasks t "@
        + ws_part("INNER JOIN videos v ON t.video_id = v.id WHERE v.workspace_id = "@, ws)
}

pub open spec fn dashboard_outputs_spec(ws: Option<i64>) -> Seq<char> {
    "SELECT COALESCE(SUM(co.file_size),0) as sz FROM clip_outputs co "@ + ws_part(
        "INNER JOIN videos v ON co.video_id = v.id WHERE v.workspace_id = "@,
        ws,
    )
}

/// The ten newest clips.
pub open spec fn dashboard_recent_spec(ws: Option<i64>) -> Seq<char> {
    "SELECT t.id, COALESCE(t.title,'') as title, t.status, t.created_at FROM clip_tasks t "@ + ws_part(
        "INNER JOIN videos v ON t.video_id = v.id WHERE v.workspace_id = "@,
        ws,
    ) + " ORDER BY t.created_at DESC LIMIT 10"@
}

/// The five streamers with most videos.
pub open spec fn dashboard_top_spec(ws: Option<i64>) -> Seq<char> {
    "SELECT st.name, COUNT(v.id) as vcnt, COALESCE(SUM(v.duration_ms),0) as dur FROM streamers st INNER JOIN videos v ON st.id = v.streamer_id "@
        + ws_part("WHERE v.workspace_id = "@, ws) + " GROUP BY st.id ORDER BY vcnt DESC LIMIT 5"@
}

fn push_ws(b: &mut Vec<char>, prefix: &str, ws: Option<i64>)
    ensures
        final(b)@ == old(b)@ + ws_part(prefix@, ws),
{
    match ws {
        Some(id) => {
            push_str(b, prefix);
            push_int(b, id);
        },
        None => {},
    }
}

fn head_ws(head: &str, prefix: &str, ws: Option<i64>, tail: &str) -> (r: String)
    ensures
        r@ == head@ + ws_part(prefix@, ws) + tail@,
{
    let mut b: Vec<char> = Vec::new();
    push_str(&mut b, head);
    push_ws(&mut b, prefix, ws);
    push_str(&mut b, tail);
    string_of(&b)
}

pub fn dashboard_queries(ws: Option<i64>) -> (r: DashboardQueries)
    ensures
        r.videos@ == dashboard_videos_spec(ws),
        r.streamers@ == dashboard_streamers_spec(ws),
        r.sessions@ == dashboard_sessions_spec(ws),
        r.clips@ == dashboard_clips_spec(ws),
        r.clip_outputs@ == dashboard_outputs_spec(ws),
        r.recent_clips@ == dashboard_recent_spec(ws),
        r.top_streamers@ == dashboard_top_spec(ws),
{
    proof {
        reveal_strlit("");
    }
    let videos = head_ws(
        "SELECT COUNT(*) as cnt, COALESCE(SUM(duration_ms),0) as dur, COALESCE(SUM(file_size),0) as sz, COALESCE(SUM(CASE WHEN has_subtitle=1 THEN 1 ELSE 0 END),0) as sub_cnt, COALESCE(SUM(CASE WHEN has_danmaku=1 THEN 1 ELSE 0 END),0) as dm_cnt FROM videos ",
        "WHERE workspace_id = ",
        ws,
        "",
    );
    let streamers = match ws {
        Some(id) => {
            let mut b: Vec<char> = Vec::new();
            push_str(&mut b, "SELECT COUNT(DISTINCT streamer_id) as cnt FROM videos WHERE workspace_id = ");
            push_int(&mut b, id);
            push_str(&mut b, " AND streamer_id IS NOT NULL");
            string_of(&b)
        },
        None => "SELECT COUNT(*) as cnt FROM streamers".to_owned(),
    };
    let sessions = head_ws("SELECT COUNT(*) as cnt FROM recording_sessions ", "WHERE workspace_id = ", ws, "");
    let clips = head_ws(
        "SELECT COUNT(*) as total, COALESCE(SUM(CASE WHEN t.status='completed' THEN 1 ELSE 0 END),0) as done, COALESCE(SUM(CASE WHEN t.status='failed' THEN 1 ELSE 0 END),0) as fail FROM clip_tasks t ",
        "INNER JOIN videos v ON t.video_id = v.id WHERE v.workspace_id = ",
        ws,
        "",
    );
    let clip_outputs = head_ws(
        "SELECT COALESCE(SUM(co.file_size),0) as sz FROM clip_outputs co ",
        "INNER JOIN videos v ON co.video_id = v.id WHERE v.workspace_id = ",
        ws,
        "",
    );
    let recent_clips = head_ws(
        "SELECT t.id, COALESCE(t.title,'') as title, t.status, t.created_at FROM clip_tasks t ",
        "INNER JOIN videos v ON t.video_id = v.id WHERE v.workspace_id = ",
        ws,
        " ORDER BY t.created_at DESC LIMIT 10",
    );
    let top_streamers = head_ws(
        "SELECT st.name, COUNT(v.id) as vcnt, COALESCE(SUM(v.duration_ms),0) as dur FROM streamers st INNER JOIN videos v ON st.id = v.streamer_id ",
        "WHERE v.workspace_id = ",
        ws,
        " GROUP BY st.id ORDER BY vcnt DESC LIMIT 5",
    );
    DashboardQueries { videos, streamers, sessions, clips, clip_outputs, recent_clips, top_streamers }
}

// ---------------------------------------------------------------- settings

pub open spec fn get_setting_spec(key: Seq<char>) -> Seq<char> {
    "SELECT value FROM settings_kv WHERE key = "@ + quoted(key)
}

fn push_quoted(b: &mut Vec<char>, s: &str)
    ensures
        final(b)@ == old(b)@ + quoted(s@),
{
    push_str(b, "'");
    let e = crate::sql::sql_escape(s);
    push_str(b, e.as_str());
    push_str(b, "'");
}

/// Reads one setting.
pub fn get_setting_sql(key: &str) -> (r: String)
    ensures
        r@ == get_setting_spec(key@),
{
    let mut b: Vec<char> = Vec::new();
    push_str(&mut b, "SELECT value FROM settings_kv WHERE key = ");
    push_quoted(&mut b, key);
    string_of(&b)
}

pub open spec fn set_setting_spec(key: Seq<char>, value: Seq<char>) -> Seq<char> {
    "INSERT OR REPLACE INTO settings_kv (key, value) VALUES ("@ + quoted(key) + ", "@ + quoted(value)
        + ")"@
}

/// Writes one setting, replacing an earlier value.
pub fn set_setting_sql(key: &str, value: &str) -> (r: String)
    ensures
        r@ == set_setting_spec(key@, value@),
{
    let mut b: Vec<char> = Vec::new();
    push_str(&mut b, "INSERT OR REPLACE INTO settings_kv (key, value) VALUES (");
    push_quoted(&mut b, key);
    push_str(&mut b, ", ");
    push_quoted(&mut b, value);
    push_str(&mut b, ")");
    string_of(&b)
}

pub open spec fn track_event_spec(event: Seq<char>, properties: Option<Seq<char>>) -> Seq<char> {
    "INSERT INTO analytics_events (event, properties) VALUES ("@ + quoted(event) + ", "@ + (match properties {
        Some(p) => quoted(p),
        None => "NULL"@,
    }) + ")"@
}

/// Records a usage event with its properties (JSON text) when given.
pub fn track_event_sql(event: &str, properties: &Option<String>) -> (r: String)
    ensures
        r@ == track_event_spec(event@, opt_view(*properties)),
{
    let mut b: Vec<char> = Vec::new();
    push_str(&mut b, "INSERT INTO analytics_events (event, properties) VALUES (");
    push_quoted(&mut b, event);
    push_str(&mut b, ", ");
    match properties {
        Some(p) => push_quoted(&mut b, p.as_str()),
        None => push_str(&mut b, "NULL"),
    }
    push_str(&mut b, ")");
    string_of(&b)
}

} // verus!
