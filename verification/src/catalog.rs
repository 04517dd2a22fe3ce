//! Browsing the library: the records of videos, recording sessions and
//! streamers, and the filters, ordering and pages of the statements that
//! list them.

use vstd::prelude::*;
use crate::config::strs;
use crate::manifest::opt_view;
use crate::sql::{sql_escape, sql_escape_spec};
use crate::storage::copy_opt_string;
use crate::text::{
    chars_of, digits_of, int_text, join_strings, join_with, push_digits, push_int, push_str,
    string_of,
};

verus! {

/// A video of the library.
pub struct VideoInfo {
    pub id: i64,
    pub file_path: String,
    pub file_name: String,
    pub file_hash: Option<String>,
    pub file_size: i64,
    pub duration_ms: Option<i64>,
    pub width: Option<i32>,
    pub height: Option<i32>,
    pub format_name: Option<String>,
    pub video_codec: Option<String>,
    pub audio_codec: Option<String>,
    pub has_subtitle: bool,
    pub has_danmaku: bool,
    pub has_envelope: bool,
    pub workspace_id: Option<i64>,
    pub session_id: Option<i64>,
    pub streamer_id: Option<i64>,
    pub streamer_name: Option<String>,
    pub stream_title: Option<String>,
    pub recorded_at: Option<String>,
    pub created_at: String,
}

impl VideoInfo {
    /// A field-by-field copy.
    pub fn duplicate(&self) -> (r: VideoInfo)
        ensures
            r == *self,
    {
        VideoInfo {
            id: self.id,
            file_path: self.file_path.clone(),
            file_name: self.file_name.clone(),
            file_hash: copy_opt_string(&self.file_hash),
            file_size: self.file_size,
            duration_ms: self.duration_ms,
            width: self.width,
            height: self.height,
            format_name: copy_opt_string(&self.format_name),
            video_codec: copy_opt_string(&self.video_codec),
            audio_codec: copy_opt_string(&self.audio_codec),
            has_subtitle: self.has_subtitle,
            has_danmaku: self.has_danmaku,
            has_envelope: self.has_envelope,
            workspace_id: self.workspace_id,
            session_id: self.session_id,
            streamer_id: self.streamer_id,
            streamer_name: copy_opt_string(&self.streamer_name),
            stream_title: copy_opt_string(&self.stream_title),
            recorded_at: copy_opt_string(&self.recorded_at),
            created_at: self.created_at.clone(),
        }
    }
}

/// Importing one file into a workspace.
pub struct ImportVideoRequest {
    pub file_path: String,
    pub workspace_id: Option<i64>,
}

/// Filters, order and page of the video list.
pub struct ListVideosRequest {
    pub workspace_id: Option<i64>,
    pub streamer_id: Option<i64>,
    pub sort_by: Option<String>,
    pub sort_order: Option<String>,
    pub search: Option<String>,
    pub date_from: Option<String>,
    pub date_to: Option<String>,
    pub page: Option<u32>,
    pub page_size: Option<u32>,
    pub tag_ids: Option<Vec<i64>>,
}

/// One page of videos and the number of all that match.
pub struct ListVideosResponse {
    pub videos: Vec<VideoInfo>,
    pub total: i64,
    pub page: u32,
    pub page_size: u32,
}

/// A recording session with its videos.
pub struct SessionInfo {
    pub id: i64,
    pub workspace_id: i64,
    pub streamer_id: Option<i64>,
    pub streamer_name: Option<String>,
    pub title: Option<String>,
    pub started_at: Option<String>,
    pub file_count: i32,
    pub videos: Vec<VideoInfo>,
}

/// A streamer with the count and total length of its videos.
pub struct StreamerInfo {
    pub id: i64,
    pub platform: String,
    pub room_id: Option<String>,
    pub name: String,
    pub video_count: i64,
    pub total_duration_ms: Option<i64>,
}

pub struct ListStreamersRequest {
    pub workspace_id: Option<i64>,
    pub page: Option<u32>,
    pub page_size: Option<u32>,
}

pub struct ListStreamersResponse {
    pub streamers: Vec<StreamerInfo>,
    pub total: i64,
    pub page: u32,
    pub page_size: u32,
}

pub struct ListSessionsRequest {
    pub workspace_id: Option<i64>,
    pub streamer_id: Option<i64>,
    pub sort_order: Option<String>,
    pub search: Option<String>,
    pub date_from: Option<String>,
    pub date_to: Option<String>,
    pub page: Option<u32>,
    pub page_size: Option<u32>,
}

pub struct ListSessionsResponse {
    pub sessions: Vec<SessionInfo>,
    pub total: i64,
    pub page: u32,
    pub page_size: u32,
}

/// The statements of one list page: the count of all matches and the page.
pub struct ListQuery {
    pub count_sql: String,
    pub page_sql: String,
    pub page: u32,
    pub page_size: u32,
}

// ---------------------------------------------------------------- pages

/// The page asked for, the first when unset or zero.
pub open spec fn page_number(page: Option<u32>) -> int {
    match page {
        Some(p) => if p < 1 { 1 } else { p as int },
        None => 1,
    }
}

/// The page size asked for, fifty when unset, two hundred at most.
pub open spec fn page_size_of(size: Option<u32>) -> int {
    match size {
        Some(s) => if s > 200 { 200 } else { s as int },
        None => 50,
    }
}

/// Rows skipped before the page.
pub open spec fn page_offset(page: Option<u32>, size: Option<u32>) -> int {
    (page_number(page) - 1) * page_size_of(size)
}

/// The page, its size and the rows before it. The offset is a `u32`
/// product, so it must not pass `u32::MAX`.
pub fn page_window(page: Option<u32>, page_size: Option<u32>) -> (r: (u32, u32, u32))
    requires
        page_offset(page, page_size) <= u32::MAX,
    ensures
        r.0 == page_number(page),
        r.1 == page_size_of(page_size),
        r.2 == page_offset(page, page_size),
{
    let p: u32 = match page {
        Some(x) => if x < 1 { 1 } else { x },
        None => 1,
    };
    let s: u32 = match page_size {
        Some(x) => if x > 200 { 200 } else { x },
        None => 50,
    };
    (p, s, (p - 1) * s)
}

/// Consecutive pages follow on: each starts where the one before ended,
/// so pages neither overlap nor leave rows out.
pub proof fn law_pages_follow_on(p: u32, size: Option<u32>)
    requires
        1 <= p < u32::MAX,
    ensures
        page_offset(Some((p + 1) as u32), size) == page_offset(Some(p), size) + page_size_of(size),
        page_offset(Some(1u32), size) == 0,
{
    assert(page_offset(Some((p + 1) as u32), size) == p * page_size_of(size));
    assert(page_offset(Some(p), size) == (p - 1) * page_size_of(size));
    assert(p * page_size_of(size) == (p - 1) * page_size_of(size) + page_size_of(size)) by (nonlinear_arith);
    assert(page_offset(Some(1u32), size) == 0 * page_size_of(size));
}

// ---------------------------------------------------------------- filters

/// One character of a `LIKE` pattern: a quote is doubled and `%` is
/// escaped with a backslash.
pub open spec fn like_piece(c: char) -> Seq<char> {
    if c == '\'' {
        seq!['\'', '\'']
    } else if c == '%' {
        seq!['\\', '%']
    } else {
        seq![c]
    }
}

/// `s.replace('\'', "''").replace('%', "\\%")`.
pub open spec fn like_escape_spec(s: Seq<char>) -> Seq<char>
    decreases s.len(),
{
    if s.len() == 0 {
        Seq::empty()
    } else {
        like_escape_spec(s.drop_last()) + like_piece(s.last())
    }
}

pub proof fn lemma_like_escape_empty(s: Seq<char>)
    ensures
        (like_escape_spec(s).len() == 0) == (s.len() == 0),
    decreases s.len(),
{
    if s.len() > 0 {
        lemma_like_escape_empty(s.drop_last());
    }
}

/// Escapes search text for a `LIKE` pattern.
pub fn like_escape(s: &str) -> (r: String)
    ensures
        r@ == like_escape_spec(s@),
{
    let cs = chars_of(s);
    let mut out: Vec<char> = Vec::new();
    let mut i: usize = 0;
    while i < cs.len()
        invariant
            i <= cs.len(),
            out@ == like_escape_spec(cs@.take(i as int)),
        decreases cs.len() - i,
    {
        assert(cs@.take(i + 1).drop_last() == cs@.take(i as int));
        let c = cs[i];
        if c == '\'' {
            out.push('\'');
            out.push('\'');
        } else if c == '%' {
            out.push('\\');
            out.push('%');
        } else {
            out.push(c);
        }
        i = i + 1;
    }
    assert(cs@.take(cs.len() as int) == cs@);
    string_of(&out)
}

/// `conds` with `c` added when `c` is given.
pub open spec fn push_some(conds: Seq<Seq<char>>, c: Option<Seq<char>>) -> Seq<Seq<char>> {
    match c {
        Some(x) => conds.push(x),
        None => conds,
    }
}

/// `col = id`.
pub open spec fn id_condition(col: Seq<char>, id: Option<i64>) -> Option<Seq<char>> {
    match id {
        Some(v) => Some(col + " = "@ + int_text(v as int)),
        None => None,
    }
}

/// The streamer filter: `-1` asks for videos of no streamer.
pub open spec fn streamer_condition(col: Seq<char>, id: Option<i64>) -> Option<Seq<char>> {
    match id {
        Some(v) => if v == -1 {
            Some(col + " IS NULL"@)
        } else {
            Some(col + " = "@ + int_text(v as int))
        },
        None => None,
    }
}

/// The lower date bound, inclusive.
pub open spec fn from_condition(col: Seq<char>, d: Option<Seq<char>>) -> Option<Seq<char>> {
    match d {
        Some(x) => if x.len() > 0 {
            Some(col + " >= '"@ + sql_escape_spec(x) + "'"@)
        } else {
            None
        },
        None => None,
    }
}

/// The upper date bound: every time of that day is before `day` + `T`.
pub open spec fn to_condition(col: Seq<char>, d: Option<Seq<char>>) -> Option<Seq<char>> {
    match d {
        Some(x) => if x.len() > 0 {
            Some(col + " < '"@ + sql_escape_spec(x) + "T'"@)
        } else {
            None
        },
        None => None,
    }
}

/// Videos whose title or file name holds the search text.
pub open spec fn video_search_condition(k: Option<Seq<char>>) -> Option<Seq<char>> {
    match k {
        Some(x) => {
            let e = like_escape_spec(x);
            if e.len() > 0 {
                Some(
                    "(v.stream_title LIKE '%"@ + e + "%' OR v.file_name LIKE '%"@ + e
                        + "%')"@,
                )
            } else {
                None
            }
        },
        None => None,
    }
}

/// Sessions whose title holds the search text.
pub open spec fn session_search_condition(k: Option<Seq<char>>) -> Option<Seq<char>> {
    match k {
        Some(x) => {
            let e = like_escape_spec(x);
            if e.len() > 0 {
                Some("s.title LIKE '%"@ + e + "%'"@)
            } else {
                None
            }
        },
        None => None,
    }
}

pub open spec fn positive_id() -> spec_fn(i64) -> bool {
    |x: i64| x > 0
}

pub open spec fn id_texts(ids: Seq<i64>) -> Seq<Seq<char>> {
    ids.map_values(|x: i64| int_text(x as int))
}

/// Videos carrying every one of the positive tag ids.
pub open spec fn tag_condition(tag_ids: Option<Seq<i64>>) -> Option<Seq<char>> {
    match tag_ids {
        Some(ids) => {
            let pos = ids.filter(positive_id());
            if pos.len() > 0 {
                Some(
                    "v.id IN (SELECT video_id FROM video_tags WHERE tag_id IN ("@ + join_with(
                        id_texts(pos),
                        ","@,
                    ) + ") GROUP BY video_id HAVING COUNT(DISTINCT tag_id) = "@ + digits_of(
                        pos.len(),
                    ) + ")"@,
                )
            } else {
                None
            }
        },
        None => None,
    }
}

pub open spec fn opt_ids(o: Option<Vec<i64>>) -> Option<Seq<i64>> {
    match o {
        Some(v) => Some(v@),
        None => None,
    }
}

/// The conditions of the video list, in the order they are written.
pub open spec fn video_conditions(req: ListVideosRequest) -> Seq<Seq<char>> {
    let c1 = push_some(Seq::empty(), id_condition("v.workspace_id"@, req.workspace_id));
    let c2 = push_some(c1, streamer_condition("v.streamer_id"@, req.streamer_id));
    let c3 = push_some(c2, video_search_condition(opt_view(req.search)));
    let c4 = push_some(c3, from_condition("v.recorded_at"@, opt_view(req.date_from)));
    let c5 = push_some(c4, to_condition("v.recorded_at"@, opt_view(req.date_to)));
    push_some(c5, tag_condition(opt_ids(req.tag_ids)))
}

/// The conditions of the session list.
pub open spec fn session_conditions(req: ListSessionsRequest) -> Seq<Seq<char>> {
    let c1 = push_some(Seq::empty(), id_condition("s.workspace_id"@, req.workspace_id));
    let c2 = push_some(c1, streamer_condition("s.streamer_id"@, req.streamer_id));
    let c3 = push_some(c2, session_search_condition(opt_view(req.search)));
    let c4 = push_some(c3, from_condition("s.started_at"@, opt_view(req.date_from)));
    push_some(c4, to_condition("s.started_at"@, opt_view(req.date_to)))
}

/// `WHERE` and the conditions joined by `AND`; nothing without conditions.
pub open spec fn where_spec(conds: Seq<Seq<char>>) -> Seq<char> {
    if conds.len() == 0 {
        Seq::empty()
    } else {
        "WHERE "@ + join_with(conds, " AND "@)
    }
}

/// Adds `c` when it is given.
fn push_cond(conds: &mut Vec<String>, c: Option<String>)
    ensures
        strs(final(conds)@) == push_some(strs(old(conds)@), opt_view(c)),
{
    let ghost pre = strs(conds@);
    match c {
        Some(x) => {
            conds.push(x);
            assert(strs(conds@) == pre.push(x@));
        },
        None => {},
    }
}

fn id_cond(col: &str, id: Option<i64>) -> (r: Option<String>)
    ensures
        opt_view(r) == id_condition(col@, id),
{
    match id {
        Some(v) => {
            let mut b: Vec<char> = Vec::new();
            push_str(&mut b, col);
            push_str(&mut b, " = ");
            push_int(&mut b, v);
            Some(string_of(&b))
        },
        None => None,
    }
}

fn streamer_cond(col: &str, id: Option<i64>) -> (r: Option<String>)
    ensures
        opt_view(r) == streamer_condition(col@, id),
{
    match id {
        Some(v) => {
            let mut b: Vec<char> = Vec::new();
            push_str(&mut b, col);
            if v == -1 {
                push_str(&mut b, " IS NULL");
            } else {
                push_str(&mut b, " = ");
                push_int(&mut b, v);
            }
            Some(string_of(&b))
        },
        None => None,
    }
}

fn date_cond(col: &str, d: &Option<String>, upper: bool) -> (r: Option<String>)
    ensures
        opt_view(r) == (if upper {
            to_condition(col@, opt_view(*d))
        } else {
            from_condition(col@, opt_view(*d))
        }),
{
    match d {
        Some(x) => {
            if x.as_str().is_empty() {
                return None;
            }
            let e = sql_escape(x.as_str());
            let mut b: Vec<char> = Vec::new();
            push_str(&mut b, col);
            if upper {
                push_str(&mut b, " < '");
                push_str(&mut b, e.as_str());
                push_str(&mut b, "T'");
            } else {
                push_str(&mut b, " >= '");
                push_str(&mut b, e.as_str());
                push_str(&mut b, "'");
            }
            Some(string_of(&b))
        },
        None => None,
    }
}

fn search_cond(k: &Option<String>, sessions: bool) -> (r: Option<String>)
    ensures
        opt_view(r) == (if sessions {
            session_search_condition(opt_view(*k))
        } else {
            video_search_condition(opt_view(*k))
        }),
{
    match k {
        Some(x) => {
            let e = like_escape(x.as_str());
            if e.as_str().is_empty() {
                return None;
            }
            let mut b: Vec<char> = Vec::new();
            if sessions {
                push_str(&mut b, "s.title LIKE '%");
                push_str(&mut b, e.as_str());
                push_str(&mut b, "%'");
            } else {
                push_str(&mut b, "(v.stream_title LIKE '%");
                push_str(&mut b, e.as_str());
                push_str(&mut b, "%' OR v.file_name LIKE '%");
                push_str(&mut b, e.as_str());
                push_str(&mut b, "%')");
            }
            Some(string_of(&b))
        },
        None => None,
    }
}

pub open spec fn nonzero_id() -> spec_fn(i64) -> bool {
    |x: i64| x != 0
}

pub open spec fn id_keep(nonzero: bool) -> spec_fn(i64) -> bool {
    if nonzero {
        nonzero_id()
    } else {
        positive_id()
    }
}

/// The decimal texts of the ids kept: those not zero, or those above zero.
fn id_list(ids: &Vec<i64>, nonzero: bool) -> (r: Vec<String>)
    ensures
        strs(r@) == id_texts(ids@.filter(id_keep(nonzero))),
        r@.len() == ids@.filter(id_keep(nonzero)).len(),
{
    let ghost keep = id_keep(nonzero);
    let mut texts: Vec<String> = Vec::new();
    let ghost mut pos: Seq<i64> = Seq::empty();
    let mut i: usize = 0;
    while i < ids.len()
        invariant
            i <= ids.len(),
            keep == id_keep(nonzero),
            pos == ids@.take(i as int).filter(keep),
            strs(texts@) == id_texts(pos),
            texts@.len() == pos.len(),
        decreases ids.len() - i,
    {
        let x = ids[i];
        assert(ids@.take(i + 1) == ids@.take(i as int).push(x));
        proof {
            ids@.take(i as int).lemma_filter_push(x, keep);
        }
        let kept = if nonzero { x != 0 } else { x > 0 };
        assert(kept == keep(x));
        if kept {
            let mut b: Vec<char> = Vec::new();
            push_int(&mut b, x);
            let t = string_of(&b);
            let ghost pre = strs(texts@);
            texts.push(t);
            proof {
                pos = pos.push(x);
                assert(strs(texts@) =~= pre.push(int_text(x as int)));
                assert(id_texts(pos) =~= id_texts(pos.drop_last()).push(int_text(x as int)));
            }
        }
        i = i + 1;
    }
    assert(ids@.take(ids.len() as int) == ids@);
    texts
}

fn tag_cond(tag_ids: &Option<Vec<i64>>) -> (r: Option<String>)
    ensures
        opt_view(r) == tag_condition(opt_ids(*tag_ids)),
{
    match tag_ids {
        Some(ids) => {
            let texts = id_list(ids, false);
            if texts.len() == 0 {
                return None;
            }
            let joined = join_strings(&texts, ",");
            let mut b: Vec<char> = Vec::new();
            push_str(&mut b, "v.id IN (SELECT video_id FROM video_tags WHERE tag_id IN (");
            push_str(&mut b, joined.as_str());
            push_str(&mut b, ") GROUP BY video_id HAVING COUNT(DISTINCT tag_id) = ");
            push_digits(&mut b, texts.len() as u64);
            push_str(&mut b, ")");
            Some(string_of(&b))
        },
        None => None,
    }
}

/// `WHERE` and the conditions, or nothing.
pub fn where_clause(conds: &Vec<String>) -> (r: String)
    ensures
        r@ == where_spec(strs(conds@)),
{
    if conds.len() == 0 {
        return String::new();
    }
    let j = join_strings(conds, " AND ");
    let mut b: Vec<char> = Vec::new();
    push_str(&mut b, "WHERE ");
    push_str(&mut b, j.as_str());
    string_of(&b)
}

/// The conditions of the video list.
pub fn video_filter(req: &ListVideosRequest) -> (r: Vec<String>)
    ensures
        strs(r@) == video_conditions(*req),
{
    let mut conds: Vec<String> = Vec::new();
    push_cond(&mut conds, id_cond("v.workspace_id", req.workspace_id));
    push_cond(&mut conds, streamer_cond("v.streamer_id", req.streamer_id));
    push_cond(&mut conds, search_cond(&req.search, false));
    push_cond(&mut conds, date_cond("v.recorded_at", &req.date_from, false));
    push_cond(&mut conds, date_cond("v.recorded_at", &req.date_to, true));
    push_cond(&mut conds, tag_cond(&req.tag_ids));
    conds
}

/// The conditions of the session list.
pub fn session_filter(req: &ListSessionsRequest) -> (r: Vec<String>)
    ensures
        strs(r@) == session_conditions(*req),
{
    let mut conds: Vec<String> = Vec::new();
    push_cond(&mut conds, id_cond("s.workspace_id", req.workspace_id));
    push_cond(&mut conds, streamer_cond("s.streamer_id", req.streamer_id));
    push_cond(&mut conds, search_cond(&req.search, true));
    push_cond(&mut conds, date_cond("s.started_at", &req.date_from, false));
    push_cond(&mut conds, date_cond("s.started_at", &req.date_to, true));
    conds
}

// ---------------------------------------------------------------- order

/// The video list is ordered by recording time on request, else by import
/// time.
pub open spec fn video_sort_column(sort_by: Option<Seq<char>>) -> Seq<char> {
    if sort_by == Some("recorded_at"@) {
        "v.recorded_at"@
    } else {
        "v.created_at"@
    }
}

/// Ascending on request, else newest first.
pub open spec fn sort_direction(order: Option<Seq<char>>) -> Seq<char> {
    if order == Some("asc"@) {
        "ASC"@
    } else {
        "DESC"@
    }
}

fn opt_is(o: &Option<String>, s: &str) -> (r: bool)
    ensures
        r == (opt_view(*o) == Some(s@)),
{
    match o {
        Some(x) => crate::text::str_eq(x.as_str(), s),
        None => false,
    }
}

// ---------------------------------------------------------------- statements

pub open spec fn list_videos_count_spec(req: ListVideosRequest) -> Seq<char> {
    "SELECT COUNT(*) as cnt FROM videos v "@ + where_spec(video_conditions(req))
}

pub open spec fn list_videos_page_spec(req: ListVideosRequest) -> Seq<char> {
    "SELECT v.*, st.name as streamer_name FROM videos v LEFT JOIN streamers st ON v.streamer_id = st.id "@
        + where_spec(video_conditions(req)) + " ORDER BY "@ + video_sort_column(opt_view(req.sort_by))
        + " "@ + sort_direction(opt_view(req.sort_order)) + " LIMIT "@ + digits_of(
        page_size_of(req.page_size) as nat,
    ) + " OFFSET "@ + digits_of(page_offset(req.page, req.page_size) as nat)
}

fn push_limit(b: &mut Vec<char>, size: u32, offset: u32)
    ensures
        final(b)@ == old(b)@ + " LIMIT "@ + digits_of(size as nat) + " OFFSET "@ + digits_of(
            offset as nat,
        ),
{
    push_str(b, " LIMIT ");
    push_digits(b, size as u64);
    push_str(b, " OFFSET ");
    push_digits(b, offset as u64);
}

/// The statements of a page of the video list.
pub fn list_videos_query(req: &ListVideosRequest) -> (r: ListQuery)
    requires
        page_offset(req.page, req.page_size) <= u32::MAX,
    ensures
        r.count_sql@ == list_videos_count_spec(*req),
        r.page_sql@ == list_videos_page_spec(*req),
        r.page == page_number(req.page),
        r.page_size == page_size_of(req.page_size),
{
    let (page, size, offset) = page_window(req.page, req.page_size);
    let conds = video_filter(req);
    let w = where_clause(&conds);
    let mut c: Vec<char> = Vec::new();
    push_str(&mut c, "SELECT COUNT(*) as cnt FROM videos v ");
    push_str(&mut c, w.as_str());
    let mut q: Vec<char> = Vec::new();
    push_str(
        &mut q,
        "SELECT v.*, st.name as streamer_name FROM videos v LEFT JOIN streamers st ON v.streamer_id = st.id ",
    );
    push_str(&mut q, w.as_str());
    push_str(&mut q, " ORDER BY ");
    if opt_is(&req.sort_by, "recorded_at") {
        push_str(&mut q, "v.recorded_at");
    } else {
        push_str(&mut q, "v.created_at");
    }
    push_str(&mut q, " ");
    if opt_is(&req.sort_order, "asc") {
        push_str(&mut q, "ASC");
    } else {
        push_str(&mut q, "DESC");
    }
    push_limit(&mut q, size, offset);
    ListQuery { count_sql: string_of(&c), page_sql: string_of(&q), page, page_size: size }
}

pub open spec fn list_sessions_count_spec(req: ListSessionsRequest) -> Seq<char> {
    "SELECT COUNT(*) as cnt FROM recording_sessions s "@ + where_spec(session_conditions(req))
}

pub open spec fn list_sessions_page_spec(req: ListSessionsRequest) -> Seq<char> {
    "SELECT s.*, st.name as streamer_name FROM recording_sessions s LEFT JOIN streamers st ON s.streamer_id = st.id "@
        + where_spec(session_conditions(req)) + " ORDER BY s.started_at "@ + sort_direction(
        opt_view(req.sort_order),
    ) + " LIMIT "@ + digits_of(page_size_of(req.page_size) as nat) + " OFFSET "@ + digits_of(
        page_offset(req.page, req.page_size) as nat,
    )
}

/// The statements of a page of the session list.
pub fn list_sessions_query(req: &ListSessionsRequest) -> (r: ListQuery)
    requires
        page_offset(req.page, req.page_size) <= u32::MAX,
    ensures
        r.count_sql@ == list_sessions_count_spec(*req),
        r.page_sql@ == list_sessions_page_spec(*req),
        r.page == page_number(req.page),
        r.page_size == page_size_of(req.page_size),
{
    let (page, size, offset) = page_window(req.page, req.page_size);
    let conds = session_filter(req);
    let w = where_clause(&conds);
    let mut c: Vec<char> = Vec::new();
    push_str(&mut c, "SELECT COUNT(*) as cnt FROM recording_sessions s ");
    push_str(&mut c, w.as_str());
    let mut q: Vec<char> = Vec::new();
    push_str(
        &mut q,
        "SELECT s.*, st.name as streamer_name FROM recording_sessions s LEFT JOIN streamers st ON s.streamer_id = st.id ",
    );
    push_str(&mut q, w.as_str());
    push_str(&mut q, " ORDER BY s.started_at ");
    if opt_is(&req.sort_order, "asc") {
        push_str(&mut q, "ASC");
    } else {
        push_str(&mut q, "DESC");
    }
    push_limit(&mut q, size, offset);
    ListQuery { count_sql: string_of(&c), page_sql: string_of(&q), page, page_size: size }
}

pub open spec fn list_streamers_count_spec(workspace_id: Option<i64>) -> Seq<char> {
    match workspace_id {
        None => "SELECT COUNT(*) as cnt FROM streamers"@,
        Some(id) => "SELECT COUNT(DISTINCT st.id) as cnt FROM streamers st INNER JOIN videos v ON st.id = v.streamer_id WHERE v.workspace_id = "@
            + int_text(id as int),
    }
}

pub open spec fn list_streamers_page_spec(workspace_id: Option<i64>, size: int, offset: int) -> Seq<
    char,
> {
    let tail = " GROUP BY st.id ORDER BY st.name"@ + " LIMIT "@ + digits_of(size as nat) + " OFFSET "@
        + digits_of(offset as nat);
    match workspace_id {
        None => "SELECT st.*, COUNT(v.id) as video_count, SUM(v.duration_ms) as total_duration_ms FROM streamers st LEFT JOIN videos v ON st.id = v.streamer_id"@
            + tail,
        Some(id) => "SELECT st.*, COUNT(v.id) as video_count, SUM(v.duration_ms) as total_duration_ms FROM streamers st INNER JOIN videos v ON st.id = v.streamer_id WHERE v.workspace_id = "@
            + int_text(id as int) + tail,
    }
}

/// The statements of a page of the streamer list: every streamer, or
/// those with videos in the workspace.
pub fn list_streamers_query(req: &ListStreamersRequest) -> (r: ListQuery)
    requires
        page_offset(req.page, req.page_size) <= u32::MAX,
    ensures
        r.count_sql@ == list_streamers_count_spec(req.workspace_id),
        r.page_sql@ == list_streamers_page_spec(
            req.workspace_id,
            page_size_of(req.page_size),
            page_offset(req.page, req.page_size),
        ),
        r.page == page_number(req.page),
        r.page_size == page_size_of(req.page_size),
{
    let (page, size, offset) = page_window(req.page, req.page_size);
    let mut c: Vec<char> = Vec::new();
    let mut q: Vec<char> = Vec::new();
    match req.workspace_id {
        None => {
            push_str(&mut c, "SELECT COUNT(*) as cnt FROM streamers");
            push_str(
                &mut q,
                "SELECT st.*, COUNT(v.id) as video_count, SUM(v.duration_ms) as total_duration_ms FROM streamers st LEFT JOIN videos v ON st.id = v.streamer_id",
            );
        },
        Some(id) => {
            push_str(
                &mut c,
                "SELECT COUNT(DISTINCT st.id) as cnt FROM streamers st INNER JOIN videos v ON st.id = v.streamer_id WHERE v.workspace_id = ",
            );
            push_int(&mut c, id);
            push_str(
                &mut q,
                "SELECT st.*, COUNT(v.id) as video_count, SUM(v.duration_ms) as total_duration_ms FROM streamers st INNER JOIN videos v ON st.id = v.streamer_id WHERE v.workspace_id = ",
            );
            push_int(&mut q, id);
        },
    }
    push_str(&mut q, " GROUP BY st.id ORDER BY st.name");
    push_limit(&mut q, size, offset);
    ListQuery { count_sql: string_of(&c), page_sql: string_of(&q), page, page_size: size }
}

// ---------------------------------------------------------------- sessions

pub open spec fn session_ids(ss: Seq<SessionInfo>) -> Seq<i64> {
    ss.map_values(|s: SessionInfo| s.id)
}

/// The one statement that fetches the videos of every session on the page
/// (ids of zero skipped), or none when no session has an id.
pub open spec fn session_videos_sql_spec(ss: Seq<SessionInfo>) -> Option<Seq<char>> {
    let ids = session_ids(ss).filter(nonzero_id());
    if ids.len() == 0 {
        None
    } else {
        Some(
            "SELECT v.*, st.name as streamer_name FROM videos v LEFT JOIN streamers st ON v.streamer_id = st.id WHERE v.session_id IN ("@
                + join_with(id_texts(ids), ","@) + ") ORDER BY v.session_id, v.recorded_at ASC"@,
        )
    }
}

pub fn session_videos_sql(sessions: &Vec<SessionInfo>) -> (r: Option<String>)
    ensures
        opt_view(r) == session_videos_sql_spec(sessions@),
{
    let mut ids: Vec<i64> = Vec::new();
    let mut i: usize = 0;
    while i < sessions.len()
        invariant
            i <= sessions.len(),
            ids@ == session_ids(sessions@.take(i as int)),
        decreases sessions.len() - i,
    {
        ids.push(sessions[i].id);
        i = i + 1;
        assert(ids@ =~= session_ids(sessions@.take(i as int)));
    }
    assert(sessions@.take(sessions.len() as int) == sessions@);
    let texts = id_list(&ids, true);
    assert(id_keep(true) == nonzero_id());
    if texts.len() == 0 {
        return None;
    }
    let joined = join_strings(&texts, ",");
    let mut b: Vec<char> = Vec::new();
    push_str(
        &mut b,
        "SELECT v.*, st.name as streamer_name FROM videos v LEFT JOIN streamers st ON v.streamer_id = st.id WHERE v.session_id IN (",
    );
    push_str(&mut b, joined.as_str());
    push_str(&mut b, ") ORDER BY v.session_id, v.recorded_at ASC");
    Some(string_of(&b))
}

/// The videos of session `sid` in the order given; none for the id zero.
pub open spec fn session_videos(vs: Seq<VideoInfo>, sid: i64) -> Seq<VideoInfo>
    decreases vs.len(),
{
    if vs.len() == 0 || sid == 0 {
        Seq::empty()
    } else {
        let rest = session_videos(vs.drop_last(), sid);
        if vs.last().session_id == Some(sid) {
            rest.push(vs.last())
        } else {
            rest
        }
    }
}

/// No session before the `i`-th has its id.
pub open spec fn first_with_id(ss: Seq<SessionInfo>, i: int) -> bool {
    forall|j: int| 0 <= j < i ==> (#[trigger] ss[j]).id != ss[i].id
}

/// `r` is session `s` with the videos `vs`.
pub open spec fn session_with(r: SessionInfo, s: SessionInfo, vs: Seq<VideoInfo>) -> bool {
    &&& r.id == s.id
    &&& r.workspace_id == s.workspace_id
    &&& r.streamer_id == s.streamer_id
    &&& r.streamer_name == s.streamer_name
    &&& r.title == s.title
    &&& r.started_at == s.started_at
    &&& r.file_count == s.file_count
    &&& r.videos@ == vs
}

fn videos_of_session(videos: &Vec<VideoInfo>, sid: i64) -> (r: Vec<VideoInfo>)
    ensures
        r@ == session_videos(videos@, sid),
{
    let mut out: Vec<VideoInfo> = Vec::new();
    if sid == 0 {
        return out;
    }
    let mut j: usize = 0;
    while j < videos.len()
        invariant
            j <= videos.len(),
            sid != 0,
            out@ == session_videos(videos@.take(j as int), sid),
        decreases videos.len() - j,
    {
        assert(videos@.take(j + 1).drop_last() == videos@.take(j as int));
        if videos[j].session_id == Some(sid) {
            out.push(videos[j].duplicate());
        }
        j = j + 1;
    }
    assert(videos@.take(videos.len() as int) == videos@);
    out
}

/// Hands each session of the page its videos, fetched together: the
/// first session of an id takes them, in the order fetched.
pub fn attach_videos(sessions: &Vec<SessionInfo>, videos: &Vec<VideoInfo>) -> (r: Vec<SessionInfo>)
    ensures
        r@.len() == sessions@.len(),
        forall|i: int|
            0 <= i < r@.len() ==> session_with(
                #[trigger] r@[i],
                sessions@[i],
                if first_with_id(sessions@, i) {
                    session_videos(videos@, sessions@[i].id)
                } else {
                    Seq::empty()
                },
            ),
{
    let mut out: Vec<SessionInfo> = Vec::new();
    let mut i: usize = 0;
    while i < sessions.len()
        invariant
            i <= sessions.len(),
            out@.len() == i,
            forall|k: int|
                0 <= k < i ==> session_with(
                    #[trigger] out@[k],
                    sessions@[k],
                    if first_with_id(sessions@, k) {
                        session_videos(videos@, sessions@[k].id)
                    } else {
                        Seq::empty()
                    },
                ),
        decreases sessions.len() - i,
    {
        let s = &sessions[i];
        let mut first = true;
        let mut j: usize = 0;
        while j < i
            invariant
                j <= i < sessions.len(),
                s == sessions@[i as int],
                first == (forall|k: int| 0 <= k < j ==> (#[trigger] sessions@[k]).id != s.id),
            decreases i - j,
        {
            if sessions[j].id == s.id {
                first = false;
            }
            j = j + 1;
        }
        let vs = if first { videos_of_session(videos, s.id) } else { Vec::new() };
        out.push(
            SessionInfo {
                id: s.id,
                workspace_id: s.workspace_id,
                streamer_id: s.streamer_id,
                streamer_name: copy_opt_string(&s.streamer_name),
                title: copy_opt_string(&s.title),
                started_at: copy_opt_string(&s.started_at),
                file_count: s.file_count,
                videos: vs,
            },
        );
        i = i + 1;
    }
    out
}

// ---------------------------------------------------------------- import

pub open spec fn opt_int_sql(o: Option<int>) -> Seq<char> {
    match o {
        Some(v) => int_text(v),
        None => "NULL"@,
    }
}

pub open spec fn widen(o: Option<i32>) -> Option<int> {
    match o {
        Some(v) => Some(v as int),
        None => None,
    }
}

pub open spec fn widen64(o: Option<i64>) -> Option<int> {
    match o {
        Some(v) => Some(v as int),
        None => None,
    }
}

/// The row of an imported file: its path and name as quoted text, the hash
/// quoted as it is, the probed numbers or `NULL`.
pub open spec fn import_insert_spec(
    req: ImportVideoRequest,
    file_name: Seq<char>,
    file_hash: Option<Seq<char>>,
    file_size: i64,
    duration_ms: Option<i64>,
    width: Option<i32>,
    height: Option<i32>,
) -> Seq<char> {
    let hash = match file_hash {
        Some(h) => "'"@ + h + "'"@,
        None => "NULL"@,
    };
    "INSERT INTO videos (file_path, file_name, file_hash, file_size, duration_ms, width, height, workspace_id) VALUES ('"@
        + sql_escape_spec(req.file_path@) + "', '"@ + sql_escape_spec(file_name) + "', "@ + hash
        + ", "@ + int_text(file_size as int) + ", "@ + opt_int_sql(widen64(duration_ms)) + ", "@
        + opt_int_sql(widen(width)) + ", "@ + opt_int_sql(widen(height)) + ", "@ + opt_int_sql(
        widen64(req.workspace_id),
    ) + ")"@
}

fn push_opt_int(b: &mut Vec<char>, o: Option<i64>)
    ensures
        final(b)@ == old(b)@ + opt_int_sql(widen64(o)),
{
    match o {
        Some(v) => push_int(b, v),
        None => push_str(b, "NULL"),
    }
}

fn widen_i32(o: Option<i32>) -> (r: Option<i64>)
    ensures
        widen64(r) == widen(o),
{
    match o {
        Some(v) => Some(v as i64),
        None => None,
    }
}

/// The statement that records an imported file.
pub fn import_insert_sql(
    req: &ImportVideoRequest,
    file_name: &str,
    file_hash: &Option<String>,
    file_size: i64,
    duration_ms: Option<i64>,
    width: Option<i32>,
    height: Option<i32>,
) -> (r: String)
    ensures
        r@ == import_insert_spec(
            *req,
            file_name@,
            opt_view(*file_hash),
            file_size,
            duration_ms,
            width,
            height,
        ),
{
    let mut b: Vec<char> = Vec::new();
    push_str(
        &mut b,
        "INSERT INTO videos (file_path, file_name, file_hash, file_size, duration_ms, width, height, workspace_id) VALUES ('",
    );
    let p = sql_escape(req.file_path.as_str());
    push_str(&mut b, p.as_str());
    push_str(&mut b, "', '");
    let n = sql_escape(file_name);
    push_str(&mut b, n.as_str());
    push_str(&mut b, "', ");
    match file_hash {
        Some(h) => {
            push_str(&mut b, "'");
            push_str(&mut b, h.as_str());
            push_str(&mut b, "'");
        },
        None => push_str(&mut b, "NULL"),
    }
    push_str(&mut b, ", ");
    push_int(&mut b, file_size);
    push_str(&mut b, ", ");
    push_opt_int(&mut b, duration_ms);
    push_str(&mut b, ", ");
    push_opt_int(&mut b, widen_i32(width));
    push_str(&mut b, ", ");
    push_opt_int(&mut b, widen_i32(height));
    push_str(&mut b, ", ");
    push_opt_int(&mut b, req.workspace_id);
    push_str(&mut b, ")");
    string_of(&b)
}


pub open spec fn envelope_insert_spec(video_id: i64, window_ms: i64, data: Seq<u8>) -> Seq<char> {
    "INSERT OR REPLACE INTO audio_envelopes (video_id, window_ms, data) VALUES ("@ + int_text(
        video_id as int,
    ) + ", "@ + int_text(window_ms as int) + ", X'"@ + crate::encoding::hex_text(data) + "')"@
}

/// Stores a video's audio envelope (its samples as little-endian bytes)
/// as a hexadecimal blob literal.
pub fn envelope_insert_sql(video_id: i64, window_ms: i64, data: &Vec<u8>) -> (r: String)
    ensures
        r@ == envelope_insert_spec(video_id, window_ms, data@),
{
    let mut b: Vec<char> = Vec::new();
    push_str(&mut b, "INSERT OR REPLACE INTO audio_envelopes (video_id, window_ms, data) VALUES (");
    push_int(&mut b, video_id);
    push_str(&mut b, ", ");
    push_int(&mut b, window_ms);
    push_str(&mut b, ", X'");
    crate::encoding::push_hex(&mut b, data);
    push_str(&mut b, "')");
    string_of(&b)
}

/// Marks a video as having its envelope stored.
pub fn envelope_flag_sql(video_id: i64) -> (r: String)
    ensures
        r@ == "UPDATE videos SET has_envelope = 1 WHERE id = "@ + int_text(video_id as int),
{
    let mut b: Vec<char> = Vec::new();
    push_str(&mut b, "UPDATE videos SET has_envelope = 1 WHERE id = ");
    push_int(&mut b, video_id);
    string_of(&b)
}

/// The stored envelope of a video.
pub fn envelope_query_sql(video_id: i64) -> (r: String)
    ensures
        r@ == "SELECT data FROM audio_envelopes WHERE video_id = "@ + int_text(video_id as int),
{
    let mut b: Vec<char> = Vec::new();
    push_str(&mut b, "SELECT data FROM audio_envelopes WHERE video_id = ");
    push_int(&mut b, video_id);
    string_of(&b)
}

} // verus!
