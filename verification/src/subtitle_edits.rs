//! Editing stored subtitles: listing and searching them, changing, merging
//! and splitting segments, importing recognised ones, and repairing
//! timestamps written by an older conversion.

use vstd::prelude::*;
use crate::config::strs;
use crate::subtitle::SubtitleSegment;
use crate::text::{chars_of, int_text, join_strings, join_with, push_int, push_str, string_of, trim_chars, trim_spec};
use crate::workspaces::quoted;

verus! {

/// A video's subtitle segments with the time its file-relative offsets
/// count from.
pub struct SubtitleListResponse {
    pub segments: Vec<SubtitleSegment>,
    pub base_ms: i64,
}

/// What a timestamp repair did.
pub struct RepairSubtitleTimestampsResult {
    /// Videos with suspicious segments.
    pub videos_checked: i64,
    /// Videos whose segments were shifted.
    pub videos_fixed: i64,
    /// Segments shifted.
    pub segments_fixed: i64,
}

fn push_quoted(b: &mut Vec<char>, s: &str)
    ensures
        final(b)@ == old(b)@ + quoted(s@),
{
    push_str(b, "'");
    let e = crate::sql::sql_escape(s);
    push_str(b, e.as_str());
    push_str(b, "'");
}

fn with_id(prefix: &str, id: i64) -> (r: String)
    ensures
        r@ == prefix@ + int_text(id as int),
{
    let mut b: Vec<char> = Vec::new();
    push_str(&mut b, prefix);
    push_int(&mut b, id);
    string_of(&b)
}

// ---------------------------------------------------------------- reading

pub open spec fn list_subtitles_spec(video_id: i64) -> Seq<char> {
    "SELECT * FROM subtitle_segments WHERE video_id = "@ + int_text(video_id as int)
        + " ORDER BY start_ms ASC"@
}

/// A video's segments in time order.
pub fn list_subtitles_sql(video_id: i64) -> (r: String)
    ensures
        r@ == list_subtitles_spec(video_id),
{
    let mut b: Vec<char> = Vec::new();
    push_str(&mut b, "SELECT * FROM subtitle_segments WHERE video_id = ");
    push_int(&mut b, video_id);
    push_str(&mut b, " ORDER BY start_ms ASC");
    string_of(&b)
}

/// Full-text search over segments, within one video when given.
pub open spec fn search_subtitles_spec(query: Seq<char>, video_id: Option<i64>) -> Seq<char> {
    match video_id {
        Some(v) => "SELECT s.* FROM subtitle_segments s INNER JOIN subtitle_fts fts ON s.id = fts.rowid WHERE fts.text MATCH "@
            + quoted(query) + " AND s.video_id = "@ + int_text(v as int) + " ORDER BY s.start_ms ASC"@,
        None => "SELECT s.* FROM subtitle_segments s INNER JOIN subtitle_fts fts ON s.id = fts.rowid WHERE fts.text MATCH "@
            + quoted(query) + " ORDER BY s.start_ms ASC"@,
    }
}

pub fn search_subtitles_sql(query: &str, video_id: Option<i64>) -> (r: String)
    ensures
        r@ == search_subtitles_spec(query@, video_id),
{
    let mut b: Vec<char> = Vec::new();
    push_str(
        &mut b,
        "SELECT s.* FROM subtitle_segments s INNER JOIN subtitle_fts fts ON s.id = fts.rowid WHERE fts.text MATCH ",
    );
    push_quoted(&mut b, query);
    match video_id {
        Some(v) => {
            push_str(&mut b, " AND s.video_id = ");
            push_int(&mut b, v);
        },
        None => {},
    }
    push_str(&mut b, " ORDER BY s.start_ms ASC");
    string_of(&b)
}

/// Recognition tasks, newest first, of one video when given.
pub open spec fn list_asr_tasks_spec(video_id: Option<i64>) -> Seq<char> {
    "SELECT * FROM asr_tasks "@ + (match video_id {
        Some(v) => "WHERE video_id = "@ + int_text(v as int),
        None => Seq::empty(),
    }) + " ORDER BY created_at DESC"@
}

pub fn list_asr_tasks_sql(video_id: Option<i64>) -> (r: String)
    ensures
        r@ == list_asr_tasks_spec(video_id),
{
    let mut b: Vec<char> = Vec::new();
    push_str(&mut b, "SELECT * FROM asr_tasks ");
    let ghost before = b@;
    match video_id {
        Some(v) => {
            push_str(&mut b, "WHERE video_id = ");
            push_int(&mut b, v);
        },
        None => {},
    }
    assert(b@ == before + match video_id {
        Some(v) => "WHERE video_id = "@ + int_text(v as int),
        None => Seq::empty(),
    });
    push_str(&mut b, " ORDER BY created_at DESC");
    string_of(&b)
}

// ---------------------------------------------------------------- editing

pub open spec fn update_subtitle_spec(id: i64, text: Seq<char>, start_ms: i64, end_ms: i64) -> Seq<
    char,
> {
    "UPDATE subtitle_segments SET text = "@ + quoted(text) + ", start_ms = "@ + int_text(
        start_ms as int,
    ) + ", end_ms = "@ + int_text(end_ms as int) + " WHERE id = "@ + int_text(id as int)
}

/// A segment's new text and times.
pub fn update_subtitle_sql(id: i64, text: &str, start_ms: i64, end_ms: i64) -> (r: String)
    ensures
        r@ == update_subtitle_spec(id, text@, start_ms, end_ms),
{
    let mut b: Vec<char> = Vec::new();
    push_str(&mut b, "UPDATE subtitle_segments SET text = ");
    push_quoted(&mut b, text);
    push_str(&mut b, ", start_ms = ");
    push_int(&mut b, start_ms);
    push_str(&mut b, ", end_ms = ");
    push_int(&mut b, end_ms);
    push_str(&mut b, " WHERE id = ");
    push_int(&mut b, id);
    string_of(&b)
}

pub fn delete_subtitle_sql(id: i64) -> (r: String)
    ensures
        r@ == "DELETE FROM subtitle_segments WHERE id = "@ + int_text(id as int),
{
    with_id("DELETE FROM subtitle_segments WHERE id = ", id)
}

/// A new segment written by hand (`manual`) or by recognition (`asr`).
/// The language is written as it is.
pub open spec fn segment_insert_spec(
    video_id: i64,
    language: Seq<char>,
    start_ms: i64,
    end_ms: i64,
    text: Seq<char>,
    source: Seq<char>,
) -> Seq<char> {
    "INSERT INTO subtitle_segments (video_id, language, start_ms, end_ms, text, source) VALUES ("@
        + int_text(video_id as int) + ", '"@ + language + "', "@ + int_text(start_ms as int) + ", "@
        + int_text(end_ms as int) + ", "@ + quoted(text) + ", '"@ + source + "')"@
}

pub fn segment_insert_sql(
    video_id: i64,
    language: &str,
    start_ms: i64,
    end_ms: i64,
    text: &str,
    source: &str,
) -> (r: String)
    ensures
        r@ == segment_insert_spec(video_id, language@, start_ms, end_ms, text@, source@),
{
    let mut b: Vec<char> = Vec::new();
    push_str(
        &mut b,
        "INSERT INTO subtitle_segments (video_id, language, start_ms, end_ms, text, source) VALUES (",
    );
    push_int(&mut b, video_id);
    push_str(&mut b, ", '");
    push_str(&mut b, language);
    push_str(&mut b, "', ");
    push_int(&mut b, start_ms);
    push_str(&mut b, ", ");
    push_int(&mut b, end_ms);
    push_str(&mut b, ", ");
    push_quoted(&mut b, text);
    push_str(&mut b, ", '");
    push_str(&mut b, source);
    push_str(&mut b, "')");
    string_of(&b)
}

/// A merge takes two segments at least.
pub fn merge_count_check(n: usize) -> (r: Result<(), String>)
    ensures
        n < 2 ==> (r matches Err(e) && e@ == "至少选择 2 个字幕段"@),
        n >= 2 ==> r is Ok,
{
    if n < 2 {
        Err("至少选择 2 个字幕段".to_owned())
    } else {
        Ok(())
    }
}

pub open spec fn ids_text(ids: Seq<i64>) -> Seq<char> {
    join_with(ids.map_values(|x: i64| int_text(x as int)), ","@)
}

fn ids_string(ids: &Vec<i64>) -> (r: String)
    ensures
        r@ == ids_text(ids@),
{
    let mut texts: Vec<String> = Vec::new();
    let mut i: usize = 0;
    while i < ids.len()
        invariant
            i <= ids.len(),
            strs(texts@) == ids@.take(i as int).map_values(|x: i64| int_text(x as int)),
        decreases ids.len() - i,
    {
        let ghost pre = strs(texts@);
        let mut t: Vec<char> = Vec::new();
        push_int(&mut t, ids[i]);
        texts.push(string_of(&t));
        assert(strs(texts@) =~= pre.push(int_text(ids@[i as int] as int)));
        assert(ids@.take(i + 1).map_values(|x: i64| int_text(x as int)) =~= ids@.take(
            i as int,
        ).map_values(|x: i64| int_text(x as int)).push(int_text(ids@[i as int] as int)));
        i = i + 1;
    }
    assert(ids@.take(ids.len() as int) == ids@);
    join_strings(&texts, ",")
}

/// The segments of a merge, in time order, and the statement that removes
/// them once merged.
pub open spec fn merge_statements_spec(ids: Seq<i64>) -> (Seq<char>, Seq<char>) {
    (
        "SELECT * FROM subtitle_segments WHERE id IN ("@ + ids_text(ids) + ") ORDER BY start_ms ASC"@,
        "DELETE FROM subtitle_segments WHERE id IN ("@ + ids_text(ids) + ")"@,
    )
}

pub fn merge_statements(ids: &Vec<i64>) -> (r: (String, String))
    ensures
        (r.0@, r.1@) == merge_statements_spec(ids@),
{
    let list = ids_string(ids);
    let mut q: Vec<char> = Vec::new();
    push_str(&mut q, "SELECT * FROM subtitle_segments WHERE id IN (");
    push_str(&mut q, list.as_str());
    push_str(&mut q, ") ORDER BY start_ms ASC");
    let mut d: Vec<char> = Vec::new();
    push_str(&mut d, "DELETE FROM subtitle_segments WHERE id IN (");
    push_str(&mut d, list.as_str());
    push_str(&mut d, ")");
    (string_of(&q), string_of(&d))
}

/// The texts of segments, one after another.
pub open spec fn texts_joined(segs: Seq<SubtitleSegment>) -> Seq<char>
    decreases segs.len(),
{
    if segs.len() == 0 {
        Seq::empty()
    } else {
        texts_joined(segs.drop_last()) + segs.last().text@
    }
}

/// The segment that replaces a merge: the first one's video and language,
/// from the first start to the last end, the texts joined, written by hand.
/// Its id is zero until it is stored.
pub open spec fn merged_segment_ok(r: SubtitleSegment, rows: Seq<SubtitleSegment>) -> bool {
    &&& r.id == 0
    &&& r.video_id == rows[0].video_id
    &&& r.language@ == rows[0].language@
    &&& r.start_ms == rows[0].start_ms
    &&& r.end_ms == rows.last().end_ms
    &&& r.text@ == texts_joined(rows)
    &&& r.source@ == "manual"@
}

pub fn merged_segment(rows: &Vec<SubtitleSegment>) -> (r: Result<SubtitleSegment, String>)
    ensures
        rows@.len() == 0 ==> (r matches Err(e) && e@ == "未找到指定的字幕段"@),
        rows@.len() > 0 ==> (r matches Ok(s) && merged_segment_ok(s, rows@)),
{
    if rows.len() == 0 {
        return Err("未找到指定的字幕段".to_owned());
    }
    let mut text: Vec<char> = Vec::new();
    let mut i: usize = 0;
    while i < rows.len()
        invariant
            i <= rows.len(),
            text@ == texts_joined(rows@.take(i as int)),
        decreases rows.len() - i,
    {
        assert(rows@.take(i + 1).drop_last() == rows@.take(i as int));
        push_str(&mut text, rows[i].text.as_str());
        i = i + 1;
    }
    assert(rows@.take(rows.len() as int) == rows@);
    let first = &rows[0];
    let last = &rows[rows.len() - 1];
    Ok(
        SubtitleSegment {
            id: 0,
            video_id: first.video_id,
            language: first.language.clone(),
            start_ms: first.start_ms,
            end_ms: last.end_ms,
            text: string_of(&text),
            source: "manual".to_owned(),
        },
    )
}

/// A split point must fall strictly inside the segment.
pub fn split_point_check(split_at_ms: i64, start_ms: i64, end_ms: i64) -> (r: Result<(), String>)
    ensures
        (split_at_ms <= start_ms || split_at_ms >= end_ms) ==> (r matches Err(e) && e@
            == "拆分时间点必须在字幕段时间范围内"@),
        (start_ms < split_at_ms < end_ms) ==> r is Ok,
{
    if split_at_ms <= start_ms || split_at_ms >= end_ms {
        Err("拆分时间点必须在字幕段时间范围内".to_owned())
    } else {
        Ok(())
    }
}

/// The text before and after character `pos` (all of it before when `pos`
/// passes the end).
pub fn split_text(text: &str, pos: usize) -> (r: (String, String))
    ensures
        r.0@ == text@.take(if pos <= text@.len() { pos as int } else { text@.len() as int }),
        r.1@ == text@.skip(if pos <= text@.len() { pos as int } else { text@.len() as int }),
{
    let cs = chars_of(text);
    let cut: usize = if pos <= cs.len() { pos } else { cs.len() };
    let mut a: Vec<char> = Vec::new();
    let mut b: Vec<char> = Vec::new();
    let mut i: usize = 0;
    while i < cs.len()
        invariant
            i <= cs.len(),
            cut <= cs.len(),
            a@ == cs@.take(if i < cut { i as int } else { cut as int }),
            b@ == (if i <= cut { Seq::<char>::empty() } else { cs@.subrange(cut as int, i as int) }),
        decreases cs.len() - i,
    {
        if i < cut {
            a.push(cs[i]);
            assert(a@ =~= cs@.take(i + 1));
        } else {
            b.push(cs[i]);
            assert(b@ =~= cs@.subrange(cut as int, i + 1));
        }
        i = i + 1;
    }
    assert(cs@.subrange(cut as int, cs.len() as int) =~= cs@.skip(cut as int));
    assert(cut == cs.len() ==> cs@.skip(cut as int) =~= Seq::<char>::empty());
    (string_of(&a), string_of(&b))
}

/// `a` and `b` are what splitting `seg` at `split_at_ms`, its text cut at
/// character `pos`, makes: the same video and language, `a` up to the split
/// point and `b` from it, the text before and after the cut, source `manual`.
pub open spec fn split_pair_ok(seg: SubtitleSegment, split_at_ms: i64, pos: int, a: SubtitleSegment, b: SubtitleSegment) -> bool {
    let cut = if pos <= seg.text@.len() { pos } else { seg.text@.len() as int };
    &&& a.video_id == seg.video_id && b.video_id == seg.video_id
    &&& a.language@ == seg.language@ && b.language@ == seg.language@
    &&& a.start_ms == seg.start_ms && a.end_ms == split_at_ms
    &&& b.start_ms == split_at_ms && b.end_ms == seg.end_ms
    &&& a.text@ == seg.text@.take(cut) && b.text@ == seg.text@.skip(cut)
    &&& a.source@ == "manual"@ && b.source@ == "manual"@
    &&& a.id == 0 && b.id == 0
}

/// Splits a stored segment in two at `split_at_ms`; `split_pos` is where
/// its text is cut (the caller's rounding of the time ratio times the
/// character count, a floating-point step). The new segments' ids are
/// given when they are stored.
pub fn split_segments(seg: &SubtitleSegment, split_at_ms: i64, split_pos: usize) -> (r: Result<
    (SubtitleSegment, SubtitleSegment),
    String,
>)
    ensures
        (split_at_ms <= seg.start_ms || split_at_ms >= seg.end_ms) ==> (r matches Err(e) && e@
            == "拆分时间点必须在字幕段时间范围内"@),
        (seg.start_ms < split_at_ms < seg.end_ms) ==> (r matches Ok(p) && split_pair_ok(
            *seg,
            split_at_ms,
            split_pos as int,
            p.0,
            p.1,
        )),
{
    match split_point_check(split_at_ms, seg.start_ms, seg.end_ms) {
        Err(e) => Err(e),
        Ok(()) => {
            let (t1, t2) = split_text(seg.text.as_str(), split_pos);
            proof {
                reveal_strlit("manual");
            }
            let a = SubtitleSegment {
                id: 0,
                video_id: seg.video_id,
                language: seg.language.clone(),
                start_ms: seg.start_ms,
                end_ms: split_at_ms,
                text: t1,
                source: "manual".to_owned(),
            };
            let b = SubtitleSegment {
                id: 0,
                video_id: seg.video_id,
                language: seg.language.clone(),
                start_ms: split_at_ms,
                end_ms: seg.end_ms,
                text: t2,
                source: "manual".to_owned(),
            };
            Ok((a, b))
        },
    }
}

// ---------------------------------------------------------------- import

/// A recognised line is stored trimmed, as `asr`, unless it is blank.
pub open spec fn import_line_spec(
    video_id: i64,
    language: Seq<char>,
    start_ms: i64,
    end_ms: i64,
    text: Seq<char>,
) -> Option<Seq<char>> {
    let t = trim_spec(text);
    if t.len() == 0 {
        None
    } else {
        Some(segment_insert_spec(video_id, language, start_ms, end_ms, t, "asr"@))
    }
}

pub fn import_line_sql(video_id: i64, language: &str, start_ms: i64, end_ms: i64, text: &str) -> (r:
    Option<String>)
    ensures
        crate::manifest::opt_view(r) == import_line_spec(video_id, language@, start_ms, end_ms, text@),
{
    let cs = chars_of(text);
    let t = trim_chars(&cs);
    if t.len() == 0 {
        return None;
    }
    let ts = string_of(&t);
    Some(segment_insert_sql(video_id, language, start_ms, end_ms, ts.as_str(), "asr"))
}

/// Recognised lines replace the video's earlier recognised ones.
pub fn clear_asr_lines_sql(video_id: i64) -> (r: String)
    ensures
        r@ == "DELETE FROM subtitle_segments WHERE video_id = "@ + int_text(video_id as int)
            + " AND source = 'asr'"@,
{
    let mut b: Vec<char> = Vec::new();
    push_str(&mut b, "DELETE FROM subtitle_segments WHERE video_id = ");
    push_int(&mut b, video_id);
    push_str(&mut b, " AND source = 'asr'");
    string_of(&b)
}

// ---------------------------------------------------------------- repair

/// Start times above this were written by the older conversion.
pub const BAD_THRESHOLD_MS: i64 = 10000000000000;

pub open spec fn repair_candidates_spec() -> Seq<char> {
    "SELECT DISTINCT s.video_id, v.recorded_at FROM subtitle_segments s JOIN videos v ON v.id = s.video_id WHERE s.start_ms > "@
        + int_text(BAD_THRESHOLD_MS as int)
}

/// The videos with segments past the threshold, with their recording times.
pub fn repair_candidates_sql() -> (r: String)
    ensures
        r@ == repair_candidates_spec(),
{
    let mut b: Vec<char> = Vec::new();
    push_str(
        &mut b,
        "SELECT DISTINCT s.video_id, v.recorded_at FROM subtitle_segments s JOIN videos v ON v.id = s.video_id WHERE s.start_ms > ",
    );
    push_int(&mut b, BAD_THRESHOLD_MS);
    string_of(&b)
}

pub open spec fn repair_shift_spec(video_id: i64, delta: i64) -> Seq<char> {
    "UPDATE subtitle_segments SET start_ms = start_ms - "@ + int_text(delta as int) + ", end_ms = end_ms - "@
        + int_text(delta as int) + " WHERE video_id = "@ + int_text(video_id as int) + " AND start_ms > "@
        + int_text(BAD_THRESHOLD_MS as int)
}

/// Shifts a video's bad segments back by `delta`.
pub fn repair_shift_sql(video_id: i64, delta: i64) -> (r: String)
    ensures
        r@ == repair_shift_spec(video_id, delta),
{
    let mut b: Vec<char> = Vec::new();
    push_str(&mut b, "UPDATE subtitle_segments SET start_ms = start_ms - ");
    push_int(&mut b, delta);
    push_str(&mut b, ", end_ms = end_ms - ");
    push_int(&mut b, delta);
    push_str(&mut b, " WHERE video_id = ");
    push_int(&mut b, video_id);
    push_str(&mut b, " AND start_ms > ");
    push_int(&mut b, BAD_THRESHOLD_MS);
    string_of(&b)
}

/// Videos with a segment shifted.
pub open spec fn videos_fixed(affected: Seq<u64>) -> int
    decreases affected.len(),
{
    if affected.len() == 0 {
        0
    } else {
        videos_fixed(affected.drop_last()) + (if affected.last() > 0 { 1int } else { 0int })
    }
}

/// Segments shifted.
pub open spec fn segments_fixed(affected: Seq<u64>) -> int
    decreases affected.len(),
{
    if affected.len() == 0 {
        0
    } else {
        segments_fixed(affected.drop_last()) + affected.last()
    }
}

pub proof fn lemma_fixed_bounds(affected: Seq<u64>)
    ensures
        0 <= videos_fixed(affected) <= affected.len(),
        0 <= segments_fixed(affected) <= affected.len() * u64::MAX,
    decreases affected.len(),
{
    if affected.len() > 0 {
        lemma_fixed_bounds(affected.drop_last());
    }
}

/// The report of a repair: the videos looked at, and of the shifts made
/// (rows changed per video shifted) how many videos and segments.
pub fn repair_result(checked: usize, affected: &Vec<u64>) -> (r: RepairSubtitleTimestampsResult)
    requires
        checked <= i64::MAX,
        affected@.len() <= i64::MAX,
        segments_fixed(affected@) <= i64::MAX,
    ensures
        r.videos_checked == checked,
        r.videos_fixed == videos_fixed(affected@),
        r.segments_fixed == segments_fixed(affected@),
{
    let mut vf: i64 = 0;
    let mut sf: i64 = 0;
    let mut i: usize = 0;
    proof {
        lemma_fixed_bounds(affected@);
    }
    while i < affected.len()
        invariant
            i <= affected.len(),
            segments_fixed(affected@) <= i64::MAX,
            vf == videos_fixed(affected@.take(i as int)),
            sf == segments_fixed(affected@.take(i as int)),
            vf <= i,
            affected@.len() <= i64::MAX,
        decreases affected.len() - i,
    {
        assert(affected@.take(i + 1).drop_last() == affected@.take(i as int));
        assert(affected@.take(i + 1).last() == affected@[i as int]);
        proof {
            lemma_prefix_fixed(affected@, i as int + 1);
            lemma_fixed_bounds(affected@.take(i as int));
        }
        let n = affected[i];
        if n > 0 {
            vf = vf + 1;
            sf = sf + n as i64;
        }
        i = i + 1;
    }
    assert(affected@.take(affected.len() as int) == affected@);
    RepairSubtitleTimestampsResult { videos_checked: checked as i64, videos_fixed: vf, segments_fixed: sf }
}

/// Segments shifted in a prefix are no more than in the whole.
pub proof fn lemma_prefix_fixed(affected: Seq<u64>, k: int)
    requires
        0 <= k <= affected.len(),
    ensures
        segments_fixed(affected.take(k)) <= segments_fixed(affected),
    decreases affected.len() - k,
{
    if k < affected.len() {
        lemma_prefix_fixed(affected, k + 1);
        assert(affected.take(k + 1).drop_last() == affected.take(k));
    } else {
        assert(affected.take(k) == affected);
    }
}

} // verus!
