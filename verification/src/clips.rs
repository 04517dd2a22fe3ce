//! Clip requests and the names of what a clip produces: output file names
//! from streamer, title and wall-clock time, batch folders and titles, and
//! file-system-safe names.

use vstd::prelude::*;
use crate::manifest::opt_view;
use crate::subtitle::{tdiv, trem};
use crate::text::{
    chars_of, digits_of, int_text, padded_text, parse_i64_spec, push_all, push_int, push_padded,
    push_padded_wide, push_str, split_by, string_of,
};

verus! {

/// A request to cut one clip.
pub struct CreateClipRequest {
    pub video_id: i64,
    pub start_ms: i64,
    pub end_ms: i64,
    pub title: Option<String>,
    /// Encoding preset, or the default (stream copy).
    pub preset_id: Option<i64>,
    /// Output directory override.
    pub output_dir: Option<String>,
    pub include_danmaku: bool,
    pub include_subtitle: bool,
    pub export_subtitle: bool,
    pub export_danmaku: bool,
    pub batch_id: Option<String>,
    pub batch_title: Option<String>,
}

/// A file a clip task produced.
pub struct ClipOutputInfo {
    pub id: i64,
    pub clip_task_id: i64,
    pub output_path: String,
    pub format: String,
    pub variant: String,
    pub file_size: Option<i64>,
}

/// One clip of a batch, with margins around its range.
pub struct BatchClipItem {
    pub start_ms: i64,
    pub end_ms: i64,
    pub title: Option<String>,
    pub preset_id: Option<i64>,
    pub offset_before_ms: i64,
    pub offset_after_ms: i64,
    pub audio_only: bool,
    pub include_danmaku: bool,
    pub include_subtitle: bool,
    pub export_subtitle: bool,
    pub export_danmaku: bool,
}

/// Several clips of one video.
pub struct CreateBatchClipsRequest {
    pub video_id: i64,
    pub clips: Vec<BatchClipItem>,
}

/// Which overlays a video can have burnt in.
pub struct BurnAvailability {
    pub has_danmaku_xml: bool,
    pub has_subtitle: bool,
    pub has_danmaku_factory: bool,
}

/// What deleting a batch did.
pub struct DeleteBatchResult {
    pub deleted: u64,
    pub skipped: u64,
}

/// Burn options a video offers: its danmaku file exists, it has
/// subtitles, and the danmaku renderer is installed (a non-empty path).
pub fn burn_availability(has_danmaku_xml: bool, has_subtitle: bool, danmaku_factory_path: &str) -> (r:
    BurnAvailability)
    ensures
        r.has_danmaku_xml == has_danmaku_xml,
        r.has_subtitle == has_subtitle,
        r.has_danmaku_factory == (danmaku_factory_path@.len() > 0),
{
    BurnAvailability { has_danmaku_xml, has_subtitle, has_danmaku_factory: !danmaku_factory_path.is_empty() }
}

/// A task may be deleted only when it is neither pending nor processing.
pub fn can_delete_task(status: &str) -> (r: Result<(), String>)
    ensures
        (status@ == "pending"@ || status@ == "processing"@) ==> (r matches Err(e) && e@ == "请先取消该任务"@),
        !(status@ == "pending"@ || status@ == "processing"@) ==> r is Ok,
{
    if crate::text::str_eq(status, "pending") || crate::text::str_eq(status, "processing") {
        Err("请先取消该任务".to_owned())
    } else {
        Ok(())
    }
}

/// Replaces characters that file systems refuse (`/ \ : * ? " < > |`)
/// with `_`.
pub open spec fn safe_char(c: char) -> char {
    if c == '/' || c == '\\' || c == ':' || c == '*' || c == '?' || c == '"' || c == '<' || c == '>'
        || c == '|' {
        '_'
    } else {
        c
    }
}

pub open spec fn sanitized(s: Seq<char>) -> Seq<char> {
    s.map_values(|c: char| safe_char(c))
}

pub fn sanitize_filename(name: &str) -> (r: String)
    ensures
        r@ == sanitized(name@),
{
    let cs = chars_of(name);
    let mut out: Vec<char> = Vec::new();
    let mut i: usize = 0;
    while i < cs.len()
        invariant
            i <= cs.len(),
            out@ == sanitized(cs@.take(i as int)),
        decreases cs.len() - i,
    {
        let c = cs[i];
        let d = if c == '/' || c == '\\' || c == ':' || c == '*' || c == '?' || c == '"' || c == '<'
            || c == '>' || c == '|' {
            '_'
        } else {
            c
        };
        out.push(d);
        i = i + 1;
        assert(out@ == sanitized(cs@.take(i as int)));
    }
    assert(cs@.take(cs.len() as int) == cs@);
    string_of(&out)
}

/// Sanitised names never contain a path separator or another refused
/// character.
pub proof fn law_sanitized_is_safe(s: Seq<char>)
    ensures
        forall|k: int|
            0 <= k < sanitized(s).len() ==> #[trigger] sanitized(s)[k] != '/' && sanitized(s)[k] != '\\'
                && sanitized(s)[k] != ':' && sanitized(s)[k] != '*' && sanitized(s)[k] != '?'
                && sanitized(s)[k] != '"' && sanitized(s)[k] != '<' && sanitized(s)[k] != '>'
                && sanitized(s)[k] != '|',
{
}

/// The six integer fields of `yyyy-MM-dd HH:mm:ss`, if they read as `i64`s.
pub open spec fn stamp_fields(ts: Seq<char>) -> Option<(int, int, int, int, int, int)> {
    let p = split_by(ts, seq!['-', ' ', ':']);
    if p.len() >= 6 && parse_i64_spec(p[0]) is Some && parse_i64_spec(p[1]) is Some
        && parse_i64_spec(p[2]) is Some && parse_i64_spec(p[3]) is Some && parse_i64_spec(p[4]) is Some
        && parse_i64_spec(p[5]) is Some {
        Some(
            (
                parse_i64_spec(p[0]).unwrap(),
                parse_i64_spec(p[1]).unwrap(),
                parse_i64_spec(p[2]).unwrap(),
                parse_i64_spec(p[3]).unwrap(),
                parse_i64_spec(p[4]).unwrap(),
                parse_i64_spec(p[5]).unwrap(),
            ),
        )
    } else {
        None
    }
}

/// Wall-clock `yyMMdd-HHmm` of an offset into a recording that started at
/// `f`: the day rolls over past midnight without a calendar.
pub open spec fn wall_clock(f: (int, int, int, int, int, int), offset_ms: int) -> Seq<char> {
    let total = f.3 * 3600 + f.4 * 60 + f.5 + tdiv(offset_ms, 1000);
    let day_s = trem(total, 86400);
    padded_text(trem(f.0, 100), 2) + padded_text(f.1, 2) + padded_text(f.2 + tdiv(total, 86400), 2) + "-"@
        + padded_text(tdiv(day_s, 3600), 2) + padded_text(tdiv(trem(day_s, 3600), 60), 2)
}

/// Offset `HHMMSS` into a recording.
pub open spec fn hms6(ms: int) -> Seq<char> {
    let t = tdiv(ms, 1000);
    padded_text(tdiv(t, 3600), 2) + padded_text(tdiv(trem(t, 3600), 60), 2) + padded_text(trem(t, 60), 2)
}

/// Whole hours in an offset.
pub open spec fn hours_of(ms: int) -> int {
    tdiv(tdiv(ms, 1000), 3600)
}

/// Offset `MMSS` (minutes and seconds within the hour).
pub open spec fn mmss(ms: int) -> Seq<char> {
    let t = tdiv(ms, 1000);
    padded_text(tdiv(trem(t, 3600), 60), 2) + padded_text(trem(t, 60), 2)
}

/// A clip's offsets as `HHMMSS-HHMMSS` when either end reaches an hour,
/// else as `MMSS-MMSS`: both ends always in the same form.
pub open spec fn relative_range(start_ms: int, end_ms: int) -> Seq<char> {
    if hours_of(start_ms) > 0 || hours_of(end_ms) > 0 {
        hms6(start_ms) + "-"@ + hms6(end_ms)
    } else {
        mmss(start_ms) + "-"@ + mmss(end_ms)
    }
}

/// A stream title cut to twenty characters with an ellipsis.
pub open spec fn short_title(t: Seq<char>) -> Seq<char> {
    if t.len() > 20 { t.take(20) + "..."@ } else { t }
}

pub open spec fn opt_part(o: Option<Seq<char>>) -> Seq<Seq<char>> {
    match o {
        Some(s) => seq![s],
        None => Seq::empty(),
    }
}

/// The parts of a standalone clip's name: streamer, shortened stream
/// title, clip name, then the wall-clock start and end (or the offsets
/// when the recording time is unknown).
pub open spec fn clip_name_parts(
    streamer: Option<Seq<char>>,
    stream_title: Option<Seq<char>>,
    clip_name: Option<Seq<char>>,
    recorded_at: Option<Seq<char>>,
    start_ms: int,
    end_ms: int,
) -> Seq<Seq<char>> {
    opt_part(streamer) + opt_part(
        match stream_title {
            Some(t) => Some(short_title(t)),
            None => None,
        },
    ) + opt_part(clip_name) + match recorded_at {
        Some(ts) => match stamp_fields(ts) {
            Some(f) => seq![wall_clock(f, start_ms), wall_clock(f, end_ms)],
            None => Seq::empty(),
        },
        None => seq![hms6(start_ms) + "-"@ + hms6(end_ms)],
    }
}

pub open spec fn join_dash(parts: Seq<Seq<char>>) -> Seq<char>
    decreases parts.len(),
{
    if parts.len() == 0 {
        Seq::empty()
    } else if parts.len() == 1 {
        parts[0]
    } else {
        join_dash(parts.drop_last()) + "-"@ + parts.last()
    }
}

/// The text before the first `.` of a file name.
pub open spec fn first_segment(s: Seq<char>) -> Seq<char> {
    split_by(s, seq!['.'])[0]
}

/// The name of a standalone clip: its parts joined by `-`, or, with no
/// part at all, the source file's name with the offsets.
pub open spec fn clip_name_spec(
    streamer: Option<Seq<char>>,
    stream_title: Option<Seq<char>>,
    clip_name: Option<Seq<char>>,
    recorded_at: Option<Seq<char>>,
    start_ms: int,
    end_ms: int,
    fallback: Seq<char>,
) -> Seq<char> {
    let parts = clip_name_parts(streamer, stream_title, clip_name, recorded_at, start_ms, end_ms);
    if parts.len() == 0 {
        first_segment(fallback) + "_"@ + int_text(start_ms) + "-"@ + int_text(end_ms)
    } else {
        join_dash(parts)
    }
}

/// The six fields of a recording time, read as `i64`s.
fn parse_stamp(ts: &str) -> (r: Option<(i64, i64, i64, i64, i64, i64)>)
    ensures
        match stamp_fields(ts@) {
            Some(f) => r matches Some(x) && x.0 == f.0 && x.1 == f.1 && x.2 == f.2 && x.3 == f.3
                && x.4 == f.4 && x.5 == f.5,
            None => r is None,
        },
{
    let cs = chars_of(ts);
    let seps: Vec<char> = vec!['-', ' ', ':'];
    let parts = crate::text::split_chars(&cs, &seps);
    assert(seps@ == seq!['-', ' ', ':']);
    let ghost p = split_by(ts@, seq!['-', ' ', ':']);
    if parts.len() < 6 {
        return None;
    }
    assert(parts@[0]@ == p[0] && parts@[1]@ == p[1] && parts@[2]@ == p[2]);
    assert(parts@[3]@ == p[3] && parts@[4]@ == p[4] && parts@[5]@ == p[5]);
    let lo: i128 = -0x8000000000000000;
    let hi: i128 = 0x7fffffffffffffff;
    let a = crate::text::parse_int(&parts[0], true, lo, hi);
    let b = crate::text::parse_int(&parts[1], true, lo, hi);
    let c = crate::text::parse_int(&parts[2], true, lo, hi);
    let d = crate::text::parse_int(&parts[3], true, lo, hi);
    let e = crate::text::parse_int(&parts[4], true, lo, hi);
    let f = crate::text::parse_int(&parts[5], true, lo, hi);
    match (a, b, c, d, e, f) {
        (Some(y), Some(mo), Some(dd), Some(h), Some(mi), Some(s)) => Some(
            (y as i64, mo as i64, dd as i64, h as i64, mi as i64, s as i64),
        ),
        _ => None,
    }
}

/// The numeric fields of `wall_clock`: year in the century, month, day,
/// hour and minute.
pub open spec fn wall_fields(f: (int, int, int, int, int, int), offset_ms: int) -> (int, int, int, int, int) {
    let total = f.3 * 3600 + f.4 * 60 + f.5 + tdiv(offset_ms, 1000);
    let day_s = trem(total, 86400);
    (trem(f.0, 100), f.1, f.2 + tdiv(total, 86400), tdiv(day_s, 3600), tdiv(trem(day_s, 3600), 60))
}

proof fn lemma_wall_clock_fields(f: (int, int, int, int, int, int), offset_ms: int)
    ensures
        wall_clock(f, offset_ms) == padded_text(wall_fields(f, offset_ms).0, 2) + padded_text(
            wall_fields(f, offset_ms).1,
            2,
        ) + padded_text(wall_fields(f, offset_ms).2, 2) + "-"@ + padded_text(wall_fields(f, offset_ms).3, 2)
            + padded_text(wall_fields(f, offset_ms).4, 2),
{
}

fn compute_wall_fields(f: (i64, i64, i64, i64, i64, i64), offset_ms: i64) -> (r: (i64, i64, i128, i64, i64))
    ensures
        (r.0 as int, r.1 as int, r.2 as int, r.3 as int, r.4 as int) == wall_fields(
            (f.0 as int, f.1 as int, f.2 as int, f.3 as int, f.4 as int, f.5 as int),
            offset_ms as int,
        ),
        r.2 > i128::MIN,
{
    let off: i64 = offset_ms / 1000;
    let total: i128 = (f.3 as i128) * 3600 + (f.4 as i128) * 60 + (f.5 as i128) + (off as i128);
    let day_s: i128 = total % 86400;
    let extra: i128 = total / 86400;
    let hh: i128 = day_s / 3600;
    let mm: i128 = (day_s % 3600) / 60;
    (f.0 % 100, f.1, (f.2 as i128) + extra, hh as i64, mm as i64)
}

fn push_wall_clock(buf: &mut Vec<char>, f: (i64, i64, i64, i64, i64, i64), offset_ms: i64)
    ensures
        final(buf)@ == old(buf)@ + wall_clock(
            (f.0 as int, f.1 as int, f.2 as int, f.3 as int, f.4 as int, f.5 as int),
            offset_ms as int,
        ),
{
    let ghost fi = (f.0 as int, f.1 as int, f.2 as int, f.3 as int, f.4 as int, f.5 as int);
    let w = compute_wall_fields(f, offset_ms);
    let ghost start = buf@;
    push_padded(buf, w.0, 2);
    push_padded(buf, w.1, 2);
    push_padded_wide(buf, w.2, 2);
    push_str(buf, "-");
    push_padded(buf, w.3, 2);
    push_padded(buf, w.4, 2);
    proof {
        lemma_wall_clock_fields(fi, offset_ms as int);
    }
}

fn push_hms6(buf: &mut Vec<char>, ms: i64)
    ensures
        final(buf)@ == old(buf)@ + hms6(ms as int),
{
    let t = ms / 1000;
    push_padded(buf, t / 3600, 2);
    push_padded(buf, (t % 3600) / 60, 2);
    push_padded(buf, t % 60, 2);
}

fn push_mmss(buf: &mut Vec<char>, ms: i64)
    ensures
        final(buf)@ == old(buf)@ + mmss(ms as int),
{
    let t = ms / 1000;
    push_padded(buf, (t % 3600) / 60, 2);
    push_padded(buf, t % 60, 2);
}

fn push_relative_range(buf: &mut Vec<char>, start_ms: i64, end_ms: i64)
    ensures
        final(buf)@ == old(buf)@ + relative_range(start_ms as int, end_ms as int),
{
    if (start_ms / 1000) / 3600 > 0 || (end_ms / 1000) / 3600 > 0 {
        push_hms6(buf, start_ms);
        push_str(buf, "-");
        push_hms6(buf, end_ms);
    } else {
        push_mmss(buf, start_ms);
        push_str(buf, "-");
        push_mmss(buf, end_ms);
    }
}

/// `HHMMSS-HHMMSS` or `MMSS-MMSS` for a clip's offsets, both ends in the
/// long form when either reaches an hour.
pub fn format_relative_time_range(start_ms: i64, end_ms: i64) -> (r: String)
    ensures
        r@ == relative_range(start_ms as int, end_ms as int),
{
    let mut buf: Vec<char> = Vec::new();
    push_relative_range(&mut buf, start_ms, end_ms);
    string_of(&buf)
}

fn short_title_chars(t: &str) -> (r: Vec<char>)
    ensures
        r@ == short_title(t@),
{
    let cs = chars_of(t);
    if cs.len() > 20 {
        let mut out: Vec<char> = Vec::new();
        let mut i: usize = 0;
        while i < 20
            invariant
                i <= 20 < cs.len(),
                out@ == cs@.take(i as int),
            decreases 20 - i,
        {
            out.push(cs[i]);
            i = i + 1;
            assert(out@ == cs@.take(i as int));
        }
        push_str(&mut out, "...");
        out
    } else {
        cs
    }
}

pub(crate) fn first_segment_chars(s: &str) -> (r: Vec<char>)
    ensures
        r@ == first_segment(s@),
{
    let cs = chars_of(s);
    let seps: Vec<char> = vec!['.'];
    let parts = crate::text::split_chars(&cs, &seps);
    assert(seps@ == seq!['.']);
    proof {
        crate::text::lemma_split_nonempty(cs@, seps@);
    }
    let mut out: Vec<char> = Vec::new();
    push_all(&mut out, &parts[0]);
    out
}

fn join_parts(parts: &Vec<Vec<char>>) -> (r: Vec<char>)
    ensures
        r@ == join_dash(crate::text::views(parts@)),
{
    let ghost pv = crate::text::views(parts@);
    let mut out: Vec<char> = Vec::new();
    let mut i: usize = 0;
    while i < parts.len()
        invariant
            i <= parts.len(),
            pv == crate::text::views(parts@),
            out@ == join_dash(pv.take(i as int)),
        decreases parts.len() - i,
    {
        assert(pv.take(i + 1).drop_last() == pv.take(i as int));
        assert(pv.take(i + 1).last() == parts@[i as int]@);
        if i > 0 {
            push_str(&mut out, "-");
        } else {
            assert(pv.take(1)[0] == parts@[0]@);
        }
        push_all(&mut out, &parts[i]);
        i = i + 1;
    }
    assert(pv.take(parts.len() as int) == pv);
    out
}

/// The name of a standalone clip.
pub fn build_clip_name(
    streamer: &Option<String>,
    stream_title: &Option<String>,
    clip_name: &Option<String>,
    recorded_at: &Option<String>,
    start_ms: i64,
    end_ms: i64,
    fallback_name: &str,
) -> (r: String)
    ensures
        r@ == clip_name_spec(
            opt_view(*streamer),
            opt_view(*stream_title),
            opt_view(*clip_name),
            opt_view(*recorded_at),
            start_ms as int,
            end_ms as int,
            fallback_name@,
        ),
{
    let ghost expected = clip_name_parts(
        opt_view(*streamer),
        opt_view(*stream_title),
        opt_view(*clip_name),
        opt_view(*recorded_at),
        start_ms as int,
        end_ms as int,
    );
    let mut parts: Vec<Vec<char>> = Vec::new();
    match streamer {
        Some(n) => {
            parts.push(chars_of(n.as_str()));
        },
        None => {},
    }
    match stream_title {
        Some(t) => {
            parts.push(short_title_chars(t.as_str()));
        },
        None => {},
    }
    match clip_name {
        Some(c) => {
            parts.push(chars_of(c.as_str()));
        },
        None => {},
    }
    let ghost head = crate::text::views(parts@);
    match recorded_at {
        Some(ts) => {
            match parse_stamp(ts.as_str()) {
                Some(f) => {
                    let mut a: Vec<char> = Vec::new();
                    push_wall_clock(&mut a, f, start_ms);
                    let mut b: Vec<char> = Vec::new();
                    push_wall_clock(&mut b, f, end_ms);
                    parts.push(a);
                    parts.push(b);
                },
                None => {},
            }
        },
        None => {
            let mut a: Vec<char> = Vec::new();
            push_hms6(&mut a, start_ms);
            push_str(&mut a, "-");
            push_hms6(&mut a, end_ms);
            parts.push(a);
        },
    }
    assert(crate::text::views(parts@) == expected);
    if parts.len() == 0 {
        let mut out = first_segment_chars(fallback_name);
        push_str(&mut out, "_");
        push_int(&mut out, start_ms);
        push_str(&mut out, "-");
        push_int(&mut out, end_ms);
        return string_of(&out);
    }
    let out = join_parts(&parts);
    string_of(&out)
}

/// The short name of a clip in a batch: its name (or `clip`), then the
/// wall-clock range, or the offsets when the recording time is unknown or
/// unreadable.
pub open spec fn batch_clip_name(
    clip_name: Option<Seq<char>>,
    recorded_at: Option<Seq<char>>,
    start_ms: int,
    end_ms: int,
) -> Seq<char> {
    let name = match clip_name {
        Some(n) => n,
        None => "clip"@,
    };
    let range = match recorded_at {
        Some(ts) => match stamp_fields(ts) {
            Some(f) => wall_clock(f, start_ms) + "-"@ + wall_clock(f, end_ms),
            None => relative_range(start_ms, end_ms),
        },
        None => relative_range(start_ms, end_ms),
    };
    name + "-"@ + range
}

fn push_range(buf: &mut Vec<char>, recorded_at: &Option<String>, start_ms: i64, end_ms: i64)
    ensures
        final(buf)@ == old(buf)@ + match opt_view(*recorded_at) {
            Some(ts) => match stamp_fields(ts) {
                Some(f) => wall_clock(f, start_ms as int) + "-"@ + wall_clock(f, end_ms as int),
                None => relative_range(start_ms as int, end_ms as int),
            },
            None => relative_range(start_ms as int, end_ms as int),
        },
{
    let stamp = match recorded_at {
        Some(ts) => parse_stamp(ts.as_str()),
        None => None,
    };
    match stamp {
        Some(f) => {
            push_wall_clock(buf, f, start_ms);
            push_str(buf, "-");
            push_wall_clock(buf, f, end_ms);
        },
        None => {
            push_relative_range(buf, start_ms, end_ms);
        },
    }
}

pub fn build_batch_clip_filename(
    clip_name: &Option<String>,
    recorded_at: &Option<String>,
    start_ms: i64,
    end_ms: i64,
) -> (r: String)
    ensures
        r@ == batch_clip_name(opt_view(*clip_name), opt_view(*recorded_at), start_ms as int, end_ms as int),
{
    let mut out: Vec<char> = Vec::new();
    match clip_name {
        Some(n) => push_str(&mut out, n.as_str()),
        None => push_str(&mut out, "clip"),
    }
    push_str(&mut out, "-");
    push_range(&mut out, recorded_at, start_ms, end_ms);
    string_of(&out)
}

/// The file extension of a clip's output: audio-only presets give `m4a`.
pub fn clip_extension(audio_only: Option<bool>) -> (r: String)
    ensures
        r@ == (if audio_only == Some(true) { "m4a"@ } else { "mp4"@ }),
{
    match audio_only {
        Some(true) => "m4a".to_owned(),
        _ => "mp4".to_owned(),
    }
}

/// The output file name of a clip: the batch short name or the full clip
/// name, made safe, with the extension.
pub open spec fn output_file_name(
    req: CreateClipRequest,
    streamer: Option<Seq<char>>,
    stream_title: Option<Seq<char>>,
    recorded_at: Option<Seq<char>>,
    video_name: Seq<char>,
    ext: Seq<char>,
) -> Seq<char> {
    let name = if req.batch_id is Some {
        batch_clip_name(opt_view(req.title), recorded_at, req.start_ms as int, req.end_ms as int)
    } else {
        clip_name_spec(
            streamer,
            stream_title,
            opt_view(req.title),
            recorded_at,
            req.start_ms as int,
            req.end_ms as int,
            video_name,
        )
    };
    sanitized(name) + "."@ + ext
}

pub fn clip_output_file_name(
    req: &CreateClipRequest,
    streamer: &Option<String>,
    stream_title: &Option<String>,
    recorded_at: &Option<String>,
    video_name: &str,
    ext: &str,
) -> (r: String)
    ensures
        r@ == output_file_name(
            *req,
            opt_view(*streamer),
            opt_view(*stream_title),
            opt_view(*recorded_at),
            video_name@,
            ext@,
        ),
{
    let name = if req.batch_id.is_some() {
        build_batch_clip_filename(&req.title, recorded_at, req.start_ms, req.end_ms)
    } else {
        build_clip_name(streamer, stream_title, &req.title, recorded_at, req.start_ms, req.end_ms, video_name)
    };
    let safe = sanitize_filename(name.as_str());
    let mut out: Vec<char> = Vec::new();
    push_str(&mut out, safe.as_str());
    push_str(&mut out, ".");
    push_str(&mut out, ext);
    string_of(&out)
}

/// A batch item's range widened by its margins, never before the start.
pub open spec fn effective_range(item: BatchClipItem) -> (int, int) {
    let s = item.start_ms - item.offset_before_ms;
    (if s < 0 { 0 } else { s }, item.end_ms + item.offset_after_ms)
}

/// The clip request for one item of a batch.
pub fn batch_item_request(
    video_id: i64,
    item: &BatchClipItem,
    preset_id: Option<i64>,
    batch_output_dir: &str,
    batch_id: &str,
    batch_title: &str,
) -> (r: CreateClipRequest)
    requires
        i64::MIN <= item.start_ms - item.offset_before_ms <= i64::MAX,
        i64::MIN <= item.end_ms + item.offset_after_ms <= i64::MAX,
    ensures
        (r.start_ms as int, r.end_ms as int) == effective_range(*item),
        r.video_id == video_id,
        opt_view(r.title) == opt_view(item.title),
        r.preset_id == preset_id,
        opt_view(r.output_dir) == Some(batch_output_dir@),
        r.include_danmaku == item.include_danmaku,
        r.include_subtitle == item.include_subtitle,
        r.export_subtitle == item.export_subtitle,
        r.export_danmaku == item.export_danmaku,
        opt_view(r.batch_id) == Some(batch_id@),
        opt_view(r.batch_title) == Some(batch_title@),
{
    let s = item.start_ms - item.offset_before_ms;
    CreateClipRequest {
        video_id,
        start_ms: if s < 0 { 0 } else { s },
        end_ms: item.end_ms + item.offset_after_ms,
        title: crate::storage::copy_opt_string(&item.title),
        preset_id,
        output_dir: Some(batch_output_dir.to_owned()),
        include_danmaku: item.include_danmaku,
        include_subtitle: item.include_subtitle,
        export_subtitle: item.export_subtitle,
        export_danmaku: item.export_danmaku,
        batch_id: Some(batch_id.to_owned()),
        batch_title: Some(batch_title.to_owned()),
    }
}

/// The folder of a batch: `{date}_{time}`, the streamer and the stream
/// title (twenty characters at most) when known and not empty, joined by
/// `_` and made safe.
pub open spec fn batch_folder(
    date_part: Seq<char>,
    time_part: Seq<char>,
    streamer: Option<Seq<char>>,
    stream_title: Option<Seq<char>>,
) -> Seq<char> {
    let s: Seq<char> = match streamer {
        Some(n) => if n.len() > 0 { "_"@ + n } else { Seq::empty() },
        None => Seq::empty(),
    };
    let t: Seq<char> = match stream_title {
        Some(x) => if x.len() > 0 { "_"@ + (if x.len() > 20 { x.take(20) } else { x }) } else { Seq::empty() },
        None => Seq::empty(),
    };
    sanitized(date_part + "_"@ + time_part + s + t)
}

pub fn batch_folder_name(
    date_part: &str,
    time_part: &str,
    streamer: &Option<String>,
    stream_title: &Option<String>,
) -> (r: String)
    ensures
        r@ == batch_folder(date_part@, time_part@, opt_view(*streamer), opt_view(*stream_title)),
{
    let mut out: Vec<char> = Vec::new();
    push_str(&mut out, date_part);
    push_str(&mut out, "_");
    push_str(&mut out, time_part);
    match streamer {
        Some(n) => if !n.as_str().is_empty() {
            push_str(&mut out, "_");
            push_str(&mut out, n.as_str());
        },
        None => {},
    }
    match stream_title {
        Some(x) => if !x.as_str().is_empty() {
            push_str(&mut out, "_");
            let cs = chars_of(x.as_str());
            if cs.len() > 20 {
                let mut i: usize = 0;
                let ghost before = out@;
                while i < 20
                    invariant
                        i <= 20 < cs.len(),
                        out@ == before + cs@.take(i as int),
                    decreases 20 - i,
                {
                    out.push(cs[i]);
                    i = i + 1;
                    assert(out@ == before + cs@.take(i as int));
                }
            } else {
                push_all(&mut out, &cs);
            }
        },
        None => {},
    }
    let joined = string_of(&out);
    sanitize_filename(joined.as_str())
}

/// The title of a batch: `[streamer] ` and the shortened stream title when
/// known and not empty (a placeholder when both are missing), then the time.
pub open spec fn batch_title_spec(
    streamer: Option<Seq<char>>,
    stream_title: Option<Seq<char>>,
    now: Seq<char>,
) -> Seq<char> {
    let s: Seq<char> = match streamer {
        Some(n) => if n.len() > 0 { "["@ + n + "] "@ } else { Seq::empty() },
        None => Seq::empty(),
    };
    let t: Seq<char> = match stream_title {
        Some(x) => if x.len() > 0 { short_title(x) } else { Seq::empty() },
        None => Seq::empty(),
    };
    let head = if (s + t).len() == 0 { "切片任务"@ } else { s + t };
    head + " - "@ + now
}

pub fn batch_title(streamer: &Option<String>, stream_title: &Option<String>, now: &str) -> (r: String)
    ensures
        r@ == batch_title_spec(opt_view(*streamer), opt_view(*stream_title), now@),
{
    let mut out: Vec<char> = Vec::new();
    match streamer {
        Some(n) => if !n.as_str().is_empty() {
            push_str(&mut out, "[");
            push_str(&mut out, n.as_str());
            push_str(&mut out, "] ");
        },
        None => {},
    }
    match stream_title {
        Some(x) => if !x.as_str().is_empty() {
            let t = short_title_chars(x.as_str());
            push_all(&mut out, &t);
        },
        None => {},
    }
    if out.len() == 0 {
        push_str(&mut out, "切片任务");
    }
    push_str(&mut out, " - ");
    push_str(&mut out, now);
    string_of(&out)
}

/// `yyyy年M月d日 HH:mm` from the local date fields as SQLite formats them
/// (month and day lose their leading zeros; unreadable ones become 0).
pub open spec fn local_datetime_cn_spec(
    y: Seq<char>,
    mo: Seq<char>,
    d: Seq<char>,
    h: Seq<char>,
    mi: Seq<char>,
) -> Seq<char> {
    let m = match crate::text::parse_u32_spec(mo) { Some(v) => v, None => 0 };
    let dd = match crate::text::parse_u32_spec(d) { Some(v) => v, None => 0 };
    y + "年"@ + digits_of(m as nat) + "月"@ + digits_of(dd as nat) + "日 "@ + h + ":"@ + mi
}

pub fn local_datetime_cn(y: &str, mo: &str, d: &str, h: &str, mi: &str) -> (r: String)
    ensures
        r@ == local_datetime_cn_spec(y@, mo@, d@, h@, mi@),
{
    let mcs = chars_of(mo);
    let dcs = chars_of(d);
    let m = match crate::text::parse_int(&mcs, false, 0, 0xffffffff) {
        Some(v) => v as u64,
        None => 0,
    };
    let dd = match crate::text::parse_int(&dcs, false, 0, 0xffffffff) {
        Some(v) => v as u64,
        None => 0,
    };
    let mut out: Vec<char> = Vec::new();
    push_str(&mut out, y);
    push_str(&mut out, "年");
    crate::text::push_digits(&mut out, m);
    push_str(&mut out, "月");
    crate::text::push_digits(&mut out, dd);
    push_str(&mut out, "日 ");
    push_str(&mut out, h);
    push_str(&mut out, ":");
    push_str(&mut out, mi);
    string_of(&out)
}

/// The name that avoids overwriting an existing output: the stem, the
/// current Unix seconds and the extension.
pub fn dedup_file_name(stem: &str, unix_secs: u64, ext: &str) -> (r: String)
    ensures
        r@ == stem@ + "_"@ + digits_of(unix_secs as nat) + "."@ + ext@,
{
    let mut out: Vec<char> = Vec::new();
    push_str(&mut out, stem);
    push_str(&mut out, "_");
    crate::text::push_digits(&mut out, unix_secs);
    push_str(&mut out, ".");
    push_str(&mut out, ext);
    string_of(&out)
}

} // verus!
