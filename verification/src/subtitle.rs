//! Subtitle rendering: ASS, SRT and WebVTT documents from stored segments,
//! and the clip-relative view of segments used when exporting a clip.

use vstd::prelude::*;
use crate::text::{int_text, padded_text, push_digits, push_int, push_padded, push_str, string_of};

verus! {

/// A stored subtitle line. Times are absolute (Unix-approximate ms) or
/// file-relative ms when the video has no recording timestamp.
pub struct SubtitleSegment {
    pub id: i64,
    pub video_id: i64,
    pub language: String,
    pub start_ms: i64,
    pub end_ms: i64,
    pub text: String,
    pub source: String,
}

/// Division truncating toward zero, as Rust's `/` on signed integers.
pub open spec fn tdiv(a: int, b: int) -> int {
    if a >= 0 { a / b } else { -((-a) / b) }
}

/// Remainder with the sign of the dividend, as Rust's `%` on signed integers.
pub open spec fn trem(a: int, b: int) -> int {
    if a >= 0 { a % b } else { -((-a) % b) }
}

pub open spec fn max0(x: int) -> int {
    if x < 0 { 0 } else { x }
}

pub open spec fn fits_i64(x: int) -> bool {
    i64::MIN <= x <= i64::MAX
}

/// `H:MM:SS.CC` as `format_ass_time` renders it.
pub open spec fn ass_time_text(ms: int) -> Seq<char> {
    let t = tdiv(ms, 1000);
    int_text(tdiv(t, 3600)) + seq![':'] + padded_text(tdiv(trem(t, 3600), 60), 2) + seq![':']
        + padded_text(trem(t, 60), 2) + seq!['.'] + padded_text(tdiv(trem(ms, 1000), 10), 2)
}

/// Fields of an ASS timestamp for a non-negative time: hours (unbounded),
/// minutes and seconds below 60, centiseconds below 100.
pub open spec fn ass_fields(ms: int) -> (int, int, int, int) {
    let t = tdiv(ms, 1000);
    (tdiv(t, 3600), tdiv(trem(t, 3600), 60), trem(t, 60), tdiv(trem(ms, 1000), 10))
}

/// An ASS timestamp reads back to the time it was made from, truncated to
/// whole centiseconds (never rounded up): for `ms >= 0` the text is
/// `h:mm:ss.cc` with `h*3600000 + m*60000 + s*1000 + cs*10 == ms - ms % 10`.
pub proof fn law_ass_time_reads_back(ms: int)
    requires
        ms >= 0,
    ensures
        ({
            let (h, m, s, cs) = ass_fields(ms);
            &&& 0 <= h && 0 <= m < 60 && 0 <= s < 60 && 0 <= cs < 100
            &&& h * 3600000 + m * 60000 + s * 1000 + cs * 10 == ms - ms % 10
            &&& ass_time_text(ms) == int_text(h) + seq![':'] + padded_text(m, 2) + seq![':']
                + padded_text(s, 2) + seq!['.'] + padded_text(cs, 2)
        }),
{
    let t = ms / 1000;
    let r = ms % 1000;
    let h = t / 3600;
    let q = t % 3600;
    let m = q / 60;
    let s = q % 60;
    let cs = r / 10;
    assert(ms == 1000 * t + r && 0 <= r < 1000) by (nonlinear_arith)
        requires t == ms / 1000, r == ms % 1000, ms >= 0;
    assert(t == 3600 * h + q && 0 <= q < 3600 && h >= 0) by (nonlinear_arith)
        requires h == t / 3600, q == t % 3600, t >= 0;
    assert(q == 60 * m + s && 0 <= s < 60 && 0 <= m < 60) by (nonlinear_arith)
        requires m == q / 60, s == q % 60, 0 <= q < 3600;
    assert(t % 60 == s) by (nonlinear_arith)
        requires t == 3600 * h + q, q == 60 * m + s, 0 <= s < 60, h >= 0, m >= 0;
    assert(r == 10 * cs + r % 10 && 0 <= cs < 100 && r % 10 == ms % 10) by (nonlinear_arith)
        requires cs == r / 10, 0 <= r < 1000, ms == 1000 * t + r, t >= 0;
}

/// `HH:MM:SS<sep>mmm` as the SRT (`,`) and WebVTT (`.`) time formats render it.
pub open spec fn clock_ms_text(ms: int, sep: char) -> Seq<char> {
    let t = tdiv(ms, 1000);
    padded_text(tdiv(t, 3600), 2) + seq![':'] + padded_text(tdiv(trem(t, 3600), 60), 2) + seq![':']
        + padded_text(trem(t, 60), 2) + seq![sep] + padded_text(trem(ms, 1000), 3)
}

/// Formats milliseconds as an ASS timestamp `H:MM:SS.CC`.
pub fn format_ass_time(ms: i64) -> (r: String)
    ensures
        r@ == ass_time_text(ms as int),
{
    let mut buf: Vec<char> = Vec::new();
    push_ass_time(&mut buf, ms);
    string_of(&buf)
}

pub fn push_ass_time(buf: &mut Vec<char>, ms: i64)
    ensures
        final(buf)@ == old(buf)@ + ass_time_text(ms as int),
{
    let total_secs = ms / 1000;
    let h = total_secs / 3600;
    let hr = total_secs % 3600;
    let m = hr / 60;
    let s = total_secs % 60;
    let msr = ms % 1000;
    let cs = msr / 10;
    assert(total_secs == tdiv(ms as int, 1000));
    assert(h == tdiv(total_secs as int, 3600));
    assert(hr == trem(total_secs as int, 3600));
    assert(m == tdiv(trem(total_secs as int, 3600), 60));
    assert(s == trem(total_secs as int, 60));
    assert(msr == trem(ms as int, 1000));
    assert(cs == tdiv(trem(ms as int, 1000), 10));
    push_int(buf, h);
    buf.push(':');
    push_padded(buf, m, 2);
    buf.push(':');
    push_padded(buf, s, 2);
    buf.push('.');
    push_padded(buf, cs, 2);
}

pub fn push_clock_ms(buf: &mut Vec<char>, ms: i64, sep: char)
    ensures
        final(buf)@ == old(buf)@ + clock_ms_text(ms as int, sep),
{
    let total_secs = ms / 1000;
    let h = total_secs / 3600;
    let hr = total_secs % 3600;
    let m = hr / 60;
    let s = total_secs % 60;
    let ms_part = ms % 1000;
    assert(total_secs == tdiv(ms as int, 1000));
    assert(h == tdiv(total_secs as int, 3600));
    assert(hr == trem(total_secs as int, 3600));
    assert(m == tdiv(trem(total_secs as int, 3600), 60));
    assert(s == trem(total_secs as int, 60));
    assert(ms_part == trem(ms as int, 1000));
    push_padded(buf, h, 2);
    buf.push(':');
    push_padded(buf, m, 2);
    buf.push(':');
    push_padded(buf, s, 2);
    buf.push(sep);
    push_padded(buf, ms_part, 3);
}

/// Formats milliseconds as an SRT timestamp `HH:MM:SS,mmm`.
pub fn format_srt_time(ms: i64) -> (r: String)
    ensures
        r@ == clock_ms_text(ms as int, ','),
{
    let mut buf: Vec<char> = Vec::new();
    push_clock_ms(&mut buf, ms, ',');
    string_of(&buf)
}

/// Formats milliseconds as a WebVTT timestamp `HH:MM:SS.mmm`.
pub fn format_vtt_time(ms: i64) -> (r: String)
    ensures
        r@ == clock_ms_text(ms as int, '.'),
{
    let mut buf: Vec<char> = Vec::new();
    push_clock_ms(&mut buf, ms, '.');
    string_of(&buf)
}

pub open spec fn ass_header() -> Seq<char> {
    "[Script Info]\nTitle: ClipperStudio Export\nScriptType: v4.00+\nPlayResX: 1920\nPlayResY: 1080\n\n[V4+ Styles]\nFormat: Name, Fontname, Fontsize, PrimaryColour, SecondaryColour, OutlineColour, BackColour, Bold, Italic, Underline, StrikeOut, ScaleX, ScaleY, Spacing, Angle, BorderStyle, Outline, Shadow, Alignment, MarginL, MarginR, MarginV, Encoding\nStyle: Default,Arial,48,&H00FFFFFF,&H000000FF,&H00000000,&H80000000,-1,0,0,0,100,100,0,0,1,2,1,2,10,10,10,1\n\n[Events]\nFormat: Layer, Start, End, Style, Name, MarginL, MarginR, MarginV, Effect, Text\n"@
}

/// One ASS `Dialogue:` event with both times clamped at zero.
pub open spec fn dialogue_line(start: int, end: int, text: Seq<char>) -> Seq<char> {
    "Dialogue: 0,"@ + ass_time_text(max0(start)) + ","@ + ass_time_text(max0(end))
        + ",Default,,0,0,0,,"@ + text + "\n"@
}

/// The events of an ASS document, one per segment in order, shifted by `-base`.
pub open spec fn ass_events(segs: Seq<SubtitleSegment>, base: int) -> Seq<char>
    decreases segs.len(),
{
    if segs.len() == 0 {
        Seq::empty()
    } else {
        ass_events(segs.drop_last(), base) + dialogue_line(
            segs.last().start_ms - base,
            segs.last().end_ms - base,
            segs.last().text@,
        )
    }
}

/// The segments' times shifted by `-base` stay within `i64`.
pub open spec fn shift_fits(segs: Seq<SubtitleSegment>, base: int) -> bool {
    forall|k: int|
        0 <= k < segs.len() ==> fits_i64(#[trigger] segs[k].start_ms - base) && fits_i64(
            segs[k].end_ms - base,
        )
}

/// Builds an ASS document; `base_ms` converts absolute times to video-relative ones.
pub fn generate_ass(segments: &[SubtitleSegment], base_ms: i64) -> (r: String)
    requires
        shift_fits(segments@, base_ms as int),
    ensures
        r@ == ass_header() + ass_events(segments@, base_ms as int),
{
    let mut buf: Vec<char> = Vec::new();
    push_str(&mut buf, "[Script Info]\nTitle: ClipperStudio Export\nScriptType: v4.00+\nPlayResX: 1920\nPlayResY: 1080\n\n[V4+ Styles]\nFormat: Name, Fontname, Fontsize, PrimaryColour, SecondaryColour, OutlineColour, BackColour, Bold, Italic, Underline, StrikeOut, ScaleX, ScaleY, Spacing, Angle, BorderStyle, Outline, Shadow, Alignment, MarginL, MarginR, MarginV, Encoding\nStyle: Default,Arial,48,&H00FFFFFF,&H000000FF,&H00000000,&H80000000,-1,0,0,0,100,100,0,0,1,2,1,2,10,10,10,1\n\n[Events]\nFormat: Layer, Start, End, Style, Name, MarginL, MarginR, MarginV, Effect, Text\n");
    let mut i: usize = 0;
    while i < segments.len()
        invariant
            i <= segments.len(),
            shift_fits(segments@, base_ms as int),
            buf@ == ass_header() + ass_events(segments@.take(i as int), base_ms as int),
        decreases segments.len() - i,
    {
        let seg = &segments[i];
        assert(fits_i64(segments@[i as int].start_ms - base_ms));
        let start = seg.start_ms - base_ms;
        let end = seg.end_ms - base_ms;
        push_dialogue(&mut buf, start, end, seg.text.as_str());
        proof {
            let t = segments@.take(i + 1);
            assert(t.drop_last() == segments@.take(i as int));
            assert(t.last() == segments@[i as int]);
        }
        i = i + 1;
    }
    assert(segments@.take(segments.len() as int) == segments@);
    string_of(&buf)
}

/// Appends one `Dialogue:` event.
pub fn push_dialogue(buf: &mut Vec<char>, start: i64, end: i64, text: &str)
    ensures
        final(buf)@ == old(buf)@ + dialogue_line(start as int, end as int, text@),
{
    push_str(buf, "Dialogue: 0,");
    push_ass_time(buf, if start < 0 { 0 } else { start });
    push_str(buf, ",");
    push_ass_time(buf, if end < 0 { 0 } else { end });
    push_str(buf, ",Default,,0,0,0,,");
    push_str(buf, text);
    push_str(buf, "\n");
}

/// One SRT cue: number, time range, text, blank line.
pub open spec fn srt_cue(index: int, start: int, end: int, text: Seq<char>) -> Seq<char> {
    int_text(index) + "\n"@ + clock_ms_text(start, ',') + " --> "@ + clock_ms_text(end, ',')
        + "\n"@ + text + "\n\n"@
}

pub open spec fn srt_cues(segs: Seq<SubtitleSegment>, base: int) -> Seq<char>
    decreases segs.len(),
{
    if segs.len() == 0 {
        Seq::empty()
    } else {
        srt_cues(segs.drop_last(), base) + srt_cue(
            segs.len() as int,
            max0(segs.last().start_ms - base),
            max0(segs.last().end_ms - base),
            segs.last().text@,
        )
    }
}

/// Renders segments as an SRT document, shifting times by `-base_ms` and clamping at zero.
pub fn to_srt(segments: &[SubtitleSegment], base_ms: i64) -> (r: String)
    requires
        shift_fits(segments@, base_ms as int),
    ensures
        r@ == srt_cues(segments@, base_ms as int),
{
    let mut buf: Vec<char> = Vec::new();
    let mut i: usize = 0;
    while i < segments.len()
        invariant
            i <= segments.len(),
            shift_fits(segments@, base_ms as int),
            buf@ == srt_cues(segments@.take(i as int), base_ms as int),
        decreases segments.len() - i,
    {
        let seg = &segments[i];
        assert(fits_i64(segments@[i as int].start_ms - base_ms));
        let start = seg.start_ms - base_ms;
        let end = seg.end_ms - base_ms;
        let ghost before = buf@;
        push_srt_cue(&mut buf, i, if start < 0 { 0 } else { start }, if end < 0 { 0 } else { end }, seg.text.as_str());
        proof {
            let t = segments@.take(i + 1);
            assert(t.drop_last() == segments@.take(i as int));
            assert(t.last() == segments@[i as int]);
        }
        i = i + 1;
    }
    assert(segments@.take(segments.len() as int) == segments@);
    string_of(&buf)
}

/// Appends the SRT cue numbered `i + 1`.
#[verifier::spinoff_prover]
#[verifier::rlimit(30)]
pub fn push_srt_cue(buf: &mut Vec<char>, i: usize, start: i64, end: i64, text: &str)
    requires
        i < usize::MAX,
    ensures
        final(buf)@ == old(buf)@ + srt_cue(i + 1, start as int, end as int, text@),
{
    let ghost s0 = buf@;
    push_digits(buf, (i + 1) as u64);
    push_str(buf, "\n");
    push_clock_ms(buf, start, ',');
    let ghost s1 = buf@;
    assert(s1 == s0 + crate::text::digits_of((i + 1) as nat) + "\n"@ + clock_ms_text(start as int, ','));
    push_str(buf, " --> ");
    push_clock_ms(buf, end, ',');
    push_str(buf, "\n");
    let ghost s2 = buf@;
    assert(s2 == s1 + " --> "@ + clock_ms_text(end as int, ',') + "\n"@);
    push_str(buf, text);
    push_str(buf, "\n\n");
    assert(buf@ == s2 + text@ + "\n\n"@);
}

/// Appends one WebVTT cue.
pub fn push_vtt_cue(buf: &mut Vec<char>, start: i64, end: i64, text: &str)
    ensures
        final(buf)@ == old(buf)@ + vtt_cue(start as int, end as int, text@),
{
    push_clock_ms(buf, start, '.');
    push_str(buf, " --> ");
    push_clock_ms(buf, end, '.');
    push_str(buf, "\n");
    push_str(buf, text);
    push_str(buf, "\n\n");
}

pub open spec fn vtt_cue(start: int, end: int, text: Seq<char>) -> Seq<char> {
    clock_ms_text(start, '.') + " --> "@ + clock_ms_text(end, '.') + "\n"@ + text + "\n\n"@
}

pub open spec fn vtt_cues(segs: Seq<SubtitleSegment>, base: int) -> Seq<char>
    decreases segs.len(),
{
    if segs.len() == 0 {
        Seq::empty()
    } else {
        vtt_cues(segs.drop_last(), base) + vtt_cue(
            max0(segs.last().start_ms - base),
            max0(segs.last().end_ms - base),
            segs.last().text@,
        )
    }
}

/// Renders segments as a WebVTT document, shifting times by `-base_ms` and clamping at zero.
pub fn to_vtt(segments: &[SubtitleSegment], base_ms: i64) -> (r: String)
    requires
        shift_fits(segments@, base_ms as int),
    ensures
        r@ == "WEBVTT\n\n"@ + vtt_cues(segments@, base_ms as int),
{
    let mut buf: Vec<char> = Vec::new();
    push_str(&mut buf, "WEBVTT\n\n");
    let mut i: usize = 0;
    while i < segments.len()
        invariant
            i <= segments.len(),
            shift_fits(segments@, base_ms as int),
            buf@ == "WEBVTT\n\n"@ + vtt_cues(segments@.take(i as int), base_ms as int),
        decreases segments.len() - i,
    {
        let seg = &segments[i];
        assert(fits_i64(segments@[i as int].start_ms - base_ms));
        let start = seg.start_ms - base_ms;
        let end = seg.end_ms - base_ms;
        push_vtt_cue(&mut buf, if start < 0 { 0 } else { start }, if end < 0 { 0 } else { end }, seg.text.as_str());
        proof {
            let t = segments@.take(i + 1);
            assert(t.drop_last() == segments@.take(i as int));
            assert(t.last() == segments@[i as int]);
        }
        i = i + 1;
    }
    assert(segments@.take(segments.len() as int) == segments@);
    string_of(&buf)
}


pub open spec fn min_int(a: int, b: int) -> int {
    if a < b { a } else { b }
}

/// The recording start of a video on the segments' time scale: its
/// recording time when that parses, else zero.
pub open spec fn clip_base_spec(recorded_at: Option<Seq<char>>) -> int {
    match recorded_at {
        Some(ts) => match crate::asr::recorded_at_ms(ts) {
            Some(v) => v,
            None => 0,
        },
        None => 0,
    }
}

pub fn clip_base_ms(recorded_at: &Option<String>) -> (r: i64)
    requires
        match *recorded_at {
            Some(ts) => match crate::asr::recorded_at_ms(ts@) {
                Some(v) => fits_i64(v),
                None => true,
            },
            None => true,
        },
    ensures
        r == clip_base_spec(crate::manifest::opt_view(*recorded_at)),
{
    match recorded_at {
        Some(ts) => match crate::asr::parse_recorded_at_to_unix_ms(ts.as_str()) {
            Some(v) => v,
            None => 0,
        },
        None => 0,
    }
}

pub open spec fn clip_segments_query_spec(video_id: i64, abs_start: int, abs_end: int) -> Seq<char> {
    "SELECT * FROM subtitle_segments WHERE video_id = "@ + int_text(video_id as int)
        + " AND end_ms > "@ + int_text(abs_start) + " AND start_ms < "@ + int_text(abs_end)
        + " ORDER BY start_ms ASC"@
}

/// The segments of a video that overlap a clip, earliest first; the clip
/// range is video-relative and moved onto the segments' scale by `base_ms`.
pub fn clip_segments_query(video_id: i64, base_ms: i64, clip_start_ms: i64, clip_end_ms: i64) -> (r:
    String)
    requires
        fits_i64(base_ms + clip_start_ms),
        fits_i64(base_ms + clip_end_ms),
    ensures
        r@ == clip_segments_query_spec(video_id, base_ms + clip_start_ms, base_ms + clip_end_ms),
{
    let mut b: Vec<char> = Vec::new();
    push_str(&mut b, "SELECT * FROM subtitle_segments WHERE video_id = ");
    push_int(&mut b, video_id);
    push_str(&mut b, " AND end_ms > ");
    push_int(&mut b, base_ms + clip_start_ms);
    push_str(&mut b, " AND start_ms < ");
    push_int(&mut b, base_ms + clip_end_ms);
    push_str(&mut b, " ORDER BY start_ms ASC");
    string_of(&b)
}

/// The clip's segments can be moved to clip-relative times within `i64`.
pub open spec fn clip_shift_fits(rows: Seq<SubtitleSegment>, abs_start: int) -> bool {
    forall|k: int|
        0 <= k < rows.len() ==> fits_i64(#[trigger] rows[k].start_ms - abs_start) && fits_i64(
            rows[k].end_ms - abs_start,
        )
}

/// The found segments as the clip sees them: times relative to the clip
/// start, each start clamped at zero and each end at the clip's length.
pub fn clip_relative_segments(
    rows: &Vec<SubtitleSegment>,
    video_id: i64,
    base_ms: i64,
    clip_start_ms: i64,
    clip_end_ms: i64,
) -> (r: Vec<SubtitleSegment>)
    requires
        fits_i64(base_ms + clip_start_ms),
        fits_i64(clip_end_ms - clip_start_ms),
        clip_shift_fits(rows@, base_ms + clip_start_ms),
    ensures
        r@.len() == rows@.len(),
        forall|k: int|
            0 <= k < r@.len() ==> {
                &&& (#[trigger] r@[k]).id == rows@[k].id
                &&& r@[k].video_id == video_id
                &&& r@[k].language@ == rows@[k].language@
                &&& r@[k].start_ms == max0(rows@[k].start_ms - (base_ms + clip_start_ms))
                &&& r@[k].end_ms == min_int(
                    rows@[k].end_ms - (base_ms + clip_start_ms),
                    clip_end_ms - clip_start_ms,
                )
                &&& r@[k].text@ == rows@[k].text@
                &&& r@[k].source@ == rows@[k].source@
            },
{
    let abs_start = base_ms + clip_start_ms;
    let duration = clip_end_ms - clip_start_ms;
    let mut r: Vec<SubtitleSegment> = Vec::new();
    let mut i: usize = 0;
    while i < rows.len()
        invariant
            i <= rows.len(),
            abs_start == base_ms + clip_start_ms,
            duration == clip_end_ms - clip_start_ms,
            clip_shift_fits(rows@, abs_start as int),
            r@.len() == i,
            forall|k: int|
                0 <= k < i ==> {
                    &&& (#[trigger] r@[k]).id == rows@[k].id
                    &&& r@[k].video_id == video_id
                    &&& r@[k].language@ == rows@[k].language@
                    &&& r@[k].start_ms == max0(rows@[k].start_ms - abs_start)
                    &&& r@[k].end_ms == min_int(rows@[k].end_ms - abs_start, duration as int)
                    &&& r@[k].text@ == rows@[k].text@
                    &&& r@[k].source@ == rows@[k].source@
                },
        decreases rows.len() - i,
    {
        let row = &rows[i];
        assert(fits_i64(rows@[i as int].start_ms - abs_start));
        let start = row.start_ms - abs_start;
        let end = row.end_ms - abs_start;
        r.push(
            SubtitleSegment {
                id: row.id,
                video_id,
                language: row.language.clone(),
                start_ms: if start < 0 { 0 } else { start },
                end_ms: if end < duration { end } else { duration },
                text: row.text.clone(),
                source: row.source.clone(),
            },
        );
        i = i + 1;
    }
    r
}

/// The SRT document of a clip's segments: times clamped to the clip.
pub open spec fn clip_srt_cues(segs: Seq<SubtitleSegment>, duration: int) -> Seq<char>
    decreases segs.len(),
{
    if segs.len() == 0 {
        Seq::empty()
    } else {
        clip_srt_cues(segs.drop_last(), duration) + srt_cue(
            segs.len() as int,
            max0(segs.last().start_ms as int),
            min_int(segs.last().end_ms as int, duration),
            segs.last().text@,
        )
    }
}

/// The SRT export of a clip: nothing when no segment falls in it.
pub fn clip_srt(segments: &[SubtitleSegment], clip_start_ms: i64, clip_end_ms: i64) -> (r: Option<
    String,
>)
    requires
        fits_i64(clip_end_ms - clip_start_ms),
    ensures
        segments@.len() == 0 ==> r is None,
        segments@.len() > 0 ==> (r matches Some(t) && t@ == clip_srt_cues(
            segments@,
            clip_end_ms - clip_start_ms,
        )),
{
    if segments.len() == 0 {
        return None;
    }
    let duration = clip_end_ms - clip_start_ms;
    let mut buf: Vec<char> = Vec::new();
    let mut i: usize = 0;
    while i < segments.len()
        invariant
            i <= segments.len(),
            duration == clip_end_ms - clip_start_ms,
            buf@ == clip_srt_cues(segments@.take(i as int), duration as int),
        decreases segments.len() - i,
    {
        let seg = &segments[i];
        let start = if seg.start_ms < 0 { 0 } else { seg.start_ms };
        let end = if seg.end_ms < duration { seg.end_ms } else { duration };
        push_srt_cue(&mut buf, i, start, end, seg.text.as_str());
        proof {
            let t = segments@.take(i + 1);
            assert(t.drop_last() == segments@.take(i as int));
            assert(t.last() == segments@[i as int]);
        }
        i = i + 1;
    }
    assert(segments@.take(segments.len() as int) == segments@);
    Some(string_of(&buf))
}

/// The ASS export of a clip: its segments are clip-relative already;
/// nothing when no segment falls in it.
pub fn clip_ass(segments: &[SubtitleSegment]) -> (r: Option<String>)
    ensures
        segments@.len() == 0 ==> r is None,
        segments@.len() > 0 ==> (r matches Some(t) && t@ == ass_header() + ass_events(segments@, 0)),
{
    if segments.len() == 0 {
        return None;
    }
    assert forall|k: int| 0 <= k < segments@.len() implies fits_i64(
        #[trigger] segments@[k].start_ms - 0,
    ) && fits_i64(segments@[k].end_ms - 0) by {}
    Some(generate_ass(segments, 0))
}

} // verus!
