//! Planning FFmpeg clip and burn passes: encoder choice, quality flags,
//! the argument list of a clip, progress lines, and which ASS overlay a
//! burn pass uses.

use vstd::prelude::*;
use crate::config::strs;
use crate::danmaku::{push_seconds3, seconds3_text};
use crate::text::{
    chars_of, contains_run, decimal_string, digits_of, find_from, find_run, lemma_find_from_bounds,
    lines_spec, push_all, push_str, replace_first, replace_first_chars, starts_with, starts_with_spec,
    str_contains, str_eq, str_starts_with, string_of, text_lines, views,
};

verus! {

/// Encoding preset of a clip.
pub struct PresetOptions {
    /// `copy`, `auto`, `h264`, `h265`, `hevc` or an FFmpeg encoder name.
    pub codec: String,
    pub crf: Option<u32>,
    pub audio_only: Option<bool>,
}

/// Overlay burning requested after clipping.
pub struct BurnOptions {
    pub burn_danmaku: bool,
    pub burn_subtitle: bool,
    /// Danmaku ASS file with clip-relative times.
    pub danmaku_ass_path: Option<String>,
    /// Subtitle ASS file with clip-relative times.
    pub subtitle_ass_path: Option<String>,
    /// Codec hint for the burn pass.
    pub burn_codec: String,
    pub burn_crf: Option<u32>,
}

impl BurnOptions {
    pub open spec fn needs_burn_spec(self) -> bool {
        (self.burn_danmaku && self.danmaku_ass_path.is_some()) || (self.burn_subtitle
            && self.subtitle_ass_path.is_some())
    }

    /// Whether some overlay is requested and has its ASS file.
    pub fn needs_burn(&self) -> (r: bool)
        ensures
            r == self.needs_burn_spec(),
    {
        (self.burn_danmaku && self.danmaku_ass_path.is_some()) || (self.burn_subtitle
            && self.subtitle_ass_path.is_some())
    }
}

/// The quality flags an encoder takes for a CRF value: hardware encoders
/// have their own flag, VideoToolbox none at all.
pub open spec fn quality_args(codec: Seq<char>, crf: Option<u32>) -> Seq<Seq<char>> {
    match crf {
        None => Seq::empty(),
        Some(v) => {
            let n = digits_of(v as nat);
            if contains_run(codec, "videotoolbox"@) {
                Seq::empty()
            } else if contains_run(codec, "nvenc"@) {
                seq!["-cq"@, n, "-b:v"@, "0"@]
            } else if contains_run(codec, "qsv"@) {
                seq!["-global_quality"@, n]
            } else if contains_run(codec, "amf"@) {
                seq!["-q:v"@, n]
            } else {
                seq!["-crf"@, n]
            }
        },
    }
}

/// Appends the quality flags for `crf` under `video_codec`.
pub fn apply_quality_args(video_codec: &str, crf: Option<u32>, args: &mut Vec<String>)
    ensures
        strs(final(args)@) == strs(old(args)@) + quality_args(video_codec@, crf),
{
    let ghost start = strs(args@);
    let crf_val = match crf {
        None => {
            return;
        },
        Some(v) => v,
    };
    if str_contains(video_codec, "videotoolbox") {
        return;
    }
    let n = decimal_string(crf_val as u64);
    if str_contains(video_codec, "nvenc") {
        args.push("-cq".to_owned());
        args.push(n);
        args.push("-b:v".to_owned());
        args.push("0".to_owned());
        assert(strs(args@) == start + seq!["-cq"@, n@, "-b:v"@, "0"@]);
    } else if str_contains(video_codec, "qsv") {
        args.push("-global_quality".to_owned());
        args.push(n);
        assert(strs(args@) == start + seq!["-global_quality"@, n@]);
    } else if str_contains(video_codec, "amf") {
        args.push("-q:v".to_owned());
        args.push(n);
        assert(strs(args@) == start + seq!["-q:v"@, n@]);
    } else {
        args.push("-crf".to_owned());
        args.push(n);
        assert(strs(args@) == start + seq!["-crf"@, n@]);
    }
}

pub open spec fn is_h264_hint(hint: Seq<char>) -> bool {
    hint == "h264"@ || hint == "auto"@
}

pub open spec fn is_h265_hint(hint: Seq<char>) -> bool {
    hint == "h265"@ || hint == "hevc"@
}

/// Hardware encoders tried for a codec hint, best first.
pub open spec fn encoder_candidates_spec(hint: Seq<char>) -> Seq<Seq<char>> {
    if is_h264_hint(hint) {
        seq!["h264_videotoolbox"@, "h264_nvenc"@, "h264_qsv"@, "h264_amf"@]
    } else if is_h265_hint(hint) {
        seq!["hevc_videotoolbox"@, "hevc_nvenc"@, "hevc_qsv"@, "hevc_amf"@]
    } else {
        Seq::empty()
    }
}

/// The first candidate that is usable, if any.
pub open spec fn first_usable(cands: Seq<Seq<char>>, usable: Seq<Seq<char>>) -> Option<Seq<char>>
    decreases cands.len(),
{
    if cands.len() == 0 {
        None
    } else if usable.contains(cands[0]) {
        Some(cands[0])
    } else {
        first_usable(cands.skip(1), usable)
    }
}

/// The encoder a codec hint resolves to: the best usable hardware encoder
/// of its family, else the software one; other hints are encoder names
/// already.
pub open spec fn resolved_codec(hint: Seq<char>, usable: Seq<Seq<char>>) -> Seq<char> {
    if is_h264_hint(hint) || is_h265_hint(hint) {
        match first_usable(encoder_candidates_spec(hint), usable) {
            Some(c) => c,
            None => if is_h264_hint(hint) { "libx264"@ } else { "libx265"@ },
        }
    } else {
        hint
    }
}

/// Hardware encoders worth probing for a codec hint, best first.
pub fn encoder_candidates(codec_hint: &str) -> (r: Vec<String>)
    ensures
        strs(r@) == encoder_candidates_spec(codec_hint@),
{
    let mut r: Vec<String> = Vec::new();
    if str_eq(codec_hint, "h264") || str_eq(codec_hint, "auto") {
        r.push("h264_videotoolbox".to_owned());
        r.push("h264_nvenc".to_owned());
        r.push("h264_qsv".to_owned());
        r.push("h264_amf".to_owned());
    } else if str_eq(codec_hint, "h265") || str_eq(codec_hint, "hevc") {
        r.push("hevc_videotoolbox".to_owned());
        r.push("hevc_nvenc".to_owned());
        r.push("hevc_qsv".to_owned());
        r.push("hevc_amf".to_owned());
    }
    r
}

/// Whether FFmpeg's `-encoders` listing mentions `encoder`.
pub fn encoder_listed(encoders_text: &str, encoder: &str) -> (r: bool)
    ensures
        r == contains_run(encoders_text@, encoder@),
{
    str_contains(encoders_text, encoder)
}

fn list_contains(list: &Vec<String>, s: &String) -> (r: bool)
    ensures
        r == strs(list@).contains(s@),
{
    let mut i: usize = 0;
    while i < list.len()
        invariant
            i <= list.len(),
            forall|k: int| 0 <= k < i ==> list@[k]@ != s@,
        decreases list.len() - i,
    {
        if str_eq(list[i].as_str(), s.as_str()) {
            assert(strs(list@)[i as int] == s@);
            return true;
        }
        i = i + 1;
    }
    assert(!strs(list@).contains(s@)) by {
        if strs(list@).contains(s@) {
            let k = choose|k: int| 0 <= k < strs(list@).len() && strs(list@)[k] == s@;
            assert(list@[k]@ == s@);
        }
    }
    false
}

/// The encoder to use for a codec hint, given the hardware encoders that
/// were found listed and able to encode (`usable`).
pub fn resolve_video_codec(codec_hint: &str, usable: &Vec<String>) -> (r: String)
    ensures
        r@ == resolved_codec(codec_hint@, strs(usable@)),
{
    let h264 = str_eq(codec_hint, "h264") || str_eq(codec_hint, "auto");
    let h265 = str_eq(codec_hint, "h265") || str_eq(codec_hint, "hevc");
    if !h264 && !h265 {
        return codec_hint.to_owned();
    }
    let cands = encoder_candidates(codec_hint);
    let ghost all = strs(cands@);
    assert(all.skip(0) == all);
    let mut i: usize = 0;
    while i < cands.len()
        invariant
            i <= cands.len(),
            all == strs(cands@),
            all == encoder_candidates_spec(codec_hint@),
            h264 == is_h264_hint(codec_hint@),
            h265 == is_h265_hint(codec_hint@),
            h264 || h265,
            first_usable(all, strs(usable@)) == first_usable(all.skip(i as int), strs(usable@)),
        decreases cands.len() - i,
    {
        assert(all.skip(i as int)[0] == cands@[i as int]@);
        assert(all.skip(i as int).skip(1) == all.skip(i + 1));
        if list_contains(usable, &cands[i]) {
            assert(first_usable(all.skip(i as int), strs(usable@)) == Some(cands@[i as int]@));
            return cands[i].clone();
        }
        i = i + 1;
    }
    assert(all.skip(cands.len() as int).len() == 0);
    if h264 {
        "libx264".to_owned()
    } else {
        "libx265".to_owned()
    }
}

impl PresetOptions {
    pub open spec fn audio_only_spec(self) -> bool {
        self.audio_only == Some(true)
    }

    pub open spec fn reencodes_spec(self) -> bool {
        !self.audio_only_spec() && self.codec@ != "copy"@
    }

    /// Whether a clip with this preset re-encodes video, so that an
    /// encoder must be resolved first.
    pub fn reencodes(&self) -> (r: bool)
        ensures
            r == self.reencodes_spec(),
    {
        let audio_only = match self.audio_only {
            Some(b) => b,
            None => false,
        };
        !audio_only && !str_eq(self.codec.as_str(), "copy")
    }
}

/// The codec flags of a clip.
pub open spec fn clip_codec_args(preset: PresetOptions, video_codec: Seq<char>) -> Seq<Seq<char>> {
    if preset.audio_only_spec() {
        seq!["-vn"@, "-acodec"@, "aac"@]
    } else if preset.codec@ == "copy"@ {
        seq!["-c"@, "copy"@]
    } else {
        let crf: Seq<Seq<char>> = match preset.crf {
            Some(v) => seq!["-crf"@, digits_of(v as nat)],
            None => Seq::empty(),
        };
        seq!["-c:v"@, video_codec, "-c:a"@, "aac"@] + crf
    }
}

/// FFmpeg's arguments for cutting `[start_ms, end_ms)` out of `input`:
/// fast seek before the input, the duration, the codec flags, then
/// overwrite and progress reporting on standard output.
pub open spec fn clip_args(
    input: Seq<char>,
    output: Seq<char>,
    start_ms: int,
    end_ms: int,
    preset: PresetOptions,
    video_codec: Seq<char>,
) -> Seq<Seq<char>> {
    seq!["-ss"@, seconds3_text(start_ms), "-i"@, input, "-t"@, seconds3_text(end_ms - start_ms)]
        + clip_codec_args(preset, video_codec) + seq!["-y"@, "-progress"@, "pipe:1"@, output]
}

pub open spec fn ffmpeg_missing_msg() -> Seq<char> {
    "FFmpeg not available"@
}

pub open spec fn bad_range_msg() -> Seq<char> {
    "Invalid time range: end must be after start"@
}

fn seconds3_string(ms: i64) -> (r: String)
    ensures
        r@ == seconds3_text(ms as int),
{
    let mut buf: Vec<char> = Vec::new();
    push_seconds3(&mut buf, ms);
    string_of(&buf)
}

/// Plans a clip: refuses an empty FFmpeg path or an empty or reversed
/// range, else gives FFmpeg's arguments. `video_codec` is used only when
/// the preset re-encodes.
pub fn plan_clip_args(
    ffmpeg_path: &str,
    input: &str,
    output: &str,
    start_ms: i64,
    end_ms: i64,
    preset: &PresetOptions,
    video_codec: &str,
) -> (r: Result<Vec<String>, String>)
    requires
        i64::MIN <= end_ms - start_ms <= i64::MAX,
    ensures
        ffmpeg_path@.len() == 0 ==> (r matches Err(e) && e@ == ffmpeg_missing_msg()),
        ffmpeg_path@.len() > 0 && end_ms <= start_ms ==> (r matches Err(e) && e@ == bad_range_msg()),
        ffmpeg_path@.len() > 0 && end_ms > start_ms ==> (r matches Ok(a) && strs(a@) == clip_args(
            input@,
            output@,
            start_ms as int,
            end_ms as int,
            *preset,
            video_codec@,
        )),
{
    if ffmpeg_path.is_empty() {
        return Err("FFmpeg not available".to_owned());
    }
    let duration_ms = end_ms - start_ms;
    if duration_ms <= 0 {
        return Err("Invalid time range: end must be after start".to_owned());
    }
    let mut args: Vec<String> = Vec::new();
    args.push("-ss".to_owned());
    args.push(seconds3_string(start_ms));
    args.push("-i".to_owned());
    args.push(input.to_owned());
    args.push("-t".to_owned());
    args.push(seconds3_string(duration_ms));
    let ghost head = strs(args@);
    let audio_only = match preset.audio_only {
        Some(b) => b,
        None => false,
    };
    if audio_only {
        args.push("-vn".to_owned());
        args.push("-acodec".to_owned());
        args.push("aac".to_owned());
    } else if str_eq(preset.codec.as_str(), "copy") {
        args.push("-c".to_owned());
        args.push("copy".to_owned());
    } else {
        args.push("-c:v".to_owned());
        args.push(video_codec.to_owned());
        args.push("-c:a".to_owned());
        args.push("aac".to_owned());
        match preset.crf {
            Some(v) => {
                args.push("-crf".to_owned());
                args.push(decimal_string(v as u64));
            },
            None => {},
        }
    }
    assert(strs(args@) == head + clip_codec_args(*preset, video_codec@));
    let ghost mid = strs(args@);
    args.push("-y".to_owned());
    args.push("-progress".to_owned());
    args.push("pipe:1".to_owned());
    args.push(output.to_owned());
    assert(strs(args@) == mid + seq!["-y"@, "-progress"@, "pipe:1"@, output@]);
    Ok(args)
}

/// What one line of FFmpeg's `-progress` output reports.
pub enum ProgressLine {
    /// `out_time_us=` with a valid integer: microseconds encoded so far.
    OutTimeUs(i64),
    /// `speed=`: the multiplier's text, trimmed, trailing `x`s removed.
    Speed(String),
    /// `progress=end`: the encode finished.
    End,
    /// Anything else, an unreadable time included.
    Other,
}

/// `s` without trailing copies of `c` (`str::trim_end_matches` with a char).
pub open spec fn trim_end_char(s: Seq<char>, c: char) -> Seq<char>
    decreases s.len(),
{
    if s.len() > 0 && s.last() == c {
        trim_end_char(s.drop_last(), c)
    } else {
        s
    }
}

pub open spec fn progress_line_view(p: ProgressLine) -> (int, Option<i64>, Seq<char>) {
    match p {
        ProgressLine::OutTimeUs(us) => (0, Some(us), Seq::empty()),
        ProgressLine::Speed(s) => (1, None, s@),
        ProgressLine::End => (2, None, Seq::empty()),
        ProgressLine::Other => (3, None, Seq::empty()),
    }
}

/// How a progress line reads: the kind (0 time, 1 speed, 2 end, 3 other),
/// the time, and the speed text.
pub open spec fn progress_line_spec(line: Seq<char>) -> (int, Option<i64>, Seq<char>) {
    let time_key = "out_time_us="@;
    let speed_key = "speed="@;
    if starts_with_spec(line, time_key) {
        match crate::text::parse_i64_spec(crate::text::trim_spec(line.skip(time_key.len() as int))) {
            Some(v) => (0, Some(v as i64), Seq::empty()),
            None => (3, None, Seq::empty()),
        }
    } else if starts_with_spec(line, speed_key) {
        (1, None, trim_end_char(crate::text::trim_spec(line.skip(speed_key.len() as int)), 'x'))
    } else if starts_with_spec(line, "progress=end"@) {
        (2, None, Seq::empty())
    } else {
        (3, None, Seq::empty())
    }
}

fn trim_end_char_exec(s: &Vec<char>, c: char) -> (r: Vec<char>)
    ensures
        r@ == trim_end_char(s@, c),
{
    let mut n = s.len();
    assert(s@.take(n as int) == s@);
    while n > 0 && s[n - 1] == c
        invariant
            n <= s.len(),
            trim_end_char(s@, c) == trim_end_char(s@.take(n as int), c),
        decreases n,
    {
        assert(s@.take(n as int).drop_last() == s@.take(n - 1));
        n = n - 1;
    }
    let mut r: Vec<char> = Vec::new();
    let mut i: usize = 0;
    while i < n
        invariant
            i <= n <= s.len(),
            r@ == s@.take(i as int),
        decreases n - i,
    {
        r.push(s[i]);
        i = i + 1;
        assert(r@ == s@.take(i as int));
    }
    r
}

/// Reads one line of FFmpeg's `-progress` output.
pub fn parse_progress_line(line: &str) -> (r: ProgressLine)
    ensures
        progress_line_view(r) == progress_line_spec(line@),
{
    let cs = chars_of(line);
    let time_key = chars_of("out_time_us=");
    let speed_key = chars_of("speed=");
    if crate::text::starts_with(&cs, &time_key) {
        let rest = tail_from(&cs, time_key.len());
        let t = crate::text::trim_chars(&rest);
        match crate::text::parse_int(&t, true, i64::MIN as i128, i64::MAX as i128) {
            Some(v) => ProgressLine::OutTimeUs(v as i64),
            None => ProgressLine::Other,
        }
    } else if crate::text::starts_with(&cs, &speed_key) {
        let rest = tail_from(&cs, speed_key.len());
        let t = crate::text::trim_chars(&rest);
        let cleaned = trim_end_char_exec(&t, 'x');
        ProgressLine::Speed(string_of(&cleaned))
    } else if str_starts_with(line, "progress=end") {
        ProgressLine::End
    } else {
        ProgressLine::Other
    }
}

fn tail_from(s: &Vec<char>, from: usize) -> (r: Vec<char>)
    requires
        from <= s.len(),
    ensures
        r@ == s@.skip(from as int),
{
    let mut r: Vec<char> = Vec::new();
    let mut i: usize = from;
    while i < s.len()
        invariant
            from <= i <= s.len(),
            r@ == s@.subrange(from as int, i as int),
        decreases s.len() - i,
    {
        r.push(s[i]);
        i = i + 1;
        assert(r@ == s@.subrange(from as int, i as int));
    }
    r
}

/// The overlay a burn pass uses.
pub enum BurnSource {
    /// Both overlays: the subtitle events are merged into the danmaku file.
    Merge { danmaku: String, subtitle: String },
    /// One overlay file.
    Single(String),
    /// Nothing to burn: the clipped file becomes the output as it is.
    Skip,
}

pub open spec fn burn_source_view(b: BurnSource) -> (int, Seq<char>, Seq<char>) {
    match b {
        BurnSource::Merge { danmaku, subtitle } => (0, danmaku@, subtitle@),
        BurnSource::Single(p) => (1, p@, Seq::empty()),
        BurnSource::Skip => (2, Seq::empty(), Seq::empty()),
    }
}

/// Both overlays merged when both are requested and present; else the
/// danmaku file when requested and present; else the subtitle file.
pub open spec fn burn_source_spec(b: BurnOptions) -> (int, Seq<char>, Seq<char>) {
    match (b.burn_danmaku && b.burn_subtitle, b.danmaku_ass_path, b.subtitle_ass_path) {
        (true, Some(d), Some(s)) => (0, d@, s@),
        _ => if b.burn_danmaku && b.danmaku_ass_path.is_some() {
            (1, b.danmaku_ass_path.unwrap()@, Seq::empty())
        } else if b.burn_subtitle && b.subtitle_ass_path.is_some() {
            (1, b.subtitle_ass_path.unwrap()@, Seq::empty())
        } else {
            (2, Seq::empty(), Seq::empty())
        },
    }
}

/// Chooses the overlay of the burn pass.
pub fn burn_source(burn: &BurnOptions) -> (r: BurnSource)
    ensures
        burn_source_view(r) == burn_source_spec(*burn),
{
    if burn.burn_danmaku && burn.burn_subtitle {
        match (&burn.danmaku_ass_path, &burn.subtitle_ass_path) {
            (Some(d), Some(s)) => {
                return BurnSource::Merge { danmaku: d.clone(), subtitle: s.clone() };
            },
            _ => {},
        }
    }
    if burn.burn_danmaku {
        match &burn.danmaku_ass_path {
            Some(d) => {
                return BurnSource::Single(d.clone());
            },
            None => {},
        }
    }
    if burn.burn_subtitle {
        match &burn.subtitle_ass_path {
            Some(s) => {
                return BurnSource::Single(s.clone());
            },
            None => {},
        }
    }
    BurnSource::Skip
}


/// The style the merged subtitle dialogue is drawn with.
pub open spec fn subtitle_style_line(font: Seq<char>) -> Seq<char> {
    "Style: Subtitle,"@ + font
        + ",48,&H00FFFFFF,&H000000FF,&H00000000,&H80000000,-1,0,0,0,100,100,0,0,1,2,1,2,10,10,10,1\n"@
}

/// The danmaku ASS with the subtitle style inserted before its `[Events]`
/// section, unless it has that style already or has no such section.
pub open spec fn with_subtitle_style(d: Seq<char>, font: Seq<char>) -> Seq<char> {
    if find_from(d, "Style: Subtitle,"@, 0) is Some {
        d
    } else {
        match find_from(d, "[Events]"@, 0) {
            Some(pos) => d.take(pos) + subtitle_style_line(font) + d.skip(pos),
            None => d,
        }
    }
}

/// The `Dialogue:` lines of the subtitle ASS, each with its first
/// `,Default,` made `,Subtitle,` and ended by a newline.
pub open spec fn subtitle_dialogues(lines: Seq<Seq<char>>) -> Seq<char>
    decreases lines.len(),
{
    if lines.len() == 0 {
        Seq::empty()
    } else {
        let l = lines.last();
        subtitle_dialogues(lines.drop_last()) + if starts_with_spec(l, "Dialogue:"@) {
            replace_first(l, ",Default,"@, ",Subtitle,"@).push('\n')
        } else {
            Seq::empty()
        }
    }
}

pub open spec fn merged_ass_spec(danmaku: Seq<char>, subtitle: Seq<char>, font: Seq<char>) -> Seq<
    char,
> {
    with_subtitle_style(danmaku, font) + subtitle_dialogues(lines_spec(subtitle))
}

/// One ASS file for a pass that burns danmaku and subtitles together: the
/// danmaku ASS, given a subtitle style in `font`, followed by the
/// subtitle dialogue drawn in that style.
pub fn merge_ass_text(danmaku: &str, subtitle: &str, font: &str) -> (r: String)
    ensures
        r@ == merged_ass_spec(danmaku@, subtitle@, font@),
{
    let d = chars_of(danmaku);
    let style_key = chars_of("Style: Subtitle,");
    let events = chars_of("[Events]");
    let has_style = find_run(d.as_slice(), style_key.as_slice());
    let pos = match has_style {
        Some(_) => None,
        None => find_run(d.as_slice(), events.as_slice()),
    };
    let mut out: Vec<char> = Vec::new();
    match pos {
        Some(p) => {
            proof {
                lemma_find_from_bounds(d@, events@, 0);
            }
            let mut j: usize = 0;
            while j < p
                invariant
                    j <= p <= d.len(),
                    out@ == d@.take(j as int),
                decreases p - j,
            {
                out.push(d[j]);
                j = j + 1;
                assert(out@ == d@.take(j as int));
            }
            push_str(&mut out, "Style: Subtitle,");
            push_str(&mut out, font);
            push_str(
                &mut out,
                ",48,&H00FFFFFF,&H000000FF,&H00000000,&H80000000,-1,0,0,0,100,100,0,0,1,2,1,2,10,10,10,1\n",
            );
            let ghost mid = out@;
            assert(mid == d@.take(p as int) + subtitle_style_line(font@));
            let mut k: usize = p;
            while k < d.len()
                invariant
                    p <= k <= d.len(),
                    out@ == mid + d@.subrange(p as int, k as int),
                decreases d.len() - k,
            {
                out.push(d[k]);
                k = k + 1;
                assert(out@ == mid + d@.subrange(p as int, k as int));
            }
            assert(d@.subrange(p as int, d.len() as int) == d@.skip(p as int));
        },
        None => {
            out = d.clone();
        },
    }
    assert(out@ == with_subtitle_style(danmaku@, font@));
    let lines = text_lines(subtitle);
    let from = chars_of(",Default,");
    let to = chars_of(",Subtitle,");
    let dlg = chars_of("Dialogue:");
    let ghost head = out@;
    let ghost lv = views(lines@);
    let mut i: usize = 0;
    while i < lines.len()
        invariant
            i <= lines.len(),
            lv == views(lines@),
            from@ == ",Default,"@,
            to@ == ",Subtitle,"@,
            dlg@ == "Dialogue:"@,
            out@ == head + subtitle_dialogues(lv.take(i as int)),
        decreases lines.len() - i,
    {
        assert(lv.take(i + 1).drop_last() == lv.take(i as int));
        assert(lv.take(i + 1).last() == lines@[i as int]@);
        if starts_with(lines[i].as_slice(), dlg.as_slice()) {
            let m = replace_first_chars(&lines[i], &from, &to);
            push_all(&mut out, &m);
            out.push('\n');
        }
        i = i + 1;
        assert(out@ == head + subtitle_dialogues(lv.take(i as int)));
    }
    assert(lv.take(lines.len() as int) == lv);
    string_of(&out)
}

} // verus!
