//! Recording workspaces: the records a scan produces, the BililiveRecorder
//! naming scheme for directories and files, and how a listed workspace
//! becomes a scan result.

use vstd::prelude::*;
use crate::config::strs;
use crate::manifest::opt_view;
use crate::text::{chars_of, contains_run, push_str, str_contains, string_of, unicode_lowercase};

verus! {

/// One recording file found by a scan.
pub struct RecordingFileMeta {
    pub room_id: Option<String>,
    pub streamer_name: Option<String>,
    pub stream_title: Option<String>,
    /// `yyyy-MM-dd HH:mm:ss`, from the file name.
    pub recorded_at: Option<String>,
    /// Duration in milliseconds, filled in by probing after the scan.
    pub duration_ms: Option<i64>,
    pub file_path: String,
    pub file_name: String,
    /// Lower-cased extension.
    pub extension: String,
    /// Files beside it with the same stem (danmaku XML, logs, subtitles).
    pub associated_files: Vec<String>,
}

/// A recording file as a value.
pub struct MetaView {
    pub room_id: Option<Seq<char>>,
    pub streamer_name: Option<Seq<char>>,
    pub stream_title: Option<Seq<char>>,
    pub recorded_at: Option<Seq<char>>,
    pub duration_ms: Option<i64>,
    pub file_path: Seq<char>,
    pub file_name: Seq<char>,
    pub extension: Seq<char>,
    pub associated_files: Seq<Seq<char>>,
}

impl View for RecordingFileMeta {
    type V = MetaView;

    open spec fn view(&self) -> MetaView {
        MetaView {
            room_id: opt_view(self.room_id),
            streamer_name: opt_view(self.streamer_name),
            stream_title: opt_view(self.stream_title),
            recorded_at: opt_view(self.recorded_at),
            duration_ms: self.duration_ms,
            file_path: self.file_path@,
            file_name: self.file_name@,
            extension: self.extension@,
            associated_files: strs(self.associated_files@),
        }
    }
}

pub open spec fn metas(v: Seq<RecordingFileMeta>) -> Seq<MetaView> {
    v.map_values(|m: RecordingFileMeta| m@)
}

/// A streamer's directory, `{room_id}-{name}`.
pub struct StreamerDir {
    pub room_id: String,
    pub name: String,
    pub dir_path: String,
}

pub open spec fn streamer_dir_view(d: StreamerDir) -> (Seq<char>, Seq<char>, Seq<char>) {
    (d.room_id@, d.name@, d.dir_path@)
}

pub open spec fn streamer_dirs_view(v: Seq<StreamerDir>) -> Seq<(Seq<char>, Seq<char>, Seq<char>)> {
    v.map_values(|d: StreamerDir| streamer_dir_view(d))
}

/// What a scan of a workspace directory found.
pub struct WorkspaceScanResult {
    /// `bililive-recorder` or `generic`.
    pub adapter_id: String,
    pub root_dir: String,
    pub files: Vec<RecordingFileMeta>,
    pub streamer_dirs: Vec<StreamerDir>,
}

/// Several files of one live stream.
pub struct RecordingSession {
    pub room_id: String,
    pub streamer_name: String,
    pub title: String,
    pub started_at: String,
    pub files: Vec<RecordingFileMeta>,
}

pub fn copy_opt_string(o: &Option<String>) -> (r: Option<String>)
    ensures
        r == *o,
        opt_view(r) == opt_view(*o),
{
    match o {
        Some(s) => Some(s.clone()),
        None => None,
    }
}

pub fn copy_strings(v: &Vec<String>) -> (r: Vec<String>)
    ensures
        strs(r@) == strs(v@),
{
    let mut r: Vec<String> = Vec::new();
    let mut i: usize = 0;
    while i < v.len()
        invariant
            i <= v.len(),
            strs(r@) == strs(v@).take(i as int),
        decreases v.len() - i,
    {
        let ghost pre = r@;
        r.push(v[i].clone());
        assert(r@ == pre.push(v@[i as int]));
        assert(strs(v@).take(i + 1) == strs(v@).take(i as int).push(v@[i as int]@));
        i = i + 1;
        assert(strs(r@) == strs(v@).take(i as int));
    }
    assert(strs(v@).take(v.len() as int) == strs(v@));
    r
}

impl RecordingFileMeta {
    /// A field-for-field copy.
    pub fn duplicate(&self) -> (r: RecordingFileMeta)
        ensures
            r@ == self@,
    {
        RecordingFileMeta {
            room_id: copy_opt_string(&self.room_id),
            streamer_name: copy_opt_string(&self.streamer_name),
            stream_title: copy_opt_string(&self.stream_title),
            recorded_at: copy_opt_string(&self.recorded_at),
            duration_ms: self.duration_ms,
            file_path: self.file_path.clone(),
            file_name: self.file_name.clone(),
            extension: self.extension.clone(),
            associated_files: copy_strings(&self.associated_files),
        }
    }
}

/// Whether the regex class `\d` matches `c` (Unicode decimal digits,
/// general category Nd), as the recorder's name patterns use it.
pub uninterp spec fn regex_digit(c: char) -> bool;

/// `regex::Regex::is_match` of the pattern `^\d$` on `c`. The contract
/// claims that the answer is the class membership of `c`, a function of `c`
/// alone, and, as the class's documentation gives, that among ASCII
/// characters the class holds exactly `0` to `9`.
#[verifier::external_body]
fn regex_digit_class(c: char) -> (r: bool)
    ensures
        r == regex_digit(c),
        (c as u32) < 0x80 ==> (r <==> ('0' <= c && c <= '9')),
{
    match regex::Regex::new(r"^\d$") {
        Ok(re) => re.is_match(&c.to_string()),
        Err(_) => false,
    }
}

/// Number of decimal digits (`\d`) at the start of `s`.
pub open spec fn leading_digits(s: Seq<char>) -> nat
    decreases s.len(),
{
    if s.len() > 0 && regex_digit(s[0]) {
        1 + leading_digits(s.skip(1))
    } else {
        0
    }
}

pub open spec fn no_newline(s: Seq<char>) -> bool {
    !s.contains('\n')
}

pub open spec fn digits_between(s: Seq<char>, from: int, to: int) -> bool {
    forall|k: int| from <= k < to ==> regex_digit(#[trigger] s[k])
}

/// The directory name `{room_id}-{name}`: digits, a hyphen, then a
/// non-empty name without line breaks.
pub open spec fn streamer_dir_name(s: Seq<char>) -> Option<(Seq<char>, Seq<char>)> {
    let k = leading_digits(s);
    if k >= 1 && k < s.len() && s[k as int] == '-' && s.len() > k + 1 && no_newline(
        s.skip(k as int + 1),
    ) {
        Some((s.take(k as int), s.skip(k as int + 1)))
    } else {
        None
    }
}

/// The parts of a recording file name
/// `录制-{room}-{yyyyMMdd}-{HHmmss}-{mmm}-{title}.{flv|mp4|ts}`.
pub struct RecordingName {
    pub room_id: String,
    pub date: String,
    pub time: String,
    pub millis: String,
    pub title: String,
    pub ext: String,
}

pub open spec fn video_suffix(tail: Seq<char>) -> Option<Seq<char>> {
    if tail.len() >= 4 && tail.skip(tail.len() - 4) == ".flv"@ {
        Some("flv"@)
    } else if tail.len() >= 4 && tail.skip(tail.len() - 4) == ".mp4"@ {
        Some("mp4"@)
    } else if tail.len() >= 3 && tail.skip(tail.len() - 3) == ".ts"@ {
        Some("ts"@)
    } else {
        None
    }
}

pub open spec fn record_prefix() -> Seq<char> {
    "录制-"@
}

/// The parts of a recording file name: room, date, time, milliseconds,
/// title, extension; `None` for names of another shape.
pub open spec fn recording_name(s: Seq<char>) -> Option<
    (Seq<char>, Seq<char>, Seq<char>, Seq<char>, Seq<char>, Seq<char>),
> {
    let p = record_prefix();
    if s.len() >= p.len() && s.take(p.len() as int) == p {
        let body = s.skip(p.len() as int);
        let k = leading_digits(body);
        if k >= 1 && k < body.len() && body[k as int] == '-' {
            let rest = body.skip(k as int + 1);
            if rest.len() >= 20 && digits_between(rest, 0, 8) && rest[8] == '-' && digits_between(
                rest,
                9,
                15,
            ) && rest[15] == '-' && digits_between(rest, 16, 19) && rest[19] == '-' {
                let tail = rest.skip(20);
                match video_suffix(tail) {
                    Some(ext) => {
                        let title = tail.take(tail.len() - ext.len() - 1);
                        if title.len() >= 1 && no_newline(title) {
                            Some(
                                (
                                    body.take(k as int),
                                    rest.subrange(0, 8),
                                    rest.subrange(9, 15),
                                    rest.subrange(16, 19),
                                    title,
                                    ext,
                                ),
                            )
                        } else {
                            None
                        }
                    },
                    None => None,
                }
            } else {
                None
            }
        } else {
            None
        }
    } else {
        None
    }
}

fn leading_digits_from(s: &Vec<char>, from: usize) -> (k: usize)
    requires
        from <= s.len(),
    ensures
        k as nat == leading_digits(s@.skip(from as int)),
        from + k <= s.len(),
{
    let mut j: usize = s.len();
    while j > from
        invariant
            from <= j <= s.len(),
            forall|t: int| j <= t < s.len() ==> leading_digits(#[trigger] s@.skip(t)) == if regex_digit(
                s@[t],
            ) {
                1 + leading_digits(s@.skip(t + 1))
            } else {
                0
            },
        decreases j - from,
    {
        j = j - 1;
        assert(s@.skip(j as int).skip(1) == s@.skip(j + 1));
    }
    let mut k: usize = 0;
    while from + k < s.len() && regex_digit_class(s[from + k])
        invariant
            from + k <= s.len(),
            forall|t: int| from <= t < s.len() ==> leading_digits(#[trigger] s@.skip(t)) == if regex_digit(
                s@[t],
            ) {
                1 + leading_digits(s@.skip(t + 1))
            } else {
                0
            },
            leading_digits(s@.skip(from as int)) == k + leading_digits(s@.skip(from + k)),
        decreases s.len() - from - k,
    {
        k = k + 1;
    }
    proof {
        if from + k == s.len() {
            assert(s@.skip(from + k).len() == 0);
        }
    }
    k
}

proof fn lemma_digits_shift(s: Seq<char>, r0: int, a: int, b: int)
    requires
        0 <= r0 <= s.len(),
        0 <= a <= b <= s.len() - r0,
    ensures
        digits_between(s.skip(r0), a, b) == digits_between(s, r0 + a, r0 + b),
{
    if digits_between(s.skip(r0), a, b) {
        assert forall|k: int| r0 + a <= k < r0 + b implies regex_digit(#[trigger] s[k]) by {
            assert(s.skip(r0)[k - r0] == s[k]);
        }
    }
    if digits_between(s, r0 + a, r0 + b) {
        assert forall|k: int| a <= k < b implies regex_digit(#[trigger] s.skip(r0)[k]) by {
            assert(s.skip(r0)[k] == s[r0 + k]);
        }
    }
}

fn sub_string(s: &Vec<char>, from: usize, to: usize) -> (r: String)
    requires
        from <= to <= s.len(),
    ensures
        r@ == s@.subrange(from as int, to as int),
{
    let mut buf: Vec<char> = Vec::new();
    let mut i: usize = from;
    while i < to
        invariant
            from <= i <= to <= s.len(),
            buf@ == s@.subrange(from as int, i as int),
        decreases to - i,
    {
        buf.push(s[i]);
        i = i + 1;
        assert(buf@ == s@.subrange(from as int, i as int));
    }
    string_of(&buf)
}

fn all_digits_in(s: &Vec<char>, from: usize, to: usize) -> (r: bool)
    requires
        from <= to <= s.len(),
    ensures
        r == digits_between(s@, from as int, to as int),
{
    let mut i: usize = from;
    while i < to
        invariant
            from <= i <= to <= s.len(),
            digits_between(s@, from as int, i as int),
        decreases to - i,
    {
        if !regex_digit_class(s[i]) {
            return false;
        }
        i = i + 1;
    }
    true
}

fn has_newline(s: &Vec<char>, from: usize, to: usize) -> (r: bool)
    requires
        from <= to <= s.len(),
    ensures
        r == !no_newline(s@.subrange(from as int, to as int)),
{
    let mut i: usize = from;
    while i < to
        invariant
            from <= i <= to <= s.len(),
            forall|t: int| from <= t < i ==> s@[t] != '\n',
        decreases to - i,
    {
        if s[i] == '\n' {
            assert(s@.subrange(from as int, to as int)[i - from] == '\n');
            return true;
        }
        i = i + 1;
    }
    assert forall|c: char| s@.subrange(from as int, to as int).contains(c) implies c != '\n' by {
        let t = choose|t: int|
            0 <= t < s@.subrange(from as int, to as int).len() && s@.subrange(
                from as int,
                to as int,
            )[t] == c;
        assert(s@[from + t] == c);
    }
    false
}

fn ends_with_at(s: &Vec<char>, from: usize, suffix: &str) -> (r: bool)
    requires
        from <= s.len(),
    ensures
        r == (s@.len() - from >= suffix@.len() && s@.skip(from as int).skip(
            s@.len() - from - suffix@.len(),
        ) == suffix@),
{
    let suf = chars_of(suffix);
    if s.len() - from < suf.len() {
        return false;
    }
    let at = s.len() - suf.len();
    let b = crate::text::matches_at(s, &suf, at);
    assert(s@.subrange(at as int, at + suf.len()) == s@.skip(from as int).skip(
        s@.len() - from - suffix@.len(),
    ));
    b
}

/// Splits a BililiveRecorder file name into its parts.
pub fn parse_recording_name(name: &str) -> (r: Option<RecordingName>)
    ensures
        match recording_name(name@) {
            Some(p) => r matches Some(n) && n.room_id@ == p.0 && n.date@ == p.1 && n.time@ == p.2
                && n.millis@ == p.3 && n.title@ == p.4 && n.ext@ == p.5,
            None => r is None,
        },
{
    let s = chars_of(name);
    let p = chars_of("录制-");
    proof {
        reveal_strlit("录制-");
    }
    if s.len() < p.len() || !crate::text::starts_with(&s, &p) {
        return None;
    }
    let b = p.len();
    assert(s@.skip(b as int).skip(0) == s@.skip(b as int));
    let k = leading_digits_from(&s, b);
    let ghost body = s@.skip(b as int);
    assert(body.skip(0) == body);
    if k < 1 || b + k >= s.len() || s[b + k] != '-' {
        assert(k < body.len() ==> body[k as int] == s@[b + k]);
        return None;
    }
    let r0 = b + k + 1;
    let ghost rest = body.skip(k + 1);
    assert(rest == s@.skip(r0 as int));
    if s.len() - r0 < 20 || !all_digits_in(&s, r0, r0 + 8) || s[r0 + 8] != '-' || !all_digits_in(
        &s,
        r0 + 9,
        r0 + 15,
    ) || s[r0 + 15] != '-' || !all_digits_in(&s, r0 + 16, r0 + 19) || s[r0 + 19] != '-' {
        proof {
            if rest.len() >= 20 {
                lemma_digits_shift(s@, r0 as int, 0, 8);
                lemma_digits_shift(s@, r0 as int, 9, 15);
                lemma_digits_shift(s@, r0 as int, 16, 19);
            }
        }
        return None;
    }
    proof {
        lemma_digits_shift(s@, r0 as int, 0, 8);
        lemma_digits_shift(s@, r0 as int, 9, 15);
        lemma_digits_shift(s@, r0 as int, 16, 19);
    }
    let t0 = r0 + 20;
    let ghost tail = rest.skip(20);
    assert(tail == s@.skip(t0 as int));
    let ext: &str;
    let ext_len: usize;
    if ends_with_at(&s, t0, ".flv") {
        ext = "flv";
        ext_len = 3;
    } else if ends_with_at(&s, t0, ".mp4") {
        ext = "mp4";
        ext_len = 3;
    } else if ends_with_at(&s, t0, ".ts") {
        ext = "ts";
        ext_len = 2;
    } else {
        proof {
            reveal_strlit(".flv");
            reveal_strlit(".mp4");
            reveal_strlit(".ts");
        }
        return None;
    }
    proof {
        reveal_strlit(".flv");
        reveal_strlit(".mp4");
        reveal_strlit(".ts");
        reveal_strlit("flv");
        reveal_strlit("mp4");
        reveal_strlit("ts");
    }
    assert(video_suffix(tail) == Some(ext@));
    let title_end = s.len() - ext_len - 1;
    assert(tail.take(tail.len() - ext@.len() - 1) == s@.subrange(t0 as int, title_end as int));
    if title_end <= t0 || has_newline(&s, t0, title_end) {
        return None;
    }
    let room = sub_string(&s, b, b + k);
    let date = sub_string(&s, r0, r0 + 8);
    let time = sub_string(&s, r0 + 9, r0 + 15);
    let millis = sub_string(&s, r0 + 16, r0 + 19);
    let title = sub_string(&s, t0, title_end);
    assert(body.take(k as int) == s@.subrange(b as int, b + k));
    assert(rest.subrange(0, 8) == s@.subrange(r0 as int, r0 + 8));
    assert(rest.subrange(9, 15) == s@.subrange(r0 + 9, r0 + 15));
    assert(rest.subrange(16, 19) == s@.subrange(r0 + 16, r0 + 19));
    Some(
        RecordingName {
            room_id: room,
            date,
            time,
            millis,
            title,
            ext: ext.to_owned(),
        },
    )
}

/// Splits a streamer directory name `{room_id}-{name}`.
pub fn parse_streamer_dir_name(name: &str) -> (r: Option<(String, String)>)
    ensures
        match streamer_dir_name(name@) {
            Some(p) => r matches Some(x) && x.0@ == p.0 && x.1@ == p.1,
            None => r is None,
        },
{
    let s = chars_of(name);
    assert(s@.skip(0) == s@);
    let k = leading_digits_from(&s, 0);
    if k < 1 || k >= s.len() || s[k] != '-' || s.len() <= k + 1 || has_newline(&s, k + 1, s.len()) {
        assert(s@.subrange(k + 1, s.len() as int) == s@.skip(k + 1));
        return None;
    }
    assert(s@.subrange(k + 1, s.len() as int) == s@.skip(k + 1));
    assert(s@.subrange(0, k as int) == s@.take(k as int));
    let room = sub_string(&s, 0, k);
    let rest = sub_string(&s, k + 1, s.len());
    Some((room, rest))
}

/// Extensions of video files that a scan picks up.
pub open spec fn video_extensions() -> Seq<Seq<char>> {
    seq!["flv"@, "mp4"@, "ts"@, "mkv"@, "avi"@, "mov"@, "webm"@]
}

/// The number of bytes `c` takes in UTF-8.
pub open spec fn utf8_width(c: char) -> int {
    let u = c as u32;
    if u < 0x80 {
        1
    } else if u < 0x800 {
        2
    } else if u < 0x10000 {
        3
    } else {
        4
    }
}

/// The index of the character that starts at byte offset `a` of `s` (or
/// `s.len()` for its end); `None` when `a` is not a character boundary.
pub open spec fn char_at_byte(s: Seq<char>, a: int) -> Option<int>
    decreases s.len(),
{
    if a == 0 {
        Some(0)
    } else if a < 0 || s.len() == 0 {
        None
    } else {
        match char_at_byte(s.skip(1), a - utf8_width(s[0])) {
            Some(i) => Some(i + 1),
            None => None,
        }
    }
}

/// `&s[a..b]` on the UTF-8 text of `s`; `None` where that slice panics (an
/// offset that is not a character boundary, or past the end).
pub open spec fn byte_slice(s: Seq<char>, a: int, b: int) -> Option<Seq<char>> {
    match (char_at_byte(s, a), char_at_byte(s, b)) {
        (Some(i), Some(j)) => if i <= j { Some(s.subrange(i, j)) } else { None },
        _ => None,
    }
}

/// `yyyy-MM-dd HH:mm:ss` from the date and time fields of a file name, cut
/// at the byte offsets 4, 6, 8 and 2, 4, 6; `None` where a cut falls inside
/// a character (the fields may hold non-ASCII decimal digits).
pub open spec fn recorded_at_text(date: Seq<char>, time: Seq<char>) -> Option<Seq<char>> {
    match (
        byte_slice(date, 0, 4),
        byte_slice(date, 4, 6),
        byte_slice(date, 6, 8),
        byte_slice(time, 0, 2),
        byte_slice(time, 2, 4),
        byte_slice(time, 4, 6),
    ) {
        (Some(y), Some(mo), Some(d), Some(h), Some(mi), Some(se)) => Some(
            y + "-"@ + mo + "-"@ + d + " "@ + h + ":"@ + mi + ":"@ + se,
        ),
        _ => None,
    }
}

pub open spec fn all_sliceable(fs: Seq<ListedView>) -> bool {
    forall|j: int| 0 <= j < fs.len() ==> listed_sliceable(#[trigger] fs[j])
}

/// A listed file whose record can be made: when it is a video named like
/// a recording, its date and time fields cut cleanly at their byte offsets
/// (elsewhere the cut panics).
pub open spec fn listed_sliceable(f: ListedView) -> bool {
    (f.is_file && f.name is Some && video_extensions().contains(lowered_ext(f))) ==> match recording_name(
        f.name.unwrap(),
    ) {
        Some(p) => recorded_at_text(p.1, p.2) is Some,
        None => true,
    }
}

/// A directory entry as the host file system reported it.
pub struct ListedFile {
    pub path: String,
    /// The final path component, if the path has one.
    pub name: Option<String>,
    /// The extension, if there is one and it is valid UTF-8.
    pub extension: Option<String>,
    /// Whether it is a regular file.
    pub is_file: bool,
    /// Files beside it with the same stem and an extension of
    /// `associated_suffixes`, in that order, that exist.
    pub associated: Vec<String>,
}

pub struct ListedView {
    pub path: Seq<char>,
    pub name: Option<Seq<char>>,
    pub extension: Option<Seq<char>>,
    pub is_file: bool,
    pub associated: Seq<Seq<char>>,
}

impl View for ListedFile {
    type V = ListedView;

    open spec fn view(&self) -> ListedView {
        ListedView {
            path: self.path@,
            name: opt_view(self.name),
            extension: opt_view(self.extension),
            is_file: self.is_file,
            associated: strs(self.associated@),
        }
    }
}

pub open spec fn listed_views(v: Seq<ListedFile>) -> Seq<ListedView> {
    v.map_values(|f: ListedFile| f@)
}

/// The lower-cased extension of a listed file.
pub open spec fn lowered_ext(f: ListedView) -> Seq<char> {
    unicode_lowercase(
        match f.extension {
            Some(e) => e,
            None => Seq::empty(),
        },
    )
}

/// The record a scan makes of a listed file: only regular video files
/// count; the name gives room, title and time when it has the recorder's
/// shape, and the enclosing streamer directory, if any, gives the room
/// otherwise and the streamer's name.
pub open spec fn listed_meta(
    f: ListedView,
    dir_room: Option<Seq<char>>,
    dir_streamer: Option<Seq<char>>,
) -> Option<MetaView> {
    if !f.is_file || f.name.is_none() || !video_extensions().contains(lowered_ext(f)) {
        None
    } else {
        let name = f.name.unwrap();
        let parsed = recording_name(name);
        Some(
            MetaView {
                room_id: match parsed {
                    Some(p) => Some(p.0),
                    None => dir_room,
                },
                streamer_name: dir_streamer,
                stream_title: match parsed {
                    Some(p) => Some(p.4),
                    None => None,
                },
                recorded_at: match parsed {
                    Some(p) => recorded_at_text(p.1, p.2),
                    None => None,
                },
                duration_ms: None,
                file_path: f.path,
                file_name: name,
                extension: lowered_ext(f),
                associated_files: f.associated,
            },
        )
    }
}

/// The suffixes looked for beside a recording, in order.
pub open spec fn associated_suffixes() -> Seq<Seq<char>> {
    seq![".xml"@, ".txt"@, ".srt"@, ".ass"@]
}

/// The names `{stem}.xml`, `{stem}.txt`, `{stem}.srt`, `{stem}.ass` that a
/// scan looks for beside a recording.
pub fn associated_names(stem: &str) -> (r: Vec<String>)
    ensures
        strs(r@) == associated_suffixes().map_values(|e: Seq<char>| stem@ + e),
{
    let mut r: Vec<String> = Vec::new();
    let mut a = stem.to_owned();
    a.append(".xml");
    r.push(a);
    let mut b = stem.to_owned();
    b.append(".txt");
    r.push(b);
    let mut c = stem.to_owned();
    c.append(".srt");
    r.push(c);
    let mut d = stem.to_owned();
    d.append(".ass");
    r.push(d);
    assert(strs(r@) =~= associated_suffixes().map_values(|e: Seq<char>| stem@ + e));
    r
}

/// Whether a lower-cased extension is one of a video.
pub fn is_video_extension(ext: &str) -> (r: bool)
    ensures
        r == video_extensions().contains(ext@),
{
    let r = crate::text::str_eq(ext, "flv") || crate::text::str_eq(ext, "mp4")
        || crate::text::str_eq(ext, "ts") || crate::text::str_eq(ext, "mkv")
        || crate::text::str_eq(ext, "avi") || crate::text::str_eq(ext, "mov")
        || crate::text::str_eq(ext, "webm");
    proof {
        let v = video_extensions();
        if r {
            if ext@ == "flv"@ { assert(v[0] == ext@); }
            if ext@ == "mp4"@ { assert(v[1] == ext@); }
            if ext@ == "ts"@ { assert(v[2] == ext@); }
            if ext@ == "mkv"@ { assert(v[3] == ext@); }
            if ext@ == "avi"@ { assert(v[4] == ext@); }
            if ext@ == "mov"@ { assert(v[5] == ext@); }
            if ext@ == "webm"@ { assert(v[6] == ext@); }
        } else {
            assert forall|k: int| 0 <= k < v.len() implies v[k] != ext@ by {}
        }
    }
    r
}

fn utf8_width_of(c: char) -> (r: usize)
    ensures
        r == utf8_width(c),
{
    let u = c as u32;
    if u < 0x80 {
        1
    } else if u < 0x800 {
        2
    } else if u < 0x10000 {
        3
    } else {
        4
    }
}

pub open spec fn shifted(o: Option<int>, by: int) -> Option<int> {
    match o {
        Some(i) => Some(i + by),
        None => None,
    }
}

/// The character index at byte offset `a` of `s` (see [`char_at_byte`]).
fn char_index_at_byte(s: &Vec<char>, a: usize) -> (r: Option<usize>)
    requires
        a <= 16,
    ensures
        match r {
            Some(i) => char_at_byte(s@, a as int) == Some(i as int) && i <= s@.len(),
            None => char_at_byte(s@, a as int) is None,
        },
{
    let mut i: usize = 0;
    let mut off: usize = 0;
    assert(s@.skip(0) == s@);
    while off < a && i < s.len()
        invariant
            i <= s@.len(),
            off <= a + 4,
            a <= 16,
            char_at_byte(s@, a as int) == shifted(char_at_byte(s@.skip(i as int), a - off), i as int),
        decreases s.len() - i,
    {
        assert(s@.skip(i as int).skip(1) == s@.skip(i + 1));
        assert(s@.skip(i as int)[0] == s@[i as int]);
        off = off + utf8_width_of(s[i]);
        i = i + 1;
    }
    if off == a {
        Some(i)
    } else {
        proof {
            if off < a {
                assert(s@.skip(i as int).len() == 0);
            }
        }
        None
    }
}

/// Appends `&s[a..b]` (see [`byte_slice`]); false, appending nothing, where
/// that slice panics.
fn push_byte_slice(buf: &mut Vec<char>, s: &Vec<char>, a: usize, b: usize) -> (ok: bool)
    requires
        a <= b <= 16,
    ensures
        match byte_slice(s@, a as int, b as int) {
            Some(piece) => ok && final(buf)@ == old(buf)@ + piece,
            None => !ok && final(buf)@ == old(buf)@,
        },
{
    match (char_index_at_byte(s, a), char_index_at_byte(s, b)) {
        (Some(i), Some(j)) => {
            if i <= j {
                push_range(buf, s, i, j);
                true
            } else {
                false
            }
        },
        _ => false,
    }
}

fn recorded_at_string(date: &String, time: &String) -> (r: Option<String>)
    ensures
        opt_view(r) == recorded_at_text(date@, time@),
{
    let d = chars_of(date.as_str());
    let t = chars_of(time.as_str());
    let mut buf: Vec<char> = Vec::new();
    proof {
        reveal_strlit("-");
        reveal_strlit(" ");
        reveal_strlit(":");
    }
    if !push_byte_slice(&mut buf, &d, 0, 4) {
        return None;
    }
    push_str(&mut buf, "-");
    if !push_byte_slice(&mut buf, &d, 4, 6) {
        return None;
    }
    push_str(&mut buf, "-");
    if !push_byte_slice(&mut buf, &d, 6, 8) {
        return None;
    }
    push_str(&mut buf, " ");
    if !push_byte_slice(&mut buf, &t, 0, 2) {
        return None;
    }
    push_str(&mut buf, ":");
    if !push_byte_slice(&mut buf, &t, 2, 4) {
        return None;
    }
    push_str(&mut buf, ":");
    if !push_byte_slice(&mut buf, &t, 4, 6) {
        return None;
    }
    Some(string_of(&buf))
}

fn push_range(buf: &mut Vec<char>, s: &Vec<char>, from: usize, to: usize)
    requires
        from <= to <= s.len(),
    ensures
        final(buf)@ == old(buf)@ + s@.subrange(from as int, to as int),
{
    let ghost start = buf@;
    let mut i: usize = from;
    while i < to
        invariant
            from <= i <= to <= s.len(),
            buf@ == start + s@.subrange(from as int, i as int),
        decreases to - i,
    {
        buf.push(s[i]);
        i = i + 1;
        assert(buf@ == start + s@.subrange(from as int, i as int));
    }
}

/// The record a scan makes of one listed file, if it is a video.
pub fn recording_file_meta(
    f: &ListedFile,
    dir_room: &Option<String>,
    dir_streamer: &Option<String>,
) -> (r: Option<RecordingFileMeta>)
    requires
        listed_sliceable(f@),
    ensures
        match listed_meta(f@, opt_view(*dir_room), opt_view(*dir_streamer)) {
            Some(m) => r matches Some(x) && x@ == m,
            None => r is None,
        },
{
    if !f.is_file {
        return None;
    }
    let name = match &f.name {
        Some(n) => n,
        None => {
            return None;
        },
    };
    let raw: &str = match &f.extension {
        Some(e) => e.as_str(),
        None => "",
    };
    proof {
        reveal_strlit("");
        let e: Seq<char> = match f@.extension { Some(e) => e, None => Seq::empty() };
        assert(raw@ == e);
    }
    let ext = crate::text::to_lowercase(raw);
    if !is_video_extension(ext.as_str()) {
        return None;
    }
    let parsed = parse_recording_name(name.as_str());
    let (room_id, stream_title, recorded_at) = match parsed {
        Some(p) => {
            let at = recorded_at_string(&p.date, &p.time);
            (Some(p.room_id), Some(p.title), at)
        },
        None => (copy_opt_string(dir_room), None, None),
    };
    let m = RecordingFileMeta {
        room_id,
        streamer_name: copy_opt_string(dir_streamer),
        stream_title,
        recorded_at,
        duration_ms: None,
        file_path: f.path.clone(),
        file_name: name.clone(),
        extension: ext,
        associated_files: copy_strings(&f.associated),
    };
    Some(m)
}

/// Whether a record can be made of `f` (see [`listed_sliceable`]); a scan
/// of a listing that holds a file for which this is false panics.
pub fn listed_file_sliceable(f: &ListedFile) -> (r: bool)
    ensures
        r == listed_sliceable(f@),
{
    if !f.is_file {
        return true;
    }
    let name = match &f.name {
        Some(n) => n,
        None => {
            return true;
        },
    };
    let raw: &str = match &f.extension {
        Some(e) => e.as_str(),
        None => "",
    };
    proof {
        reveal_strlit("");
        let e: Seq<char> = match f@.extension { Some(e) => e, None => Seq::empty() };
        assert(raw@ == e);
    }
    let ext = crate::text::to_lowercase(raw);
    if !is_video_extension(ext.as_str()) {
        return true;
    }
    match parse_recording_name(name.as_str()) {
        Some(p) => recorded_at_string(&p.date, &p.time).is_some(),
        None => true,
    }
}

pub open spec fn opt_seq<A>(o: Option<A>) -> Seq<A> {
    match o {
        Some(x) => seq![x],
        None => Seq::empty(),
    }
}

/// Records of the listed files that are videos, in listing order.
pub open spec fn listed_metas(
    fs: Seq<ListedView>,
    dir_room: Option<Seq<char>>,
    dir_streamer: Option<Seq<char>>,
) -> Seq<MetaView>
    decreases fs.len(),
{
    if fs.len() == 0 {
        Seq::empty()
    } else {
        listed_metas(fs.drop_last(), dir_room, dir_streamer) + opt_seq(
            listed_meta(fs.last(), dir_room, dir_streamer),
        )
    }
}

fn push_metas(
    out: &mut Vec<RecordingFileMeta>,
    fs: &Vec<ListedFile>,
    dir_room: &Option<String>,
    dir_streamer: &Option<String>,
)
    requires
        all_sliceable(listed_views(fs@)),
    ensures
        metas(final(out)@) == metas(old(out)@) + listed_metas(
            listed_views(fs@),
            opt_view(*dir_room),
            opt_view(*dir_streamer),
        ),
{
    let ghost start = metas(out@);
    let ghost lv = listed_views(fs@);
    let mut i: usize = 0;
    while i < fs.len()
        invariant
            i <= fs.len(),
            lv == listed_views(fs@),
            all_sliceable(lv),
            metas(out@) == start + listed_metas(
                lv.take(i as int),
                opt_view(*dir_room),
                opt_view(*dir_streamer),
            ),
        decreases fs.len() - i,
    {
        assert(lv.take(i + 1).drop_last() == lv.take(i as int));
        assert(lv.take(i + 1).last() == fs@[i as int]@);
        assert(listed_sliceable(lv[i as int]));
        let ghost pre = out@;
        match recording_file_meta(&fs[i], dir_room, dir_streamer) {
            Some(m) => {
                out.push(m);
                assert(metas(out@) == metas(pre).push(m@));
            },
            None => {},
        }
        i = i + 1;
    }
    assert(lv.take(fs.len() as int) == lv);
}

/// A root entry of a workspace as the host file system listed it.
pub enum RootEntry {
    /// A non-directory at the root.
    File(ListedFile),
    /// A directory with its entries.
    Dir { name: String, path: String, entries: Vec<ListedFile> },
}

pub enum RootView {
    File(ListedView),
    Dir { name: Seq<char>, path: Seq<char>, entries: Seq<ListedView> },
}

pub open spec fn root_view(e: RootEntry) -> RootView {
    match e {
        RootEntry::File(f) => RootView::File(f@),
        RootEntry::Dir { name, path, entries } => RootView::Dir {
            name: name@,
            path: path@,
            entries: listed_views(entries@),
        },
    }
}

pub open spec fn root_views(v: Seq<RootEntry>) -> Seq<RootView> {
    v.map_values(|e: RootEntry| root_view(e))
}

/// Every file of a root listing can be recorded (see [`listed_sliceable`]).
pub open spec fn roots_sliceable(es: Seq<RootView>) -> bool {
    forall|k: int| 0 <= k < es.len() ==> match #[trigger] es[k] {
        RootView::File(f) => listed_sliceable(f),
        RootView::Dir { name, path, entries } => all_sliceable(entries),
    }
}

pub open spec fn dir_room(name: Seq<char>) -> Option<Seq<char>> {
    match streamer_dir_name(name) {
        Some(p) => Some(p.0),
        None => None,
    }
}

pub open spec fn dir_streamer(name: Seq<char>) -> Option<Seq<char>> {
    match streamer_dir_name(name) {
        Some(p) => Some(p.1),
        None => None,
    }
}

/// The recordings of a BililiveRecorder workspace: files at the root, and
/// the files of each directory with the streamer that its name gives.
pub open spec fn recorder_files(es: Seq<RootView>) -> Seq<MetaView>
    decreases es.len(),
{
    if es.len() == 0 {
        Seq::empty()
    } else {
        recorder_files(es.drop_last()) + match es.last() {
            RootView::File(f) => opt_seq(listed_meta(f, None, None)),
            RootView::Dir { name, path, entries } => listed_metas(
                entries,
                dir_room(name),
                dir_streamer(name),
            ),
        }
    }
}

/// The streamer directories of a BililiveRecorder workspace.
pub open spec fn recorder_dirs(es: Seq<RootView>) -> Seq<(Seq<char>, Seq<char>, Seq<char>)>
    decreases es.len(),
{
    if es.len() == 0 {
        Seq::empty()
    } else {
        recorder_dirs(es.drop_last()) + match es.last() {
            RootView::File(_) => Seq::empty(),
            RootView::Dir { name, path, entries } => match streamer_dir_name(name) {
                Some(p) => seq![(p.0, p.1, path)],
                None => Seq::empty(),
            },
        }
    }
}

pub open spec fn scan_view(r: WorkspaceScanResult) -> (
    Seq<char>,
    Seq<char>,
    Seq<MetaView>,
    Seq<(Seq<char>, Seq<char>, Seq<char>)>,
) {
    (r.adapter_id@, r.root_dir@, metas(r.files@), streamer_dirs_view(r.streamer_dirs@))
}

/// Scans a BililiveRecorder workspace from its root listing.
pub fn scan_bililive_recorder(root_dir: &str, entries: &Vec<RootEntry>) -> (r: WorkspaceScanResult)
    requires
        roots_sliceable(root_views(entries@)),
    ensures
        scan_view(r) == (
            "bililive-recorder"@,
            root_dir@,
            recorder_files(root_views(entries@)),
            recorder_dirs(root_views(entries@)),
        ),
{
    let ghost es = root_views(entries@);
    let mut files: Vec<RecordingFileMeta> = Vec::new();
    let mut dirs: Vec<StreamerDir> = Vec::new();
    let mut i: usize = 0;
    while i < entries.len()
        invariant
            i <= entries.len(),
            es == root_views(entries@),
            roots_sliceable(es),
            metas(files@) == recorder_files(es.take(i as int)),
            streamer_dirs_view(dirs@) == recorder_dirs(es.take(i as int)),
        decreases entries.len() - i,
    {
        assert(es.take(i + 1).drop_last() == es.take(i as int));
        assert(es.take(i + 1).last() == root_view(entries@[i as int]));
        assert(es[i as int] == root_view(entries@[i as int]));
        match &entries[i] {
            RootEntry::File(f) => {
                let ghost pre = files@;
                match recording_file_meta(f, &None, &None) {
                    Some(m) => {
                        files.push(m);
                        assert(metas(files@) == metas(pre).push(m@));
                    },
                    None => {},
                }
                assert(opt_view(None::<String>) == None::<Seq<char>>);
            },
            RootEntry::Dir { name, path, entries: sub } => {
                let parsed = parse_streamer_dir_name(name.as_str());
                let (room, streamer) = match parsed {
                    Some(p) => {
                        let ghost predirs = dirs@;
                        dirs.push(
                            StreamerDir {
                                room_id: p.0.clone(),
                                name: p.1.clone(),
                                dir_path: path.clone(),
                            },
                        );
                        assert(streamer_dirs_view(dirs@) == streamer_dirs_view(predirs).push(
                            (p.0@, p.1@, path@),
                        ));
                        (Some(p.0), Some(p.1))
                    },
                    None => (None, None),
                };
                push_metas(&mut files, sub, &room, &streamer);
            },
        }
        i = i + 1;
    }
    assert(es.take(entries.len() as int) == es);
    WorkspaceScanResult {
        adapter_id: "bililive-recorder".to_owned(),
        root_dir: root_dir.to_owned(),
        files,
        streamer_dirs: dirs,
    }
}

/// Scans any directory: every video file of its tree, listed depth first.
pub fn scan_generic(root_dir: &str, tree_files: &Vec<ListedFile>) -> (r: WorkspaceScanResult)
    requires
        all_sliceable(listed_views(tree_files@)),
    ensures
        scan_view(r) == (
            "generic"@,
            root_dir@,
            listed_metas(listed_views(tree_files@), None, None),
            Seq::<(Seq<char>, Seq<char>, Seq<char>)>::empty(),
        ),
{
    let mut files: Vec<RecordingFileMeta> = Vec::new();
    push_metas(&mut files, tree_files, &None, &None);
    let dirs: Vec<StreamerDir> = Vec::new();
    assert(streamer_dirs_view(dirs@) == Seq::<(Seq<char>, Seq<char>, Seq<char>)>::empty());
    WorkspaceScanResult {
        adapter_id: "generic".to_owned(),
        root_dir: root_dir.to_owned(),
        files,
        streamer_dirs: dirs,
    }
}

/// Whether `config.json` carries a BililiveRecorder signature.
pub open spec fn recorder_config(c: Seq<char>) -> bool {
    contains_run(c, "roomId"@) || contains_run(c, "RecordMode"@)
}

/// Whether a listed entry is named like a recording.
pub open spec fn entry_recording(f: ListedView) -> bool {
    match f.name {
        Some(n) => recording_name(n) is Some,
        None => false,
    }
}

/// A streamer directory that holds an entry named like a recording.
pub open spec fn dir_qualifies(e: RootView) -> bool {
    match e {
        RootView::Dir { name, path, entries } => streamer_dir_name(name) is Some && exists|j: int|
            0 <= j < entries.len() && entry_recording(#[trigger] entries[j]),
        RootView::File(_) => false,
    }
}

/// Whether some streamer directory holds an entry named like a recording.
pub open spec fn has_recorder_dir(es: Seq<RootView>) -> bool {
    exists|i: int| 0 <= i < es.len() && dir_qualifies(#[trigger] es[i])
}

pub open spec fn adapter_spec(config_json: Option<Seq<char>>, es: Seq<RootView>) -> Seq<char> {
    if (config_json matches Some(c) && recorder_config(c)) || has_recorder_dir(es) {
        "bililive-recorder"@
    } else {
        "generic"@
    }
}

fn dir_has_recording(entries: &Vec<ListedFile>) -> (r: bool)
    ensures
        r == exists|j: int|
            0 <= j < entries@.len() && entry_recording(#[trigger] listed_views(entries@)[j]),
{
    let ghost lv = listed_views(entries@);
    let mut j: usize = 0;
    while j < entries.len()
        invariant
            j <= entries.len(),
            lv == listed_views(entries@),
            forall|t: int| 0 <= t < j ==> !entry_recording(#[trigger] lv[t]),
        decreases entries.len() - j,
    {
        assert(lv[j as int] == entries@[j as int]@);
        match &entries[j].name {
            Some(n) => {
                if parse_recording_name(n.as_str()).is_some() {
                    return true;
                }
            },
            None => {},
        }
        j = j + 1;
    }
    false
}

/// Which adapter reads a workspace: `bililive-recorder` when its
/// `config.json` carries the recorder's signature or a streamer directory
/// holds a recording, else `generic`.
pub fn detect_adapter(config_json: &Option<String>, entries: &Vec<RootEntry>) -> (r: String)
    ensures
        r@ == adapter_spec(opt_view(*config_json), root_views(entries@)),
{
    let ghost es = root_views(entries@);
    match config_json {
        Some(c) => {
            if str_contains(c.as_str(), "roomId") || str_contains(c.as_str(), "RecordMode") {
                return "bililive-recorder".to_owned();
            }
        },
        None => {},
    }
    let mut i: usize = 0;
    while i < entries.len()
        invariant
            i <= entries.len(),
            es == root_views(entries@),
            forall|t: int| 0 <= t < i ==> !dir_qualifies(#[trigger] es[t]),
        decreases entries.len() - i,
    {
        match &entries[i] {
            RootEntry::Dir { name, path, entries: sub } => {
                let named = parse_streamer_dir_name(name.as_str());
                if named.is_some() && dir_has_recording(sub) {
                    assert(streamer_dir_name(name@) is Some);
                    assert(es[i as int] == RootView::Dir {
                        name: name@,
                        path: path@,
                        entries: listed_views(sub@),
                    });
                    proof {
                        let lv = listed_views(sub@);
                        let j = choose|j: int|
                            0 <= j < sub@.len() && entry_recording(#[trigger] listed_views(sub@)[j]);
                        assert(0 <= j < lv.len() && entry_recording(lv[j]));
                        assert(exists|j: int| 0 <= j < lv.len() && entry_recording(#[trigger] lv[j]));
                        let d = RootView::Dir { name: name@, path: path@, entries: lv };
                        assert(streamer_dir_name(name@) is Some);
                        assert(d->Dir_name == name@);
                        assert(d->Dir_entries == lv);
                        assert(dir_qualifies(d));
                    }
                    assert(dir_qualifies(es[i as int]));
                    return "bililive-recorder".to_owned();
                }
            },
            RootEntry::File(_) => {},
        }
        i = i + 1;
    }
    "generic".to_owned()
}

/// Scans a workspace with the adapter its listing calls for; the tree
/// listing is read only by the generic adapter.
pub fn scan_workspace(
    root_dir: &str,
    config_json: &Option<String>,
    entries: &Vec<RootEntry>,
    tree_files: &Vec<ListedFile>,
) -> (r: WorkspaceScanResult)
    requires
        adapter_spec(opt_view(*config_json), root_views(entries@)) == "bililive-recorder"@
            ==> roots_sliceable(root_views(entries@)),
        adapter_spec(opt_view(*config_json), root_views(entries@)) != "bililive-recorder"@
            ==> all_sliceable(listed_views(tree_files@)),
    ensures
        adapter_spec(opt_view(*config_json), root_views(entries@)) == "bililive-recorder"@
            ==> scan_view(r) == (
            "bililive-recorder"@,
            root_dir@,
            recorder_files(root_views(entries@)),
            recorder_dirs(root_views(entries@)),
        ),
        adapter_spec(opt_view(*config_json), root_views(entries@)) != "bililive-recorder"@
            ==> scan_view(r) == (
            "generic"@,
            root_dir@,
            listed_metas(listed_views(tree_files@), None, None),
            Seq::<(Seq<char>, Seq<char>, Seq<char>)>::empty(),
        ),
{
    let adapter = detect_adapter(config_json, entries);
    if crate::text::str_eq(adapter.as_str(), "bililive-recorder") {
        scan_bililive_recorder(root_dir, entries)
    } else {
        scan_generic(root_dir, tree_files)
    }
}

} // verus!
