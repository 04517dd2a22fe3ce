//! Grouping scanned recordings into live sessions: files of one room whose
//! gap to the previous file's end stays within a threshold belong together.

use vstd::prelude::*;
use crate::storage::{metas, MetaView, RecordingFileMeta, RecordingSession};
use crate::subtitle::tdiv;
use crate::text::{chars_of, parse_i64_spec, parse_int, split_by, split_chars, views};

verus! {

/// Seconds of `yyyy-MM-dd HH:mm:ss` on a rough calendar (years of 365
/// days, months of 30), enough to compare gaps; `None` unless the first
/// six fields between `-`, space and `:` are integers.
pub open spec fn timestamp_secs(s: Seq<char>) -> Option<int> {
    let p = split_by(s, seq!['-', ' ', ':']);
    if p.len() < 6 {
        None
    } else if parse_i64_spec(p[0]) is Some && parse_i64_spec(p[1]) is Some && parse_i64_spec(
        p[2],
    ) is Some && parse_i64_spec(p[3]) is Some && parse_i64_spec(p[4]) is Some && parse_i64_spec(
        p[5],
    ) is Some {
        let y = parse_i64_spec(p[0]).unwrap();
        let mo = parse_i64_spec(p[1]).unwrap();
        let d = parse_i64_spec(p[2]).unwrap();
        let h = parse_i64_spec(p[3]).unwrap();
        let mi = parse_i64_spec(p[4]).unwrap();
        let sec = parse_i64_spec(p[5]).unwrap();
        Some(((y * 365 + mo * 30 + d) * 86400) + h * 3600 + mi * 60 + sec)
    } else {
        None
    }
}

/// Reads a `yyyy-MM-dd HH:mm:ss` time as rough seconds.
pub fn parse_timestamp_secs(s: &str) -> (r: Option<i128>)
    ensures
        crate::text::opt_int(r) == timestamp_secs(s@),
{
    let cs = chars_of(s);
    let seps: Vec<char> = vec!['-', ' ', ':'];
    let parts = split_chars(&cs, &seps);
    assert(seps@ == seq!['-', ' ', ':']);
    let ghost p = split_by(s@, seq!['-', ' ', ':']);
    assert(views(parts@) == p);
    if parts.len() < 6 {
        return None;
    }
    assert(parts@[0]@ == p[0] && parts@[1]@ == p[1] && parts@[2]@ == p[2]);
    assert(parts@[3]@ == p[3] && parts@[4]@ == p[4] && parts@[5]@ == p[5]);
    let lo: i128 = -0x8000000000000000;
    let hi: i128 = 0x7fffffffffffffff;
    let y = match parse_int(&parts[0], true, lo, hi) {
        Some(v) => v,
        None => {
            return None;
        },
    };
    let mo = match parse_int(&parts[1], true, lo, hi) {
        Some(v) => v,
        None => {
            return None;
        },
    };
    let d = match parse_int(&parts[2], true, lo, hi) {
        Some(v) => v,
        None => {
            return None;
        },
    };
    let h = match parse_int(&parts[3], true, lo, hi) {
        Some(v) => v,
        None => {
            return None;
        },
    };
    let mi = match parse_int(&parts[4], true, lo, hi) {
        Some(v) => v,
        None => {
            return None;
        },
    };
    let sec = match parse_int(&parts[5], true, lo, hi) {
        Some(v) => v,
        None => {
            return None;
        },
    };
    assert(lo <= y <= hi && lo <= mo <= hi && lo <= d <= hi);
    assert(lo <= h <= hi && lo <= mi <= hi && lo <= sec <= hi);
    assert(-0x1000000000000000000000000000 <= (y * 365 + mo * 30 + d) * 86400
        <= 0x1000000000000000000000000000) by (nonlinear_arith)
        requires
            lo <= y <= hi,
            lo <= mo <= hi,
            lo <= d <= hi,
            lo == -0x8000000000000000,
            hi == 0x7fffffffffffffff,
    ;
    assert(-0x1000000000000000000000 <= h * 3600 + mi * 60 + sec <= 0x1000000000000000000000)
        by (nonlinear_arith)
        requires
            lo <= h <= hi,
            lo <= mi <= hi,
            lo <= sec <= hi,
            lo == -0x8000000000000000,
            hi == 0x7fffffffffffffff,
    ;
    Some(((y * 365 + mo * 30 + d) * 86400) + h * 3600 + mi * 60 + sec)
}

/// The room a file belongs to; files without one share `unknown`.
pub open spec fn room_key(m: MetaView) -> Seq<char> {
    match m.room_id {
        Some(r) => r,
        None => "unknown"@,
    }
}

/// The order key of a file within its room.
pub open spec fn time_key(m: MetaView) -> Seq<char> {
    match m.recorded_at {
        Some(r) => r,
        None => Seq::empty(),
    }
}

/// Strict lexicographic order of strings by code point (`str`'s `<`).
pub open spec fn lex_lt(a: Seq<char>, b: Seq<char>) -> bool
    decreases a.len(),
{
    if a.len() == 0 {
        b.len() > 0
    } else if b.len() == 0 {
        false
    } else if a[0] < b[0] {
        true
    } else if a[0] > b[0] {
        false
    } else {
        lex_lt(a.skip(1), b.skip(1))
    }
}

pub fn str_lt(a: &str, b: &str) -> (r: bool)
    ensures
        r == lex_lt(a@, b@),
{
    let x = chars_of(a);
    let y = chars_of(b);
    let mut i: usize = 0;
    assert(x@.skip(0) == x@ && y@.skip(0) == y@);
    while i < x.len() && i < y.len() && x[i] == y[i]
        invariant
            i <= x.len(),
            i <= y.len(),
            lex_lt(a@, b@) == lex_lt(x@.skip(i as int), y@.skip(i as int)),
            x@ == a@,
            y@ == b@,
        decreases x.len() - i,
    {
        assert(x@.skip(i as int).skip(1) == x@.skip(i + 1));
        assert(y@.skip(i as int).skip(1) == y@.skip(i + 1));
        assert(x@.skip(i as int)[0] == x@[i as int]);
        assert(y@.skip(i as int)[0] == y@[i as int]);
        i = i + 1;
    }
    if i == x.len() {
        assert(x@.skip(i as int).len() == 0);
        assert(y@.skip(i as int).len() == y.len() - i);
        i < y.len()
    } else if i == y.len() {
        assert(y@.skip(i as int).len() == 0);
        false
    } else {
        assert(x@.skip(i as int)[0] == x@[i as int]);
        assert(y@.skip(i as int)[0] == y@[i as int]);
        x[i] < y[i]
    }
}

/// Inserts `x` into `s` after every element whose time key is not later
/// than its own (one step of a stable sort by time).
pub open spec fn insert_by_time(s: Seq<MetaView>, x: MetaView) -> Seq<MetaView>
    decreases s.len(),
{
    if s.len() == 0 {
        seq![x]
    } else if lex_lt(time_key(x), time_key(s.last())) {
        insert_by_time(s.drop_last(), x).push(s.last())
    } else {
        s.push(x)
    }
}

/// The files in a stable sort by time key (`slice::sort_by` is stable).
pub open spec fn sort_by_time(s: Seq<MetaView>) -> Seq<MetaView>
    decreases s.len(),
{
    if s.len() == 0 {
        s
    } else {
        insert_by_time(sort_by_time(s.drop_last()), s.last())
    }
}

/// The files of room `key`, in input order.
pub open spec fn in_room(fs: Seq<MetaView>, key: Seq<char>) -> Seq<MetaView>
    decreases fs.len(),
{
    if fs.len() == 0 {
        Seq::empty()
    } else if room_key(fs.last()) == key {
        in_room(fs.drop_last(), key).push(fs.last())
    } else {
        in_room(fs.drop_last(), key)
    }
}

/// The rooms in order of first appearance.
pub open spec fn rooms_of(fs: Seq<MetaView>) -> Seq<Seq<char>>
    decreases fs.len(),
{
    if fs.len() == 0 {
        Seq::empty()
    } else {
        let r = rooms_of(fs.drop_last());
        if r.contains(room_key(fs.last())) {
            r
        } else {
            r.push(room_key(fs.last()))
        }
    }
}

pub open spec fn ts_of(m: MetaView) -> Option<int> {
    match m.recorded_at {
        Some(r) => timestamp_secs(r),
        None => None,
    }
}

/// One file through the session splitter: closed runs, the open run and
/// the open run's end time. A file opens a new run when its start is more
/// than `gap` seconds after that end, or, with no end known, when it has a
/// start and the open run has files; a file's end is its start plus its
/// whole seconds, or its start alone.
pub open spec fn run_step(
    st: (Seq<Seq<MetaView>>, Seq<MetaView>, Option<int>),
    f: MetaView,
    gap: int,
) -> (Seq<Seq<MetaView>>, Seq<MetaView>, Option<int>) {
    let start = ts_of(f);
    let split = match (st.2, start) {
        (Some(p), Some(c)) => c - p > gap,
        _ => st.1.len() > 0 && start is Some,
    };
    let closed = split && st.1.len() > 0;
    let done = if closed { st.0.push(st.1) } else { st.0 };
    let cur = if closed { seq![f] } else { st.1.push(f) };
    let end = match (start, f.duration_ms) {
        (Some(s), Some(d)) => Some(s + tdiv(d as int, 1000)),
        (Some(s), None) => Some(s),
        _ => st.2,
    };
    (done, cur, end)
}

pub open spec fn runs_fold(fs: Seq<MetaView>, gap: int) -> (
    Seq<Seq<MetaView>>,
    Seq<MetaView>,
    Option<int>,
)
    decreases fs.len(),
{
    if fs.len() == 0 {
        (Seq::empty(), Seq::empty(), None)
    } else {
        run_step(runs_fold(fs.drop_last(), gap), fs.last(), gap)
    }
}

/// The runs of files, in order, that the splitter makes.
pub open spec fn runs(fs: Seq<MetaView>, gap: int) -> Seq<Seq<MetaView>> {
    let st = runs_fold(fs, gap);
    if st.1.len() > 0 {
        st.0.push(st.1)
    } else {
        st.0
    }
}

pub open spec fn or_empty(o: Option<Seq<char>>) -> Seq<char> {
    match o {
        Some(s) => s,
        None => Seq::empty(),
    }
}

/// A session as a value: room, streamer, title, start, files.
pub type SessionView = (Seq<char>, Seq<char>, Seq<char>, Seq<char>, Seq<MetaView>);

/// A run as a session: its first file names the streamer, title and start.
pub open spec fn session_of(room: Seq<char>, run: Seq<MetaView>) -> SessionView {
    (room, or_empty(run[0].streamer_name), or_empty(run[0].stream_title), or_empty(run[0].recorded_at), run)
}

pub open spec fn sessions_of(room: Seq<char>, rs: Seq<Seq<MetaView>>) -> Seq<SessionView> {
    rs.map_values(|r: Seq<MetaView>| session_of(room, r))
}

/// The sessions of one room.
pub open spec fn room_sessions(fs: Seq<MetaView>, key: Seq<char>, gap: int) -> Seq<SessionView> {
    sessions_of(key, runs(sort_by_time(in_room(fs, key)), gap))
}

pub open spec fn sessions_for(keys: Seq<Seq<char>>, fs: Seq<MetaView>, gap: int) -> Seq<SessionView>
    decreases keys.len(),
{
    if keys.len() == 0 {
        Seq::empty()
    } else {
        sessions_for(keys.drop_last(), fs, gap) + room_sessions(fs, keys.last(), gap)
    }
}

/// Inserts `x` after every session that did not start earlier than it
/// (one step of a stable sort, latest first).
pub open spec fn insert_latest_first(s: Seq<SessionView>, x: SessionView) -> Seq<SessionView>
    decreases s.len(),
{
    if s.len() == 0 {
        seq![x]
    } else if lex_lt(s.last().3, x.3) {
        insert_latest_first(s.drop_last(), x).push(s.last())
    } else {
        s.push(x)
    }
}

pub open spec fn latest_first(s: Seq<SessionView>) -> Seq<SessionView>
    decreases s.len(),
{
    if s.len() == 0 {
        s
    } else {
        insert_latest_first(latest_first(s.drop_last()), s.last())
    }
}

/// All sessions, latest start first; rooms are taken in order of first
/// appearance, which fixes the order of sessions that start together.
pub open spec fn grouped(fs: Seq<MetaView>, gap: int) -> Seq<SessionView> {
    latest_first(sessions_for(rooms_of(fs), fs, gap))
}

pub open spec fn session_view(s: RecordingSession) -> SessionView {
    (s.room_id@, s.streamer_name@, s.title@, s.started_at@, metas(s.files@))
}

pub open spec fn session_views(v: Seq<RecordingSession>) -> Seq<SessionView> {
    v.map_values(|s: RecordingSession| session_view(s))
}

fn room_key_of(m: &RecordingFileMeta) -> (r: String)
    ensures
        r@ == room_key(m@),
{
    match &m.room_id {
        Some(r) => r.clone(),
        None => "unknown".to_owned(),
    }
}

fn time_key_of(m: &RecordingFileMeta) -> (r: &str)
    ensures
        r@ == time_key(m@),
{
    match &m.recorded_at {
        Some(r) => r.as_str(),
        None => {
            proof {
                reveal_strlit("");
            }
            ""
        },
    }
}

fn strings_contain(v: &Vec<String>, s: &String) -> (r: bool)
    ensures
        r == crate::config::strs(v@).contains(s@),
{
    let mut i: usize = 0;
    while i < v.len()
        invariant
            i <= v.len(),
            forall|k: int| 0 <= k < i ==> v@[k]@ != s@,
        decreases v.len() - i,
    {
        if crate::text::str_eq(v[i].as_str(), s.as_str()) {
            assert(crate::config::strs(v@)[i as int] == s@);
            return true;
        }
        i = i + 1;
    }
    assert(!crate::config::strs(v@).contains(s@)) by {
        if crate::config::strs(v@).contains(s@) {
            let k = choose|k: int|
                0 <= k < crate::config::strs(v@).len() && crate::config::strs(v@)[k] == s@;
            assert(v@[k]@ == s@);
        }
    }
    false
}

fn room_keys(files: &Vec<RecordingFileMeta>) -> (r: Vec<String>)
    ensures
        crate::config::strs(r@) == rooms_of(metas(files@)),
{
    let ghost ms = metas(files@);
    let mut r: Vec<String> = Vec::new();
    let mut i: usize = 0;
    while i < files.len()
        invariant
            i <= files.len(),
            ms == metas(files@),
            crate::config::strs(r@) == rooms_of(ms.take(i as int)),
        decreases files.len() - i,
    {
        assert(ms.take(i + 1).drop_last() == ms.take(i as int));
        assert(ms.take(i + 1).last() == files@[i as int]@);
        let k = room_key_of(&files[i]);
        if !strings_contain(&r, &k) {
            let ghost pre = r@;
            r.push(k);
            assert(crate::config::strs(r@) == crate::config::strs(pre).push(k@));
        }
        i = i + 1;
    }
    assert(ms.take(files.len() as int) == ms);
    r
}

fn files_in_room(files: &Vec<RecordingFileMeta>, key: &String) -> (r: Vec<RecordingFileMeta>)
    ensures
        metas(r@) == in_room(metas(files@), key@),
{
    let ghost ms = metas(files@);
    let mut r: Vec<RecordingFileMeta> = Vec::new();
    let mut i: usize = 0;
    while i < files.len()
        invariant
            i <= files.len(),
            ms == metas(files@),
            metas(r@) == in_room(ms.take(i as int), key@),
        decreases files.len() - i,
    {
        assert(ms.take(i + 1).drop_last() == ms.take(i as int));
        assert(ms.take(i + 1).last() == files@[i as int]@);
        let k = room_key_of(&files[i]);
        if crate::text::str_eq(k.as_str(), key.as_str()) {
            let m = files[i].duplicate();
            let ghost pre = r@;
            r.push(m);
            assert(metas(r@) == metas(pre).push(m@));
        }
        i = i + 1;
    }
    assert(ms.take(files.len() as int) == ms);
    r
}

proof fn lemma_insert_by_time_at(s: Seq<MetaView>, x: MetaView, p: int)
    requires
        0 <= p <= s.len(),
        forall|j: int| p <= j < s.len() ==> lex_lt(time_key(x), #[trigger] time_key(s[j])),
        p == 0 || !lex_lt(time_key(x), time_key(s[p - 1])),
    ensures
        insert_by_time(s, x) == s.insert(p, x),
    decreases s.len(),
{
    if s.len() == 0 {
        assert(s.insert(p, x) == seq![x]);
    } else if p == s.len() {
        assert(s.insert(p, x) == s.push(x));
    } else {
        assert(lex_lt(time_key(x), time_key(s[s.len() - 1])));
        lemma_insert_by_time_at(s.drop_last(), x, p);
        assert(s.drop_last().insert(p, x).push(s.last()) == s.insert(p, x));
    }
}

/// Sorts files by time key, stably.
fn sort_files_by_time(v: Vec<RecordingFileMeta>) -> (r: Vec<RecordingFileMeta>)
    ensures
        metas(r@) == sort_by_time(metas(v@)),
{
    let ghost ms = metas(v@);
    let mut out: Vec<RecordingFileMeta> = Vec::new();
    let mut rest = v;
    let mut i: usize = 0;
    let n = rest.len();
    assert(ms.skip(0) == ms);
    while rest.len() > 0
        invariant
            i + rest.len() == n,
            n == ms.len(),
            metas(rest@) == ms.skip(i as int),
            metas(out@) == sort_by_time(ms.take(i as int)),
        decreases rest.len(),
    {
        let ghost pre_rest = metas(rest@);
        let x = rest.remove(0);
        assert(x@ == pre_rest[0]);
        assert(metas(rest@) == ms.skip(i + 1)) by {
            assert(metas(rest@) =~= ms.skip(i as int).skip(1));
        }
        assert(ms.take(i + 1) == ms.take(i as int).push(x@));
        let ghost sorted = metas(out@);
        let mut p: usize = out.len();
        let xk = time_key_of(&x);
        while p > 0 && str_lt(xk, time_key_of(&out[p - 1]))
            invariant
                p <= out.len(),
                metas(out@) == sorted,
                xk@ == time_key(x@),
                forall|j: int| p <= j < out.len() ==> lex_lt(time_key(x@), #[trigger] time_key(sorted[j])),
            decreases p,
        {
            assert(sorted[p - 1] == out@[p - 1]@);
            p = p - 1;
        }
        proof {
            if p > 0 {
                assert(sorted[p - 1] == out@[p - 1]@);
            }
            lemma_insert_by_time_at(sorted, x@, p as int);
        }
        out.insert(p, x);
        assert(metas(out@) == sorted.insert(p as int, x@));
        assert(ms.take(i + 1).drop_last() == ms.take(i as int));
        assert(sort_by_time(ms.take(i + 1)) == insert_by_time(sort_by_time(ms.take(i as int)), x@));
        i = i + 1;
    }
    assert(ms.take(n as int) == ms);
    out
}

fn open_session(room: &String, run: &Vec<RecordingFileMeta>) -> (r: RecordingSession)
    requires
        run.len() > 0,
    ensures
        session_view(r) == session_of(room@, metas(run@)),
{
    let first = &run[0];
    let streamer_name = match &first.streamer_name {
        Some(s) => s.clone(),
        None => String::new(),
    };
    let title = match &first.stream_title {
        Some(s) => s.clone(),
        None => String::new(),
    };
    let started_at = match &first.recorded_at {
        Some(s) => s.clone(),
        None => String::new(),
    };
    let mut files: Vec<RecordingFileMeta> = Vec::new();
    let mut i: usize = 0;
    while i < run.len()
        invariant
            i <= run.len(),
            metas(files@) == metas(run@).take(i as int),
        decreases run.len() - i,
    {
        let ghost pre = files@;
        let m = run[i].duplicate();
        files.push(m);
        assert(metas(files@) == metas(pre).push(m@));
        assert(metas(run@).take(i + 1) == metas(run@).take(i as int).push(run@[i as int]@));
        i = i + 1;
    }
    assert(metas(run@).take(run.len() as int) == metas(run@));
    RecordingSession { room_id: room.clone(), streamer_name, title, started_at, files }
}

pub open spec fn opt_i128(o: Option<i128>) -> Option<int> {
    match o {
        Some(v) => Some(v as int),
        None => None,
    }
}

/// Splits the time-sorted files of one room into sessions.
fn split_runs(room: &String, files: &Vec<RecordingFileMeta>, gap: i64) -> (r: Vec<RecordingSession>)
    ensures
        session_views(r@) == sessions_of(room@, runs(metas(files@), gap as int)),
{
    let ghost ms = metas(files@);
    let mut done: Vec<RecordingSession> = Vec::new();
    let mut cur: Vec<RecordingFileMeta> = Vec::new();
    let mut last_end: Option<i128> = None;
    let mut i: usize = 0;
    while i < files.len()
        invariant
            i <= files.len(),
            ms == metas(files@),
            session_views(done@) == sessions_of(room@, runs_fold(ms.take(i as int), gap as int).0),
            metas(cur@) == runs_fold(ms.take(i as int), gap as int).1,
            opt_i128(last_end) == runs_fold(ms.take(i as int), gap as int).2,
            match last_end {
                Some(v) => -0x10000000000000000000000000000 <= v <= 0x10000000000000000000000000000,
                None => true,
            },
        decreases files.len() - i,
    {
        assert(ms.take(i + 1).drop_last() == ms.take(i as int));
        assert(ms.take(i + 1).last() == files@[i as int]@);
        let f = &files[i];
        let start: Option<i128> = match &f.recorded_at {
            Some(r) => parse_timestamp_secs(r.as_str()),
            None => None,
        };
        assert(opt_i128(start) == ts_of(f@));
        proof {
            if start is Some {
                crate::sessions::lemma_timestamp_bounds(f@.recorded_at.unwrap());
            }
        }
        let split = match (last_end, start) {
            (Some(p), Some(c)) => c - p > gap as i128,
            _ => cur.len() > 0 && start.is_some(),
        };
        if split && cur.len() > 0 {
            let s = open_session(room, &cur);
            let ghost pre = done@;
            done.push(s);
            assert(session_views(done@) == session_views(pre).push(session_view(s)));
            cur = Vec::new();
        }
        let m = f.duplicate();
        let ghost pre_cur = cur@;
        cur.push(m);
        assert(metas(cur@) == metas(pre_cur).push(m@));
        last_end = match (start, f.duration_ms) {
            (Some(s), Some(d)) => Some(s + (d / 1000) as i128),
            (Some(s), None) => Some(s),
            _ => last_end,
        };
        proof {
            let st = runs_fold(ms.take(i as int), gap as int);
            assert(session_views(done@) == sessions_of(room@, run_step(st, f@, gap as int).0));
        }
        i = i + 1;
    }
    assert(ms.take(files.len() as int) == ms);
    if cur.len() > 0 {
        let s = open_session(room, &cur);
        let ghost pre = done@;
        done.push(s);
        assert(session_views(done@) == session_views(pre).push(session_view(s)));
    }
    done
}

/// Bounds of a rough timestamp, which keep the splitter's arithmetic in range.
pub proof fn lemma_timestamp_bounds(s: Seq<char>)
    requires
        timestamp_secs(s) is Some,
    ensures
        -0x1000000000000000000000000000 - 0x1000000000000000000000 <= timestamp_secs(s).unwrap()
            <= 0x1000000000000000000000000000 + 0x1000000000000000000000,
{
    let p = split_by(s, seq!['-', ' ', ':']);
    let y = parse_i64_spec(p[0]).unwrap();
    let mo = parse_i64_spec(p[1]).unwrap();
    let d = parse_i64_spec(p[2]).unwrap();
    let h = parse_i64_spec(p[3]).unwrap();
    let mi = parse_i64_spec(p[4]).unwrap();
    let sec = parse_i64_spec(p[5]).unwrap();
    assert(-0x1000000000000000000000000000 <= (y * 365 + mo * 30 + d) * 86400
        <= 0x1000000000000000000000000000) by (nonlinear_arith)
        requires
            i64::MIN <= y <= i64::MAX,
            i64::MIN <= mo <= i64::MAX,
            i64::MIN <= d <= i64::MAX,
    ;
    assert(-0x1000000000000000000000 <= h * 3600 + mi * 60 + sec <= 0x1000000000000000000000)
        by (nonlinear_arith)
        requires
            i64::MIN <= h <= i64::MAX,
            i64::MIN <= mi <= i64::MAX,
            i64::MIN <= sec <= i64::MAX,
    ;
}

proof fn lemma_insert_latest_at(s: Seq<SessionView>, x: SessionView, p: int)
    requires
        0 <= p <= s.len(),
        forall|j: int| p <= j < s.len() ==> lex_lt(#[trigger] s[j].3, x.3),
        p == 0 || !lex_lt(s[p - 1].3, x.3),
    ensures
        insert_latest_first(s, x) == s.insert(p, x),
    decreases s.len(),
{
    if s.len() == 0 {
        assert(s.insert(p, x) == seq![x]);
    } else if p == s.len() {
        assert(s.insert(p, x) == s.push(x));
    } else {
        assert(lex_lt(s[s.len() - 1].3, x.3));
        lemma_insert_latest_at(s.drop_last(), x, p);
        assert(s.drop_last().insert(p, x).push(s.last()) == s.insert(p, x));
    }
}

fn sort_latest_first(v: Vec<RecordingSession>) -> (r: Vec<RecordingSession>)
    ensures
        session_views(r@) == latest_first(session_views(v@)),
{
    let ghost ss = session_views(v@);
    let mut rest = v;
    let mut out: Vec<RecordingSession> = Vec::new();
    let mut i: usize = 0;
    let n = rest.len();
    assert(ss.skip(0) == ss);
    while rest.len() > 0
        invariant
            i + rest.len() == n,
            n == ss.len(),
            session_views(rest@) == ss.skip(i as int),
            session_views(out@) == latest_first(ss.take(i as int)),
        decreases rest.len(),
    {
        let ghost pre_rest = session_views(rest@);
        let x = rest.remove(0);
        assert(session_view(x) == pre_rest[0]);
        assert(session_views(rest@) == ss.skip(i + 1)) by {
            assert(session_views(rest@) =~= ss.skip(i as int).skip(1));
        }
        assert(ss.take(i + 1) == ss.take(i as int).push(session_view(x)));
        let ghost sorted = session_views(out@);
        let mut p: usize = out.len();
        while p > 0 && str_lt(out[p - 1].started_at.as_str(), x.started_at.as_str())
            invariant
                p <= out.len(),
                session_views(out@) == sorted,
                forall|j: int| p <= j < out.len() ==> lex_lt(#[trigger] sorted[j].3, session_view(x).3),
            decreases p,
        {
            assert(sorted[p - 1] == session_view(out@[p - 1]));
            p = p - 1;
        }
        proof {
            if p > 0 {
                assert(sorted[p - 1] == session_view(out@[p - 1]));
            }
            lemma_insert_latest_at(sorted, session_view(x), p as int);
        }
        out.insert(p, x);
        assert(session_views(out@) == sorted.insert(p as int, session_view(x)));
        assert(ss.take(i + 1).drop_last() == ss.take(i as int));
        assert(latest_first(ss.take(i + 1)) == insert_latest_first(
            latest_first(ss.take(i as int)),
            session_view(x),
        ));
        i = i + 1;
    }
    assert(ss.take(n as int) == ss);
    out
}

/// Groups recordings into sessions: per room, files in time order split
/// wherever the gap from the previous file's end exceeds
/// `gap_threshold_secs`; all sessions then latest start first.
pub fn group_into_sessions(files: &Vec<RecordingFileMeta>, gap_threshold_secs: i64) -> (r: Vec<
    RecordingSession,
>)
    ensures
        session_views(r@) == grouped(metas(files@), gap_threshold_secs as int),
{
    let ghost ms = metas(files@);
    let keys = room_keys(files);
    let ghost ks = crate::config::strs(keys@);
    let mut all: Vec<RecordingSession> = Vec::new();
    let mut k: usize = 0;
    while k < keys.len()
        invariant
            k <= keys.len(),
            ms == metas(files@),
            ks == crate::config::strs(keys@),
            session_views(all@) == sessions_for(ks.take(k as int), ms, gap_threshold_secs as int),
        decreases keys.len() - k,
    {
        assert(ks.take(k + 1).drop_last() == ks.take(k as int));
        assert(ks.take(k + 1).last() == keys@[k as int]@);
        let in_room_files = files_in_room(files, &keys[k]);
        let sorted = sort_files_by_time(in_room_files);
        let mut sess = split_runs(&keys[k], &sorted, gap_threshold_secs);
        let ghost pre = session_views(all@);
        let ghost add = session_views(sess@);
        all.append(&mut sess);
        assert(session_views(all@) == pre + add);
        k = k + 1;
    }
    assert(ks.take(keys.len() as int) == ks);
    sort_latest_first(all)
}

/// Every file of `s` belongs to room `key`.
pub open spec fn all_in_room(s: Seq<MetaView>, key: Seq<char>) -> bool {
    forall|k: int| 0 <= k < s.len() ==> room_key(#[trigger] s[k]) == key
}

/// The files of a session all belong to the session's room.
pub open spec fn session_room_consistent(s: SessionView) -> bool {
    all_in_room(s.4, s.0)
}

proof fn lemma_in_room_all(fs: Seq<MetaView>, key: Seq<char>)
    ensures
        all_in_room(in_room(fs, key), key),
    decreases fs.len(),
{
    if fs.len() > 0 {
        lemma_in_room_all(fs.drop_last(), key);
        let r = in_room(fs.drop_last(), key);
        if room_key(fs.last()) == key {
            assert forall|k: int| 0 <= k < r.push(fs.last()).len() implies room_key(
                #[trigger] r.push(fs.last())[k],
            ) == key by {
                if k < r.len() {
                    assert(r.push(fs.last())[k] == r[k]);
                }
            }
        }
    }
}

proof fn lemma_insert_all(s: Seq<MetaView>, x: MetaView, key: Seq<char>)
    requires
        all_in_room(s, key),
        room_key(x) == key,
    ensures
        all_in_room(insert_by_time(s, x), key),
    decreases s.len(),
{
    if s.len() > 0 && lex_lt(time_key(x), time_key(s.last())) {
        let d = s.drop_last();
        assert forall|k: int| 0 <= k < d.len() implies room_key(#[trigger] d[k]) == key by {
            assert(d[k] == s[k]);
        }
        lemma_insert_all(d, x, key);
        let t = insert_by_time(d, x);
        assert forall|k: int| 0 <= k < t.push(s.last()).len() implies room_key(
            #[trigger] t.push(s.last())[k],
        ) == key by {
            if k < t.len() {
                assert(t.push(s.last())[k] == t[k]);
            } else {
                assert(s.last() == s[s.len() - 1]);
            }
        }
    } else if s.len() > 0 {
        assert forall|k: int| 0 <= k < s.push(x).len() implies room_key(#[trigger] s.push(x)[k]) == key by {
            if k < s.len() {
                assert(s.push(x)[k] == s[k]);
            }
        }
    } else {
        assert(insert_by_time(s, x) == seq![x]);
    }
}

proof fn lemma_sort_all(s: Seq<MetaView>, key: Seq<char>)
    requires
        all_in_room(s, key),
    ensures
        all_in_room(sort_by_time(s), key),
    decreases s.len(),
{
    if s.len() > 0 {
        let d = s.drop_last();
        assert forall|k: int| 0 <= k < d.len() implies room_key(#[trigger] d[k]) == key by {
            assert(d[k] == s[k]);
        }
        lemma_sort_all(d, key);
        assert(room_key(s[s.len() - 1]) == key);
        lemma_insert_all(sort_by_time(d), s.last(), key);
    }
}

/// Every run of the splitter, closed or open, holds files of room `key`.
pub open spec fn runs_in_room(st: (Seq<Seq<MetaView>>, Seq<MetaView>, Option<int>), key: Seq<char>) -> bool {
    &&& forall|i: int| 0 <= i < st.0.len() ==> all_in_room(#[trigger] st.0[i], key)
    &&& all_in_room(st.1, key)
}

proof fn lemma_fold_all(s: Seq<MetaView>, gap: int, key: Seq<char>)
    requires
        all_in_room(s, key),
    ensures
        runs_in_room(runs_fold(s, gap), key),
    decreases s.len(),
{
    if s.len() > 0 {
        let d = s.drop_last();
        assert forall|k: int| 0 <= k < d.len() implies room_key(#[trigger] d[k]) == key by {
            assert(d[k] == s[k]);
        }
        lemma_fold_all(d, gap, key);
        let st = runs_fold(d, gap);
        let f = s.last();
        assert(room_key(s[s.len() - 1]) == key);
        let nx = run_step(st, f, gap);
        assert forall|i: int| 0 <= i < nx.0.len() implies all_in_room(#[trigger] nx.0[i], key) by {
            if i < st.0.len() {
                assert(nx.0[i] == st.0[i]);
            } else {
                assert(nx.0[i] == st.1);
            }
        }
        assert forall|k: int| 0 <= k < nx.1.len() implies room_key(#[trigger] nx.1[k]) == key by {
            if nx.1 == seq![f] {
            } else {
                assert(nx.1 == st.1.push(f));
                if k < st.1.len() {
                    assert(st.1.push(f)[k] == st.1[k]);
                }
            }
        }
    }
}

proof fn lemma_room_sessions(fs: Seq<MetaView>, key: Seq<char>, gap: int)
    ensures
        forall|i: int|
            0 <= i < room_sessions(fs, key, gap).len() ==> #[trigger] session_room_consistent(
                room_sessions(fs, key, gap)[i],
            ) && room_sessions(fs, key, gap)[i].0 == key,
{
    lemma_in_room_all(fs, key);
    lemma_sort_all(in_room(fs, key), key);
    let srt = sort_by_time(in_room(fs, key));
    lemma_fold_all(srt, gap, key);
    let st = runs_fold(srt, gap);
    let rs = runs(srt, gap);
    assert forall|i: int| 0 <= i < rs.len() implies all_in_room(#[trigger] rs[i], key) by {
        if st.1.len() > 0 {
            if i < st.0.len() {
                assert(rs[i] == st.0[i]);
            } else {
                assert(rs[i] == st.1);
            }
        } else {
            assert(rs[i] == st.0[i]);
        }
    }
    let ss = room_sessions(fs, key, gap);
    assert forall|i: int| 0 <= i < ss.len() implies #[trigger] session_room_consistent(ss[i])
        && ss[i].0 == key by {
        assert(ss[i] == session_of(key, rs[i]));
        assert(all_in_room(rs[i], key));
    }
}

proof fn lemma_sessions_for(keys: Seq<Seq<char>>, fs: Seq<MetaView>, gap: int)
    ensures
        forall|i: int|
            0 <= i < sessions_for(keys, fs, gap).len() ==> #[trigger] session_room_consistent(
                sessions_for(keys, fs, gap)[i],
            ),
    decreases keys.len(),
{
    if keys.len() > 0 {
        lemma_sessions_for(keys.drop_last(), fs, gap);
        lemma_room_sessions(fs, keys.last(), gap);
        let a = sessions_for(keys.drop_last(), fs, gap);
        let b = room_sessions(fs, keys.last(), gap);
        assert forall|i: int| 0 <= i < (a + b).len() implies #[trigger] session_room_consistent((a + b)[i]) by {
            if i < a.len() {
                assert((a + b)[i] == a[i]);
            } else {
                assert((a + b)[i] == b[i - a.len()]);
            }
        }
    }
}

proof fn lemma_insert_latest(s: Seq<SessionView>, x: SessionView)
    requires
        forall|i: int| 0 <= i < s.len() ==> #[trigger] session_room_consistent(s[i]),
        session_room_consistent(x),
    ensures
        forall|i: int|
            0 <= i < insert_latest_first(s, x).len() ==> #[trigger] session_room_consistent(
                insert_latest_first(s, x)[i],
            ),
    decreases s.len(),
{
    if s.len() > 0 && lex_lt(s.last().3, x.3) {
        let d = s.drop_last();
        assert forall|i: int| 0 <= i < d.len() implies #[trigger] session_room_consistent(d[i]) by {
            assert(d[i] == s[i]);
        }
        lemma_insert_latest(d, x);
        let t = insert_latest_first(d, x);
        assert(session_room_consistent(s[s.len() - 1]));
        assert forall|i: int| 0 <= i < t.push(s.last()).len() implies #[trigger] session_room_consistent(
            t.push(s.last())[i],
        ) by {
            if i < t.len() {
                assert(t.push(s.last())[i] == t[i]);
            }
        }
    } else if s.len() > 0 {
        assert forall|i: int| 0 <= i < s.push(x).len() implies #[trigger] session_room_consistent(s.push(x)[i]) by {
            if i < s.len() {
                assert(s.push(x)[i] == s[i]);
            }
        }
    } else {
        assert(insert_latest_first(s, x) == seq![x]);
    }
}

proof fn lemma_latest_first(s: Seq<SessionView>)
    requires
        forall|i: int| 0 <= i < s.len() ==> #[trigger] session_room_consistent(s[i]),
    ensures
        forall|i: int| 0 <= i < latest_first(s).len() ==> #[trigger] session_room_consistent(latest_first(s)[i]),
    decreases s.len(),
{
    if s.len() > 0 {
        let d = s.drop_last();
        assert forall|i: int| 0 <= i < d.len() implies #[trigger] session_room_consistent(d[i]) by {
            assert(d[i] == s[i]);
        }
        lemma_latest_first(d);
        assert(session_room_consistent(s[s.len() - 1]));
        lemma_insert_latest(latest_first(d), s.last());
    }
}

/// Grouping never mixes rooms: every file of every session belongs to the
/// session's room.
pub proof fn law_sessions_keep_rooms(fs: Seq<MetaView>, gap: int)
    ensures
        forall|i: int|
            0 <= i < grouped(fs, gap).len() ==> #[trigger] session_room_consistent(grouped(fs, gap)[i]),
{
    lemma_sessions_for(rooms_of(fs), fs, gap);
    lemma_latest_first(sessions_for(rooms_of(fs), fs, gap));
}

proof fn lemma_lex_irrefl(a: Seq<char>)
    ensures
        !lex_lt(a, a),
    decreases a.len(),
{
    if a.len() > 0 {
        lemma_lex_irrefl(a.skip(1));
    }
}

proof fn lemma_lex_trans(a: Seq<char>, b: Seq<char>, c: Seq<char>)
    requires
        lex_lt(a, b),
        lex_lt(b, c),
    ensures
        lex_lt(a, c),
    decreases a.len(),
{
    if a.len() > 0 && b.len() > 0 && c.len() > 0 && a[0] == b[0] && b[0] == c[0] {
        lemma_lex_trans(a.skip(1), b.skip(1), c.skip(1));
    }
}

proof fn lemma_lex_total(a: Seq<char>, b: Seq<char>)
    requires
        a != b,
    ensures
        lex_lt(a, b) || lex_lt(b, a),
    decreases a.len(),
{
    if a.len() > 0 && b.len() > 0 && a[0] == b[0] {
        if a.skip(1) == b.skip(1) {
            assert(a =~= seq![a[0]] + a.skip(1));
            assert(b =~= seq![b[0]] + b.skip(1));
        } else {
            lemma_lex_total(a.skip(1), b.skip(1));
        }
    } else if a.len() == 0 && b.len() == 0 {
        assert(a =~= b);
    }
}

/// `!(a < b)` and `!(b < c)` give `!(a < c)`.
proof fn lemma_lex_not_lt_trans(a: Seq<char>, b: Seq<char>, c: Seq<char>)
    requires
        !lex_lt(a, b),
        !lex_lt(b, c),
    ensures
        !lex_lt(a, c),
{
    if lex_lt(a, c) {
        if a == b {
        } else {
            lemma_lex_total(a, b);
            lemma_lex_trans(b, a, c);
        }
    }
}

/// Sessions ordered latest start first: no session starts before a later
/// one in the list.
pub open spec fn latest_first_ordered(s: Seq<SessionView>) -> bool {
    forall|i: int, j: int| 0 <= i < j < s.len() ==> !lex_lt(#[trigger] s[i].3, #[trigger] s[j].3)
}

/// No session of `s` starts before `y`.
pub open spec fn none_before(s: Seq<SessionView>, y: Seq<char>) -> bool {
    forall|k: int| 0 <= k < s.len() ==> !lex_lt(#[trigger] s[k].3, y)
}

proof fn lemma_insert_none_before(s: Seq<SessionView>, x: SessionView, y: Seq<char>)
    requires
        none_before(s, y),
        !lex_lt(x.3, y),
    ensures
        none_before(insert_latest_first(s, x), y),
    decreases s.len(),
{
    if s.len() > 0 && lex_lt(s.last().3, x.3) {
        let d = s.drop_last();
        assert forall|k: int| 0 <= k < d.len() implies !lex_lt(#[trigger] d[k].3, y) by {
            assert(d[k] == s[k]);
        }
        lemma_insert_none_before(d, x, y);
        let t = insert_latest_first(d, x);
        assert(!lex_lt(s[s.len() - 1].3, y));
        assert forall|k: int| 0 <= k < t.push(s.last()).len() implies !lex_lt(
            #[trigger] t.push(s.last())[k].3,
            y,
        ) by {
            if k < t.len() {
                assert(t.push(s.last())[k] == t[k]);
            }
        }
    } else if s.len() > 0 {
        assert forall|k: int| 0 <= k < s.push(x).len() implies !lex_lt(#[trigger] s.push(x)[k].3, y) by {
            if k < s.len() {
                assert(s.push(x)[k] == s[k]);
            }
        }
    } else {
        assert(insert_latest_first(s, x) == seq![x]);
    }
}

proof fn lemma_insert_ordered(s: Seq<SessionView>, x: SessionView)
    requires
        latest_first_ordered(s),
    ensures
        latest_first_ordered(insert_latest_first(s, x)),
    decreases s.len(),
{
    if s.len() == 0 {
        assert(insert_latest_first(s, x) == seq![x]);
    } else {
        let l = s.last();
        let d = s.drop_last();
        if lex_lt(l.3, x.3) {
            assert forall|i: int, j: int| 0 <= i < j < d.len() implies !lex_lt(
                #[trigger] d[i].3,
                #[trigger] d[j].3,
            ) by {
                assert(d[i] == s[i] && d[j] == s[j]);
            }
            lemma_insert_ordered(d, x);
            assert forall|k: int| 0 <= k < d.len() implies !lex_lt(#[trigger] d[k].3, l.3) by {
                assert(d[k] == s[k]);
                assert(l == s[s.len() - 1]);
            }
            if lex_lt(x.3, l.3) {
                lemma_lex_trans(l.3, x.3, l.3);
                lemma_lex_irrefl(l.3);
            }
            lemma_insert_none_before(d, x, l.3);
            let t = insert_latest_first(d, x);
            let r = t.push(l);
            assert forall|i: int, j: int| 0 <= i < j < r.len() implies !lex_lt(
                #[trigger] r[i].3,
                #[trigger] r[j].3,
            ) by {
                assert(r[i] == t[i]);
                if j < t.len() {
                    assert(r[j] == t[j]);
                } else {
                    assert(r[j] == l);
                }
            }
        } else {
            let r = s.push(x);
            assert forall|i: int, j: int| 0 <= i < j < r.len() implies !lex_lt(
                #[trigger] r[i].3,
                #[trigger] r[j].3,
            ) by {
                assert(r[i] == s[i]);
                if j < s.len() {
                    assert(r[j] == s[j]);
                } else {
                    assert(r[j] == x);
                    if i < s.len() - 1 {
                        assert(!lex_lt(s[i].3, s[s.len() - 1].3));
                        lemma_lex_not_lt_trans(s[i].3, l.3, x.3);
                    }
                }
            }
        }
    }
}

proof fn lemma_latest_first_ordered(s: Seq<SessionView>)
    ensures
        latest_first_ordered(latest_first(s)),
    decreases s.len(),
{
    if s.len() > 0 {
        lemma_latest_first_ordered(s.drop_last());
        lemma_insert_ordered(latest_first(s.drop_last()), s.last());
    }
}

/// Sessions come most recent first: none starts before one listed after it.
pub proof fn law_sessions_latest_first(fs: Seq<MetaView>, gap: int)
    ensures
        latest_first_ordered(grouped(fs, gap)),
{
    lemma_latest_first_ordered(sessions_for(rooms_of(fs), fs, gap));
}


/// When a recording ends, in seconds: its start plus its whole seconds of
/// duration, or its start when the duration is unknown.
pub open spec fn file_end(m: MetaView) -> Option<int> {
    match ts_of(m) {
        Some(s) => Some(
            s + match m.duration_ms {
                Some(d) => tdiv(d as int, 1000),
                None => 0,
            },
        ),
        None => None,
    }
}

/// How one more file extends the sessions of files in time order, when it
/// and the file before it have start times: it opens a new session exactly
/// when it starts more than `gap` seconds after the end (start plus
/// duration) of the file immediately before it; otherwise it joins that
/// file's session.
pub proof fn law_sessions_split_at_gaps(fs: Seq<MetaView>, f: MetaView, gap: int)
    requires
        fs.len() > 0,
        ts_of(fs.last()) is Some,
        ts_of(f) is Some,
    ensures
        runs(fs, gap).len() > 0,
        ts_of(f).unwrap() - file_end(fs.last()).unwrap() > gap ==> runs(fs.push(f), gap) == runs(fs, gap).push(
            seq![f],
        ),
        ts_of(f).unwrap() - file_end(fs.last()).unwrap() <= gap ==> runs(fs.push(f), gap) == runs(
            fs,
            gap,
        ).update(runs(fs, gap).len() - 1, runs(fs, gap).last().push(f)),
{
    let st = runs_fold(fs, gap);
    assert(fs.push(f).drop_last() == fs);
    assert(fs.push(f).last() == f);
    assert(fs == fs.drop_last().push(fs.last()));
    let prev = runs_fold(fs.drop_last(), gap);
    assert(st == run_step(prev, fs.last(), gap));
    assert(st.1.len() > 0);
    assert(st.2 == file_end(fs.last()));
    let st2 = runs_fold(fs.push(f), gap);
    assert(st2 == run_step(st, f, gap));
    let r = runs(fs, gap);
    assert(r == st.0.push(st.1));
    if ts_of(f).unwrap() - file_end(fs.last()).unwrap() > gap {
        assert(st2.0 == st.0.push(st.1));
        assert(st2.1 == seq![f]);
    } else {
        assert(st2.0 == st.0);
        assert(st2.1 == st.1.push(f));
        assert(runs(fs.push(f), gap) =~= r.update(r.len() - 1, r.last().push(f)));
    }
}


/// The files of a list of runs, run after run.
pub open spec fn concat_runs(rs: Seq<Seq<MetaView>>) -> Seq<MetaView>
    decreases rs.len(),
{
    if rs.len() == 0 {
        Seq::empty()
    } else {
        concat_runs(rs.drop_last()) + rs.last()
    }
}

proof fn lemma_fold_partition(fs: Seq<MetaView>, gap: int)
    ensures
        concat_runs(runs_fold(fs, gap).0) + runs_fold(fs, gap).1 == fs,
        forall|k: int| 0 <= k < runs_fold(fs, gap).0.len() ==> (#[trigger] runs_fold(fs, gap).0[k]).len() > 0,
        fs.len() > 0 ==> runs_fold(fs, gap).1.len() > 0,
    decreases fs.len(),
{
    if fs.len() > 0 {
        let d = fs.drop_last();
        lemma_fold_partition(d, gap);
        let st = runs_fold(d, gap);
        let f = fs.last();
        let nx = run_step(st, f, gap);
        assert(fs == d.push(f));
        let start = ts_of(f);
        let split = match (st.2, start) {
            (Some(p), Some(c)) => c - p > gap,
            _ => st.1.len() > 0 && start is Some,
        };
        if split && st.1.len() > 0 {
            assert(nx.0 == st.0.push(st.1));
            assert(nx.0.drop_last() == st.0);
            assert(concat_runs(nx.0) == concat_runs(st.0) + st.1);
            assert(concat_runs(nx.0) + nx.1 =~= fs);
            assert forall|k: int| 0 <= k < nx.0.len() implies (#[trigger] nx.0[k]).len() > 0 by {
                if k < st.0.len() {
                    assert(nx.0[k] == st.0[k]);
                }
            }
        } else {
            assert(concat_runs(nx.0) + nx.1 =~= fs);
        }
    }
}

/// The sessions of a room's files are consecutive stretches of them: every
/// session holds at least one file, and the sessions' files, session after
/// session, are the files themselves in order.
pub proof fn law_sessions_partition(fs: Seq<MetaView>, gap: int)
    ensures
        concat_runs(runs(fs, gap)) == fs,
        forall|k: int| 0 <= k < runs(fs, gap).len() ==> (#[trigger] runs(fs, gap)[k]).len() > 0,
{
    lemma_fold_partition(fs, gap);
    let st = runs_fold(fs, gap);
    if st.1.len() > 0 {
        let r = st.0.push(st.1);
        assert(r.drop_last() == st.0);
        assert forall|k: int| 0 <= k < r.len() implies (#[trigger] r[k]).len() > 0 by {
            if k < st.0.len() {
                assert(r[k] == st.0[k]);
            }
        }
    } else {
        assert(st.0 == runs(fs, gap));
        assert(concat_runs(st.0) + st.1 =~= concat_runs(st.0));
    }
}

} // verus!
