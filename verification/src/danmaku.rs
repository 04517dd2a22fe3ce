//! Bilibili danmaku (bullet comments): the `<d p="...">` element grammar,
//! density histogram, clip-range filtering and the minimal XML writer.

use vstd::prelude::*;
use crate::text::{chars_of, padded_text, parse_int, parse_u16_spec, parse_u32_spec, push_digits, push_padded, push_str, split_by, split_chars, string_of, views, digits_of, abs_int};
use crate::subtitle::tdiv;

verus! {

/// How a danmaku is displayed.
#[derive(PartialEq, Eq, Structural, Clone, Copy, Debug)]
pub enum DanmakuMode {
    /// Scrolls right to left (modes 1, 2, 3).
    Scroll,
    /// Fixed at the bottom (mode 4).
    Bottom,
    /// Fixed at the top (mode 5).
    Top,
}

/// One danmaku parsed from a Bilibili XML file.
pub struct DanmakuItem {
    /// Appearance time in ms, relative to the video start.
    pub time_ms: i64,
    pub text: String,
    pub mode: DanmakuMode,
    /// RGB colour as a decimal number.
    pub color: u32,
    pub font_size: u16,
}

impl View for DanmakuItem {
    type V = (i64, Seq<char>, DanmakuMode, u32, u16);

    open spec fn view(&self) -> Self::V {
        (self.time_ms, self.text@, self.mode, self.color, self.font_size)
    }
}

pub open spec fn items_view(s: Seq<DanmakuItem>) -> Seq<(i64, Seq<char>, DanmakuMode, u32, u16)> {
    s.map_values(|d: DanmakuItem| d@)
}

/// The mode numbers that ordinary danmaku use; others (7, 8, 9, ...) are special effects.
pub open spec fn mode_of_number(n: int) -> Option<DanmakuMode> {
    if n == 1 || n == 2 || n == 3 {
        Some(DanmakuMode::Scroll)
    } else if n == 4 {
        Some(DanmakuMode::Bottom)
    } else if n == 5 {
        Some(DanmakuMode::Top)
    } else {
        None
    }
}

/// The number written back for a mode.
pub open spec fn number_of_mode(m: DanmakuMode) -> int {
    match m {
        DanmakuMode::Scroll => 1,
        DanmakuMode::Bottom => 4,
        DanmakuMode::Top => 5,
    }
}

/// The first field of a `p` attribute: the time in seconds, as text.
pub open spec fn d_time_text(params: Seq<char>) -> Seq<char> {
    split_by(params, seq![','])[0]
}

/// The time field of a `p` attribute (`params.split(',')` first part).
pub fn d_time_field(params: &str) -> (r: String)
    ensures
        r@ == d_time_text(params@),
{
    let pc = chars_of(params);
    let seps = vec![','];
    let parts = split_chars(pc.as_slice(), seps.as_slice());
    proof {
        assert(seps@ == seq![',']);
        crate::text::lemma_split_nonempty(pc@, seps@);
    }
    assert(views(parts@)[0] == parts@[0]@);
    string_of(&parts[0])
}

/// The fields of a `p` attribute that a danmaku keeps: time (ms), mode,
/// colour, font size. `time` is the time field read as seconds and
/// multiplied by 1000 (`None` when it is not a number); that reading is
/// floating-point arithmetic and is done by the caller.
pub open spec fn d_fields(params: Seq<char>, time: Option<i64>) -> Option<(int, DanmakuMode, int, int)> {
    let parts = split_by(params, seq![',']);
    if parts.len() < 4 {
        None
    } else {
        match time {
            None => None,
            Some(t) => match parse_u16_spec(parts[1]) {
                None => None,
                Some(m) => match mode_of_number(m) {
                    None => None,
                    Some(mode) => Some((
                        t as int,
                        mode,
                        match parse_u32_spec(parts[3]) { Some(c) => c, None => 0xFFFFFF },
                        match parse_u16_spec(parts[2]) { Some(f) => f, None => 25 },
                    )),
                },
            },
        }
    }
}

/// Parses one `<d p="time,mode,size,color,...">text</d>` element, given
/// `time_ms`, the caller's reading of the time field (see [`d_fields`]);
/// special danmaku (modes other than 1 to 5), an unreadable time and
/// malformed parameters give `None`.
pub fn parse_d_element(params: &str, text: &str, time_ms: Option<i64>) -> (r: Option<DanmakuItem>)
    ensures
        match r {
            Some(item) => d_fields(params@, time_ms) == Some(
                (item.time_ms as int, item.mode, item.color as int, item.font_size as int),
            ) && item.text@ == text@,
            None => d_fields(params@, time_ms) is None,
        },
{
    let pc = chars_of(params);
    let seps = vec![','];
    let parts = split_chars(pc.as_slice(), seps.as_slice());
    proof {
        assert(seps@ == seq![',']);
    }
    if parts.len() < 4 {
        return None;
    }
    assert(views(parts@)[0] == parts@[0]@);
    let time_ms = match time_ms {
        Some(t) => t,
        None => return None,
    };
    let mode_num = match parse_int(parts[1].as_slice(), false, 0, 65535) {
        Some(m) => m,
        None => return None,
    };
    assert(views(parts@)[1] == parts@[1]@);
    let mode = if mode_num == 1 || mode_num == 2 || mode_num == 3 {
        DanmakuMode::Scroll
    } else if mode_num == 4 {
        DanmakuMode::Bottom
    } else if mode_num == 5 {
        DanmakuMode::Top
    } else {
        return None;
    };
    assert(views(parts@)[2] == parts@[2]@);
    assert(views(parts@)[3] == parts@[3]@);
    let font_size: u16 = match parse_int(parts[2].as_slice(), false, 0, 65535) {
        Some(f) => f as u16,
        None => 25,
    };
    let color: u32 = match parse_int(parts[3].as_slice(), false, 0, 0xffffffff) {
        Some(c) => c as u32,
        None => 0xFFFFFF,
    };
    Some(DanmakuItem { time_ms, text: text.to_owned(), mode, color, font_size })
}


/// How many items fall into window `k` (item index `time_ms / window`, truncating).
pub open spec fn window_count(items: Seq<DanmakuItem>, window: int, k: int) -> nat
    decreases items.len(),
{
    if items.len() == 0 {
        0
    } else {
        window_count(items.drop_last(), window, k) + if tdiv(items.last().time_ms as int, window) == k {
            1nat
        } else {
            0nat
        }
    }
}

proof fn lemma_window_count_bound(items: Seq<DanmakuItem>, window: int, k: int)
    ensures
        window_count(items, window, k) <= items.len(),
    decreases items.len(),
{
    if items.len() > 0 {
        lemma_window_count_bound(items.drop_last(), window, k);
    }
}

/// Number of windows covering `duration` (rounded up).
pub open spec fn num_windows(duration: int, window: int) -> int {
    (duration + window - 1) / window
}

/// Counts danmaku per time window (for the heat-map overlay): one count per
/// window of `window_ms` covering `duration_ms`; items outside are ignored.
pub fn compute_density(items: &[DanmakuItem], duration_ms: i64, window_ms: i64) -> (r: Vec<u32>)
    requires
        duration_ms > 0 && window_ms > 0 ==> duration_ms + window_ms <= i64::MAX,
        duration_ms > 0 && window_ms > 0 ==> num_windows(duration_ms as int, window_ms as int) <= usize::MAX,
        items.len() < u32::MAX,
    ensures
        duration_ms <= 0 || window_ms <= 0 ==> r@.len() == 0,
        duration_ms > 0 && window_ms > 0 ==> r@.len() == num_windows(duration_ms as int, window_ms as int),
        forall|k: int| 0 <= k < r@.len() ==> r@[k] == window_count(items@, window_ms as int, k),
{
    if duration_ms <= 0 || window_ms <= 0 {
        return Vec::new();
    }
    let n = ((duration_ms + window_ms - 1) / window_ms) as usize;
    let mut density: Vec<u32> = vec![0u32; n];
    let mut i: usize = 0;
    while i < items.len()
        invariant
            i <= items.len() < u32::MAX,
            window_ms > 0,
            density@.len() == n,
            forall|k: int| 0 <= k < n ==> density@[k] == window_count(items@.take(i as int), window_ms as int, k),
        decreases items.len() - i,
    {
        let ghost pre = items@.take(i as int);
        let ghost nxt = items@.take(i + 1);
        assert(nxt.drop_last() == pre);
        assert(nxt.last() == items@[i as int]);
        let idx = items[i].time_ms / window_ms;
        assert(idx == tdiv(items@[i as int].time_ms as int, window_ms as int));
        if idx >= 0 && (idx as u64) < (density.len() as u64) {
            let u = idx as usize;
            proof {
                lemma_window_count_bound(pre, window_ms as int, u as int);
            }
            let cur = density[u];
            density.set(u, cur + 1);
        }
        i = i + 1;
    }
    assert(items@.take(items.len() as int) == items@);
    density
}

pub open spec fn shifted_view(d: DanmakuItem, start: int) -> (i64, Seq<char>, DanmakuMode, u32, u16) {
    ((d.time_ms - start) as i64, d.text@, d.mode, d.color, d.font_size)
}

/// Items with `start <= time < end`, in order, with times shifted by `-start`.
pub open spec fn in_range_shifted(items: Seq<DanmakuItem>, start: int, end: int) -> Seq<
    (i64, Seq<char>, DanmakuMode, u32, u16),
>
    decreases items.len(),
{
    if items.len() == 0 {
        Seq::empty()
    } else {
        let rest = in_range_shifted(items.drop_last(), start, end);
        let d = items.last();
        if start <= d.time_ms && d.time_ms < end {
            rest.push(shifted_view(d, start))
        } else {
            rest
        }
    }
}

/// Cutting keeps danmaku, it does not rewrite them: every item of the cut
/// is an input item with `start <= time < end`, with its text, mode, colour
/// and font size unchanged and only its time moved by `-start`; and every
/// input item in that range is in the cut.
pub proof fn law_cut_keeps_items(items: Seq<DanmakuItem>, start: int, end: int)
    ensures
        forall|k: int|
            0 <= k < in_range_shifted(items, start, end).len() ==> exists|j: int|
                0 <= j < items.len() && start <= items[j].time_ms < end
                    && #[trigger] in_range_shifted(items, start, end)[k] == (
                    (items[j].time_ms - start) as i64,
                    items[j].text@,
                    items[j].mode,
                    items[j].color,
                    items[j].font_size,
                ),
        forall|j: int|
            0 <= j < items.len() && start <= #[trigger] items[j].time_ms < end ==> exists|k: int|
                0 <= k < in_range_shifted(items, start, end).len() && in_range_shifted(items, start, end)[k]
                    == (
                    (items[j].time_ms - start) as i64,
                    items[j].text@,
                    items[j].mode,
                    items[j].color,
                    items[j].font_size,
                ),
        in_range_shifted(items, start, end).len() <= items.len(),
    decreases items.len(),
{
    if items.len() > 0 {
        let d = items.drop_last();
        law_cut_keeps_items(d, start, end);
        let rest = in_range_shifted(d, start, end);
        let r = in_range_shifted(items, start, end);
        let x = items.last();
        assert(x == items[items.len() - 1]);
        assert forall|k: int| 0 <= k < r.len() implies exists|j: int|
            0 <= j < items.len() && start <= items[j].time_ms < end && #[trigger] r[k] == (
                (items[j].time_ms - start) as i64,
                items[j].text@,
                items[j].mode,
                items[j].color,
                items[j].font_size,
            ) by {
            if k < rest.len() {
                assert(r[k] == rest[k]);
                let j = choose|j: int|
                    0 <= j < d.len() && start <= d[j].time_ms < end && #[trigger] rest[k] == (
                        (d[j].time_ms - start) as i64,
                        d[j].text@,
                        d[j].mode,
                        d[j].color,
                        d[j].font_size,
                    );
                assert(items[j] == d[j]);
            } else {
                let j = items.len() - 1;
                assert(r[k] == shifted_view(x, start));
                assert(items[j] == x);
            }
        }
        assert forall|j: int|
            0 <= j < items.len() && start <= #[trigger] items[j].time_ms < end implies exists|k: int|
                0 <= k < r.len() && r[k] == (
                    (items[j].time_ms - start) as i64,
                    items[j].text@,
                    items[j].mode,
                    items[j].color,
                    items[j].font_size,
                ) by {
            if j < d.len() {
                assert(items[j] == d[j]);
                assert(start <= d[j].time_ms < end);
                let k = choose|k: int| 0 <= k < rest.len() && rest[k] == (
                    (d[j].time_ms - start) as i64,
                    d[j].text@,
                    d[j].mode,
                    d[j].color,
                    d[j].font_size,
                );
                assert(r[k] == rest[k]);
            } else {
                assert(r[rest.len() as int] == shifted_view(x, start));
            }
        }
    }
}

/// `idx` picks, in increasing order, exactly the items of `items` with
/// `start <= time < end`, and `r[k]` is item `idx[k]` with its time moved
/// by `-start` and its text, mode, colour and font size unchanged.
pub open spec fn cut_by(
    items: Seq<DanmakuItem>,
    start: int,
    end: int,
    r: Seq<(i64, Seq<char>, DanmakuMode, u32, u16)>,
    idx: Seq<int>,
) -> bool {
    &&& idx.len() == r.len()
    &&& forall|k: int| 0 <= k < idx.len() ==> 0 <= #[trigger] idx[k] < items.len()
    &&& forall|a: int, b: int| 0 <= a < b < idx.len() ==> #[trigger] idx[a] < #[trigger] idx[b]
    &&& forall|k: int|
        0 <= k < idx.len() ==> start <= items[#[trigger] idx[k]].time_ms < end && r[k] == (
            (items[idx[k]].time_ms - start) as i64,
            items[idx[k]].text@,
            items[idx[k]].mode,
            items[idx[k]].color,
            items[idx[k]].font_size,
        )
    &&& forall|j: int|
        0 <= j < items.len() && start <= #[trigger] items[j].time_ms < end ==> exists|k: int|
            0 <= k < idx.len() && idx[k] == j
}

/// The cut is the in-range items in their input order, each unchanged but
/// for its time, moved by `-start`.
pub proof fn law_cut_in_order(items: Seq<DanmakuItem>, start: int, end: int)
    ensures
        exists|idx: Seq<int>| cut_by(items, start, end, in_range_shifted(items, start, end), idx),
    decreases items.len(),
{
    let r = in_range_shifted(items, start, end);
    if items.len() == 0 {
        assert(cut_by(items, start, end, r, Seq::<int>::empty()));
    } else {
        let d = items.drop_last();
        law_cut_in_order(d, start, end);
        let rest = in_range_shifted(d, start, end);
        let idx0 = choose|idx: Seq<int>| cut_by(d, start, end, rest, idx);
        let x = items.last();
        let n = items.len() - 1;
        assert(x == items[n]);
        assert forall|j: int| 0 <= j < d.len() implies items[j] == d[j] by {}
        if start <= x.time_ms && x.time_ms < end {
            let idx = idx0.push(n);
            assert(r == rest.push(shifted_view(x, start)));
            assert forall|k: int| 0 <= k < idx.len() implies start <= items[#[trigger] idx[k]].time_ms < end && r[k] == (
                (items[idx[k]].time_ms - start) as i64,
                items[idx[k]].text@,
                items[idx[k]].mode,
                items[idx[k]].color,
                items[idx[k]].font_size,
            ) by {
                if k < idx0.len() {
                    assert(idx[k] == idx0[k]);
                    assert(r[k] == rest[k]);
                    assert(items[idx0[k]] == d[idx0[k]]);
                }
            }
            assert forall|a: int, b: int| 0 <= a < b < idx.len() implies #[trigger] idx[a] < #[trigger] idx[b] by {
                if b < idx0.len() {
                    assert(idx[a] == idx0[a] && idx[b] == idx0[b]);
                } else {
                    assert(idx[a] == idx0[a]);
                }
            }
            assert forall|j: int|
                0 <= j < items.len() && start <= #[trigger] items[j].time_ms < end implies exists|k: int|
                    0 <= k < idx.len() && idx[k] == j by {
                if j < n {
                    assert(start <= d[j].time_ms < end);
                    let k = choose|k: int| 0 <= k < idx0.len() && idx0[k] == j;
                    assert(idx[k] == j);
                } else {
                    assert(idx[idx0.len() as int] == j);
                }
            }
            assert(cut_by(items, start, end, r, idx));
        } else {
            assert(r == rest);
            assert forall|k: int| 0 <= k < idx0.len() implies start <= items[#[trigger] idx0[k]].time_ms < end && r[k] == (
                (items[idx0[k]].time_ms - start) as i64,
                items[idx0[k]].text@,
                items[idx0[k]].mode,
                items[idx0[k]].color,
                items[idx0[k]].font_size,
            ) by {
                assert(items[idx0[k]] == d[idx0[k]]);
            }
            assert forall|j: int|
                0 <= j < items.len() && start <= #[trigger] items[j].time_ms < end implies exists|k: int|
                    0 <= k < idx0.len() && idx0[k] == j by {
                assert(j < n);
                assert(start <= d[j].time_ms < end);
            }
            assert(cut_by(items, start, end, r, idx0));
        }
    }
}

/// Keeps the danmaku with `start_ms <= time_ms < end_ms` and shifts their
/// times by `-start_ms`, so that the result starts at 0.
pub fn filter_danmaku_by_range(items: &[DanmakuItem], start_ms: i64, end_ms: i64) -> (r: Vec<DanmakuItem>)
    requires
        forall|k: int|
            0 <= k < items@.len() && start_ms <= #[trigger] items@[k].time_ms < end_ms
                ==> items@[k].time_ms - start_ms <= i64::MAX,
    ensures
        items_view(r@) == in_range_shifted(items@, start_ms as int, end_ms as int),
{
    let mut out: Vec<DanmakuItem> = Vec::new();
    let mut i: usize = 0;
    while i < items.len()
        invariant
            i <= items.len(),
            forall|k: int|
                0 <= k < items@.len() && start_ms <= #[trigger] items@[k].time_ms < end_ms
                    ==> items@[k].time_ms - start_ms <= i64::MAX,
            items_view(out@) == in_range_shifted(items@.take(i as int), start_ms as int, end_ms as int),
        decreases items.len() - i,
    {
        let ghost pre = items@.take(i as int);
        let ghost nxt = items@.take(i + 1);
        assert(nxt.drop_last() == pre);
        assert(nxt.last() == items@[i as int]);
        let d = &items[i];
        if d.time_ms >= start_ms && d.time_ms < end_ms {
            assert(items@[i as int].time_ms - start_ms <= i64::MAX);
            let item = DanmakuItem {
                time_ms: d.time_ms - start_ms,
                text: d.text.clone(),
                mode: d.mode,
                color: d.color,
                font_size: d.font_size,
            };
            out.push(item);
            assert(items_view(out@) == items_view(out@).drop_last().push(item@));
        }
        i = i + 1;
    }
    assert(items@.take(items.len() as int) == items@);
    out
}

/// Every danmaku kept by the range filter lies in `[0, end - start)` after the shift.
pub proof fn law_filter_within_window(items: Seq<DanmakuItem>, start: int, end: int)
    ensures
        forall|k: int|
            0 <= k < in_range_shifted(items, start, end).len() ==> {
                let t = (#[trigger] in_range_shifted(items, start, end)[k]).0 as int;
                (forall|j: int| 0 <= j < items.len() && start <= items[j].time_ms < end ==> items[j].time_ms - start <= i64::MAX)
                    ==> 0 <= t < end - start
            },
        in_range_shifted(items, start, end).len() <= items.len(),
    decreases items.len(),
{
    if items.len() > 0 {
        law_filter_within_window(items.drop_last(), start, end);
        let rest = in_range_shifted(items.drop_last(), start, end);
        let r = in_range_shifted(items, start, end);
        assert forall|k: int| 0 <= k < r.len() implies {
            let t = (#[trigger] r[k]).0 as int;
            (forall|j: int| 0 <= j < items.len() && start <= items[j].time_ms < end ==> items[j].time_ms - start <= i64::MAX)
                ==> 0 <= t < end - start
        } by {
            if (forall|j: int| 0 <= j < items.len() && start <= items[j].time_ms < end ==> items[j].time_ms - start <= i64::MAX) {
                assert(forall|j: int| 0 <= j < items.drop_last().len() && start <= items.drop_last()[j].time_ms < end
                    ==> items.drop_last()[j].time_ms - start <= i64::MAX) by {
                    assert forall|j: int| 0 <= j < items.drop_last().len() && start <= items.drop_last()[j].time_ms < end
                        implies items.drop_last()[j].time_ms - start <= i64::MAX by {
                        assert(items.drop_last()[j] == items[j]);
                    }
                }
                if k < rest.len() {
                    assert(r[k] == rest[k]);
                } else {
                    let d = items.last();
                    assert(d == items[items.len() - 1]);
                }
            }
        }
    }
}

/// The XML text of a character, escaped.
pub open spec fn escape_char(c: char) -> Seq<char> {
    if c == '&' {
        "&amp;"@
    } else if c == '<' {
        "&lt;"@
    } else if c == '>' {
        "&gt;"@
    } else if c == '"' {
        "&quot;"@
    } else {
        seq![c]
    }
}

/// `&`, `<`, `>` and `"` replaced by their entities.
pub open spec fn xml_escape(s: Seq<char>) -> Seq<char>
    decreases s.len(),
{
    if s.len() == 0 {
        Seq::empty()
    } else {
        xml_escape(s.drop_last()) + escape_char(s.last())
    }
}

/// Appends `s` with XML special characters escaped.
pub fn push_escaped(buf: &mut Vec<char>, s: &str)
    ensures
        final(buf)@ == old(buf)@ + xml_escape(s@),
{
    let cs = chars_of(s);
    let ghost start = buf@;
    let mut i: usize = 0;
    while i < cs.len()
        invariant
            i <= cs.len(),
            cs@ == s@,
            buf@ == start + xml_escape(cs@.take(i as int)),
        decreases cs.len() - i,
    {
        let c = cs[i];
        if c == '&' {
            push_str(buf, "&amp;");
        } else if c == '<' {
            push_str(buf, "&lt;");
        } else if c == '>' {
            push_str(buf, "&gt;");
        } else if c == '"' {
            push_str(buf, "&quot;");
        } else {
            buf.push(c);
        }
        proof {
            let t = cs@.take(i + 1);
            assert(t.drop_last() == cs@.take(i as int));
            assert(t.last() == c);
        }
        i = i + 1;
    }
    assert(cs@.take(cs.len() as int) == cs@);
}

/// Seconds with three decimals, as `{:.3}` renders `time_ms / 1000`.
pub open spec fn seconds3_text(ms: int) -> Seq<char> {
    let sign: Seq<char> = if ms < 0 { "-"@ } else { Seq::empty() };
    sign + digits_of(abs_int(ms) / 1000) + "."@ + padded_text((abs_int(ms) % 1000) as int, 3)
}

pub fn push_seconds3(buf: &mut Vec<char>, ms: i64)
    ensures
        final(buf)@ == old(buf)@ + seconds3_text(ms as int),
{
    let mag = crate::text::magnitude(ms);
    if ms < 0 {
        push_str(buf, "-");
    }
    push_digits(buf, mag / 1000);
    push_str(buf, ".");
    push_padded(buf, (mag % 1000) as i64, 3);
}

/// One `<d>` line as the XML writer emits it.
pub open spec fn d_line(d: (i64, Seq<char>, DanmakuMode, u32, u16)) -> Seq<char> {
    "<d p=\""@ + seconds3_text(d.0 as int) + ","@ + digits_of(number_of_mode(d.2) as nat) + ","@
        + digits_of(d.4 as nat) + ","@ + digits_of(d.3 as nat) + ",0,0,0,0\">"@ + xml_escape(d.1)
        + "</d>\n"@
}

pub open spec fn d_lines(items: Seq<(i64, Seq<char>, DanmakuMode, u32, u16)>) -> Seq<char>
    decreases items.len(),
{
    if items.len() == 0 {
        Seq::empty()
    } else {
        d_lines(items.drop_last()) + d_line(items.last())
    }
}

pub open spec fn xml_prolog() -> Seq<char> {
    "<?xml version=\"1.0\" encoding=\"utf-8\"?>\n<i>\n"@
}

/// The content of a minimal Bilibili danmaku XML file holding `items`.
pub fn render_bilibili_xml(items: &[DanmakuItem]) -> (r: String)
    ensures
        r@ == xml_prolog() + d_lines(items_view(items@)) + "</i>\n"@,
{
    let mut buf: Vec<char> = Vec::new();
    push_str(&mut buf, "<?xml version=\"1.0\" encoding=\"utf-8\"?>\n<i>\n");
    let mut i: usize = 0;
    while i < items.len()
        invariant
            i <= items.len(),
            buf@ == xml_prolog() + d_lines(items_view(items@.take(i as int))),
        decreases items.len() - i,
    {
        push_d_line(&mut buf, &items[i]);
        proof {
            let t = items_view(items@.take(i + 1));
            assert(t.drop_last() == items_view(items@.take(i as int)));
            assert(t.last() == items@[i as int]@);
        }
        i = i + 1;
    }
    assert(items@.take(items.len() as int) == items@);
    push_str(&mut buf, "</i>\n");
    string_of(&buf)
}

pub fn push_d_line(buf: &mut Vec<char>, d: &DanmakuItem)
    ensures
        final(buf)@ == old(buf)@ + d_line(d@),
{
    let mode_num: u64 = match d.mode {
        DanmakuMode::Scroll => 1,
        DanmakuMode::Bottom => 4,
        DanmakuMode::Top => 5,
    };
    push_str(buf, "<d p=\"");
    push_seconds3(buf, d.time_ms);
    push_str(buf, ",");
    push_digits(buf, mode_num);
    push_str(buf, ",");
    push_digits(buf, d.font_size as u64);
    push_str(buf, ",");
    push_digits(buf, d.color as u64);
    push_str(buf, ",0,0,0,0\">");
    push_escaped(buf, d.text.as_str());
    push_str(buf, "</d>\n");
}

/// The `p` attribute the writer gives a danmaku: time, mode, font size,
/// colour, then four zeros.
pub open spec fn p_attr(d: (i64, Seq<char>, DanmakuMode, u32, u16)) -> Seq<char> {
    seconds3_text(d.0 as int) + ","@ + digits_of(number_of_mode(d.2) as nat) + ","@ + digits_of(
        d.4 as nat,
    ) + ","@ + digits_of(d.3 as nat) + ",0,0,0,0"@
}

proof fn lemma_seconds_no_comma(ms: int)
    ensures
        !seconds3_text(ms).contains(','),
{
    reveal_strlit("-");
    reveal_strlit(".");
    let m = abs_int(ms);
    let dd = digits_of(m / 1000);
    let pp = padded_text((m % 1000) as int, 3);
    crate::text::lemma_digits_roundtrip(m / 1000);
    crate::text::lemma_padded3((m % 1000) as int);
    let body = dd + seq!['.'] + pp;
    let s = seconds3_text(ms);
    if ms < 0 {
        assert(s =~= seq!['-'] + body);
    } else {
        assert(s =~= body);
    }
    assert forall|c: char| s.contains(c) implies c != ',' by {
        let k = choose|k: int| 0 <= k < s.len() && s[k] == c;
        if ms < 0 && k == 0 {
        } else {
            let j = if ms < 0 { k - 1 } else { k };
            assert(body[j] == c);
            if j < dd.len() {
                assert(dd[j] == c);
                assert(dd.contains(c));
            } else if j > dd.len() {
                assert(pp[j - dd.len() - 1] == c);
                assert(pp.contains(c));
            }
        }
    }
}

/// What the writer puts in a `p` attribute reads back as the danmaku's
/// time, mode, colour and font size: the parameter half of reading back
/// what was written (the text goes through the XML reader's unescaping).
pub proof fn law_params_round_trip(d: (i64, Seq<char>, DanmakuMode, u32, u16))
    ensures
        d_line(d) == "<d p=\""@ + p_attr(d) + "\">"@ + xml_escape(d.1) + "</d>\n"@,
        d_time_text(p_attr(d)) == seconds3_text(d.0 as int),
        d_fields(p_attr(d), Some(d.0)) == Some((d.0 as int, d.2, d.3 as int, d.4 as int)),
{
    reveal_strlit(",");
    reveal_strlit(",0,0,0,0");
    reveal_strlit(",0,0,0,0\">");
    reveal_strlit("\">");
    let t = seconds3_text(d.0 as int);
    let mo = digits_of(number_of_mode(d.2) as nat);
    let sz = digits_of(d.4 as nat);
    let co = digits_of(d.3 as nat);
    let z = seq!['0'];
    lemma_seconds_no_comma(d.0 as int);
    crate::text::lemma_digits_roundtrip(number_of_mode(d.2) as nat);
    crate::text::lemma_digits_roundtrip(d.4 as nat);
    crate::text::lemma_digits_roundtrip(d.3 as nat);
    assert(",0,0,0,0\">"@ =~= ",0,0,0,0"@ + "\">"@);
    let p1 = t;
    let p2 = p1 + seq![','] + mo;
    let p3 = p2 + seq![','] + sz;
    let p4 = p3 + seq![','] + co;
    let p5 = p4 + seq![','] + z;
    let p6 = p5 + seq![','] + z;
    let p7 = p6 + seq![','] + z;
    let p8 = p7 + seq![','] + z;
    assert(p_attr(d) =~= p8);
    assert(!z.contains(',')) by {
        if z.contains(',') {
            let k = choose|k: int| 0 <= k < z.len() && z[k] == ',';
        }
    }
    crate::text::lemma_split_plain(p1, ',');
    crate::text::lemma_split_append(p1, mo, ',');
    crate::text::lemma_split_append(p2, sz, ',');
    crate::text::lemma_split_append(p3, co, ',');
    crate::text::lemma_split_append(p4, z, ',');
    crate::text::lemma_split_append(p5, z, ',');
    crate::text::lemma_split_append(p6, z, ',');
    crate::text::lemma_split_append(p7, z, ',');
    let parts = split_by(p8, seq![',']);
    assert(parts =~= seq![t, mo, sz, co, z, z, z, z]);
    crate::text::lemma_parse_digits(number_of_mode(d.2) as nat, false, 0, u16::MAX as int);
    crate::text::lemma_parse_digits(d.4 as nat, false, 0, u16::MAX as int);
    crate::text::lemma_parse_digits(d.3 as nat, false, 0, u32::MAX as int);
}


/// The resolution a danmaku ASS is laid out for: the video's own when the
/// library knows both of its dimensions and they are positive, else the
/// requested one.
pub fn danmaku_resolution(width: u32, height: u32, video_width: Option<i32>, video_height: Option<i32>) -> (r: (u32, u32))
    ensures
        r == match (video_width, video_height) {
            (Some(w), Some(h)) => if w > 0 && h > 0 {
                (w as u32, h as u32)
            } else {
                (width, height)
            },
            _ => (width, height),
        },
{
    match (video_width, video_height) {
        (Some(w), Some(h)) => {
            if w > 0 && h > 0 {
                (w as u32, h as u32)
            } else {
                (width, height)
            }
        },
        _ => (width, height),
    }
}

pub open spec fn factory_args_spec(
    output: Seq<char>,
    input: Seq<char>,
    width: u32,
    height: u32,
    scroll_time: Seq<char>,
    font_size: u32,
    opacity: u32,
    density: i32,
) -> Seq<Seq<char>> {
    seq![
        "-o"@, "ass"@, output, "-i"@, "xml"@, input, "-r"@,
        digits_of(width as nat) + "x"@ + digits_of(height as nat), "-s"@, scroll_time, "-S"@,
        digits_of(font_size as nat), "-O"@, digits_of(opacity as nat), "-d"@,
        crate::text::int_text(density as int), "--force"@,
    ]
}

/// The DanmakuFactory arguments that turn a danmaku XML into an ASS file;
/// `scroll_time` is the crossing time in seconds as text.
pub fn danmaku_factory_args(
    output: &str,
    input: &str,
    width: u32,
    height: u32,
    scroll_time: &str,
    font_size: u32,
    opacity: u32,
    density: i32,
) -> (r: Vec<String>)
    ensures
        crate::config::strs(r@) == factory_args_spec(
            output@,
            input@,
            width,
            height,
            scroll_time@,
            font_size,
            opacity,
            density,
        ),
{
    let mut r: Vec<String> = Vec::new();
    r.push("-o".to_owned());
    r.push("ass".to_owned());
    r.push(output.to_owned());
    r.push("-i".to_owned());
    r.push("xml".to_owned());
    r.push(input.to_owned());
    r.push("-r".to_owned());
    let mut res: Vec<char> = Vec::new();
    push_digits(&mut res, width as u64);
    push_str(&mut res, "x");
    push_digits(&mut res, height as u64);
    r.push(string_of(&res));
    r.push("-s".to_owned());
    r.push(scroll_time.to_owned());
    r.push("-S".to_owned());
    r.push(crate::text::decimal_string(font_size as u64));
    r.push("-O".to_owned());
    r.push(crate::text::decimal_string(opacity as u64));
    r.push("-d".to_owned());
    let mut d: Vec<char> = Vec::new();
    crate::text::push_int(&mut d, density as i64);
    r.push(string_of(&d));
    r.push("--force".to_owned());
    assert(crate::config::strs(r@) == factory_args_spec(
        output@,
        input@,
        width,
        height,
        scroll_time@,
        font_size,
        opacity,
        density,
    ));
    r
}

} // verus!
