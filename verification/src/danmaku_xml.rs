//! Reading danmaku from Bilibili XML: quick-xml tokenizes, a verified state
//! machine picks the `<d p="...">text</d>` elements, and, once the caller
//! has read each element's time field (a floating-point step), a stable
//! insertion sort orders the danmaku by time.

use vstd::prelude::*;
use vstd::utf8::{decode_utf8, valid_utf8};
use crate::danmaku::{d_fields, items_view, parse_d_element, DanmakuItem, DanmakuMode};
use crate::text::{chars_of, string_of, trim_chars, trim_spec};
use quick_xml::events::Event;
use quick_xml::Reader;
use std::borrow::Cow;
use crate::danmaku_xml::XmlStep::{End, Other, Start, Stop, Text};

verus! {

/// One tokenizer event, reduced to what the danmaku reader looks at.
pub enum XmlStep {
    /// An opening tag: its name, and each attribute (`None` when malformed).
    Start(Vec<u8>, Vec<Option<(Vec<u8>, Vec<u8>)>>),
    /// Character data with entities resolved (`None` when an entity is malformed).
    Text(Option<String>),
    /// A closing tag: its name.
    End(Vec<u8>),
    /// End of input, or a syntax error: reading stops.
    Stop,
    /// Any other event (declaration, comment, empty element, ...).
    Other,
}

/// The events quick-xml's reader yields for `xml`, reduced to
/// [`XmlStep`]s, up to the first end of input or error, which ends the
/// sequence as one `Stop`.
pub uninterp spec fn xml_events(xml: Seq<char>) -> Seq<XmlStep>;

/// Tokenizes `xml` with quick-xml (`Reader::from_str`, then `read_event`
/// until `Eof` or an error), converting each event. The contract claims
/// only that the result is quick-xml's event stream for `xml`, a function
/// of the text alone.
#[verifier::external_body]
fn xml_steps(xml: &str) -> (r: Vec<XmlStep>)
    ensures
        r@ == xml_events(xml@),
{
    let mut reader = Reader::from_str(xml);
    let mut out = Vec::new();
    loop {
        let step = match reader.read_event() {
            Ok(Event::Start(e)) => Start(e.name().0.to_vec(), e.attributes().map(|a| a.ok().map(|a| (a.key.0.to_vec(), a.value.to_vec()))).collect()),
            Ok(Event::Text(e)) => Text(e.unescape().ok().map(Cow::into_owned)),
            Ok(Event::End(e)) => End(e.name().0.to_vec()),
            Ok(Event::Eof) | Err(_) => break,
            _ => Other,
        };
        out.push(step);
    }
    out.push(Stop);
    out
}

/// What `String::from_utf8_lossy` makes of a byte string.
pub uninterp spec fn lossy_utf8(b: Seq<u8>) -> Seq<char>;

/// `String::from_utf8_lossy`: the decoded text, with U+FFFD for invalid sequences;
/// on valid UTF-8 exactly the decoded characters.
#[verifier::external_body]
fn utf8_lossy(bytes: &[u8]) -> (r: String)
    ensures
        r@ == lossy_utf8(bytes@),
        valid_utf8(bytes@) ==> r@ == decode_utf8(bytes@),
{
    String::from_utf8_lossy(bytes).into_owned()
}

pub open spec fn d_tag() -> Seq<u8> {
    seq![100u8]
}

pub open spec fn p_key() -> Seq<u8> {
    seq![112u8]
}

/// The value of the last well-formed `p` attribute.
pub open spec fn last_p_attr(attrs: Seq<Option<(Vec<u8>, Vec<u8>)>>) -> Option<Seq<u8>>
    decreases attrs.len(),
{
    if attrs.len() == 0 {
        None
    } else {
        match attrs.last() {
            Some((k, v)) if k@ == p_key() => Some(v@),
            _ => last_p_attr(attrs.drop_last()),
        }
    }
}

pub type DView = (i64, Seq<char>, DanmakuMode, u32, u16);

/// A `<d>` element as read from the document: its `p` attribute and its
/// trimmed, non-empty text.
pub struct DElement {
    pub params: String,
    pub text: String,
}

pub open spec fn elements_view(v: Seq<DElement>) -> Seq<(Seq<char>, Seq<char>)> {
    v.map_values(|e: DElement| (e.params@, e.text@))
}

/// The danmaku a `<d>` element with parameters `params` and trimmed text
/// `text` yields, given the reading `time` of its time field.
pub open spec fn d_item(params: Seq<char>, text: Seq<char>, time: Option<i64>) -> Option<DView> {
    match d_fields(params, time) {
        Some((t, m, c, f)) => Some((t as i64, text, m, c as u32, f as u16)),
        None => None,
    }
}

/// The danmaku of a list of elements, in order, where `times[i]` is the
/// reading of element `i`'s time field; elements that yield none are skipped.
pub open spec fn elements_items(els: Seq<(Seq<char>, Seq<char>)>, times: Seq<Option<i64>>) -> Seq<DView>
    decreases els.len(),
{
    if els.len() == 0 {
        Seq::empty()
    } else {
        let i = els.len() - 1;
        let prev = elements_items(els.drop_last(), times);
        match d_item(els[i].0, els[i].1, times[i]) {
            Some(v) => prev.push(v),
            None => prev,
        }
    }
}

/// Reader state: inside a `<d>`, its current parameters, the elements so far, stopped.
pub type ScanState = (bool, Seq<char>, Seq<(Seq<char>, Seq<char>)>, bool);

pub open spec fn scan_step(st: ScanState, ev: XmlStep) -> ScanState {
    let (in_d, params, items, stopped) = st;
    if stopped {
        st
    } else {
        match ev {
            XmlStep::Start(name, attrs) => if name@ == d_tag() {
                match last_p_attr(attrs@) {
                    Some(v) => (true, lossy_utf8(v), items, false),
                    None => st,
                }
            } else {
                st
            },
            XmlStep::Text(content) => if in_d {
                let raw = match content { Some(c) => c@, None => Seq::<char>::empty() };
                let t = trim_spec(raw);
                let items2 = if t.len() > 0 { items.push((params, t)) } else { items };
                (false, params, items2, false)
            } else {
                st
            },
            XmlStep::End(name) => if name@ == d_tag() { (false, params, items, false) } else { st },
            XmlStep::Stop => (in_d, params, items, true),
            XmlStep::Other => st,
        }
    }
}

pub open spec fn scan_events(evs: Seq<XmlStep>) -> ScanState
    decreases evs.len(),
{
    if evs.len() == 0 {
        (false, Seq::empty(), Seq::empty(), false)
    } else {
        scan_step(scan_events(evs.drop_last()), evs.last())
    }
}

/// `x` placed after every element of `s` whose time is not greater (stable insertion).
pub open spec fn insert_by_time(s: Seq<DView>, x: DView) -> Seq<DView>
    decreases s.len(),
{
    if s.len() == 0 {
        seq![x]
    } else if s.last().0 <= x.0 {
        s.push(x)
    } else {
        insert_by_time(s.drop_last(), x).push(s.last())
    }
}

/// Stable sort by time (what `sort_by_key(|d| d.time_ms)` yields).
pub open spec fn sort_by_time(s: Seq<DView>) -> Seq<DView>
    decreases s.len(),
{
    if s.len() == 0 {
        Seq::empty()
    } else {
        insert_by_time(sort_by_time(s.drop_last()), s.last())
    }
}

pub open spec fn sorted_by_time(s: Seq<DView>) -> bool {
    forall|i: int, j: int| 0 <= i <= j < s.len() ==> s[i].0 <= s[j].0
}

proof fn lemma_insert_at(s: Seq<DView>, x: DView, j: int, i: int)
    requires
        0 <= j <= i <= s.len(),
        j > 0 ==> s[j - 1].0 <= x.0,
        forall|k: int| j <= k < i ==> s[k].0 > x.0,
    ensures
        insert_by_time(s.take(i), x) == s.take(j).push(x) + s.subrange(j, i),
    decreases i - j,
{
    if i == j {
        if j == 0 {
            assert(s.take(0) == Seq::<DView>::empty());
        } else {
            assert(s.take(j).last() == s[j - 1]);
        }
        assert(s.subrange(j, j) == Seq::<DView>::empty());
        assert(s.take(j).push(x) + s.subrange(j, j) == s.take(j).push(x));
    } else {
        lemma_insert_at(s, x, j, i - 1);
        assert(s.take(i).drop_last() == s.take(i - 1));
        assert(s.take(i).last() == s[i - 1]);
        assert(s.take(j).push(x) + s.subrange(j, i) == (s.take(j).push(x) + s.subrange(j, i - 1)).push(s[i - 1]));
    }
}

proof fn lemma_insert_sorted(s: Seq<DView>, x: DView)
    requires
        sorted_by_time(s),
    ensures
        sorted_by_time(insert_by_time(s, x)),
        insert_by_time(s, x).len() == s.len() + 1,
        forall|k: int| 0 <= k < insert_by_time(s, x).len() ==> (#[trigger] insert_by_time(s, x)[k] == x || s.contains(insert_by_time(s, x)[k])),
    decreases s.len(),
{
    if s.len() > 0 {
        if s.last().0 > x.0 {
            let r = insert_by_time(s.drop_last(), x);
            lemma_insert_sorted(s.drop_last(), x);
            assert forall|k: int| 0 <= k < r.len() implies r[k].0 <= s.last().0 by {
                if r[k] != x {
                    assert(s.drop_last().contains(r[k]));
                    let m = choose|m: int| 0 <= m < s.drop_last().len() && s.drop_last()[m] == r[k];
                    assert(s[m] == r[k]);
                }
            }
            let out = r.push(s.last());
            assert forall|k: int| 0 <= k < out.len() implies (#[trigger] out[k] == x || s.contains(out[k])) by {
                if k < r.len() && r[k] != x {
                    let m = choose|m: int| 0 <= m < s.drop_last().len() && s.drop_last()[m] == r[k];
                    assert(s[m] == out[k]);
                } else if k == r.len() {
                    assert(s[s.len() - 1] == out[k]);
                }
            }
        } else {
            let out = s.push(x);
            assert forall|k: int| 0 <= k < out.len() implies (#[trigger] out[k] == x || s.contains(out[k])) by {
                if k < s.len() {
                    assert(s[k] == out[k]);
                }
            }
        }
    }
}

/// Danmaku read from XML come out ordered by time.
pub proof fn law_sorted_by_time(s: Seq<DView>)
    ensures
        sorted_by_time(sort_by_time(s)),
        sort_by_time(s).len() == s.len(),
    decreases s.len(),
{
    if s.len() > 0 {
        law_sorted_by_time(s.drop_last());
        lemma_insert_sorted(sort_by_time(s.drop_last()), s.last());
    }
}

/// Inserts `x` after every item whose time is not greater.
fn insert_by_time_exec(out: &mut Vec<DanmakuItem>, x: DanmakuItem)
    ensures
        items_view(final(out)@) == insert_by_time(items_view(old(out)@), x@),
{
    let ghost s = items_view(out@);
    let mut j: usize = out.len();
    while j > 0 && out[j - 1].time_ms > x.time_ms
        invariant
            j <= out@.len(),
            s == items_view(out@),
            forall|k: int| j <= k < out@.len() ==> s[k].0 > x.time_ms,
        decreases j,
    {
        j = j - 1;
    }
    proof {
        lemma_insert_at(s, x@, j as int, s.len() as int);
        assert(s.take(s.len() as int) == s);
    }
    out.insert(j, x);
    assert(items_view(out@) == s.take(j as int).push(x@) + s.subrange(j as int, s.len() as int));
}

/// Picks the `<d>` elements with a `p` attribute and non-empty text out of
/// a tokenizer event stream, in document order.
pub fn collect_d_elements(events: &[XmlStep]) -> (r: Vec<DElement>)
    ensures
        elements_view(r@) == scan_events(events@).2,
{
    let mut in_d = false;
    let mut params: String = String::new();
    let mut found: Vec<DElement> = Vec::new();
    let mut stopped = false;
    let mut i: usize = 0;
    while i < events.len()
        invariant
            i <= events.len(),
            scan_events(events@.take(i as int)) == (in_d, params@, elements_view(found@), stopped),
        decreases events.len() - i,
    {
        let ghost pre = events@.take(i as int);
        assert(events@.take(i + 1).drop_last() == pre);
        assert(events@.take(i + 1).last() == events@[i as int]);
        if !stopped {
            match &events[i] {
                XmlStep::Start(name, attrs) => {
                    if name.len() == 1 && name[0] == 100u8 {
                        assert(name@ == d_tag());
                        match last_p_value(attrs) {
                            Some(v) => {
                                params = utf8_lossy(v.as_slice());
                                in_d = true;
                            },
                            None => {},
                        }
                    } else {
                        assert(name@ != d_tag());
                    }
                },
                XmlStep::Text(content) => {
                    if in_d {
                        let raw: Vec<char> = match content {
                            Some(c) => chars_of(c.as_str()),
                            None => Vec::new(),
                        };
                        let t = trim_chars(raw.as_slice());
                        if t.len() > 0 {
                            let text = string_of(&t);
                            found.push(DElement { params: params.clone(), text });
                            assert(elements_view(found@) == elements_view(found@).drop_last().push(
                                (params@, t@),
                            ));
                        }
                        in_d = false;
                    }
                },
                XmlStep::End(name) => {
                    if name.len() == 1 && name[0] == 100u8 {
                        assert(name@ == d_tag());
                        in_d = false;
                    } else {
                        assert(name@ != d_tag());
                    }
                },
                XmlStep::Stop => {
                    stopped = true;
                },
                XmlStep::Other => {},
            }
        }
        i = i + 1;
    }
    assert(events@.take(events.len() as int) == events@);
    found
}

/// The danmaku of the elements (modes 1 to 5 only, and only where the time
/// reads as a number), ordered by time, stably; `times[i]` is the caller's
/// reading of element `i`'s time field (see `d_fields`).
pub fn danmaku_from_elements(els: &Vec<DElement>, times: &Vec<Option<i64>>) -> (r: Vec<DanmakuItem>)
    requires
        els.len() == times.len(),
    ensures
        items_view(r@) == sort_by_time(elements_items(elements_view(els@), times@)),
{
    let mut found: Vec<DanmakuItem> = Vec::new();
    let mut i: usize = 0;
    while i < els.len()
        invariant
            i <= els.len() == times.len(),
            items_view(found@) == elements_items(elements_view(els@).take(i as int), times@),
        decreases els.len() - i,
    {
        let ghost ev = elements_view(els@);
        assert(ev.take(i + 1).drop_last() == ev.take(i as int));
        assert(ev.take(i + 1)[i as int] == (els@[i as int].params@, els@[i as int].text@));
        match parse_d_element(els[i].params.as_str(), els[i].text.as_str(), times[i]) {
            Some(item) => {
                found.push(item);
                assert(items_view(found@) == items_view(found@).drop_last().push(item@));
            },
            None => {},
        }
        i = i + 1;
    }
    assert(elements_view(els@).take(els.len() as int) == elements_view(els@));
    let mut sorted: Vec<DanmakuItem> = Vec::new();
    let ghost all = items_view(found@);
    let mut k: usize = 0;
    while k < found.len()
        invariant
            k <= found.len(),
            all == items_view(found@),
            items_view(sorted@) == sort_by_time(all.take(k as int)),
        decreases found.len() - k,
    {
        assert(all.take(k + 1).drop_last() == all.take(k as int));
        assert(all.take(k + 1).last() == found@[k as int]@);
        let item = clone_item(&found[k]);
        insert_by_time_exec(&mut sorted, item);
        k = k + 1;
    }
    assert(all.take(found.len() as int) == all);
    sorted
}

fn clone_item(d: &DanmakuItem) -> (r: DanmakuItem)
    ensures
        r@ == d@,
{
    DanmakuItem { time_ms: d.time_ms, text: d.text.clone(), mode: d.mode, color: d.color, font_size: d.font_size }
}

/// The value of the last well-formed `p` attribute.
fn last_p_value(attrs: &Vec<Option<(Vec<u8>, Vec<u8>)>>) -> (r: Option<Vec<u8>>)
    ensures
        match r {
            Some(v) => last_p_attr(attrs@) == Some(v@),
            None => last_p_attr(attrs@) is None,
        },
{
    let mut i: usize = attrs.len();
    assert(attrs@.take(i as int) == attrs@);
    while i > 0
        invariant
            i <= attrs@.len(),
            last_p_attr(attrs@) == last_p_attr(attrs@.take(i as int)),
        decreases i,
    {
        let ghost t = attrs@.take(i as int);
        assert(t.drop_last() == attrs@.take(i - 1));
        assert(t.last() == attrs@[i - 1]);
        match &attrs[i - 1] {
            Some((k, v)) => {
                if k.len() == 1 && k[0] == 112u8 {
                    assert(k@ == p_key());
                    return Some(v.clone());
                }
                assert(k@ != p_key());
            },
            None => {},
        }
        i = i - 1;
    }
    assert(attrs@.take(0) == Seq::<Option<(Vec<u8>, Vec<u8>)>>::empty());
    None
}

/// The `<d>` elements of Bilibili danmaku XML text, in document order.
/// Reading stops at the end of input or at the first syntax error; what
/// was read up to there is kept.
pub fn bilibili_xml_elements(xml: &str) -> (r: Vec<DElement>)
    ensures
        elements_view(r@) == scan_events(xml_events(xml@)).2,
{
    let events = xml_steps(xml);
    collect_d_elements(events.as_slice())
}

} // verus!
