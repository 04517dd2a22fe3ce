//! Splitting long recognised segments into display-sized subtitles: the
//! text is cut after runs of punctuation into sentences, and sentences are
//! packed greedily into groups of at most a given number of characters.

use vstd::prelude::*;
use crate::text::{chars_of, string_of, trim_chars, trim_spec};

verus! {

/// Sentence-ending punctuation, full-width and ASCII.
pub open spec fn punctuation() -> Seq<char> {
    seq!['，', '。', '！', '？', '；', '：', '、', '…', ',', '.', '!', '?', ';', ':']
}

pub open spec fn is_punct(c: char) -> bool {
    punctuation().contains(c)
}

/// A sentence: its text and its span `[char_start, char_end)` in characters.
pub struct Sentence {
    pub text: String,
    pub char_start: usize,
    pub char_end: usize,
}

/// A group of consecutive sentences: its character span.
pub struct Group {
    pub char_start: usize,
    pub char_end: usize,
}

/// The spans between cuts, scanning from `i` with the current sentence
/// starting at `start`: a cut follows the last of a run of punctuation.
pub open spec fn spans(cs: Seq<char>, start: int, i: int) -> Seq<(int, int)>
    decreases cs.len() - i,
{
    if i >= cs.len() {
        if start < cs.len() {
            seq![(start, cs.len() as int)]
        } else {
            Seq::empty()
        }
    } else if is_punct(cs[i]) && (i + 1 == cs.len() || !is_punct(cs[i + 1])) {
        seq![(start, i + 1)] + spans(cs, i + 1, i + 1)
    } else {
        spans(cs, start, i + 1)
    }
}

pub open spec fn blank(s: Seq<char>) -> bool {
    trim_spec(s).len() == 0
}

/// Spans whose text is not blank.
pub open spec fn keep_filled(cs: Seq<char>, sp: Seq<(int, int)>) -> Seq<(int, int)>
    decreases sp.len(),
{
    if sp.len() == 0 {
        sp
    } else {
        let rest = keep_filled(cs, sp.skip(1));
        if blank(cs.subrange(sp[0].0, sp[0].1)) {
            rest
        } else {
            seq![sp[0]] + rest
        }
    }
}

/// The sentences of a text: spans ending after each run of punctuation,
/// plus what follows the last run, without the blank ones.
pub open spec fn sentence_spans(cs: Seq<char>) -> Seq<(int, int)> {
    keep_filled(cs, spans(cs, 0, 0))
}

pub open spec fn sentence_view(s: Sentence) -> (Seq<char>, int, int) {
    (s.text@, s.char_start as int, s.char_end as int)
}

pub open spec fn sentence_views(v: Seq<Sentence>) -> Seq<(Seq<char>, int, int)> {
    v.map_values(|s: Sentence| sentence_view(s))
}

pub open spec fn spans_with_text(cs: Seq<char>, sp: Seq<(int, int)>) -> Seq<(Seq<char>, int, int)> {
    sp.map_values(|p: (int, int)| (cs.subrange(p.0, p.1), p.0, p.1))
}

proof fn lemma_keep_filled_push(cs: Seq<char>, a: Seq<(int, int)>, b: Seq<(int, int)>)
    ensures
        keep_filled(cs, a + b) == keep_filled(cs, a) + keep_filled(cs, b),
    decreases a.len(),
{
    if a.len() == 0 {
        assert(a + b == b);
    } else {
        assert((a + b).skip(1) == a.skip(1) + b);
        lemma_keep_filled_push(cs, a.skip(1), b);
        assert((a + b)[0] == a[0]);
    }
}

proof fn lemma_keep_single(cs: Seq<char>, p: (int, int))
    ensures
        keep_filled(cs, seq![p]) == if blank(cs.subrange(p.0, p.1)) {
            Seq::<(int, int)>::empty()
        } else {
            seq![p]
        },
{
    let one = seq![p];
    assert(one.skip(1) =~= Seq::<(int, int)>::empty());
    assert(keep_filled(cs, one.skip(1)) == Seq::<(int, int)>::empty());
    if !blank(cs.subrange(p.0, p.1)) {
        assert(seq![one[0]] + Seq::<(int, int)>::empty() =~= one);
    }
}

/// The marks a sentence ends after, written out: `，。！？；：、…,.!?;:`.
pub open spec fn sentence_mark(c: char) -> bool {
    c == '，' || c == '。' || c == '！' || c == '？' || c == '；' || c == '：' || c == '、' || c == '…'
        || c == ',' || c == '.' || c == '!' || c == '?' || c == ';' || c == ':'
}

proof fn lemma_punct_is_mark(c: char)
    ensures
        is_punct(c) <==> sentence_mark(c),
{
    let p = punctuation();
    assert(p[0] == '，' && p[1] == '。' && p[2] == '！' && p[3] == '？' && p[4] == '；' && p[5] == '：');
    assert(p[6] == '、' && p[7] == '…' && p[8] == ',' && p[9] == '.' && p[10] == '!' && p[11] == '?');
    assert(p[12] == ';' && p[13] == ':');
    if p.contains(c) {
        let i = choose|i: int| 0 <= i < p.len() && p[i] == c;
        assert(0 <= i < 14);
    }
}

/// No cut point (last mark of a run) among positions `start..i`.
pub open spec fn no_cut(cs: Seq<char>, start: int, i: int) -> bool {
    forall|j: int|
        start <= j < i ==> !(is_punct(#[trigger] cs[j]) && (j + 1 == cs.len() || !is_punct(cs[j + 1])))
}

/// Inside `a..b`, a mark is only ever followed by another mark.
pub open spec fn marks_run_on(cs: Seq<char>, a: int, b: int) -> bool {
    forall|j: int| a <= j < b - 1 ==> (is_punct(#[trigger] cs[j]) ==> is_punct(cs[j + 1]))
}

pub open spec fn good_span(cs: Seq<char>, p: (int, int)) -> bool {
    &&& 0 <= p.0 < p.1 <= cs.len()
    &&& marks_run_on(cs, p.0, p.1)
    &&& (p.1 == cs.len() || (is_punct(cs[p.1 - 1]) && !is_punct(cs[p.1])))
    &&& (p.0 == 0 || (is_punct(cs[p.0 - 1]) && !is_punct(cs[p.0])))
}

proof fn lemma_spans_good(cs: Seq<char>, start: int, i: int)
    requires
        0 <= start <= i <= cs.len(),
        no_cut(cs, start, i),
        start == 0 || (start < cs.len() ==> is_punct(cs[start - 1]) && !is_punct(cs[start])),
    ensures
        forall|k: int| 0 <= k < spans(cs, start, i).len() ==> good_span(cs, #[trigger] spans(cs, start, i)[k]),
    decreases cs.len() - i,
{
    let sp = spans(cs, start, i);
    if i >= cs.len() {
        if start < cs.len() {
            assert(sp == seq![(start, cs.len() as int)]);
            assert(good_span(cs, (start, cs.len() as int)));
        }
    } else if is_punct(cs[i]) && (i + 1 == cs.len() || !is_punct(cs[i + 1])) {
        lemma_spans_good(cs, i + 1, i + 1);
        let rest = spans(cs, i + 1, i + 1);
        assert(sp == seq![(start, i + 1)] + rest);
        assert(good_span(cs, (start, i + 1)));
        assert forall|k: int| 0 <= k < sp.len() implies good_span(cs, #[trigger] sp[k]) by {
            if k > 0 {
                assert(sp[k] == rest[k - 1]);
            } else {
                assert(sp[0] == (start, i + 1));
            }
        }
    } else {
        assert(no_cut(cs, start, i + 1));
        lemma_spans_good(cs, start, i + 1);
        assert(sp == spans(cs, start, i + 1));
    }
}

proof fn lemma_keep_good(cs: Seq<char>, sp: Seq<(int, int)>)
    requires
        forall|k: int| 0 <= k < sp.len() ==> good_span(cs, #[trigger] sp[k]),
    ensures
        forall|k: int| 0 <= k < keep_filled(cs, sp).len() ==> good_span(cs, #[trigger] keep_filled(cs, sp)[k]),
    decreases sp.len(),
{
    if sp.len() > 0 {
        assert forall|k: int| 0 <= k < sp.skip(1).len() implies good_span(cs, #[trigger] sp.skip(1)[k]) by {
            assert(sp.skip(1)[k] == sp[k + 1]);
        }
        lemma_keep_good(cs, sp.skip(1));
        let rest = keep_filled(cs, sp.skip(1));
        if !blank(cs.subrange(sp[0].0, sp[0].1)) {
            assert forall|k: int| 0 <= k < (seq![sp[0]] + rest).len() implies good_span(
                cs,
                #[trigger] (seq![sp[0]] + rest)[k],
            ) by {
                if k > 0 {
                    assert((seq![sp[0]] + rest)[k] == rest[k - 1]);
                }
            }
        }
    }
}

/// Sentences end at punctuation, and only there: each sentence is the text
/// between its bounds; inside a sentence a mark of `，。！？；：、…,.!?;:` is
/// only ever followed by another mark, so a mark followed by other text (a
/// `。` before more words, say) always ends its sentence; and a sentence
/// ends at the end of the text or after the last mark of a run, and starts
/// at the start of the text or right after such a run.
pub proof fn law_sentences_end_at_marks(text: Seq<char>)
    ensures
        forall|k: int|
            0 <= k < spans_with_text(text, sentence_spans(text)).len() ==> {
                let (t, a, b) = #[trigger] spans_with_text(text, sentence_spans(text))[k];
                &&& 0 <= a < b <= text.len()
                &&& t == text.subrange(a, b)
                &&& forall|j: int| 0 <= j < t.len() - 1 ==> (sentence_mark(#[trigger] t[j]) ==> sentence_mark(t[j + 1]))
                &&& (b == text.len() || (sentence_mark(text[b - 1]) && !sentence_mark(text[b])))
                &&& (a == 0 || (sentence_mark(text[a - 1]) && !sentence_mark(text[a])))
            },
{
    assert(no_cut(text, 0, 0));
    lemma_spans_good(text, 0, 0);
    lemma_keep_good(text, spans(text, 0, 0));
    let sp = sentence_spans(text);
    let sw = spans_with_text(text, sp);
    assert forall|k: int| 0 <= k < sw.len() implies {
        let (t, a, b) = #[trigger] sw[k];
        &&& 0 <= a < b <= text.len()
        &&& t == text.subrange(a, b)
        &&& forall|j: int| 0 <= j < t.len() - 1 ==> (sentence_mark(#[trigger] t[j]) ==> sentence_mark(t[j + 1]))
        &&& (b == text.len() || (sentence_mark(text[b - 1]) && !sentence_mark(text[b])))
        &&& (a == 0 || (sentence_mark(text[a - 1]) && !sentence_mark(text[a])))
    } by {
        let p = sp[k];
        assert(good_span(text, p));
        let t = text.subrange(p.0, p.1);
        assert forall|j: int| 0 <= j < t.len() - 1 && sentence_mark(#[trigger] t[j]) implies sentence_mark(
            t[j + 1],
        ) by {
            assert(t[j] == text[p.0 + j] && t[j + 1] == text[p.0 + j + 1]);
            lemma_punct_is_mark(t[j]);
            lemma_punct_is_mark(t[j + 1]);
        }
        if p.1 < text.len() {
            lemma_punct_is_mark(text[p.1 - 1]);
            lemma_punct_is_mark(text[p.1]);
        }
        if p.0 > 0 {
            lemma_punct_is_mark(text[p.0 - 1]);
            lemma_punct_is_mark(text[p.0]);
        }
    }
}

fn slice_string(cs: &Vec<char>, from: usize, to: usize) -> (r: String)
    requires
        from <= to <= cs.len(),
    ensures
        r@ == cs@.subrange(from as int, to as int),
{
    let mut buf: Vec<char> = Vec::new();
    let mut i: usize = from;
    while i < to
        invariant
            from <= i <= to <= cs.len(),
            buf@ == cs@.subrange(from as int, i as int),
        decreases to - i,
    {
        buf.push(cs[i]);
        i = i + 1;
        assert(buf@ == cs@.subrange(from as int, i as int));
    }
    string_of(&buf)
}

fn is_punct_char(c: char) -> (r: bool)
    ensures
        r == is_punct(c),
{
    let p: Vec<char> = vec!['，', '。', '！', '？', '；', '：', '、', '…', ',', '.', '!', '?', ';', ':'];
    assert(p@ == punctuation());
    crate::text::contains_char(&p, c)
}

fn is_blank(cs: &Vec<char>, from: usize, to: usize) -> (r: bool)
    requires
        from <= to <= cs.len(),
    ensures
        r == blank(cs@.subrange(from as int, to as int)),
{
    let mut buf: Vec<char> = Vec::new();
    let mut i: usize = from;
    while i < to
        invariant
            from <= i <= to <= cs.len(),
            buf@ == cs@.subrange(from as int, i as int),
        decreases to - i,
    {
        buf.push(cs[i]);
        i = i + 1;
        assert(buf@ == cs@.subrange(from as int, i as int));
    }
    let t = trim_chars(&buf);
    t.len() == 0
}

/// Cuts a text into sentences after each run of punctuation; the text after
/// the last run is a sentence too; blank sentences are dropped.
pub fn split_by_punctuation(text: &str) -> (r: Vec<Sentence>)
    ensures
        sentence_views(r@) == spans_with_text(text@, sentence_spans(text@)),
{
    let cs = chars_of(text);
    let ghost all = sentence_spans(cs@);
    let mut out: Vec<Sentence> = Vec::new();
    let mut start: usize = 0;
    let mut i: usize = 0;
    while i < cs.len()
        invariant
            start <= i <= cs.len(),
            cs@ == text@,
            all == sentence_spans(cs@),
            sentence_views(out@) + spans_with_text(cs@, keep_filled(cs@, spans(cs@, start as int, i as int)))
                == spans_with_text(cs@, all),
            forall|k: int| 0 <= k < out@.len() ==> #[trigger] out@[k].char_end <= start,
        decreases cs.len() - i,
    {
        let ghost i0 = i;
        if is_punct_char(cs[i]) {
            while i + 1 < cs.len() && is_punct_char(cs[i + 1])
                invariant
                    start <= i < cs.len(),
                    i0 <= i,
                    is_punct(cs@[i as int]),
                    sentence_views(out@) + spans_with_text(
                        cs@,
                        keep_filled(cs@, spans(cs@, start as int, i as int)),
                    ) == spans_with_text(cs@, all),
                decreases cs.len() - i,
            {
                i = i + 1;
            }
            let end = i + 1;
            let ghost sp = spans(cs@, start as int, i as int);
            assert(sp == seq![(start as int, end as int)] + spans(cs@, end as int, end as int));
            proof {
                lemma_keep_filled_push(cs@, seq![(start as int, end as int)], spans(cs@, end as int, end as int));
            }
            let ghost rest = keep_filled(cs@, spans(cs@, end as int, end as int));
            if !is_blank(&cs, start, end) {
                let t = slice_string(&cs, start, end);
                let ghost pre = sentence_views(out@);
                out.push(Sentence { text: t, char_start: start, char_end: end });
                assert(sentence_views(out@) == pre.push((cs@.subrange(start as int, end as int), start as int, end as int)));
                proof {
                    lemma_keep_single(cs@, (start as int, end as int));
                }
                assert(spans_with_text(cs@, seq![(start as int, end as int)] + rest) == seq![
                    (cs@.subrange(start as int, end as int), start as int, end as int)] + spans_with_text(cs@, rest));
            } else {
                proof {
                    lemma_keep_single(cs@, (start as int, end as int));
                }
                assert(Seq::<(int, int)>::empty() + rest == rest);
            }
            start = end;
        }
        i = i + 1;
    }
    let ghost sp = spans(cs@, start as int, i as int);
    if start < cs.len() {
        assert(sp == seq![(start as int, cs.len() as int)]);
        proof {
            lemma_keep_single(cs@, (start as int, cs.len() as int));
        }
        if !is_blank(&cs, start, cs.len()) {
            let t = slice_string(&cs, start, cs.len());
            let ghost pre = sentence_views(out@);
            out.push(Sentence { text: t, char_start: start, char_end: cs.len() });
            assert(sentence_views(out@) == pre.push(
                (cs@.subrange(start as int, cs.len() as int), start as int, cs.len() as int),
            ));
            assert(spans_with_text(cs@, seq![(start as int, cs.len() as int)]) =~= seq![
                (cs@.subrange(start as int, cs.len() as int), start as int, cs.len() as int)]);
        } else {
            assert(spans_with_text(cs@, Seq::<(int, int)>::empty()) =~= Seq::<(Seq<char>, int, int)>::empty());
        }
    } else {
        assert(sp.len() == 0);
        assert(keep_filled(cs@, sp) == sp);
        assert(spans_with_text(cs@, sp) =~= Seq::<(Seq<char>, int, int)>::empty());
    }
    out
}

/// The character count of each sentence.
pub open spec fn lens(ss: Seq<(Seq<char>, int, int)>) -> Seq<int> {
    ss.map_values(|s: (Seq<char>, int, int)| s.0.len() as int)
}

pub open spec fn sum(xs: Seq<int>) -> int
    decreases xs.len(),
{
    if xs.len() == 0 {
        0
    } else {
        sum(xs.drop_last()) + xs.last()
    }
}

/// Greedy packing state after the first `n` sentences: closed groups, the
/// open group's start and its character count.
pub open spec fn pack(ss: Seq<(Seq<char>, int, int)>, max: int, n: int) -> (Seq<(int, int)>, int, int)
    decreases n,
{
    if n <= 0 {
        (Seq::empty(), ss[0].1, 0)
    } else {
        let (groups, cur_start, cur_len) = pack(ss, max, n - 1);
        let len = ss[n - 1].0.len() as int;
        if cur_len > 0 && cur_len + len > max {
            (groups.push((cur_start, ss[n - 2].2)), ss[n - 1].1, len)
        } else {
            (groups, cur_start, cur_len + len)
        }
    }
}

/// Sentences packed into groups of at most `max` characters; a sentence
/// longer than that forms a group of its own.
pub open spec fn packed(ss: Seq<(Seq<char>, int, int)>, max: int) -> Seq<(int, int)> {
    let st = pack(ss, max, ss.len() as int);
    st.0.push((st.1, ss.last().2))
}

pub open spec fn group_views(v: Seq<Group>) -> Seq<(int, int)> {
    v.map_values(|g: Group| (g.char_start as int, g.char_end as int))
}

proof fn lemma_pack_len_bound(ss: Seq<(Seq<char>, int, int)>, max: int, n: int)
    requires
        0 <= n <= ss.len(),
        ss.len() > 0,
    ensures
        0 <= pack(ss, max, n).2 <= sum(lens(ss.take(n))),
    decreases n,
{
    if n > 0 {
        lemma_pack_len_bound(ss, max, n - 1);
        assert(lens(ss.take(n)).drop_last() == lens(ss.take(n - 1)));
        lemma_sum_nonneg(lens(ss.take(n - 1)));
    }
}

proof fn lemma_sum_nonneg(xs: Seq<int>)
    requires
        forall|k: int| 0 <= k < xs.len() ==> xs[k] >= 0,
    ensures
        sum(xs) >= 0,
    decreases xs.len(),
{
    if xs.len() > 0 {
        lemma_sum_nonneg(xs.drop_last());
    }
}

/// Packs sentences greedily into groups of at most `max_chars` characters.
pub fn merge_sentences(sentences: &Vec<Sentence>, max_chars: usize) -> (r: Vec<Group>)
    requires
        sentences.len() > 0,
        sum(lens(sentence_views(sentences@))) <= usize::MAX,
    ensures
        group_views(r@) == packed(sentence_views(sentences@), max_chars as int),
{
    let ghost ss = sentence_views(sentences@);
    let mut groups: Vec<Group> = Vec::new();
    let mut current_start = sentences[0].char_start;
    let mut current_len: usize = 0;
    let mut i: usize = 0;
    assert(ss.take(ss.len() as int) == ss);
    while i < sentences.len()
        invariant
            i <= sentences.len(),
            sentences.len() > 0,
            ss == sentence_views(sentences@),
            sum(lens(ss)) <= usize::MAX,
            (group_views(groups@), current_start as int, current_len as int) == pack(
                ss,
                max_chars as int,
                i as int,
            ),
        decreases sentences.len() - i,
    {
        proof {
            lemma_pack_len_bound(ss, max_chars as int, i as int);
            lemma_sum_prefix(lens(ss), i + 1);
            assert(lens(ss.take(i + 1)) == lens(ss).take(i + 1));
            assert(lens(ss.take(i + 1)).drop_last() == lens(ss.take(i as int)));
        }
        let sentence_len = crate::text::chars_of(sentences[i].text.as_str()).len();
        assert(sentence_len == ss[i as int].0.len());
        if current_len > 0 && current_len + sentence_len > max_chars {
            let prev_end = sentences[i - 1].char_end;
            let ghost pre = group_views(groups@);
            groups.push(Group { char_start: current_start, char_end: prev_end });
            assert(group_views(groups@) == pre.push((current_start as int, prev_end as int)));
            current_start = sentences[i].char_start;
            current_len = sentence_len;
        } else {
            current_len = current_len + sentence_len;
        }
        i = i + 1;
    }
    let last_end = sentences[sentences.len() - 1].char_end;
    let ghost pre = group_views(groups@);
    groups.push(Group { char_start: current_start, char_end: last_end });
    assert(group_views(groups@) == pre.push((current_start as int, last_end as int)));
    groups
}

proof fn lemma_sum_prefix(xs: Seq<int>, n: int)
    requires
        0 <= n <= xs.len(),
        forall|k: int| 0 <= k < xs.len() ==> xs[k] >= 0,
    ensures
        sum(xs.take(n)) <= sum(xs),
    decreases xs.len() - n,
{
    if n < xs.len() {
        lemma_sum_prefix(xs, n + 1);
        assert(xs.take(n + 1).drop_last() == xs.take(n));
    } else {
        assert(xs.take(n) == xs);
    }
}

pub open spec fn span_len_sum(sp: Seq<(int, int)>) -> int
    decreases sp.len(),
{
    if sp.len() == 0 {
        0
    } else {
        (sp[0].1 - sp[0].0) + span_len_sum(sp.skip(1))
    }
}

proof fn lemma_spans_bounded(cs: Seq<char>, start: int, i: int)
    requires
        0 <= start <= i <= cs.len(),
    ensures
        span_len_sum(spans(cs, start, i)) <= cs.len() - start,
        forall|k: int|
            0 <= k < spans(cs, start, i).len() ==> start <= (#[trigger] spans(cs, start, i)[k]).0
                <= spans(cs, start, i)[k].1 <= cs.len(),
        forall|j: int, k: int|
            0 <= j < k < spans(cs, start, i).len() ==> (#[trigger] spans(cs, start, i)[j]).1
                <= (#[trigger] spans(cs, start, i)[k]).0,
    decreases cs.len() - i,
{
    let sp = spans(cs, start, i);
    if i >= cs.len() {
        if start < cs.len() {
            assert(sp.skip(1).len() == 0);
            assert(span_len_sum(sp.skip(1)) == 0);
        }
    } else if is_punct(cs[i]) && (i + 1 == cs.len() || !is_punct(cs[i + 1])) {
        lemma_spans_bounded(cs, i + 1, i + 1);
        let rest = spans(cs, i + 1, i + 1);
        assert(sp.skip(1) == rest);
        assert forall|k: int| 0 <= k < sp.len() implies start <= (#[trigger] sp[k]).0 <= sp[k].1
            <= cs.len() by {
            if k > 0 {
                assert(sp[k] == rest[k - 1]);
            }
        }
        assert forall|j: int, k: int| 0 <= j < k < sp.len() implies (#[trigger] sp[j]).1
            <= (#[trigger] sp[k]).0 by {
            assert(sp[k] == rest[k - 1]);
            if j > 0 {
                assert(sp[j] == rest[j - 1]);
            }
        }
    } else {
        lemma_spans_bounded(cs, start, i + 1);
    }
}

proof fn lemma_keep_filled_bounded(cs: Seq<char>, sp: Seq<(int, int)>)
    requires
        forall|k: int| 0 <= k < sp.len() ==> 0 <= (#[trigger] sp[k]).0 <= sp[k].1 <= cs.len(),
        forall|j: int, k: int| 0 <= j < k < sp.len() ==> (#[trigger] sp[j]).1 <= (#[trigger] sp[k]).0,
    ensures
        span_len_sum(keep_filled(cs, sp)) <= span_len_sum(sp),
        forall|k: int|
            0 <= k < keep_filled(cs, sp).len() ==> sp.contains(#[trigger] keep_filled(cs, sp)[k]),
        forall|j: int, k: int|
            0 <= j < k < keep_filled(cs, sp).len() ==> (#[trigger] keep_filled(cs, sp)[j]).1
                <= (#[trigger] keep_filled(cs, sp)[k]).0,
    decreases sp.len(),
{
    if sp.len() > 0 {
        let t = sp.skip(1);
        assert forall|k: int| 0 <= k < t.len() implies 0 <= (#[trigger] t[k]).0 <= t[k].1
            <= cs.len() by {
            assert(t[k] == sp[k + 1]);
        }
        assert forall|j: int, k: int| 0 <= j < k < t.len() implies (#[trigger] t[j]).1
            <= (#[trigger] t[k]).0 by {
            assert(t[j] == sp[j + 1] && t[k] == sp[k + 1]);
        }
        lemma_keep_filled_bounded(cs, t);
        let rest = keep_filled(cs, t);
        assert forall|k: int| 0 <= k < rest.len() implies exists|m: int|
            1 <= m < sp.len() && #[trigger] rest[k] == #[trigger] sp[m] by {
            assert(t.contains(rest[k]));
            let m = choose|m: int| 0 <= m < t.len() && t[m] == rest[k];
            assert(sp[m + 1] == rest[k]);
        }
        if !blank(cs.subrange(sp[0].0, sp[0].1)) {
            let kf = seq![sp[0]] + rest;
            assert(kf.skip(1) == rest);
            assert forall|k: int| 0 <= k < kf.len() implies sp.contains(#[trigger] kf[k]) by {
                if k == 0 {
                    assert(kf[0] == sp[0]);
                } else {
                    assert(kf[k] == rest[k - 1]);
                    let m = choose|m: int| 1 <= m < sp.len() && #[trigger] rest[k - 1] == #[trigger] sp[m];
                    assert(sp[m] == kf[k]);
                }
            }
            assert forall|j: int, k: int| 0 <= j < k < kf.len() implies (#[trigger] kf[j]).1
                <= (#[trigger] kf[k]).0 by {
                assert(kf[k] == rest[k - 1]);
                if j == 0 {
                    let m = choose|m: int| 1 <= m < sp.len() && #[trigger] rest[k - 1] == #[trigger] sp[m];
                    assert(sp[0].1 <= sp[m].0);
                } else {
                    assert(kf[j] == rest[j - 1]);
                }
            }
        } else {
            assert forall|k: int| 0 <= k < rest.len() implies sp.contains(#[trigger] rest[k]) by {
                let m = choose|m: int| 1 <= m < sp.len() && #[trigger] rest[k] == #[trigger] sp[m];
                assert(sp[m] == rest[k]);
            }
        }
    }
}

proof fn lemma_lens_sum(cs: Seq<char>, sp: Seq<(int, int)>)
    requires
        forall|k: int| 0 <= k < sp.len() ==> 0 <= (#[trigger] sp[k]).0 <= sp[k].1 <= cs.len(),
    ensures
        sum(lens(spans_with_text(cs, sp))) == span_len_sum(sp),
    decreases sp.len(),
{
    if sp.len() > 0 {
        let w = spans_with_text(cs, sp);
        let l = lens(w);
        lemma_sum_front(l);
        assert(l.skip(1) == lens(spans_with_text(cs, sp.skip(1))));
        assert forall|k: int| 0 <= k < sp.skip(1).len() implies 0 <= (#[trigger] sp.skip(1)[k]).0
            <= sp.skip(1)[k].1 <= cs.len() by {
            assert(sp.skip(1)[k] == sp[k + 1]);
        }
        lemma_lens_sum(cs, sp.skip(1));
    }
}

proof fn lemma_sum_front(xs: Seq<int>)
    requires
        xs.len() > 0,
    ensures
        sum(xs) == xs[0] + sum(xs.skip(1)),
    decreases xs.len(),
{
    if xs.len() > 1 {
        lemma_sum_front(xs.drop_last());
        assert(xs.drop_last().skip(1) == xs.skip(1).drop_last());
        assert(xs.skip(1).last() == xs.last());
        assert(sum(xs.skip(1)) == sum(xs.skip(1).drop_last()) + xs.skip(1).last());
    } else {
        assert(xs.skip(1).len() == 0);
        assert(xs.drop_last().len() == 0);
        assert(sum(xs.skip(1)) == 0);
        assert(sum(xs.drop_last()) == 0);
    }
}

/// How a recognised segment is shown.
pub enum SegmentPlan {
    /// Its text is blank: nothing is shown.
    Skip,
    /// Shown as one subtitle with this (trimmed) text.
    Whole(String),
    /// Shown as several: the character count of the trimmed text, and for
    /// each group with a non-blank text, its span and its trimmed text.
    Parts { char_count: usize, groups: Vec<Group>, texts: Vec<String> },
}

/// The groups of `gs` whose text in `t` is not blank, with their trimmed texts.
pub open spec fn shown_parts(t: Seq<char>, gs: Seq<(int, int)>) -> Seq<((int, int), Seq<char>)>
    decreases gs.len(),
{
    if gs.len() == 0 {
        Seq::empty()
    } else {
        let g = gs.last();
        let rest = shown_parts(t, gs.drop_last());
        if blank(t.subrange(g.0, g.1)) {
            rest
        } else {
            rest.push((g, trim_spec(t.subrange(g.0, g.1))))
        }
    }
}

pub open spec fn plan_view(p: SegmentPlan) -> (int, Seq<char>, int, Seq<((int, int), Seq<char>)>) {
    match p {
        SegmentPlan::Skip => (0, Seq::empty(), 0, Seq::empty()),
        SegmentPlan::Whole(t) => (1, t@, 0, Seq::empty()),
        SegmentPlan::Parts { char_count, groups, texts } => (
            2,
            Seq::empty(),
            char_count as int,
            Seq::new(
                groups@.len(),
                |k: int| ((groups@[k].char_start as int, groups@[k].char_end as int), texts@[k]@),
            ),
        ),
    }
}

/// A segment is skipped when blank, shown whole when splitting is off
/// (`max_chars == 0`) or it is short enough, and otherwise split into its
/// sentence groups.
pub open spec fn plan_spec(text: Seq<char>, max_chars: int) -> (int, Seq<char>, int, Seq<
    ((int, int), Seq<char>),
>) {
    let t = trim_spec(text);
    if t.len() == 0 {
        (0, Seq::empty(), 0, Seq::empty())
    } else if max_chars == 0 || t.len() <= max_chars {
        (1, t, 0, Seq::empty())
    } else {
        let ss = spans_with_text(t, sentence_spans(t));
        if ss.len() == 0 {
            (1, t, 0, Seq::empty())
        } else {
            (2, Seq::empty(), t.len() as int, shown_parts(t, packed(ss, max_chars)))
        }
    }
}

proof fn lemma_pack_bounds(ss: Seq<(Seq<char>, int, int)>, max: int, n: int, len: int)
    requires
        0 <= n <= ss.len(),
        ss.len() > 0,
        forall|k: int| 0 <= k < ss.len() ==> 0 <= (#[trigger] ss[k]).1 <= ss[k].2 <= len,
        forall|j: int, k: int| 0 <= j < k < ss.len() ==> (#[trigger] ss[j]).2 <= (#[trigger] ss[k]).1,
    ensures
        0 <= pack(ss, max, n).1 <= len,
        n == 0 ==> pack(ss, max, n).1 == ss[0].1,
        n >= 1 ==> pack(ss, max, n).1 <= ss[n - 1].1,
        forall|k: int|
            0 <= k < pack(ss, max, n).0.len() ==> 0 <= (#[trigger] pack(ss, max, n).0[k]).0
                <= pack(ss, max, n).0[k].1 <= len,
    decreases n,
{
    if n > 0 {
        lemma_pack_bounds(ss, max, n - 1, len);
        if n >= 2 {
            assert(ss[n - 2].2 <= ss[n - 1].1);
        }
    }
}

/// Decides how one recognised segment's text is shown.
pub fn plan_segment(text: &str, max_chars: usize) -> (r: SegmentPlan)
    ensures
        plan_view(r) == plan_spec(text@, max_chars as int),
        r matches SegmentPlan::Parts { groups, texts, .. } ==> texts@.len() == groups@.len(),
{
    let cs = chars_of(text);
    let t = trim_chars(&cs);
    if t.len() == 0 {
        return SegmentPlan::Skip;
    }
    let n = t.len();
    let ts = string_of(&t);
    if max_chars == 0 || n <= max_chars {
        return SegmentPlan::Whole(ts);
    }
    let sentences = split_by_punctuation(ts.as_str());
    if sentences.len() == 0 {
        return SegmentPlan::Whole(ts);
    }
    let ghost ss = sentence_views(sentences@);
    proof {
        lemma_spans_bounded(t@, 0, 0);
        lemma_keep_filled_bounded(t@, spans(t@, 0, 0));
        lemma_lens_sum(t@, sentence_spans(t@));
        assert forall|k: int| 0 <= k < ss.len() implies 0 <= (#[trigger] ss[k]).1 <= ss[k].2 <= n by {
            assert(ss[k].1 == sentence_spans(t@)[k].0);
            assert(spans(t@, 0, 0).contains(sentence_spans(t@)[k]));
        }
        assert forall|j: int, k: int| 0 <= j < k < ss.len() implies (#[trigger] ss[j]).2
            <= (#[trigger] ss[k]).1 by {
            assert(ss[j].2 == sentence_spans(t@)[j].1);
            assert(ss[k].1 == sentence_spans(t@)[k].0);
        }
        lemma_pack_bounds(ss, max_chars as int, ss.len() as int, n as int);
    }
    let groups = merge_sentences(&sentences, max_chars);
    let ghost gv = group_views(groups@);
    assert forall|k: int| 0 <= k < gv.len() implies 0 <= (#[trigger] gv[k]).0 <= gv[k].1 <= n by {
        let st = pack(ss, max_chars as int, ss.len() as int);
        if k < st.0.len() {
            assert(gv[k] == st.0[k]);
        } else {
            assert(ss.last().2 <= n);
            assert(ss.last().1 <= ss.last().2);
        }
    }
    let mut shown: Vec<Group> = Vec::new();
    let mut texts: Vec<String> = Vec::new();
    let mut i: usize = 0;
    while i < groups.len()
        invariant
            i <= groups.len(),
            gv == group_views(groups@),
            n == t@.len(),
            forall|k: int| 0 <= k < gv.len() ==> 0 <= (#[trigger] gv[k]).0 <= gv[k].1 <= n,
            shown@.len() == texts@.len(),
            Seq::new(
                shown@.len(),
                |k: int| ((shown@[k].char_start as int, shown@[k].char_end as int), texts@[k]@),
            ) == shown_parts(t@, gv.take(i as int)),
        decreases groups.len() - i,
    {
        assert(gv.take(i + 1).drop_last() == gv.take(i as int));
        assert(gv.take(i + 1).last() == gv[i as int]);
        let gs = groups[i].char_start;
        let ge = groups[i].char_end;
        let mut piece: Vec<char> = Vec::new();
        if gs <= ge {
            let mut j: usize = gs;
            while j < ge
                invariant
                    gs <= j <= ge <= n,
                    n == t@.len(),
                    piece@ == t@.subrange(gs as int, j as int),
                decreases ge - j,
            {
                piece.push(t[j]);
                j = j + 1;
                assert(piece@ == t@.subrange(gs as int, j as int));
            }
        }
        assert(gv[i as int] == (gs as int, ge as int));
        assert(piece@ == t@.subrange(gs as int, ge as int));
        let trimmed = trim_chars(&piece);
        let ghost before = Seq::new(
            shown@.len(),
            |k: int| ((shown@[k].char_start as int, shown@[k].char_end as int), texts@[k]@),
        );
        if trimmed.len() > 0 {
            shown.push(Group { char_start: gs, char_end: ge });
            let tx = string_of(&trimmed);
            texts.push(tx);
            assert(Seq::new(
                shown@.len(),
                |k: int| ((shown@[k].char_start as int, shown@[k].char_end as int), texts@[k]@),
            ) =~= before.push(((gs as int, ge as int), trimmed@)));
        }
        i = i + 1;
    }
    assert(gv.take(groups.len() as int) == gv);
    SegmentPlan::Parts { char_count: n, groups: shown, texts }
}


/// For each closed group after the first `n` sentences: the characters it
/// packs and the character count of its last sentence.
pub open spec fn pack_counts(ss: Seq<(Seq<char>, int, int)>, max: int, n: int) -> Seq<(int, int)>
    decreases n,
{
    if n <= 0 {
        Seq::empty()
    } else {
        let prev = pack_counts(ss, max, n - 1);
        let (groups, cur_start, cur_len) = pack(ss, max, n - 1);
        let len = ss[n - 1].0.len() as int;
        if cur_len > 0 && cur_len + len > max {
            prev.push((cur_len, ss[n - 2].0.len() as int))
        } else {
            prev
        }
    }
}

/// For each group of `packed(ss, max)`, in order: the characters it packs
/// and the character count of its last sentence.
pub open spec fn group_counts(ss: Seq<(Seq<char>, int, int)>, max: int) -> Seq<(int, int)> {
    let n = ss.len() as int;
    pack_counts(ss, max, n).push((pack(ss, max, n).2, ss.last().0.len() as int))
}

proof fn lemma_pack_counts(ss: Seq<(Seq<char>, int, int)>, max: int, n: int)
    requires
        0 <= n <= ss.len(),
        ss.len() > 0,
        max >= 0,
    ensures
        pack_counts(ss, max, n).len() == pack(ss, max, n).0.len(),
        forall|k: int|
            0 <= k < pack_counts(ss, max, n).len() ==> (#[trigger] pack_counts(ss, max, n)[k]).0 <= max
                || pack_counts(ss, max, n)[k].0 == pack_counts(ss, max, n)[k].1,
        pack(ss, max, n).2 >= 0,
        pack(ss, max, n).2 <= max || (n > 0 && pack(ss, max, n).2 == ss[n - 1].0.len()),
    decreases n,
{
    if n > 0 {
        lemma_pack_counts(ss, max, n - 1);
        let prev = pack_counts(ss, max, n - 1);
        let (groups, cur_start, cur_len) = pack(ss, max, n - 1);
        let len = ss[n - 1].0.len() as int;
        if cur_len > 0 && cur_len + len > max {
            let p2 = prev.push((cur_len, ss[n - 2].0.len() as int));
            assert forall|k: int| 0 <= k < p2.len() implies (#[trigger] p2[k]).0 <= max || p2[k].0
                == p2[k].1 by {
                if k < prev.len() {
                    assert(p2[k] == prev[k]);
                }
            }
        }
    }
}

/// Greedy packing keeps each subtitle group within the character limit:
/// a group packs more than `max` characters only when its last sentence
/// alone accounts for all of them, so an over-long sentence stands alone
/// (beside empty ones at most).
pub proof fn law_groups_fit(ss: Seq<(Seq<char>, int, int)>, max: int)
    requires
        ss.len() > 0,
        max >= 0,
    ensures
        group_counts(ss, max).len() == packed(ss, max).len(),
        forall|k: int|
            0 <= k < group_counts(ss, max).len() ==> (#[trigger] group_counts(ss, max)[k]).0 <= max
                || group_counts(ss, max)[k].0 == group_counts(ss, max)[k].1,
{
    let n = ss.len() as int;
    lemma_pack_counts(ss, max, n);
    let pc = pack_counts(ss, max, n);
    let gc = group_counts(ss, max);
    assert(ss[n - 1] == ss.last());
    assert forall|k: int| 0 <= k < gc.len() implies (#[trigger] gc[k]).0 <= max || gc[k].0 == gc[k].1 by {
        if k < pc.len() {
            assert(gc[k] == pc[k]);
        }
    }
}

} // verus!
