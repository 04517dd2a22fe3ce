//! Automatic segmentation of a recording by its silences: runs of quiet
//! audio windows long enough become cut points at their middles, and
//! segments too short are merged into their neighbours.

use vstd::prelude::*;

verus! {

/// A detected segment, in milliseconds of the video.
pub struct DetectedSegment {
    pub start_ms: i64,
    pub end_ms: i64,
}

pub open spec fn seg_view(s: DetectedSegment) -> (int, int) {
    (s.start_ms as int, s.end_ms as int)
}

pub open spec fn segs_view(v: Seq<DetectedSegment>) -> Seq<(int, int)> {
    v.map_values(|s: DetectedSegment| seg_view(s))
}

/// The minimum silence (ms) that splits when none is configured.
pub fn default_min_silence() -> (r: i64)
    ensures
        r == 3000,
{
    3000
}

/// The minimum segment length (ms) when none is configured.
pub fn default_min_segment() -> (r: i64)
    ensures
        r == 10000,
{
    10000
}

/// Silent runs among the first `n` windows of `w` ms each: closed runs and
/// the start of the open one.
pub open spec fn silence_scan(quiet: Seq<bool>, w: int, n: int) -> (Seq<(int, int)>, Option<int>)
    decreases n,
{
    if n <= 0 {
        (Seq::empty(), None)
    } else {
        let (rs, open) = silence_scan(quiet, w, n - 1);
        let t = (n - 1) * w;
        if quiet[n - 1] {
            (rs, if open is Some { open } else { Some(t) })
        } else {
            match open {
                Some(s) => (rs.push((s, t)), None),
                None => (rs, None),
            }
        }
    }
}

/// The silent runs of the whole recording, a run reaching the end closed there.
pub open spec fn silences(quiet: Seq<bool>, w: int) -> Seq<(int, int)> {
    let (rs, open) = silence_scan(quiet, w, quiet.len() as int);
    match open {
        Some(s) => rs.push((s, quiet.len() * w)),
        None => rs,
    }
}

/// The runs lasting at least `min` ms.
pub open spec fn long_enough(rs: Seq<(int, int)>, min: int) -> Seq<(int, int)>
    decreases rs.len(),
{
    if rs.len() == 0 {
        rs
    } else if rs.last().1 - rs.last().0 >= min {
        long_enough(rs.drop_last(), min).push(rs.last())
    } else {
        long_enough(rs.drop_last(), min)
    }
}

/// Segments cut at the middle of each run: the cuts so far and where the
/// next segment starts.
pub open spec fn cut_scan(rs: Seq<(int, int)>) -> (Seq<(int, int)>, int)
    decreases rs.len(),
{
    if rs.len() == 0 {
        (Seq::empty(), 0)
    } else {
        let (segs, start) = cut_scan(rs.drop_last());
        let mid = (rs.last().0 + rs.last().1) / 2;
        (if mid > start { segs.push((start, mid)) } else { segs }, mid)
    }
}

pub open spec fn cuts(rs: Seq<(int, int)>, total: int) -> Seq<(int, int)> {
    let (segs, start) = cut_scan(rs);
    if start < total { segs.push((start, total)) } else { segs }
}

/// Merging: a segment shorter than `min`, or following one shorter than
/// `min`, extends the previous segment instead.
pub open spec fn merge_short(segs: Seq<(int, int)>, min: int) -> Seq<(int, int)>
    decreases segs.len(),
{
    if segs.len() == 0 {
        segs
    } else {
        let m = merge_short(segs.drop_last(), min);
        let s = segs.last();
        if m.len() > 0 && (s.1 - s.0 < min || m.last().1 - m.last().0 < min) {
            m.update(m.len() - 1, (m.last().0, s.1))
        } else {
            m.push(s)
        }
    }
}

/// The segments of a recording of `quiet.len()` windows of `w` ms: none
/// for an empty one, the whole recording when no silence is long enough,
/// else the cuts with short segments merged.
pub open spec fn segments_spec(quiet: Seq<bool>, w: int, min_silence: int, min_segment: int) -> Seq<
    (int, int),
> {
    let total = quiet.len() * w;
    if quiet.len() == 0 {
        Seq::empty()
    } else {
        let rs = long_enough(silences(quiet, w), min_silence);
        if rs.len() == 0 {
            seq![(0, total)]
        } else {
            merge_short(cuts(rs, total), min_segment)
        }
    }
}

proof fn lemma_scan_bounds(quiet: Seq<bool>, w: int, n: int)
    requires
        0 <= n <= quiet.len(),
        w >= 0,
    ensures
        forall|k: int|
            0 <= k < silence_scan(quiet, w, n).0.len() ==> 0 <= (#[trigger] silence_scan(quiet, w, n).0[k]).0
                <= silence_scan(quiet, w, n).0[k].1 <= n * w,
        silence_scan(quiet, w, n).1 matches Some(s) ==> 0 <= s <= n * w,
    decreases n,
{
    if n > 0 {
        lemma_scan_bounds(quiet, w, n - 1);
        assert((n - 1) * w <= n * w) by (nonlinear_arith)
            requires
                w >= 0,
        ;
        assert(0 <= (n - 1) * w) by (nonlinear_arith)
            requires
                w >= 0,
                n >= 1,
        ;
    }
}

proof fn lemma_long_subset(rs: Seq<(int, int)>, min: int, total: int)
    requires
        forall|k: int| 0 <= k < rs.len() ==> 0 <= (#[trigger] rs[k]).0 <= rs[k].1 <= total,
    ensures
        forall|k: int|
            0 <= k < long_enough(rs, min).len() ==> 0 <= (#[trigger] long_enough(rs, min)[k]).0
                <= long_enough(rs, min)[k].1 <= total,
    decreases rs.len(),
{
    if rs.len() > 0 {
        let d = rs.drop_last();
        assert forall|k: int| 0 <= k < d.len() implies 0 <= (#[trigger] d[k]).0 <= d[k].1 <= total by {
            assert(d[k] == rs[k]);
        }
        lemma_long_subset(d, min, total);
        let l = long_enough(d, min);
        if rs.last().1 - rs.last().0 >= min {
            assert forall|k: int| 0 <= k < l.push(rs.last()).len() implies 0 <= (#[trigger] l.push(
                rs.last(),
            )[k]).0 <= l.push(rs.last())[k].1 <= total by {
                if k < l.len() {
                    assert(l.push(rs.last())[k] == l[k]);
                }
            }
        }
    }
}

proof fn lemma_cut_bounds(rs: Seq<(int, int)>, total: int)
    requires
        0 <= total,
        forall|k: int| 0 <= k < rs.len() ==> 0 <= (#[trigger] rs[k]).0 <= rs[k].1 <= total,
    ensures
        0 <= cut_scan(rs).1 <= total,
        forall|k: int|
            0 <= k < cut_scan(rs).0.len() ==> 0 <= (#[trigger] cut_scan(rs).0[k]).0 <= total && 0
                <= cut_scan(rs).0[k].1 <= total,
    decreases rs.len(),
{
    if rs.len() > 0 {
        let d = rs.drop_last();
        assert forall|k: int| 0 <= k < d.len() implies 0 <= (#[trigger] d[k]).0 <= d[k].1 <= total by {
            assert(d[k] == rs[k]);
        }
        lemma_cut_bounds(d, total);
        let (segs, start) = cut_scan(d);
        let last = rs.last();
        assert(0 <= last.0 <= last.1 <= total);
        let mid = (last.0 + last.1) / 2;
        assert(0 <= mid <= total);
        if mid > start {
            assert forall|k: int| 0 <= k < segs.push((start, mid)).len() implies 0 <= (#[trigger] segs.push(
                (start, mid),
            )[k]).0 <= total && 0 <= segs.push((start, mid))[k].1 <= total by {
                if k < segs.len() {
                    assert(segs.push((start, mid))[k] == segs[k]);
                }
            }
        }
    }
}

proof fn lemma_merge_bounds(segs: Seq<(int, int)>, min: int, total: int)
    requires
        forall|k: int| 0 <= k < segs.len() ==> 0 <= (#[trigger] segs[k]).0 <= total && 0 <= segs[k].1 <= total,
    ensures
        forall|k: int|
            0 <= k < merge_short(segs, min).len() ==> 0 <= (#[trigger] merge_short(segs, min)[k]).0 <= total
                && 0 <= merge_short(segs, min)[k].1 <= total,
    decreases segs.len(),
{
    if segs.len() > 0 {
        let d = segs.drop_last();
        assert forall|k: int| 0 <= k < d.len() implies 0 <= (#[trigger] d[k]).0 <= total && 0 <= d[k].1
            <= total by {
            assert(d[k] == segs[k]);
        }
        lemma_merge_bounds(d, min, total);
        let m = merge_short(d, min);
        let s = segs.last();
        if m.len() > 0 && (s.1 - s.0 < min || m.last().1 - m.last().0 < min) {
            let u = m.update(m.len() - 1, (m.last().0, s.1));
            assert forall|k: int| 0 <= k < u.len() implies 0 <= (#[trigger] u[k]).0 <= total && 0 <= u[k].1
                <= total by {
                if k < m.len() - 1 {
                    assert(u[k] == m[k]);
                }
            }
        } else {
            assert forall|k: int| 0 <= k < m.push(s).len() implies 0 <= (#[trigger] m.push(s)[k]).0
                <= total && 0 <= m.push(s)[k].1 <= total by {
                if k < m.len() {
                    assert(m.push(s)[k] == m[k]);
                }
            }
        }
    }
}

/// Detects segments from which audio windows are quiet (below the silence
/// threshold), each window lasting `window_ms`.
pub fn detect_segments(quiet: &Vec<bool>, window_ms: u32, min_silence_ms: i64, min_segment_ms: i64) -> (r:
    Vec<DetectedSegment>)
    requires
        quiet.len() * window_ms <= i64::MAX,
    ensures
        segs_view(r@) == segments_spec(quiet@, window_ms as int, min_silence_ms as int, min_segment_ms as int),
{
    let n = quiet.len();
    if n == 0 {
        return Vec::new();
    }
    let w = window_ms as i64;
    let ghost wi = window_ms as int;
    assert(n * wi <= i64::MAX);
    let total: i64 = ((n as i128) * (w as i128)) as i64;
    // Silent runs.
    let mut regions: Vec<(i64, i64)> = Vec::new();
    let mut open: Option<i64> = None;
    let mut i: usize = 0;
    while i < n
        invariant
            i <= n == quiet.len(),
            n * wi <= i64::MAX,
            w == wi,
            wi >= 0,
            regions@.map_values(|p: (i64, i64)| (p.0 as int, p.1 as int)) == silence_scan(
                quiet@,
                wi,
                i as int,
            ).0,
            match open {
                Some(s) => silence_scan(quiet@, wi, i as int).1 == Some(s as int),
                None => silence_scan(quiet@, wi, i as int).1 is None,
            },
        decreases n - i,
    {
        assert(i * wi <= n * wi) by (nonlinear_arith)
            requires
                i <= n,
                wi >= 0,
        ;
        assert(0 <= i * wi) by (nonlinear_arith)
            requires
                wi >= 0,
        ;
        let t: i64 = ((i as i128) * (w as i128)) as i64;
        assert(t == i * wi);
        if quiet[i] {
            if open.is_none() {
                open = Some(t);
            }
        } else {
            match open {
                Some(s) => {
                    let ghost pre = regions@;
                    regions.push((s, t));
                    assert(regions@.map_values(|p: (i64, i64)| (p.0 as int, p.1 as int)) == pre.map_values(
                        |p: (i64, i64)| (p.0 as int, p.1 as int),
                    ).push((s as int, t as int)));
                    open = None;
                },
                None => {},
            }
        }
        i = i + 1;
    }
    match open {
        Some(s) => {
            let ghost pre = regions@;
            regions.push((s, total));
            assert(regions@.map_values(|p: (i64, i64)| (p.0 as int, p.1 as int)) == pre.map_values(
                |p: (i64, i64)| (p.0 as int, p.1 as int),
            ).push((s as int, total as int)));
        },
        None => {},
    }
    let ghost sil = silences(quiet@, wi);
    proof {
        lemma_scan_bounds(quiet@, wi, n as int);
        assert forall|k: int| 0 <= k < sil.len() implies 0 <= (#[trigger] sil[k]).0 <= sil[k].1 <= total by {
            let sc = silence_scan(quiet@, wi, n as int);
            if k < sc.0.len() {
                assert(sil[k] == sc.0[k]);
            }
        }
        lemma_long_subset(sil, min_silence_ms as int, total as int);
    }
    // Long runs only.
    let mut long: Vec<(i64, i64)> = Vec::new();
    let mut j: usize = 0;
    while j < regions.len()
        invariant
            j <= regions.len(),
            sil == regions@.map_values(|p: (i64, i64)| (p.0 as int, p.1 as int)),
            forall|k: int| 0 <= k < sil.len() ==> 0 <= (#[trigger] sil[k]).0 <= sil[k].1 <= total,
            long@.map_values(|p: (i64, i64)| (p.0 as int, p.1 as int)) == long_enough(
                sil.take(j as int),
                min_silence_ms as int,
            ),
        decreases regions.len() - j,
    {
        assert(sil.take(j + 1).drop_last() == sil.take(j as int));
        assert(sil[j as int] == (regions@[j as int].0 as int, regions@[j as int].1 as int));
        let (s, e) = regions[j];
        if e - s >= min_silence_ms {
            let ghost pre = long@;
            long.push((s, e));
            assert(long@.map_values(|p: (i64, i64)| (p.0 as int, p.1 as int)) == pre.map_values(
                |p: (i64, i64)| (p.0 as int, p.1 as int),
            ).push((s as int, e as int)));
        }
        j = j + 1;
    }
    assert(sil.take(regions.len() as int) == sil);
    let ghost lr = long_enough(sil, min_silence_ms as int);
    if long.len() == 0 {
        let mut r: Vec<DetectedSegment> = Vec::new();
        r.push(DetectedSegment { start_ms: 0, end_ms: total });
        assert(segs_view(r@) == seq![(0int, total as int)]);
        return r;
    }
    proof {
        lemma_cut_bounds(lr, total as int);
    }
    // Cut at the middles.
    let mut segs: Vec<DetectedSegment> = Vec::new();
    let mut seg_start: i64 = 0;
    let mut k: usize = 0;
    while k < long.len()
        invariant
            k <= long.len(),
            lr == long@.map_values(|p: (i64, i64)| (p.0 as int, p.1 as int)),
            forall|q: int| 0 <= q < lr.len() ==> 0 <= (#[trigger] lr[q]).0 <= lr[q].1 <= total,
            (segs_view(segs@), seg_start as int) == cut_scan(lr.take(k as int)),
        decreases long.len() - k,
    {
        assert(lr.take(k + 1).drop_last() == lr.take(k as int));
        assert(lr[k as int] == (long@[k as int].0 as int, long@[k as int].1 as int));
        let (s, e) = long[k];
        let mid: i64 = ((s as i128 + e as i128) / 2) as i64;
        if mid > seg_start {
            let ghost pre = segs_view(segs@);
            segs.push(DetectedSegment { start_ms: seg_start, end_ms: mid });
            assert(segs_view(segs@) == pre.push((seg_start as int, mid as int)));
        }
        seg_start = mid;
        k = k + 1;
    }
    assert(lr.take(long.len() as int) == lr);
    if seg_start < total {
        let ghost pre = segs_view(segs@);
        segs.push(DetectedSegment { start_ms: seg_start, end_ms: total });
        assert(segs_view(segs@) == pre.push((seg_start as int, total as int)));
    }
    let ghost cs = cuts(lr, total as int);
    assert(segs_view(segs@) == cs);
    proof {
        assert forall|q: int| 0 <= q < cs.len() implies 0 <= (#[trigger] cs[q]).0 <= total && 0 <= cs[q].1
            <= total by {
            let sc = cut_scan(lr);
            if q < sc.0.len() {
                assert(cs[q] == sc.0[q]);
            }
        }
    }
    // Merge short segments.
    let mut merged: Vec<DetectedSegment> = Vec::new();
    let mut m: usize = 0;
    while m < segs.len()
        invariant
            m <= segs.len(),
            cs == segs_view(segs@),
            forall|q: int| 0 <= q < cs.len() ==> 0 <= (#[trigger] cs[q]).0 <= total && 0 <= cs[q].1 <= total,
            segs_view(merged@) == merge_short(cs.take(m as int), min_segment_ms as int),
        decreases segs.len() - m,
    {
        proof {
            assert(cs.take(m + 1).drop_last() == cs.take(m as int));
            lemma_merge_bounds(cs.take(m as int), min_segment_ms as int, total as int);
        }
        let s = segs[m].start_ms;
        let e = segs[m].end_ms;
        assert(cs[m as int] == (s as int, e as int));
        let ghost pre = segs_view(merged@);
        let ln = merged.len();
        if ln > 0 {
            let ls = merged[ln - 1].start_ms;
            let le = merged[ln - 1].end_ms;
            assert(pre[ln - 1] == (ls as int, le as int));
            if e - s < min_segment_ms || le - ls < min_segment_ms {
                merged.set(ln - 1, DetectedSegment { start_ms: ls, end_ms: e });
                assert(segs_view(merged@) == pre.update(ln - 1, (ls as int, e as int)));
            } else {
                merged.push(DetectedSegment { start_ms: s, end_ms: e });
                assert(segs_view(merged@) == pre.push((s as int, e as int)));
            }
        } else {
            merged.push(DetectedSegment { start_ms: s, end_ms: e });
            assert(segs_view(merged@) == pre.push((s as int, e as int)));
        }
        m = m + 1;
    }
    assert(cs.take(segs.len() as int) == cs);
    merged
}


/// Runs in order: each starts no later than it ends, and ends no later than
/// any later run starts.
pub open spec fn ordered_runs(rs: Seq<(int, int)>) -> bool {
    &&& forall|k: int| 0 <= k < rs.len() ==> (#[trigger] rs[k]).0 <= rs[k].1
    &&& forall|i: int, j: int| 0 <= i < j < rs.len() ==> (#[trigger] rs[i]).1 <= (#[trigger] rs[j]).0
}

/// Consecutive non-empty segments, each starting where the one before ends.
pub open spec fn chained(segs: Seq<(int, int)>) -> bool {
    &&& forall|k: int| 0 <= k < segs.len() ==> (#[trigger] segs[k]).0 < segs[k].1
    &&& forall|k: int| 0 <= k < segs.len() - 1 ==> (#[trigger] segs[k]).1 == segs[k + 1].0
}

/// Segments that cover `0..total` exactly, without gaps or overlaps.
pub open spec fn tiles(segs: Seq<(int, int)>, total: int) -> bool {
    &&& segs.len() > 0
    &&& segs[0].0 == 0
    &&& segs.last().1 == total
    &&& chained(segs)
}

proof fn lemma_scan_ordered(quiet: Seq<bool>, w: int, n: int)
    requires
        0 <= n <= quiet.len(),
        w >= 0,
    ensures
        ordered_runs(silence_scan(quiet, w, n).0),
        n == 0 ==> silence_scan(quiet, w, n).0.len() == 0 && silence_scan(quiet, w, n).1 is None,
        n > 0 ==> forall|k: int|
            0 <= k < silence_scan(quiet, w, n).0.len() ==> (#[trigger] silence_scan(quiet, w, n).0[k]).1
                <= (n - 1) * w,
        silence_scan(quiet, w, n).1 matches Some(s) ==> {
            &&& n > 0
            &&& s <= (n - 1) * w
            &&& forall|k: int|
                0 <= k < silence_scan(quiet, w, n).0.len() ==> (#[trigger] silence_scan(quiet, w, n).0[k]).1
                    <= s
        },
    decreases n,
{
    if n > 0 {
        lemma_scan_ordered(quiet, w, n - 1);
        let (rs, open) = silence_scan(quiet, w, n - 1);
        let t = (n - 1) * w;
        if n > 1 {
            assert((n - 2) * w <= (n - 1) * w) by (nonlinear_arith)
                requires
                    w >= 0,
            ;
        }
        if !quiet[n - 1] {
            if let Some(st) = open {
                let r2 = rs.push((st, t));
                assert forall|i: int, j: int| 0 <= i < j < r2.len() implies (#[trigger] r2[i]).1 <= (
                #[trigger] r2[j]).0 by {
                    if j < rs.len() {
                        assert(r2[i] == rs[i] && r2[j] == rs[j]);
                    } else {
                        assert(r2[i] == rs[i]);
                    }
                }
                assert forall|k: int| 0 <= k < r2.len() implies (#[trigger] r2[k]).0 <= r2[k].1 by {
                    if k < rs.len() {
                        assert(r2[k] == rs[k]);
                    }
                }
                assert forall|k: int| 0 <= k < r2.len() implies (#[trigger] r2[k]).1 <= (n - 1) * w by {
                    if k < rs.len() {
                        assert(r2[k] == rs[k]);
                    }
                }
            }
        }
    }
}

proof fn lemma_silences_ordered(quiet: Seq<bool>, w: int)
    requires
        w >= 0,
    ensures
        ordered_runs(silences(quiet, w)),
{
    let n = quiet.len() as int;
    lemma_scan_ordered(quiet, w, n);
    let (rs, open) = silence_scan(quiet, w, n);
    if let Some(st) = open {
        assert((n - 1) * w <= n * w) by (nonlinear_arith)
            requires
                w >= 0,
        ;
        let r2 = rs.push((st, n * w));
        assert forall|i: int, j: int| 0 <= i < j < r2.len() implies (#[trigger] r2[i]).1 <= (
        #[trigger] r2[j]).0 by {
            if j < rs.len() {
                assert(r2[i] == rs[i] && r2[j] == rs[j]);
            } else {
                assert(r2[i] == rs[i]);
            }
        }
        assert forall|k: int| 0 <= k < r2.len() implies (#[trigger] r2[k]).0 <= r2[k].1 by {
            if k < rs.len() {
                assert(r2[k] == rs[k]);
            }
        }
    }
}

proof fn lemma_long_ordered(rs: Seq<(int, int)>, min: int)
    requires
        ordered_runs(rs),
    ensures
        ordered_runs(long_enough(rs, min)),
        forall|k: int| 0 <= k < long_enough(rs, min).len() ==> rs.contains(#[trigger] long_enough(rs, min)[k]),
    decreases rs.len(),
{
    if rs.len() > 0 {
        let d = rs.drop_last();
        assert(ordered_runs(d)) by {
            assert forall|i: int, j: int| 0 <= i < j < d.len() implies (#[trigger] d[i]).1 <= (
            #[trigger] d[j]).0 by {
                assert(d[i] == rs[i] && d[j] == rs[j]);
            }
            assert forall|k: int| 0 <= k < d.len() implies (#[trigger] d[k]).0 <= d[k].1 by {
                assert(d[k] == rs[k]);
            }
        }
        lemma_long_ordered(d, min);
        let l = long_enough(d, min);
        assert forall|k: int| 0 <= k < l.len() implies rs.contains(#[trigger] l[k]) by {
            let j = choose|j: int| 0 <= j < d.len() && d[j] == l[k];
            assert(rs[j] == l[k]);
        }
        if rs.last().1 - rs.last().0 >= min {
            let l2 = l.push(rs.last());
            assert(rs.contains(rs.last())) by {
                assert(rs[rs.len() - 1] == rs.last());
            }
            assert forall|k: int| 0 <= k < l2.len() implies rs.contains(#[trigger] l2[k]) by {
                if k < l.len() {
                    assert(l2[k] == l[k]);
                }
            }
            assert forall|i: int, j: int| 0 <= i < j < l2.len() implies (#[trigger] l2[i]).1 <= (
            #[trigger] l2[j]).0 by {
                if j < l.len() {
                    assert(l2[i] == l[i] && l2[j] == l[j]);
                } else {
                    assert(l2[i] == l[i]);
                    let a = choose|a: int| 0 <= a < d.len() && d[a] == l[i];
                    assert(rs[a] == l[i]);
                    assert(rs[a].1 <= rs[rs.len() - 1].0);
                }
            }
            assert forall|k: int| 0 <= k < l2.len() implies (#[trigger] l2[k]).0 <= l2[k].1 by {
                if k < l.len() {
                    assert(l2[k] == l[k]);
                } else {
                    assert(rs[rs.len() - 1] == l2[k]);
                }
            }
        }
    }
}

proof fn lemma_cut_chain(rs: Seq<(int, int)>)
    requires
        ordered_runs(rs),
        forall|k: int| 0 <= k < rs.len() ==> 0 <= (#[trigger] rs[k]).0,
    ensures
        chained(cut_scan(rs).0),
        cut_scan(rs).1 >= 0,
        cut_scan(rs).0.len() > 0 ==> cut_scan(rs).0[0].0 == 0 && cut_scan(rs).0.last().1 == cut_scan(
            rs,
        ).1,
        cut_scan(rs).0.len() == 0 ==> cut_scan(rs).1 == 0,
        rs.len() > 0 ==> cut_scan(rs).1 <= rs.last().1,
    decreases rs.len(),
{
    if rs.len() > 0 {
        let d = rs.drop_last();
        assert(ordered_runs(d)) by {
            assert forall|i: int, j: int| 0 <= i < j < d.len() implies (#[trigger] d[i]).1 <= (
            #[trigger] d[j]).0 by {
                assert(d[i] == rs[i] && d[j] == rs[j]);
            }
            assert forall|k: int| 0 <= k < d.len() implies (#[trigger] d[k]).0 <= d[k].1 by {
                assert(d[k] == rs[k]);
            }
        }
        assert forall|k: int| 0 <= k < d.len() implies 0 <= (#[trigger] d[k]).0 by {
            assert(d[k] == rs[k]);
        }
        lemma_cut_chain(d);
        let (segs, start) = cut_scan(d);
        let last = rs.last();
        assert(last == rs[rs.len() - 1]);
        assert(0 <= last.0 <= last.1);
        let mid = (last.0 + last.1) / 2;
        assert(last.0 <= mid <= last.1);
        if d.len() > 0 {
            assert(d.last() == rs[d.len() - 1]);
            assert(rs[d.len() - 1].1 <= rs[rs.len() - 1].0);
        }
        assert(start <= mid);
        if mid > start {
            let s2 = segs.push((start, mid));
            assert forall|k: int| 0 <= k < s2.len() implies (#[trigger] s2[k]).0 < s2[k].1 by {
                if k < segs.len() {
                    assert(s2[k] == segs[k]);
                }
            }
            assert forall|k: int| 0 <= k < s2.len() - 1 implies (#[trigger] s2[k]).1 == s2[k + 1].0 by {
                if k < segs.len() - 1 {
                    assert(s2[k] == segs[k] && s2[k + 1] == segs[k + 1]);
                } else {
                    assert(s2[k] == segs.last());
                }
            }
        }
    }
}

proof fn lemma_merge_chain(segs: Seq<(int, int)>, min: int)
    requires
        segs.len() > 0,
        chained(segs),
    ensures
        merge_short(segs, min).len() > 0,
        chained(merge_short(segs, min)),
        merge_short(segs, min)[0].0 == segs[0].0,
        merge_short(segs, min).last().1 == segs.last().1,
    decreases segs.len(),
{
    let d = segs.drop_last();
    let s = segs.last();
    assert(s == segs[segs.len() - 1]);
    if d.len() == 0 {
        assert(merge_short(d, min).len() == 0);
        assert(merge_short(segs, min) == seq![s]);
    } else {
        assert(chained(d)) by {
            assert forall|k: int| 0 <= k < d.len() implies (#[trigger] d[k]).0 < d[k].1 by {
                assert(d[k] == segs[k]);
            }
            assert forall|k: int| 0 <= k < d.len() - 1 implies (#[trigger] d[k]).1 == d[k + 1].0 by {
                assert(d[k] == segs[k] && d[k + 1] == segs[k + 1]);
            }
        }
        lemma_merge_chain(d, min);
        let m = merge_short(d, min);
        assert(d.last() == segs[segs.len() - 2]);
        assert(m.last().1 == s.0);
        if m.len() > 0 && (s.1 - s.0 < min || m.last().1 - m.last().0 < min) {
            let u = m.update(m.len() - 1, (m.last().0, s.1));
            assert forall|k: int| 0 <= k < u.len() implies (#[trigger] u[k]).0 < u[k].1 by {
                if k < m.len() - 1 {
                    assert(u[k] == m[k]);
                } else {
                    assert(m[m.len() - 1] == m.last());
                }
            }
            assert forall|k: int| 0 <= k < u.len() - 1 implies (#[trigger] u[k]).1 == u[k + 1].0 by {
                assert(u[k] == m[k]);
                if k + 1 < m.len() - 1 {
                    assert(u[k + 1] == m[k + 1]);
                } else {
                    assert(m[m.len() - 1] == m.last());
                }
            }
            if m.len() == 1 {
                assert(u[0].0 == m[0].0);
            } else {
                assert(u[0] == m[0]);
            }
        } else {
            let p = m.push(s);
            assert forall|k: int| 0 <= k < p.len() implies (#[trigger] p[k]).0 < p[k].1 by {
                if k < m.len() {
                    assert(p[k] == m[k]);
                }
            }
            assert forall|k: int| 0 <= k < p.len() - 1 implies (#[trigger] p[k]).1 == p[k + 1].0 by {
                assert(p[k] == m[k]);
                if k + 1 < m.len() {
                    assert(p[k + 1] == m[k + 1]);
                } else {
                    assert(m[m.len() - 1] == m.last());
                }
            }
            assert(p[0] == m[0]);
        }
    }
}

/// The cut segments before merging, when some silence is long enough:
/// non-empty, chained, from 0 to the end of the recording.
proof fn lemma_cuts_chained(quiet: Seq<bool>, w: int, min_silence: int)
    requires
        quiet.len() > 0,
        w > 0,
        long_enough(silences(quiet, w), min_silence).len() > 0,
    ensures
        cuts(long_enough(silences(quiet, w), min_silence), quiet.len() * w).len() > 0,
        chained(cuts(long_enough(silences(quiet, w), min_silence), quiet.len() * w)),
        cuts(long_enough(silences(quiet, w), min_silence), quiet.len() * w)[0].0 == 0,
        cuts(long_enough(silences(quiet, w), min_silence), quiet.len() * w).last().1 == quiet.len() * w,
{
    let total = quiet.len() * w;
    assert(total > 0) by (nonlinear_arith)
        requires
            quiet.len() > 0,
            w > 0,
            total == quiet.len() * w,
    ;
    let all = silences(quiet, w);
    let rs = long_enough(all, min_silence);
    lemma_silences_ordered(quiet, w);
    lemma_long_ordered(all, min_silence);
    let n = quiet.len() as int;
    lemma_scan_bounds(quiet, w, n);
    let (r0, open) = silence_scan(quiet, w, n);
    assert forall|k: int| 0 <= k < all.len() implies 0 <= (#[trigger] all[k]).0 <= all[k].1 <= total by {
        if k < r0.len() {
            assert(all[k] == r0[k]);
        }
    }
    lemma_long_subset(all, min_silence, total);
    lemma_cut_chain(rs);
    lemma_cut_bounds(rs, total);
    let (segs, start) = cut_scan(rs);
    let c = cuts(rs, total);
    if start < total {
        let c2 = segs.push((start, total));
        assert(c == c2);
        assert forall|k: int| 0 <= k < c2.len() implies (#[trigger] c2[k]).0 < c2[k].1 by {
            if k < segs.len() {
                assert(c2[k] == segs[k]);
            }
        }
        assert forall|k: int| 0 <= k < c2.len() - 1 implies (#[trigger] c2[k]).1 == c2[k + 1].0 by {
            if k < segs.len() - 1 {
                assert(c2[k] == segs[k] && c2[k + 1] == segs[k + 1]);
            } else {
                assert(c2[k] == segs.last());
            }
        }
        if segs.len() > 0 {
            assert(c2[0] == segs[0]);
        }
    } else {
        assert(c == segs);
        assert(segs.len() > 0);
    }
}

/// The detected segments of a non-empty recording cover it from start to
/// end without gaps or overlaps, every segment non-empty, however the
/// silences fall and whatever the thresholds.
pub proof fn law_segments_tile(quiet: Seq<bool>, w: int, min_silence: int, min_segment: int)
    requires
        quiet.len() > 0,
        w > 0,
    ensures
        tiles(segments_spec(quiet, w, min_silence, min_segment), quiet.len() * w),
{
    let total = quiet.len() * w;
    assert(total > 0) by (nonlinear_arith)
        requires
            quiet.len() > 0,
            w > 0,
            total == quiet.len() * w,
    ;
    let rs = long_enough(silences(quiet, w), min_silence);
    if rs.len() == 0 {
        let one = seq![(0int, total)];
        assert(one[0].0 == 0 && one.last().1 == total);
    } else {
        lemma_cuts_chained(quiet, w, min_silence);
        lemma_merge_chain(cuts(rs, total), min_segment);
    }
}

/// Merging leaves no short segment behind when more than one remains:
/// every segment but the last lasts at least `min`, and when two or more
/// remain the last does too. Only a lone segment may be shorter.
proof fn lemma_merge_long(segs: Seq<(int, int)>, min: int)
    requires
        segs.len() > 0,
        chained(segs),
    ensures
        merge_short(segs, min).len() >= 2 ==> forall|k: int|
            0 <= k < merge_short(segs, min).len() ==> (#[trigger] merge_short(segs, min)[k]).1
                - merge_short(segs, min)[k].0 >= min,
    decreases segs.len(),
{
    let d = segs.drop_last();
    let s = segs.last();
    assert(s == segs[segs.len() - 1]);
    assert(s.0 < s.1);
    if d.len() == 0 {
        assert(merge_short(d, min).len() == 0);
        assert(merge_short(segs, min) == seq![s]);
    } else {
        assert(chained(d)) by {
            assert forall|k: int| 0 <= k < d.len() implies (#[trigger] d[k]).0 < d[k].1 by {
                assert(d[k] == segs[k]);
            }
            assert forall|k: int| 0 <= k < d.len() - 1 implies (#[trigger] d[k]).1 == d[k + 1].0 by {
                assert(d[k] == segs[k] && d[k + 1] == segs[k + 1]);
            }
        }
        lemma_merge_long(d, min);
        lemma_merge_chain(d, min);
        let m = merge_short(d, min);
        assert(d.last() == segs[segs.len() - 2]);
        assert(m.last().1 == s.0);
        assert(m[m.len() - 1] == m.last());
        if m.len() > 0 && (s.1 - s.0 < min || m.last().1 - m.last().0 < min) {
            let u = m.update(m.len() - 1, (m.last().0, s.1));
            assert(merge_short(segs, min) == u);
            if u.len() >= 2 {
                assert forall|k: int| 0 <= k < u.len() implies (#[trigger] u[k]).1 - u[k].0 >= min by {
                    if k < m.len() - 1 {
                        assert(u[k] == m[k]);
                    }
                }
            }
        } else {
            let p = m.push(s);
            assert(merge_short(segs, min) == p);
            assert forall|k: int| 0 <= k < p.len() implies (#[trigger] p[k]).1 - p[k].0 >= min by {
                if k < m.len() {
                    assert(p[k] == m[k]);
                }
            }
        }
    }
}

/// Short segments are merged away: whenever a recording comes out as two
/// or more segments, each of them, the first included, lasts at least
/// `min_segment` ms.
pub proof fn law_segments_at_least_minimum(quiet: Seq<bool>, w: int, min_silence: int, min_segment: int)
    requires
        quiet.len() > 0,
        w > 0,
    ensures
        segments_spec(quiet, w, min_silence, min_segment).len() >= 2 ==> forall|k: int|
            0 <= k < segments_spec(quiet, w, min_silence, min_segment).len() ==> (#[trigger] segments_spec(
                quiet,
                w,
                min_silence,
                min_segment,
            )[k]).1 - segments_spec(quiet, w, min_silence, min_segment)[k].0 >= min_segment,
{
    law_segments_tile(quiet, w, min_silence, min_segment);
    let rs = long_enough(silences(quiet, w), min_silence);
    if rs.len() > 0 {
        let total = quiet.len() * w;
        let c = cuts(rs, total);
        // The cuts are chained and non-empty (shown inside the tiling law).
        lemma_cuts_chained(quiet, w, min_silence);
        lemma_merge_long(c, min_segment);
    }
}


/// Windows `lo..hi` are all quiet.
pub open spec fn quiet_windows(quiet: Seq<bool>, lo: int, hi: int) -> bool {
    forall|i: int| lo <= i < hi ==> #[trigger] quiet[i]
}

/// `r` is the time span `lo*w .. hi*w` of a stretch of quiet windows.
pub open spec fn quiet_span(quiet: Seq<bool>, w: int, r: (int, int)) -> bool {
    exists|lo: int, hi: int|
        #[trigger] quiet_windows(quiet, lo, hi) && 0 <= lo < hi <= quiet.len() && r.0 == lo * w && r.1 == hi
            * w
}

proof fn lemma_scan_quiet(quiet: Seq<bool>, w: int, n: int)
    requires
        0 <= n <= quiet.len(),
    ensures
        forall|k: int|
            0 <= k < silence_scan(quiet, w, n).0.len() ==> quiet_span(quiet, w, #[trigger] silence_scan(quiet, w, n).0[k]),
        silence_scan(quiet, w, n).1 matches Some(s) ==> exists|lo: int|
            #[trigger] quiet_windows(quiet, lo, n) && 0 <= lo < n && s == lo * w,
    decreases n,
{
    if n > 0 {
        lemma_scan_quiet(quiet, w, n - 1);
        let (rs, open) = silence_scan(quiet, w, n - 1);
        let t = (n - 1) * w;
        if quiet[n - 1] {
            match open {
                Some(st) => {
                    let lo = choose|lo: int| #[trigger] quiet_windows(quiet, lo, n - 1) && 0 <= lo < n - 1 && st == lo * w;
                    assert(quiet_windows(quiet, lo, n));
                },
                None => {
                    assert(quiet_windows(quiet, n - 1, n));
                },
            }
        } else {
            match open {
                Some(st) => {
                    let lo = choose|lo: int| #[trigger] quiet_windows(quiet, lo, n - 1) && 0 <= lo < n - 1 && st == lo * w;
                    let r2 = rs.push((st, t));
                    assert(quiet_span(quiet, w, (st, t)));
                    assert forall|k: int| 0 <= k < r2.len() implies quiet_span(quiet, w, #[trigger] r2[k]) by {
                        if k < rs.len() {
                            assert(r2[k] == rs[k]);
                        }
                    }
                },
                None => {},
            }
        }
    }
}

proof fn lemma_silences_quiet(quiet: Seq<bool>, w: int)
    ensures
        forall|k: int| 0 <= k < silences(quiet, w).len() ==> quiet_span(quiet, w, #[trigger] silences(quiet, w)[k]),
{
    let n = quiet.len() as int;
    lemma_scan_quiet(quiet, w, n);
    let (rs, open) = silence_scan(quiet, w, n);
    if let Some(st) = open {
        let lo = choose|lo: int| #[trigger] quiet_windows(quiet, lo, n) && 0 <= lo < n && st == lo * w;
        let r2 = rs.push((st, n * w));
        assert(quiet_span(quiet, w, (st, n * w)));
        assert forall|k: int| 0 <= k < r2.len() implies quiet_span(quiet, w, #[trigger] r2[k]) by {
            if k < rs.len() {
                assert(r2[k] == rs[k]);
            }
        }
    }
}

proof fn lemma_long_from(rs: Seq<(int, int)>, min: int)
    ensures
        forall|k: int|
            0 <= k < long_enough(rs, min).len() ==> rs.contains(#[trigger] long_enough(rs, min)[k])
                && long_enough(rs, min)[k].1 - long_enough(rs, min)[k].0 >= min,
    decreases rs.len(),
{
    if rs.len() > 0 {
        let d = rs.drop_last();
        lemma_long_from(d, min);
        let l = long_enough(d, min);
        assert forall|k: int| 0 <= k < l.len() implies rs.contains(#[trigger] l[k]) by {
            let j = choose|j: int| 0 <= j < d.len() && d[j] == l[k];
            assert(rs[j] == l[k]);
        }
        if rs.last().1 - rs.last().0 >= min {
            let l2 = l.push(rs.last());
            assert(rs[rs.len() - 1] == rs.last());
            assert forall|k: int| 0 <= k < l2.len() implies rs.contains(#[trigger] l2[k]) && l2[k].1 - l2[k].0
                >= min by {
                if k < l.len() {
                    assert(l2[k] == l[k]);
                }
            }
        }
    }
}

/// Every segment the cutter makes ends at the middle of a run.
proof fn lemma_cut_mids(rs: Seq<(int, int)>)
    ensures
        forall|k: int|
            0 <= k < cut_scan(rs).0.len() ==> exists|j: int|
                0 <= j < rs.len() && (#[trigger] cut_scan(rs).0[k]).1 == (rs[j].0 + rs[j].1) / 2,
    decreases rs.len(),
{
    if rs.len() > 0 {
        let d = rs.drop_last();
        lemma_cut_mids(d);
        let (segs, start) = cut_scan(d);
        let mid = (rs.last().0 + rs.last().1) / 2;
        assert(rs[rs.len() - 1] == rs.last());
        let c = cut_scan(rs).0;
        assert forall|k: int| 0 <= k < c.len() implies exists|j: int|
            0 <= j < rs.len() && (#[trigger] c[k]).1 == (rs[j].0 + rs[j].1) / 2 by {
            if k < segs.len() {
                assert(c[k] == segs[k]);
                let j = choose|j: int| 0 <= j < d.len() && (#[trigger] segs[k]).1 == (d[j].0 + d[j].1) / 2;
                assert(rs[j] == d[j]);
            } else {
                assert(c[k].1 == mid);
            }
        }
    }
}

/// Merging only removes boundaries: every boundary between merged segments
/// is a boundary between the segments before merging.
proof fn lemma_merge_boundaries(segs: Seq<(int, int)>, min: int)
    requires
        segs.len() > 0,
        chained(segs),
    ensures
        forall|k: int|
            0 <= k < merge_short(segs, min).len() - 1 ==> exists|j: int|
                0 <= j < segs.len() - 1 && (#[trigger] merge_short(segs, min)[k]).1 == segs[j].1,
    decreases segs.len(),
{
    let d = segs.drop_last();
    let s = segs.last();
    if d.len() == 0 {
        assert(merge_short(d, min).len() == 0);
        assert(merge_short(segs, min) == seq![s]);
    } else {
        assert(chained(d)) by {
            assert forall|k: int| 0 <= k < d.len() implies (#[trigger] d[k]).0 < d[k].1 by {
                assert(d[k] == segs[k]);
            }
            assert forall|k: int| 0 <= k < d.len() - 1 implies (#[trigger] d[k]).1 == d[k + 1].0 by {
                assert(d[k] == segs[k] && d[k + 1] == segs[k + 1]);
            }
        }
        lemma_merge_boundaries(d, min);
        lemma_merge_chain(d, min);
        let m = merge_short(d, min);
        assert(d.last() == segs[segs.len() - 2]);
        assert(m[m.len() - 1] == m.last());
        let r = merge_short(segs, min);
        assert forall|k: int| 0 <= k < r.len() - 1 implies exists|j: int|
            0 <= j < segs.len() - 1 && (#[trigger] r[k]).1 == segs[j].1 by {
            if k < m.len() - 1 {
                assert(r[k] == m[k]);
                let j = choose|j: int| 0 <= j < d.len() - 1 && (#[trigger] m[k]).1 == d[j].1;
                assert(segs[j] == d[j]);
            } else {
                assert(r[k] == m.last());
                assert(m.last().1 == segs[segs.len() - 2].1);
            }
        }
    }
}

/// Segments are cut only in silence: every boundary between two segments
/// lies at the middle of a stretch of quiet windows lasting at least
/// `min_silence` ms.
pub proof fn law_segments_cut_in_silence(quiet: Seq<bool>, w: int, min_silence: int, min_segment: int)
    requires
        quiet.len() > 0,
        w > 0,
    ensures
        forall|k: int|
            0 <= k < segments_spec(quiet, w, min_silence, min_segment).len() - 1 ==> exists|lo: int, hi: int|
                #[trigger] quiet_windows(quiet, lo, hi) && 0 <= lo < hi <= quiet.len() && hi * w - lo * w
                    >= min_silence && (#[trigger] segments_spec(quiet, w, min_silence, min_segment)[k]).1 == (
                lo * w + hi * w) / 2,
{
    let total = quiet.len() * w;
    let all = silences(quiet, w);
    let rs = long_enough(all, min_silence);
    let r = segments_spec(quiet, w, min_silence, min_segment);
    if rs.len() > 0 {
        lemma_cuts_chained(quiet, w, min_silence);
        let c = cuts(rs, total);
        lemma_merge_boundaries(c, min_segment);
        lemma_cut_mids(rs);
        lemma_long_from(all, min_silence);
        lemma_silences_quiet(quiet, w);
        let (segs, start) = cut_scan(rs);
        assert forall|k: int| 0 <= k < r.len() - 1 implies exists|lo: int, hi: int|
            #[trigger] quiet_windows(quiet, lo, hi) && 0 <= lo < hi <= quiet.len() && hi * w - lo * w >= min_silence
                && (#[trigger] r[k]).1 == (lo * w + hi * w) / 2 by {
            let j = choose|j: int| 0 <= j < c.len() - 1 && (#[trigger] r[k]).1 == c[j].1;
            if start < total {
                assert(c == segs.push((start, total)));
                assert(c[j] == segs[j]);
            } else {
                assert(c == segs);
            }
            let i = choose|i: int| 0 <= i < rs.len() && (#[trigger] segs[j]).1 == (rs[i].0 + rs[i].1) / 2;
            assert(rs[i] == rs[i]);
            assert(all.contains(rs[i]) && rs[i].1 - rs[i].0 >= min_silence);
            let a = choose|a: int| 0 <= a < all.len() && all[a] == rs[i];
            assert(quiet_span(quiet, w, all[a]));
            let (lo, hi) = choose|lo: int, hi: int|
                #[trigger] quiet_windows(quiet, lo, hi) && 0 <= lo < hi <= quiet.len() && all[a].0 == lo * w
                    && all[a].1 == hi * w;
            assert(quiet_windows(quiet, lo, hi));
        }
    }
}

} // verus!
