//! The background task queue: which tasks are active and cancelled, the
//! limit on how many run at once, and how a task's end is reported.

use vstd::prelude::*;

verus! {

/// The state of a background task.
#[derive(PartialEq, Eq, Structural, Clone, Copy, Debug)]
pub enum TaskStatus {
    Pending,
    Processing,
    Completed,
    Failed,
    Cancelled,
}

/// The error text a task returns when it was cancelled.
pub open spec fn cancelled_msg() -> Seq<char> {
    "Task cancelled"@
}

/// The final status and message of a finished task: success completes;
/// the cancellation error cancels; any other error fails with its text.
pub open spec fn outcome_spec(r: Result<(), String>) -> (TaskStatus, Seq<char>) {
    match r {
        Ok(()) => (TaskStatus::Completed, "完成"@),
        Err(e) => if e@ == cancelled_msg() {
            (TaskStatus::Cancelled, "已取消"@)
        } else {
            (TaskStatus::Failed, e@)
        },
    }
}

/// Reports how a task ended.
pub fn final_outcome(result: &Result<(), String>) -> (r: (TaskStatus, String))
    ensures
        (r.0, r.1@) == outcome_spec(*result),
{
    match result {
        Ok(()) => (TaskStatus::Completed, "完成".to_owned()),
        Err(e) => if crate::text::str_eq(e.as_str(), "Task cancelled") {
            (TaskStatus::Cancelled, "已取消".to_owned())
        } else {
            (TaskStatus::Failed, e.clone())
        },
    }
}


/// The task whose token `id` maps to in `e`, the latest entry winning.
pub open spec fn lookup(e: Seq<(i64, usize)>, id: i64) -> Option<usize>
    decreases e.len(),
{
    if e.len() == 0 {
        None
    } else if e.last().0 == id {
        Some(e.last().1)
    } else {
        lookup(e.drop_last(), id)
    }
}

/// `e` without the entries of `id`, order kept.
pub open spec fn without_id(e: Seq<(i64, usize)>, id: i64) -> Seq<(i64, usize)>
    decreases e.len(),
{
    if e.len() == 0 {
        e
    } else {
        without_id(e.drop_last(), id) + if e.last().0 == id {
            Seq::empty()
        } else {
            seq![e.last()]
        }
    }
}

/// The tokens of the active tasks as a map from task id to token.
pub open spec fn token_map(e: Seq<(i64, usize)>) -> Map<i64, usize> {
    Map::new(|id: i64| lookup(e, id) is Some, |id: i64| lookup(e, id).unwrap())
}

proof fn lemma_lookup_without(e: Seq<(i64, usize)>, id: i64, x: i64)
    ensures
        lookup(without_id(e, id), x) == if x == id {
            None
        } else {
            lookup(e, x)
        },
    decreases e.len(),
{
    if e.len() > 0 {
        lemma_lookup_without(e.drop_last(), id, x);
        let w0 = without_id(e.drop_last(), id);
        if e.last().0 != id {
            assert(without_id(e, id) == w0.push(e.last()));
            assert(without_id(e, id).drop_last() == w0);
        } else {
            assert(without_id(e, id) == w0);
        }
    }
}

proof fn lemma_lookup_bound(e: Seq<(i64, usize)>, id: i64, n: nat)
    requires
        forall|k: int| 0 <= k < e.len() ==> (#[trigger] e[k]).1 < n,
    ensures
        lookup(e, id) matches Some(t) ==> t < n,
    decreases e.len(),
{
    if e.len() > 0 {
        assert(e.last() == e[e.len() - 1]);
        lemma_lookup_bound(e.drop_last(), id, n);
    }
}

/// No task id has two entries.
pub open spec fn unique_ids(e: Seq<(i64, usize)>) -> bool {
    forall|i: int, j: int| 0 <= i < j < e.len() ==> (#[trigger] e[i]).0 != (#[trigger] e[j]).0
}

proof fn lemma_without_props(e: Seq<(i64, usize)>, id: i64)
    ensures
        forall|k: int| 0 <= k < without_id(e, id).len() ==> (#[trigger] without_id(e, id)[k]).0 != id,
        forall|k: int| 0 <= k < without_id(e, id).len() ==> e.contains(#[trigger] without_id(e, id)[k]),
        unique_ids(e) ==> unique_ids(without_id(e, id)),
    decreases e.len(),
{
    if e.len() > 0 {
        let e0 = e.drop_last();
        lemma_without_props(e0, id);
        let w0 = without_id(e0, id);
        let w = without_id(e, id);
        assert forall|k: int| 0 <= k < w0.len() implies e.contains(#[trigger] w0[k]) by {
            let j = choose|j: int| 0 <= j < e0.len() && e0[j] == w0[k];
            assert(e[j] == w0[k]);
        }
        if e.last().0 == id {
            assert(w == w0);
        } else {
            assert(w == w0.push(e.last()));
            assert(e.contains(e.last())) by {
                assert(e[e.len() - 1] == e.last());
            }
            if unique_ids(e) {
                assert(unique_ids(e0));
                assert forall|i: int, j: int| 0 <= i < j < w.len() implies (#[trigger] w[i]).0 != (
                #[trigger] w[j]).0 by {
                    if j == w.len() - 1 {
                        let a = choose|a: int| 0 <= a < e0.len() && e0[a] == w0[i];
                        assert(e[a] == w[i]);
                        assert(e[e.len() - 1] == w[j]);
                    } else {
                        assert(w[i] == w0[i] && w[j] == w0[j]);
                    }
                }
            }
        }
    }
}

proof fn lemma_lookup_unique(e: Seq<(i64, usize)>, k: int)
    requires
        unique_ids(e),
        0 <= k < e.len(),
    ensures
        lookup(e, e[k].0) == Some(e[k].1),
    decreases e.len(),
{
    if k < e.len() - 1 {
        assert(e[k].0 != e[e.len() - 1].0);
        assert(e.drop_last()[k] == e[k]);
        lemma_lookup_unique(e.drop_last(), k);
    }
}

/// Runs background tasks, at most `max_concurrent` at a time and in the
/// order they were submitted, each with a cancellation token.
pub struct TaskQueue {
    /// Active tasks: task id and its token, in submission order.
    entries: Vec<(i64, usize)>,
    /// Whether each token, numbered in order of creation, was cancelled.
    cancelled: Vec<bool>,
    /// Tokens of submitted tasks waiting for a slot, oldest first.
    waiting: Vec<usize>,
    /// Slots held by running tasks.
    in_use: usize,
    max_concurrent: usize,
}

impl TaskQueue {
    /// Every token is one that was handed out, and no more tasks run than
    /// the limit allows.
    pub closed spec fn wf(&self) -> bool {
        &&& self.in_use <= self.max_concurrent
        &&& forall|k: int|
            0 <= k < self.entries@.len() ==> (#[trigger] self.entries@[k]).1 < self.cancelled@.len()
        &&& forall|k: int|
            0 <= k < self.waiting@.len() ==> #[trigger] self.waiting@[k] < self.cancelled@.len()
        &&& forall|a: int, b: int|
            0 <= a < b < self.waiting@.len() ==> #[trigger] self.waiting@[a] != #[trigger] self.waiting@[b]
        &&& unique_ids(self.entries@)
    }

    /// The active tasks and their tokens.
    pub closed spec fn tokens(&self) -> Map<i64, usize> {
        token_map(self.entries@)
    }

    /// Whether token `t` was cancelled.
    pub closed spec fn cancelled_token(&self, t: usize) -> bool {
        t < self.cancelled@.len() && self.cancelled@[t as int]
    }

    /// The number of tokens handed out.
    pub closed spec fn token_count(&self) -> nat {
        self.cancelled@.len()
    }

    /// Tokens waiting for a slot, oldest first.
    pub closed spec fn waiting_tokens(&self) -> Seq<usize> {
        self.waiting@
    }

    /// Slots held by running tasks.
    pub closed spec fn running(&self) -> nat {
        self.in_use as nat
    }

    pub closed spec fn limit(&self) -> nat {
        self.max_concurrent as nat
    }

    /// An empty queue running at most `max_concurrent` tasks at once.
    pub fn new(max_concurrent: usize) -> (r: TaskQueue)
        ensures
            r.wf(),
            r.running() <= r.limit(),
            r.tokens() == Map::<i64, usize>::empty(),
            r.token_count() == 0,
            r.waiting_tokens() == Seq::<usize>::empty(),
            r.running() == 0,
            r.limit() == max_concurrent,
    {
        let r = TaskQueue {
            entries: Vec::new(),
            cancelled: Vec::new(),
            waiting: Vec::new(),
            in_use: 0,
            max_concurrent,
        };
        assert(token_map(r.entries@) =~= Map::<i64, usize>::empty());
        r
    }

    /// Submits task `task_id`: it gets a new token, which replaces the
    /// token of an earlier task of the same id, and waits for a slot.
    pub fn submit(&mut self, task_id: i64) -> (t: usize)
        requires
            old(self).wf(),
        ensures
            final(self).wf(),
            final(self).running() <= final(self).limit(),
            t == old(self).token_count(),
            final(self).token_count() == old(self).token_count() + 1,
            !final(self).cancelled_token(t),
            forall|u: usize| u != t ==> final(self).cancelled_token(u) == old(self).cancelled_token(u),
            final(self).tokens() == old(self).tokens().insert(task_id, t),
            final(self).waiting_tokens() == old(self).waiting_tokens().push(t),
            !old(self).waiting_tokens().contains(t),
            final(self).running() == old(self).running(),
            final(self).limit() == old(self).limit(),
    {
        let t = self.cancelled.len();
        self.cancelled.push(false);
        let ghost e0 = self.entries@;
        let mut kept: Vec<(i64, usize)> = Vec::new();
        let mut i: usize = 0;
        while i < self.entries.len()
            invariant
                i <= self.entries.len(),
                self.entries@ == e0,
                kept@ == without_id(e0.take(i as int), task_id),
                forall|k: int| 0 <= k < kept@.len() ==> (#[trigger] kept@[k]).1 < t,
                forall|k: int| 0 <= k < e0.len() ==> (#[trigger] e0[k]).1 < t,
            decreases self.entries.len() - i,
        {
            assert(e0.take(i + 1).drop_last() == e0.take(i as int));
            assert(e0.take(i + 1).last() == e0[i as int]);
            let en = self.entries[i];
            if en.0 != task_id {
                kept.push(en);
            }
            i = i + 1;
        }
        assert(e0.take(e0.len() as int) == e0);
        proof {
            lemma_without_props(e0, task_id);
        }
        let ghost w_ids = kept@;
        kept.push((task_id, t));
        assert forall|a: int, b: int| 0 <= a < b < kept@.len() implies (#[trigger] kept@[a]).0 != (
        #[trigger] kept@[b]).0 by {
            if b == kept@.len() - 1 {
                assert(kept@[a] == w_ids[a]);
            } else {
                assert(kept@[a] == w_ids[a] && kept@[b] == w_ids[b]);
            }
        }
        self.entries = kept;
        self.waiting.push(t);
        proof {
            let w = without_id(e0, task_id);
            assert(self.entries@ == w.push((task_id, t)));
            assert forall|x: i64| #[trigger] lookup(self.entries@, x) == (if x == task_id {
                Some(t)
            } else {
                lookup(e0, x)
            }) by {
                assert(self.entries@.drop_last() == w);
                lemma_lookup_without(e0, task_id, x);
            }
            assert(token_map(self.entries@) =~= token_map(e0).insert(task_id, t));
        }
        t
    }

    /// Starts the oldest waiting task when a slot is free; gives its token.
    pub fn next_to_start(&mut self) -> (r: Option<usize>)
        requires
            old(self).wf(),
        ensures
            final(self).wf(),
            final(self).running() <= final(self).limit(),
            final(self).tokens() == old(self).tokens(),
            final(self).token_count() == old(self).token_count(),
            forall|u: usize| final(self).cancelled_token(u) == old(self).cancelled_token(u),
            final(self).limit() == old(self).limit(),
            r matches Some(t) ==> !final(self).waiting_tokens().contains(t),
            (old(self).running() < old(self).limit() && old(self).waiting_tokens().len() > 0) ==> {
                &&& r == Some(old(self).waiting_tokens()[0])
                &&& final(self).waiting_tokens() == old(self).waiting_tokens().drop_first()
                &&& final(self).running() == old(self).running() + 1
            },
            !(old(self).running() < old(self).limit() && old(self).waiting_tokens().len() > 0) ==> {
                &&& r is None
                &&& final(self).waiting_tokens() == old(self).waiting_tokens()
                &&& final(self).running() == old(self).running()
            },
    {
        if self.in_use < self.max_concurrent && self.waiting.len() > 0 {
            let t = self.waiting.remove(0);
            self.in_use = self.in_use + 1;
            assert(self.waiting@ == old(self).waiting@.drop_first());
            Some(t)
        } else {
            None
        }
    }

    /// Ends a running task: frees its slot, forgets its id and reports how
    /// it ended.
    pub fn finish(&mut self, task_id: i64, result: &Result<(), String>) -> (r: (TaskStatus, String))
        requires
            old(self).wf(),
            old(self).running() > 0,
        ensures
            final(self).wf(),
            final(self).running() <= final(self).limit(),
            final(self).tokens() == old(self).tokens().remove(task_id),
            final(self).running() == old(self).running() - 1,
            final(self).token_count() == old(self).token_count(),
            forall|u: usize| final(self).cancelled_token(u) == old(self).cancelled_token(u),
            final(self).waiting_tokens() == old(self).waiting_tokens(),
            final(self).limit() == old(self).limit(),
            (r.0, r.1@) == outcome_spec(*result),
    {
        let ghost e0 = self.entries@;
        let n = self.cancelled.len();
        let mut kept: Vec<(i64, usize)> = Vec::new();
        let mut i: usize = 0;
        while i < self.entries.len()
            invariant
                i <= self.entries.len(),
                self.entries@ == e0,
                n == self.cancelled@.len(),
                kept@ == without_id(e0.take(i as int), task_id),
                forall|k: int| 0 <= k < kept@.len() ==> (#[trigger] kept@[k]).1 < n,
                forall|k: int| 0 <= k < e0.len() ==> (#[trigger] e0[k]).1 < n,
            decreases self.entries.len() - i,
        {
            assert(e0.take(i + 1).drop_last() == e0.take(i as int));
            assert(e0.take(i + 1).last() == e0[i as int]);
            let en = self.entries[i];
            if en.0 != task_id {
                kept.push(en);
            }
            i = i + 1;
        }
        assert(e0.take(e0.len() as int) == e0);
        proof {
            lemma_without_props(e0, task_id);
        }
        self.entries = kept;
        self.in_use = self.in_use - 1;
        proof {
            assert forall|x: i64| #[trigger] lookup(self.entries@, x) == (if x == task_id {
                None
            } else {
                lookup(e0, x)
            }) by {
                lemma_lookup_without(e0, task_id, x);
            }
            assert(token_map(self.entries@) =~= token_map(e0).remove(task_id));
        }
        final_outcome(result)
    }

    /// Cancels the token of task `task_id`; false when no such task is
    /// active.
    pub fn cancel(&mut self, task_id: i64) -> (r: bool)
        requires
            old(self).wf(),
        ensures
            final(self).wf(),
            final(self).running() <= final(self).limit(),
            r == old(self).tokens().contains_key(task_id),
            r ==> final(self).cancelled_token(old(self).tokens()[task_id]),
            forall|u: usize|
                !(r && u == old(self).tokens()[task_id]) ==> final(self).cancelled_token(u)
                    == old(self).cancelled_token(u),
            final(self).tokens() == old(self).tokens(),
            final(self).token_count() == old(self).token_count(),
            final(self).waiting_tokens() == old(self).waiting_tokens(),
            final(self).running() == old(self).running(),
            final(self).limit() == old(self).limit(),
    {
        let ghost e0 = self.entries@;
        let mut i: usize = self.entries.len();
        assert(e0.take(e0.len() as int) == e0);
        while i > 0
            invariant
                i <= self.entries.len(),
                *self == *old(self),
                old(self).wf(),
                self.entries@ == e0,
                lookup(e0, task_id) == lookup(e0.take(i as int), task_id),
            decreases i,
        {
            assert(e0.take(i as int).drop_last() == e0.take(i - 1));
            assert(e0.take(i as int).last() == e0[i - 1]);
            let en = self.entries[i - 1];
            if en.0 == task_id {
                proof {
                    lemma_lookup_bound(e0, task_id, self.cancelled@.len());
                }
                self.cancelled.set(en.1, true);
                return true;
            }
            i = i - 1;
        }
        assert(e0.take(0) == Seq::<(i64, usize)>::empty());
        false
    }

    /// Cancels every active task; gives how many there were.
    pub fn cancel_all(&mut self) -> (r: usize)
        requires
            old(self).wf(),
        ensures
            final(self).wf(),
            final(self).running() <= final(self).limit(),
            forall|id: i64| #[trigger]
                old(self).tokens().contains_key(id) ==> final(self).cancelled_token(
                    old(self).tokens()[id],
                ),
            forall|u: usize|
                !(exists|id: i64| old(self).tokens().contains_key(id) && #[trigger] old(self).tokens()[id] == u)
                    ==> final(self).cancelled_token(u) == old(self).cancelled_token(u),
            final(self).tokens() == old(self).tokens(),
            final(self).token_count() == old(self).token_count(),
            final(self).waiting_tokens() == old(self).waiting_tokens(),
            final(self).running() == old(self).running(),
            final(self).limit() == old(self).limit(),
    {
        let ghost e0 = self.entries@;
        let ghost c0 = self.cancelled@;
        let mut i: usize = 0;
        while i < self.entries.len()
            invariant
                i <= self.entries.len(),
                self.entries@ == e0,
                self.cancelled@.len() == c0.len(),
                old(self).wf(),
                c0 == old(self).cancelled@,
                e0 == old(self).entries@,
                self.waiting@ == old(self).waiting@,
                self.in_use == old(self).in_use,
                self.max_concurrent == old(self).max_concurrent,
                forall|k: int| 0 <= k < e0.len() ==> (#[trigger] e0[k]).1 < c0.len(),
                forall|k: int| 0 <= k < i ==> self.cancelled@[(#[trigger] e0[k]).1 as int],
                forall|u: int|
                    0 <= u < c0.len() && !(exists|k: int| 0 <= k < i && (#[trigger] e0[k]).1 == u)
                        ==> self.cancelled@[u] == c0[u],
            decreases self.entries.len() - i,
        {
            let t = self.entries[i].1;
            self.cancelled.set(t, true);
            i = i + 1;
            assert forall|u: int|
                0 <= u < c0.len() && !(exists|k: int| 0 <= k < i && (#[trigger] e0[k]).1 == u)
                    implies self.cancelled@[u] == c0[u] by {
                if u != t {
                    assert(!(exists|k: int| 0 <= k < i - 1 && (#[trigger] e0[k]).1 == u)) by {
                        if exists|k: int| 0 <= k < i - 1 && (#[trigger] e0[k]).1 == u {
                            let k = choose|k: int| 0 <= k < i - 1 && (#[trigger] e0[k]).1 == u;
                            assert(0 <= k < i && e0[k].1 == u);
                        }
                    }
                } else {
                    assert(e0[i - 1].1 == u);
                }
            }
        }
        proof {
            assert forall|id: i64| #[trigger] token_map(e0).contains_key(id) implies token_map(e0)[id]
                < self.cancelled@.len() && self.cancelled@[token_map(e0)[id] as int] by {
                lemma_lookup_in(e0, id);
                let t = lookup(e0, id).unwrap();
                let k = choose|k: int| 0 <= k < e0.len() && #[trigger] e0[k] == (id, t);
                assert(self.cancelled@[e0[k].1 as int]);
            }
            assert(old(self).tokens() == token_map(e0));
            assert forall|id: i64| #[trigger]
                old(self).tokens().contains_key(id) implies self.cancelled_token(old(self).tokens()[id]) by {
                assert(token_map(e0).contains_key(id));
            }
            assert forall|u: usize|
                !(exists|id: i64| token_map(e0).contains_key(id) && #[trigger] token_map(e0)[id] == u)
                    implies (u < self.cancelled@.len() && self.cancelled@[u as int]) == (u < c0.len()
                    && c0[u as int]) by {
                if u < c0.len() && exists|k: int| 0 <= k < e0.len() && (#[trigger] e0[k]).1 == u {
                    let k = choose|k: int| 0 <= k < e0.len() && (#[trigger] e0[k]).1 == u;
                    lemma_lookup_unique(e0, k);
                    let id = e0[k].0;
                    assert(token_map(e0).contains_key(id) && token_map(e0)[id] == u);
                    assert(false);
                }
            }
        }
        self.entries.len()
    }

    /// Whether the token a running task holds was cancelled.
    pub fn is_cancelled(&self, token: usize) -> (r: bool)
        ensures
            r == self.cancelled_token(token),
    {
        token < self.cancelled.len() && self.cancelled[token]
    }

    /// Whether any task is active (submitted and not finished).
    pub fn has_active_tasks(&self) -> (r: bool)
        ensures
            r == (self.tokens().dom().len() > 0),
    {
        proof {
            lemma_token_map_finite(self.entries@);
        }
        if self.entries.len() == 0 {
            assert(token_map(self.entries@) =~= Map::<i64, usize>::empty());
            false
        } else {
            let ghost x = self.entries@.last().0;
            assert(token_map(self.entries@).contains_key(x));
            true
        }
    }

    /// Whether any task is active, for callers that cannot wait.
    pub fn has_active_tasks_sync(&self) -> (r: bool)
        ensures
            r == (self.tokens().dom().len() > 0),
    {
        self.has_active_tasks()
    }
}

proof fn lemma_lookup_in(e: Seq<(i64, usize)>, id: i64)
    ensures
        lookup(e, id) matches Some(t) ==> exists|k: int| 0 <= k < e.len() && #[trigger] e[k] == (id, t),
    decreases e.len(),
{
    if e.len() > 0 {
        if e.last().0 == id {
            assert(e[e.len() - 1] == (id, e.last().1));
        } else {
            lemma_lookup_in(e.drop_last(), id);
            if lookup(e.drop_last(), id) is Some {
                let t = lookup(e.drop_last(), id).unwrap();
                let k = choose|k: int| 0 <= k < e.drop_last().len() && #[trigger] e.drop_last()[k] == (id, t);
                assert(e[k] == (id, t));
            }
        }
    }
}

proof fn lemma_token_map_finite(e: Seq<(i64, usize)>)
    ensures
        token_map(e).dom().finite(),
        e.len() == 0 <==> token_map(e).dom().len() == 0,
{
    let d = token_map(e).dom();
    let idseq = e.map_values(|p: (i64, usize)| p.0);
    let ids = idseq.to_set();
    vstd::seq_lib::seq_to_set_is_finite(idseq);
    assert(d.subset_of(ids)) by {
        assert forall|id: i64| d.contains(id) implies ids.contains(id) by {
            lemma_lookup_in(e, id);
            let t = lookup(e, id).unwrap();
            let k = choose|k: int| 0 <= k < e.len() && #[trigger] e[k] == (id, t);
            assert(idseq[k] == id);
        }
    }
    vstd::set_lib::lemma_set_subset_finite(ids, d);
    if e.len() > 0 {
        let x = e.last().0;
        assert(d.contains(x));
        vstd::set_lib::lemma_set_empty_equivalency_len(d);
        assert(d.len() != 0);
    } else {
        assert(d =~= Set::<i64>::empty());
    }
}


/// Every waiting task waits once: the waiting tokens are distinct and
/// were all handed out. With `submit`, which queues only a token never
/// handed out before, and `next_to_start`, which takes the started token
/// out of the queue, no task is started twice.
pub proof fn law_waiting_tokens_distinct(q: TaskQueue)
    requires
        q.wf(),
    ensures
        forall|a: int, b: int|
            0 <= a < b < q.waiting_tokens().len() ==> #[trigger] q.waiting_tokens()[a]
                != #[trigger] q.waiting_tokens()[b],
        forall|k: int| 0 <= k < q.waiting_tokens().len() ==> #[trigger] q.waiting_tokens()[k] < q.token_count(),
{
}

/// However tasks are submitted, started, cancelled and finished, no more
/// of them run at once than the queue's limit.
pub proof fn law_running_within_limit(q: TaskQueue)
    requires
        q.wf(),
    ensures
        q.running() <= q.limit(),
{
}

} // verus!
