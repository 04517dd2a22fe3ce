//! The speech-recognition task queue: one task runs at a time, the others
//! wait first-in first-out; a waiting task can be withdrawn and a running
//! one flagged for cancellation. Also the polling policy of a running task.

use vstd::prelude::*;
use crate::text::{push_digits, push_str, str_eq, string_of};

verus! {

/// A task waiting in the queue.
pub struct QueueEntry {
    pub asr_task_id: i64,
    pub video_id: i64,
    pub video_file_name: String,
    pub video_file_path: String,
    pub language: String,
}

pub type EntryView = (i64, i64, Seq<char>, Seq<char>, Seq<char>);

pub open spec fn entry_view(e: QueueEntry) -> EntryView {
    (e.asr_task_id, e.video_id, e.video_file_name@, e.video_file_path@, e.language@)
}

pub open spec fn entries_view(v: Seq<QueueEntry>) -> Seq<EntryView> {
    v.map_values(|e: QueueEntry| entry_view(e))
}

impl QueueEntry {
    pub fn duplicate(&self) -> (r: QueueEntry)
        ensures
            entry_view(r) == entry_view(*self),
    {
        QueueEntry {
            asr_task_id: self.asr_task_id,
            video_id: self.video_id,
            video_file_name: self.video_file_name.clone(),
            video_file_path: self.video_file_path.clone(),
            language: self.language.clone(),
        }
    }
}

/// The running task: ids, file name and stage.
pub struct RunningTask {
    pub task_id: i64,
    pub video_id: i64,
    pub file_name: String,
    pub status: String,
}

pub type RunningView = (i64, i64, Seq<char>, Seq<char>);

pub open spec fn running_view(r: Option<RunningTask>) -> Option<RunningView> {
    match r {
        Some(t) => Some((t.task_id, t.video_id, t.file_name@, t.status@)),
        None => None,
    }
}

/// The queue's state.
pub struct AsrQueue {
    pub pending: Vec<QueueEntry>,
    pub running: Option<RunningTask>,
    /// Tasks flagged for cancellation, each once.
    pub cancelled_ids: Vec<i64>,
}

/// A queue snapshot row: task, video, file name, stage.
pub struct QueueItem {
    pub task_id: i64,
    pub video_id: i64,
    pub video_file_name: String,
    pub status: String,
}

pub open spec fn item_view(i: QueueItem) -> RunningView {
    (i.task_id, i.video_id, i.video_file_name@, i.status@)
}

pub open spec fn items_view(v: Seq<QueueItem>) -> Seq<RunningView> {
    v.map_values(|i: QueueItem| item_view(i))
}

/// What withdrawing a task did.
pub enum CancelOutcome {
    /// It was waiting and has left the queue.
    Dequeued(QueueEntry),
    /// It is running and has been flagged.
    Flagged,
}

/// The next task to run.
pub struct NextTask {
    pub entry: QueueEntry,
    /// It was flagged before it started and must be recorded as cancelled.
    pub cancelled: bool,
}

pub open spec fn has_video(p: Seq<EntryView>, video_id: i64) -> bool {
    exists|k: int| 0 <= k < p.len() && (#[trigger] p[k]).1 == video_id
}

pub open spec fn enqueue_refusal(q: AsrQueue, video_id: i64) -> Option<Seq<char>> {
    if has_video(entries_view(q.pending@), video_id) {
        Some("该视频已有排队中的 ASR 任务"@)
    } else if q.running matches Some(r) && r.video_id == video_id {
        Some("该视频已有正在执行的 ASR 任务"@)
    } else {
        None
    }
}

/// Index of the first waiting entry of task `task_id`.
pub open spec fn find_task(p: Seq<EntryView>, task_id: i64) -> Option<int> {
    if exists|k: int| 0 <= k < p.len() && (#[trigger] p[k]).0 == task_id {
        Some(choose|k: int| 0 <= k < p.len() && p[k].0 == task_id && forall|j: int| 0 <= j < k ==> p[j].0 != task_id)
    } else {
        None
    }
}

pub open spec fn runs_task(q: AsrQueue, task_id: i64) -> bool {
    match q.running {
        Some(t) => t.task_id == task_id,
        None => false,
    }
}

/// Snapshot rows: the running task first, then the waiting ones as
/// `queued`.
pub open spec fn snapshot_spec(q: AsrQueue) -> Seq<RunningView> {
    let head: Seq<RunningView> = match running_view(q.running) {
        Some(r) => seq![r],
        None => Seq::empty(),
    };
    head + entries_view(q.pending@).map_values(|e: EntryView| (e.0, e.1, e.2, "queued"@))
}

/// Every value but `t`.
pub open spec fn other_than(t: i64) -> spec_fn(i64) -> bool {
    |x: i64| x != t
}

/// What dropping one value from a sequence keeps.
proof fn lemma_filter_ne_contains(s: Seq<i64>, t: i64, y: i64)
    ensures
        s.filter(other_than(t)).contains(y) <==> (s.contains(y) && y != t),
{
    let keep = other_than(t);
    let f = s.filter(keep);
    if f.contains(y) {
        s.lemma_filter_contains_rev(keep, y);
        let j = choose|j: int| 0 <= j < f.len() && f[j] == y;
        s.lemma_filter_pred(keep, j);
    }
    if s.contains(y) && y != t {
        let i = choose|i: int| 0 <= i < s.len() && s[i] == y;
        s.lemma_filter_contains(keep, i);
    }
}

impl AsrQueue {
    /// The tasks flagged for cancellation.
    pub open spec fn flagged(self) -> Set<i64> {
        Set::new(|x: i64| self.cancelled_ids@.contains(x))
    }

    pub fn new() -> (r: AsrQueue)
        ensures
            r.pending@.len() == 0,
            r.running.is_none(),
            r.flagged() == Set::<i64>::empty(),
    {
        let r = AsrQueue { pending: Vec::new(), running: None, cancelled_ids: Vec::new() };
        assert(r.flagged() =~= Set::<i64>::empty());
        r
    }

    /// Whether a task may be queued for a video: not while the video waits
    /// or runs.
    pub fn may_enqueue(&self, video_id: i64) -> (r: Result<(), String>)
        ensures
            match enqueue_refusal(*self, video_id) {
                Some(m) => r matches Err(e) && e@ == m,
                None => r is Ok,
            },
    {
        let ghost p = entries_view(self.pending@);
        let mut i: usize = 0;
        while i < self.pending.len()
            invariant
                i <= self.pending.len(),
                p == entries_view(self.pending@),
                forall|k: int| 0 <= k < i ==> (#[trigger] p[k]).1 != video_id,
            decreases self.pending.len() - i,
        {
            if self.pending[i].video_id == video_id {
                assert(p[i as int].1 == video_id);
                return Err("该视频已有排队中的 ASR 任务".to_owned());
            }
            i = i + 1;
        }
        match &self.running {
            Some(r) => if r.video_id == video_id {
                return Err("该视频已有正在执行的 ASR 任务".to_owned());
            },
            None => {},
        }
        Ok(())
    }

    /// Queues a task at the back.
    pub fn push(&mut self, entry: QueueEntry)
        ensures
            entries_view(final(self).pending@) == entries_view(old(self).pending@).push(entry_view(entry)),
            running_view(final(self).running) == running_view(old(self).running),
            final(self).cancelled_ids@ == old(self).cancelled_ids@,
    {
        let ghost pre = entries_view(self.pending@);
        self.pending.push(entry);
        assert(entries_view(self.pending@) == pre.push(entry_view(entry)));
    }

    fn is_flagged(&self, task_id: i64) -> (r: bool)
        ensures
            r == self.cancelled_ids@.contains(task_id),
    {
        let mut i: usize = 0;
        while i < self.cancelled_ids.len()
            invariant
                i <= self.cancelled_ids.len(),
                forall|k: int| 0 <= k < i ==> self.cancelled_ids@[k] != task_id,
            decreases self.cancelled_ids.len() - i,
        {
            if self.cancelled_ids[i] == task_id {
                assert(self.cancelled_ids@[i as int] == task_id);
                return true;
            }
            i = i + 1;
        }
        false
    }

    /// Whether a task has been flagged for cancellation.
    pub fn check_cancelled(&self, task_id: i64) -> (r: bool)
        ensures
            r == self.flagged().contains(task_id),
    {
        self.is_flagged(task_id)
    }

    fn unflag(&mut self, task_id: i64)
        ensures
            final(self).flagged() == old(self).flagged().remove(task_id),
            entries_view(final(self).pending@) == entries_view(old(self).pending@),
            running_view(final(self).running) == running_view(old(self).running),
    {
        let ghost orig = self.cancelled_ids@;
        let ghost before = self.flagged();
        let mut kept: Vec<i64> = Vec::new();
        let mut i: usize = 0;
        while i < self.cancelled_ids.len()
            invariant
                i <= self.cancelled_ids.len(),
                orig == self.cancelled_ids@,
                kept@ == orig.take(i as int).filter(other_than(task_id)),
            decreases self.cancelled_ids.len() - i,
        {
            let x = self.cancelled_ids[i];
            assert(orig.take(i + 1) == orig.take(i as int).push(x));
            proof {
                orig.take(i as int).lemma_filter_push(x, other_than(task_id));
            }
            let ghost pre = kept@;
            if x != task_id {
                kept.push(x);
                assert(kept@ == pre.push(x));
            }
            assert(kept@ == orig.take(i + 1).filter(other_than(task_id)));
            i = i + 1;
        }
        assert(orig.take(orig.len() as int) == orig);
        self.cancelled_ids = kept;
        assert forall|y: i64| self.cancelled_ids@.contains(y) <==> (orig.contains(y) && y != task_id) by {
            lemma_filter_ne_contains(orig, task_id, y);
        }
        assert(self.flagged() =~= before.remove(task_id));
    }

    fn flag(&mut self, task_id: i64)
        ensures
            final(self).flagged() == old(self).flagged().insert(task_id),
            entries_view(final(self).pending@) == entries_view(old(self).pending@),
            running_view(final(self).running) == running_view(old(self).running),
    {
        let ghost before = self.flagged();
        if !self.is_flagged(task_id) {
            let ghost pre = self.cancelled_ids@;
            self.cancelled_ids.push(task_id);
            assert forall|y: i64| self.cancelled_ids@.contains(y) <==> (pre.contains(y) || y == task_id) by {
                if pre.contains(y) {
                    let t = choose|t: int| 0 <= t < pre.len() && pre[t] == y;
                    assert(self.cancelled_ids@[t] == y);
                }
                if y == task_id {
                    assert(self.cancelled_ids@[pre.len() as int] == y);
                }
                if self.cancelled_ids@.contains(y) {
                    let t = choose|t: int| 0 <= t < self.cancelled_ids@.len() && self.cancelled_ids@[t] == y;
                    if t < pre.len() {
                        assert(pre[t] == y);
                    }
                }
            }
        }
        assert(self.flagged() =~= before.insert(task_id));
    }

    /// Withdraws a waiting task, or flags the running one; refuses a task
    /// the queue does not hold.
    pub fn cancel(&mut self, task_id: i64) -> (r: Result<CancelOutcome, String>)
        ensures
            match find_task(entries_view(old(self).pending@), task_id) {
                Some(k) => r matches Ok(CancelOutcome::Dequeued(e)) && entry_view(e) == entries_view(
                    old(self).pending@,
                )[k] && entries_view(final(self).pending@) == entries_view(old(self).pending@).remove(k)
                    && final(self).flagged() == old(self).flagged(),
                None => entries_view(final(self).pending@) == entries_view(old(self).pending@) && (if runs_task(
                    *old(self),
                    task_id,
                ) {
                    (r matches Ok(CancelOutcome::Flagged)) && final(self).flagged() == old(self).flagged().insert(
                        task_id,
                    )
                } else {
                    (r matches Err(e) && e@ == "任务不在队列中"@) && final(self).flagged() == old(self).flagged()
                }),
            },
            running_view(final(self).running) == running_view(old(self).running),
    {
        let ghost p = entries_view(self.pending@);
        let mut i: usize = 0;
        while i < self.pending.len()
            invariant
                i <= self.pending.len(),
                p == entries_view(old(self).pending@),
                self.pending@ == old(self).pending@,
                self.running == old(self).running,
                self.cancelled_ids@ == old(self).cancelled_ids@,
                forall|k: int| 0 <= k < i ==> (#[trigger] p[k]).0 != task_id,
            decreases self.pending.len() - i,
        {
            if self.pending[i].asr_task_id == task_id {
                assert(p[i as int].0 == task_id);
                let ghost k = choose|k: int| 0 <= k < p.len() && p[k].0 == task_id && forall|j: int| 0 <= j < k ==> p[j].0 != task_id;
                assert(k == i as int) by {
                    if k < i {
                    } else if k > i {
                        assert(p[i as int].0 == task_id);
                    }
                }
                let e = self.pending.remove(i);
                assert(entries_view(self.pending@) =~= p.remove(i as int));
                return Ok(CancelOutcome::Dequeued(e));
            }
            i = i + 1;
        }
        assert(!exists|k: int| 0 <= k < p.len() && (#[trigger] p[k]).0 == task_id);
        let is_running = match &self.running {
            Some(t) => t.task_id == task_id,
            None => false,
        };
        if is_running {
            self.flag(task_id);
            return Ok(CancelOutcome::Flagged);
        }
        Err("任务不在队列中".to_owned())
    }

    /// Starts the next waiting task, or reports it cancelled if it was
    /// flagged while waiting.
    pub fn take_next(&mut self) -> (r: Option<NextTask>)
        ensures
            old(self).pending@.len() == 0 ==> r is None,
            old(self).pending@.len() == 0 ==> entries_view(final(self).pending@) == entries_view(old(self).pending@),
            old(self).pending@.len() == 0 ==> running_view(final(self).running) == running_view(old(self).running),
            old(self).pending@.len() == 0 ==> final(self).flagged() == old(self).flagged(),
            old(self).pending@.len() > 0 ==> (r matches Some(n) && entry_view(n.entry) == entries_view(old(self).pending@)[0]),
            old(self).pending@.len() > 0 ==> entries_view(final(self).pending@) == entries_view(old(self).pending@).skip(1),
            r matches Some(n) ==> n.cancelled == old(self).flagged().contains(n.entry.asr_task_id),
            r matches Some(n) ==> (n.cancelled ==> final(self).flagged() == old(self).flagged().remove(n.entry.asr_task_id)),
            r matches Some(n) ==> (n.cancelled ==> running_view(final(self).running) == running_view(old(self).running)),
            r matches Some(n) ==> (!n.cancelled ==> final(self).flagged() == old(self).flagged()),
            r matches Some(n) ==> (!n.cancelled ==> running_view(final(self).running) == Some((n.entry.asr_task_id, n.entry.video_id, n.entry.video_file_name@, "converting"@))),
    {
        if self.pending.len() == 0 {
            return None;
        }
        let ghost p = entries_view(self.pending@);
        let entry = self.pending.remove(0);
        assert(entries_view(self.pending@) =~= p.skip(1));
        let task_id = entry.asr_task_id;
        if self.is_flagged(task_id) {
            self.unflag(task_id);
            Some(NextTask { entry, cancelled: true })
        } else {
            self.running = Some(
                RunningTask {
                    task_id,
                    video_id: entry.video_id,
                    file_name: entry.video_file_name.clone(),
                    status: "converting".to_owned(),
                },
            );
            Some(NextTask { entry, cancelled: false })
        }
    }

    /// Puts back the tasks left waiting when the application last stopped,
    /// in their order; a task whose video has no file path is dropped.
    pub fn recover(&mut self, rows: Vec<QueueEntry>)
        ensures
            entries_view(final(self).pending@) == entries_view(old(self).pending@) + entries_view(
                rows@,
            ).filter(|e: EntryView| e.3.len() > 0),
            running_view(final(self).running) == running_view(old(self).running),
            final(self).cancelled_ids@ == old(self).cancelled_ids@,
    {
        let ghost start = entries_view(self.pending@);
        let ghost rv = entries_view(rows@);
        let mut i: usize = 0;
        while i < rows.len()
            invariant
                i <= rows.len(),
                rv == entries_view(rows@),
                entries_view(self.pending@) == start + rv.take(i as int).filter(|e: EntryView| e.3.len() > 0),
                running_view(self.running) == running_view(old(self).running),
                self.cancelled_ids@ == old(self).cancelled_ids@,
            decreases rows.len() - i,
        {
            let e = &rows[i];
            assert(rv.take(i + 1) == rv.take(i as int).push(rv[i as int]));
            proof {
                rv.take(i as int).lemma_filter_push(rv[i as int], |e: EntryView| e.3.len() > 0);
            }
            if !e.video_file_path.as_str().is_empty() {
                let ghost pre = entries_view(self.pending@);
                self.pending.push(e.duplicate());
                assert(entries_view(self.pending@) =~= pre.push(rv[i as int]));
            }
            i = i + 1;
        }
        assert(rv.take(rows.len() as int) == rv);
    }

    /// Records the running task's stage.
    pub fn set_running_status(&mut self, status: &str)
        ensures
            running_view(final(self).running) == match running_view(old(self).running) {
                Some(t) => Some((t.0, t.1, t.2, status@)),
                None => None,
            },
            entries_view(final(self).pending@) == entries_view(old(self).pending@),
            final(self).cancelled_ids@ == old(self).cancelled_ids@,
    {
        match &mut self.running {
            Some(t) => {
                t.status = status.to_owned();
            },
            None => {},
        }
    }

    /// Clears the running task once it ended, with its flag.
    pub fn finish(&mut self, task_id: i64)
        ensures
            final(self).running.is_none(),
            final(self).flagged() == old(self).flagged().remove(task_id),
            entries_view(final(self).pending@) == entries_view(old(self).pending@),
    {
        self.running = None;
        self.unflag(task_id);
    }

    /// Whether a task runs or waits.
    pub fn has_active_tasks(&self) -> (r: bool)
        ensures
            r == (self.running.is_some() || self.pending@.len() > 0),
    {
        self.running.is_some() || self.pending.len() > 0
    }

    /// The running task, then the waiting ones.
    pub fn snapshot(&self) -> (r: Vec<QueueItem>)
        ensures
            items_view(r@) == snapshot_spec(*self),
    {
        let mut out: Vec<QueueItem> = Vec::new();
        match &self.running {
            Some(t) => {
                out.push(
                    QueueItem {
                        task_id: t.task_id,
                        video_id: t.video_id,
                        video_file_name: t.file_name.clone(),
                        status: t.status.clone(),
                    },
                );
            },
            None => {},
        }
        let ghost head = items_view(out@);
        let ghost p = entries_view(self.pending@);
        let mut i: usize = 0;
        while i < self.pending.len()
            invariant
                i <= self.pending.len(),
                p == entries_view(self.pending@),
                items_view(out@) == head + p.take(i as int).map_values(
                    |e: EntryView| (e.0, e.1, e.2, "queued"@),
                ),
            decreases self.pending.len() - i,
        {
            let e = &self.pending[i];
            let ghost pre = out@;
            out.push(
                QueueItem {
                    task_id: e.asr_task_id,
                    video_id: e.video_id,
                    video_file_name: e.video_file_name.clone(),
                    status: "queued".to_owned(),
                },
            );
            assert(items_view(out@) =~= items_view(pre).push((p[i as int].0, p[i as int].1, p[i as int].2, "queued"@)));
            assert(p.take(i + 1).map_values(|e: EntryView| (e.0, e.1, e.2, "queued"@)) =~= p.take(
                i as int,
            ).map_values(|e: EntryView| (e.0, e.1, e.2, "queued"@)).push((p[i as int].0, p[i as int].1, p[i as int].2, "queued"@)));
            i = i + 1;
        }
        assert(p.take(self.pending.len() as int) == p);
        out
    }
}

/// Automatic retries of a running task.
pub const MAX_AUTO_RETRIES: u32 = 2;

/// What one poll of a running task reported.
pub enum PollReport {
    /// The query itself failed.
    QueryFailed(String),
    Pending,
    Processing,
    Completed,
    RetryableError(String),
    PermanentError(String),
}

/// What to do after a poll.
pub enum PollAction {
    /// Poll again (a query failure within the retry budget, or still pending).
    Continue,
    /// Record progress and poll again.
    Progress,
    /// Import the results.
    Import,
    /// Wait `delay_secs`, telling the user which retry this is.
    Retry { delay_secs: u64, notice: String },
    /// Give up with this message.
    Fail(String),
}

pub open spec fn pow2(n: nat) -> nat
    decreases n,
{
    if n == 0 { 1 } else { 2 * pow2((n - 1) as nat) }
}

pub open spec fn poll_action_view(a: PollAction) -> (int, u64, Seq<char>) {
    match a {
        PollAction::Continue => (0, 0, Seq::empty()),
        PollAction::Progress => (1, 0, Seq::empty()),
        PollAction::Import => (2, 0, Seq::empty()),
        PollAction::Retry { delay_secs, notice } => (3, delay_secs, notice@),
        PollAction::Fail(m) => (4, 0, m@),
    }
}

/// The queue's polling policy: failed queries and retryable errors share a
/// budget of two retries; a retryable error waits 5, then 10 seconds.
pub open spec fn poll_step_spec(retries: u32, rep: PollReport) -> (u32, (int, u64, Seq<char>)) {
    match rep {
        PollReport::QueryFailed(e) => if retries + 1 > MAX_AUTO_RETRIES {
            ((retries + 1) as u32, (4, 0, "轮询失败: "@ + e@))
        } else {
            ((retries + 1) as u32, (0, 0, Seq::empty()))
        },
        PollReport::Pending => (retries, (0, 0, Seq::empty())),
        PollReport::Processing => (retries, (1, 0, Seq::empty())),
        PollReport::Completed => (retries, (2, 0, Seq::empty())),
        PollReport::RetryableError(e) => if retries + 1 > MAX_AUTO_RETRIES {
            ((retries + 1) as u32, (4, 0, "重试次数已用尽: "@ + e@))
        } else {
            (
                (retries + 1) as u32,
                (
                    3,
                    (5 * pow2(retries as nat)) as u64,
                    "重试中（第 "@ + crate::text::digits_of((retries + 1) as nat) + " 次）..."@,
                ),
            )
        },
        PollReport::PermanentError(e) => (retries, (4, 0, e@)),
    }
}

/// One step of the polling policy: the new retry count and the action.
pub fn poll_step(retries: u32, report: PollReport) -> (r: (u32, PollAction))
    requires
        retries <= MAX_AUTO_RETRIES,
    ensures
        (r.0, poll_action_view(r.1)) == poll_step_spec(retries, report),
{
    match report {
        PollReport::QueryFailed(e) => {
            let n = retries + 1;
            if n > MAX_AUTO_RETRIES {
                let mut m = "轮询失败: ".to_owned();
                m.append(e.as_str());
                (n, PollAction::Fail(m))
            } else {
                (n, PollAction::Continue)
            }
        },
        PollReport::Pending => (retries, PollAction::Continue),
        PollReport::Processing => (retries, PollAction::Progress),
        PollReport::Completed => (retries, PollAction::Import),
        PollReport::RetryableError(e) => {
            let n = retries + 1;
            if n > MAX_AUTO_RETRIES {
                let mut m = "重试次数已用尽: ".to_owned();
                m.append(e.as_str());
                (n, PollAction::Fail(m))
            } else {
                let delay: u64 = if retries == 0 { 5 } else { 10 };
                assert(pow2(0) == 1);
                assert(pow2(1) == 2);
                let mut buf: Vec<char> = Vec::new();
                push_str(&mut buf, "重试中（第 ");
                push_digits(&mut buf, n as u64);
                push_str(&mut buf, " 次）...");
                (n, PollAction::Retry { delay_secs: delay, notice: string_of(&buf) })
            }
        },
        PollReport::PermanentError(e) => (retries, PollAction::Fail(e)),
    }
}

/// The retry budget bounds every task: a task that keeps reporting
/// retryable errors fails on the third.
pub proof fn law_retries_bounded(e: String)
    ensures
        poll_step_spec(2, PollReport::RetryableError(e)).1.0 == 4,
        poll_step_spec(0, PollReport::RetryableError(e)).1.0 == 3,
        poll_step_spec(1, PollReport::RetryableError(e)).1.0 == 3,
{
}

/// Which recognition service a task uses.
pub enum ProviderChoice {
    Remote { url: String, api_key: Option<String> },
    Local { port: u16 },
}

pub open spec fn provider_view(p: ProviderChoice) -> (int, Seq<char>, Option<Seq<char>>, u16) {
    match p {
        ProviderChoice::Remote { url, api_key } => (0, url@, crate::manifest::opt_view(api_key), 0),
        ProviderChoice::Local { port } => (1, Seq::empty(), None, port),
    }
}

/// The service from the settings: disabled refuses, remote needs an
/// address, anything else is the local service on its configured port
/// (8765 when unset or unreadable).
pub open spec fn provider_spec(
    mode: Option<Seq<char>>,
    url: Option<Seq<char>>,
    api_key: Option<Seq<char>>,
    port: Option<Seq<char>>,
) -> Result<(int, Seq<char>, Option<Seq<char>>, u16), Seq<char>> {
    let m = match mode {
        Some(x) => x,
        None => "local"@,
    };
    if m == "disabled"@ {
        Err("ASR 功能已禁用"@)
    } else if m == "remote"@ {
        match url {
            Some(u) => Ok((0, u, api_key, 0)),
            None => Err("请先配置远程 ASR 地址"@),
        }
    } else {
        let p = match port {
            Some(x) => match crate::text::parse_u16_spec(x) {
                Some(v) => v as u16,
                None => 8765,
            },
            None => 8765,
        };
        Ok((1, Seq::empty(), None, p))
    }
}

pub fn choose_provider(
    mode: &Option<String>,
    url: &Option<String>,
    api_key: &Option<String>,
    port: &Option<String>,
) -> (r: Result<ProviderChoice, String>)
    ensures
        match provider_spec(
            crate::manifest::opt_view(*mode),
            crate::manifest::opt_view(*url),
            crate::manifest::opt_view(*api_key),
            crate::manifest::opt_view(*port),
        ) {
            Ok(v) => r matches Ok(p) && provider_view(p) == v,
            Err(m) => r matches Err(e) && e@ == m,
        },
{
    let m: &str = match mode {
        Some(x) => x.as_str(),
        None => "local",
    };
    if str_eq(m, "disabled") {
        return Err("ASR 功能已禁用".to_owned());
    }
    if str_eq(m, "remote") {
        return match url {
            Some(u) => Ok(ProviderChoice::Remote {
                url: u.clone(),
                api_key: crate::storage::copy_opt_string(api_key),
            }),
            None => Err("请先配置远程 ASR 地址".to_owned()),
        };
    }
    let p: u16 = match port {
        Some(x) => {
            let cs = crate::text::chars_of(x.as_str());
            match crate::text::parse_int(&cs, false, 0, 0xffff) {
                Some(v) => v as u16,
                None => 8765,
            }
        },
        None => 8765,
    };
    Ok(ProviderChoice::Local { port: p })
}

/// The maximum subtitle length setting: a `usize`, 15 when unset or
/// unreadable.
pub fn max_chars_setting(setting: &Option<String>) -> (r: usize)
    ensures
        r as int == match crate::manifest::opt_view(*setting) {
            Some(s) => match crate::text::parse_in_range(s, false, 0, usize::MAX as int) {
                Some(v) => v,
                None => 15,
            },
            None => 15,
        },
{
    match setting {
        Some(s) => {
            let cs = crate::text::chars_of(s.as_str());
            match crate::text::parse_int(&cs, false, 0, usize::MAX as i128) {
                Some(v) => v as usize,
                None => 15,
            }
        },
        None => 15,
    }
}

// ---------------------------------------------------------------- records

fn push_quoted(b: &mut Vec<char>, s: &str)
    ensures
        final(b)@ == old(b)@ + crate::workspaces::quoted(s@),
{
    push_str(b, "'");
    let e = crate::sql::sql_escape(s);
    push_str(b, e.as_str());
    push_str(b, "'");
}

/// A task is queued only when the store knows no active task of the video
/// and the video has a file.
pub fn enqueue_check(db_active: i64, file_path: &str) -> (r: Result<(), String>)
    ensures
        db_active > 0 ==> (r matches Err(e) && e@ == "该视频已有进行中的 ASR 任务"@),
        (db_active <= 0 && file_path@.len() == 0) ==> (r matches Err(e) && e@ == "视频文件路径为空"@),
        (db_active <= 0 && file_path@.len() > 0) ==> r is Ok,
{
    if db_active > 0 {
        return Err("该视频已有进行中的 ASR 任务".to_owned());
    }
    if file_path.is_empty() {
        return Err("视频文件路径为空".to_owned());
    }
    Ok(())
}

pub open spec fn enqueue_insert_spec(video_id: i64, language: Seq<char>) -> Seq<char> {
    "INSERT INTO asr_tasks (video_id, status, asr_provider_id, language) VALUES ("@
        + crate::text::int_text(video_id as int) + ", 'queued', 'queue', "@ + crate::workspaces::quoted(
        language,
    ) + ")"@
}

/// The record of a queued task.
pub fn enqueue_insert_sql(video_id: i64, language: &str) -> (r: String)
    ensures
        r@ == enqueue_insert_spec(video_id, language@),
{
    let mut b: Vec<char> = Vec::new();
    push_str(&mut b, "INSERT INTO asr_tasks (video_id, status, asr_provider_id, language) VALUES (");
    crate::text::push_int(&mut b, video_id);
    push_str(&mut b, ", 'queued', 'queue', ");
    push_quoted(&mut b, language);
    push_str(&mut b, ")");
    string_of(&b)
}

pub open spec fn submitted_spec(task_id: i64, provider_id: Seq<char>, remote_task_id: Seq<char>) -> Seq<char> {
    "UPDATE asr_tasks SET status = 'processing', asr_provider_id = '"@ + provider_id + "', remote_task_id = "@
        + crate::workspaces::quoted(remote_task_id) + ", started_at = datetime('now') WHERE id = "@
        + crate::text::int_text(task_id as int)
}

/// A task accepted by the service, under the service's id.
pub fn submitted_sql(task_id: i64, provider_id: &str, remote_task_id: &str) -> (r: String)
    ensures
        r@ == submitted_spec(task_id, provider_id@, remote_task_id@),
{
    let mut b: Vec<char> = Vec::new();
    push_str(&mut b, "UPDATE asr_tasks SET status = 'processing', asr_provider_id = '");
    push_str(&mut b, provider_id);
    push_str(&mut b, "', remote_task_id = ");
    push_quoted(&mut b, remote_task_id);
    push_str(&mut b, ", started_at = datetime('now') WHERE id = ");
    crate::text::push_int(&mut b, task_id);
    string_of(&b)
}

/// A failed task with its message.
pub fn mark_failed_sql(task_id: i64, error: &str) -> (r: String)
    ensures
        r@ == "UPDATE asr_tasks SET status = 'failed', error_message = "@ + crate::workspaces::quoted(error@)
            + " WHERE id = "@ + crate::text::int_text(task_id as int),
{
    let mut b: Vec<char> = Vec::new();
    push_str(&mut b, "UPDATE asr_tasks SET status = 'failed', error_message = ");
    push_quoted(&mut b, error);
    push_str(&mut b, " WHERE id = ");
    crate::text::push_int(&mut b, task_id);
    string_of(&b)
}

/// A cancelled task.
pub fn mark_cancelled_sql(task_id: i64) -> (r: String)
    ensures
        r@ == "UPDATE asr_tasks SET status = 'cancelled' WHERE id = "@ + crate::text::int_text(task_id as int),
{
    let mut b: Vec<char> = Vec::new();
    push_str(&mut b, "UPDATE asr_tasks SET status = 'cancelled' WHERE id = ");
    crate::text::push_int(&mut b, task_id);
    string_of(&b)
}

/// The retries made of a task.
pub fn retry_count_sql(task_id: i64, retry_count: u32) -> (r: String)
    ensures
        r@ == "UPDATE asr_tasks SET retry_count = "@ + crate::text::digits_of(retry_count as nat) + " WHERE id = "@
            + crate::text::int_text(task_id as int),
{
    let mut b: Vec<char> = Vec::new();
    push_str(&mut b, "UPDATE asr_tasks SET retry_count = ");
    push_digits(&mut b, retry_count as u64);
    push_str(&mut b, " WHERE id = ");
    crate::text::push_int(&mut b, task_id);
    string_of(&b)
}

/// On start-up, tasks still marked running were cut off by the exit.
pub fn stale_tasks_sql() -> (r: String)
    ensures
        r@ == "UPDATE asr_tasks SET status = 'failed', error_message = '应用异常退出' WHERE status = 'processing'"@,
{
    "UPDATE asr_tasks SET status = 'failed', error_message = '应用异常退出' WHERE status = 'processing'".to_owned()
}

/// The queued tasks to put back, oldest first, with their videos.
pub fn queued_tasks_sql() -> (r: String)
    ensures
        r@ == "SELECT t.id, t.video_id, t.language, v.file_path, v.file_name FROM asr_tasks t LEFT JOIN videos v ON t.video_id = v.id WHERE t.status = 'queued' ORDER BY t.created_at ASC"@,
{
    "SELECT t.id, t.video_id, t.language, v.file_path, v.file_name FROM asr_tasks t LEFT JOIN videos v ON t.video_id = v.id WHERE t.status = 'queued' ORDER BY t.created_at ASC".to_owned()
}

} // verus!
