//! The scheduler: a priority queue of tasks with depth limit, deduplication and a bound on
//! the number of running tasks.
use vstd::prelude::*;

use crate::engine::graph::{lemma_task_index, set_task_status, store_task, task_index, task_lookup};
use crate::engine::task::{fingerprint_of, same_task, Task, TaskId, TaskStatus};
use crate::error::LlphaError;
use crate::text::str_eq;

verus! {

/// The order in which tasks leave the queue.
pub trait Scheduler {
    /// Offers a task; `Ok(true)` when it was queued.
    fn push(&mut self, task: Task) -> Result<bool, LlphaError>;

    /// Takes the next task to run, if any may run now.
    fn next(&mut self) -> Option<Task>;

    /// Records that a task succeeded.
    fn mark_succeeded(&mut self, task_id: TaskId);

    /// Records that a task failed.
    fn mark_failed(&mut self, task_id: TaskId);

    /// The number of tasks waiting to run.
    fn pending_len(&self) -> usize;

    /// The number of tasks running.
    fn running_len(&self) -> usize;
}

/// One queued task: its priority and its arrival number.
#[derive(Clone, Copy, Debug, PartialEq, Eq, Structural)]
pub struct QueueEntry {
    pub priority: i32,
    pub sequence: u64,
    pub task_id: TaskId,
}

/// `a` leaves the queue before `b`: a higher priority, or the same priority and an earlier
/// arrival.
pub open spec fn outranks(a: QueueEntry, b: QueueEntry) -> bool {
    a.priority > b.priority || (a.priority == b.priority && a.sequence < b.sequence)
}

/// The entry refers to a stored task that is still pending.
pub open spec fn is_pending(e: QueueEntry, ts: Seq<Task>) -> bool {
    task_lookup(ts, e.task_id) matches Some(t) && t.status == TaskStatus::Pending
}

/// Position `i` holds the first of the highest-ranked entries whose task is pending.
pub open spec fn is_best_pending(q: Seq<QueueEntry>, ts: Seq<Task>, i: int) -> bool {
    &&& 0 <= i < q.len()
    &&& is_pending(q[i], ts)
    &&& forall|j: int| 0 <= j < q.len() && is_pending(q[j], ts) ==> !outranks(q[j], q[i])
    &&& forall|j: int| 0 <= j < i && is_pending(q[j], ts) ==> outranks(q[i], q[j])
}

/// Position `j` leaves the queue no later than position `i`.
pub open spec fn leaves_before(q: Seq<QueueEntry>, i: int, j: int) -> bool {
    j == i || outranks(q[j], q[i]) || (j < i && !outranks(q[i], q[j]))
}

/// The entries among the first `k` that stay queued once position `i` has been taken.
pub open spec fn kept_prefix(q: Seq<QueueEntry>, i: int, k: int) -> Seq<QueueEntry>
    decreases k,
{
    if k <= 0 {
        Seq::empty()
    } else {
        let p = kept_prefix(q, i, k - 1);
        if leaves_before(q, i, k - 1) {
            p
        } else {
            p.push(q[k - 1])
        }
    }
}

/// The number of tasks with the given status.
pub open spec fn count_status(ts: Seq<Task>, st: TaskStatus) -> nat
    decreases ts.len(),
{
    if ts.len() == 0 {
        0
    } else {
        count_status(ts.drop_last(), st) + if ts.last().status == st {
            1nat
        } else {
            0nat
        }
    }
}

/// The ids after adding one that is not there yet.
pub open spec fn add_id(s: Seq<TaskId>, id: TaskId) -> Seq<TaskId> {
    if s.contains(id) {
        s
    } else {
        s.push(id)
    }
}

/// The ids after removing the first occurrence of one.
pub open spec fn remove_id(s: Seq<TaskId>, id: TaskId) -> Seq<TaskId> {
    match s.index_of_first(id) {
        Some(k) => s.remove(k),
        None => s,
    }
}

/// `x - y`, or zero when `y` is larger.
pub open spec fn saturating_diff(x: int, y: int) -> int {
    if x > y {
        x - y
    } else {
        0
    }
}

/// An in-memory scheduler: highest priority first, first come first served among equals;
/// tasks deeper than a limit or seen before (same fingerprint) are skipped; at most a given
/// number of tasks run at once.
#[derive(Clone, Debug)]
pub struct InMemoryScheduler {
    queue: Vec<QueueEntry>,
    tasks: Vec<Task>,
    seen: Vec<String>,
    running: Vec<TaskId>,
    sequence: u64,
    max_depth: usize,
    max_concurrency: usize,
}

impl InMemoryScheduler {
    /// The queued entries.
    pub closed spec fn queue_view(&self) -> Seq<QueueEntry> {
        self.queue@
    }

    /// Every task offered so far, under its id.
    pub closed spec fn tasks_view(&self) -> Seq<Task> {
        self.tasks@
    }

    /// The fingerprints of the tasks queued so far.
    pub closed spec fn seen_view(&self) -> Seq<Seq<char>> {
        self.seen@.map_values(|s: String| s@)
    }

    /// The ids of the running tasks.
    pub closed spec fn running_view(&self) -> Seq<TaskId> {
        self.running@
    }

    /// The arrival number of the last queued task.
    pub closed spec fn sequence_view(&self) -> u64 {
        self.sequence
    }

    /// The deepest task that is still queued.
    pub closed spec fn max_depth_view(&self) -> usize {
        self.max_depth
    }

    /// The most tasks that may run at once.
    pub closed spec fn max_concurrency_view(&self) -> usize {
        self.max_concurrency
    }

    /// An empty scheduler with depth limit 3 and one task at a time.
    pub fn new() -> (s: Self)
        ensures
            s.queue_view().len() == 0,
            s.tasks_view().len() == 0,
            s.seen_view().len() == 0,
            s.running_view().len() == 0,
            s.sequence_view() == 0,
            s.max_depth_view() == 3,
            s.max_concurrency_view() == 1,
    {
        let s = InMemoryScheduler {
            queue: Vec::new(),
            tasks: Vec::new(),
            seen: Vec::new(),
            running: Vec::new(),
            sequence: 0,
            max_depth: 3,
            max_concurrency: 1,
        };
        assert(s.seen_view() =~= Seq::<Seq<char>>::empty());
        s
    }

    /// Sets the depth limit.
    pub fn with_max_depth(self, max_depth: usize) -> (s: Self)
        ensures
            s.max_depth_view() == max_depth,
            s.max_concurrency_view() == self.max_concurrency_view(),
            s.queue_view() == self.queue_view(),
            s.tasks_view() == self.tasks_view(),
            s.seen_view() == self.seen_view(),
            s.running_view() == self.running_view(),
            s.sequence_view() == self.sequence_view(),
    {
        InMemoryScheduler { max_depth, ..self }
    }

    /// Sets how many tasks may run at once (at least one).
    pub fn with_max_concurrency(self, max_concurrency: usize) -> (s: Self)
        ensures
            s.max_concurrency_view() == if max_concurrency == 0 {
                1
            } else {
                max_concurrency
            },
            s.max_depth_view() == self.max_depth_view(),
            s.queue_view() == self.queue_view(),
            s.tasks_view() == self.tasks_view(),
            s.seen_view() == self.seen_view(),
            s.running_view() == self.running_view(),
            s.sequence_view() == self.sequence_view(),
    {
        let m = if max_concurrency == 0 {
            1
        } else {
            max_concurrency
        };
        InMemoryScheduler { max_concurrency: m, ..self }
    }

    /// How many tasks may run at once.
    pub fn max_concurrency(&self) -> (n: usize)
        ensures
            n == self.max_concurrency_view(),
    {
        self.max_concurrency
    }

    /// How many more tasks may start now.
    pub fn available_slots(&self) -> (n: usize)
        ensures
            n == saturating_diff(self.max_concurrency_view() as int, self.running_view().len() as int),
    {
        if self.max_concurrency > self.running.len() {
            self.max_concurrency - self.running.len()
        } else {
            0
        }
    }

    fn find_task(&self, id: TaskId) -> (r: Option<usize>)
        ensures
            r matches Some(i) ==> task_index(self.tasks_view(), id, 0) == Some(i as int),
            r is None ==> task_index(self.tasks_view(), id, 0) is None,
    {
        let mut i: usize = 0;
        while i < self.tasks.len()
            invariant
                i <= self.tasks@.len(),
                task_index(self.tasks@, id, 0) == task_index(self.tasks@, id, i as int),
            decreases self.tasks@.len() - i,
        {
            if self.tasks[i].id == id {
                return Some(i);
            }
            i = i + 1;
        }
        None
    }

    /// The status of a task, if it was ever offered.
    pub fn status(&self, task_id: TaskId) -> (r: Option<TaskStatus>)
        ensures
            r == (match task_lookup(self.tasks_view(), task_id) {
                Some(t) => Some(t.status),
                None => None,
            }),
    {
        proof {
            lemma_task_index(self.tasks@, task_id, 0);
        }
        match self.find_task(task_id) {
            Some(i) => Some(self.tasks[i].status),
            None => None,
        }
    }

    fn entry_is_pending(&self, e: QueueEntry) -> (b: bool)
        ensures
            b == is_pending(e, self.tasks_view()),
    {
        match self.status(e.task_id) {
            Some(st) => st == TaskStatus::Pending,
            None => false,
        }
    }

    fn seen_contains(&self, fp: &str) -> (b: bool)
        ensures
            b == self.seen_view().contains(fp@),
    {
        let mut i: usize = 0;
        while i < self.seen.len()
            invariant
                i <= self.seen@.len(),
                self.seen_view().len() == self.seen@.len(),
                forall|j: int| 0 <= j < i ==> self.seen_view()[j] != fp@,
            decreases self.seen@.len() - i,
        {
            assert(self.seen_view()[i as int] == self.seen@[i as int]@);
            if str_eq(self.seen[i].as_str(), fp) {
                return true;
            }
            i = i + 1;
        }
        false
    }

    fn store(&mut self, task: Task)
        ensures
            final(self).tasks_view() == store_task(old(self).tasks_view(), task),
            final(self).queue_view() == old(self).queue_view(),
            final(self).seen_view() == old(self).seen_view(),
            final(self).running_view() == old(self).running_view(),
            final(self).sequence_view() == old(self).sequence_view(),
            final(self).max_depth_view() == old(self).max_depth_view(),
            final(self).max_concurrency_view() == old(self).max_concurrency_view(),
    {
        proof {
            lemma_task_index(self.tasks@, task.id, 0);
        }
        match self.find_task(task.id) {
            Some(i) => {
                self.tasks.set(i, task);
            },
            None => {
                self.tasks.push(task);
            },
        }
    }

    fn set_status_of(&mut self, id: TaskId, status: TaskStatus)
        ensures
            final(self).tasks_view() == set_task_status(old(self).tasks_view(), id, status),
            final(self).queue_view() == old(self).queue_view(),
            final(self).seen_view() == old(self).seen_view(),
            final(self).running_view() == old(self).running_view(),
            final(self).sequence_view() == old(self).sequence_view(),
            final(self).max_depth_view() == old(self).max_depth_view(),
            final(self).max_concurrency_view() == old(self).max_concurrency_view(),
    {
        let ghost s0 = self.tasks@;
        proof {
            lemma_task_index(s0, id, 0);
        }
        match self.find_task(id) {
            Some(i) => {
                let mut t = self.tasks.remove(i);
                t.status = status;
                let ghost t1 = t;
                self.tasks.insert(i, t);
                assert(self.tasks@ =~= s0.update(i as int, t1));
            },
            None => {},
        }
    }

    fn remove_running(&mut self, id: TaskId)
        ensures
            final(self).running_view() == remove_id(old(self).running_view(), id),
            final(self).tasks_view() == old(self).tasks_view(),
            final(self).queue_view() == old(self).queue_view(),
            final(self).seen_view() == old(self).seen_view(),
            final(self).sequence_view() == old(self).sequence_view(),
            final(self).max_depth_view() == old(self).max_depth_view(),
            final(self).max_concurrency_view() == old(self).max_concurrency_view(),
    {
        let mut i: usize = 0;
        while i < self.running.len()
            invariant
                i <= self.running@.len(),
                self == old(self),
                forall|j: int| 0 <= j < i ==> self.running@[j] != id,
            decreases self.running@.len() - i,
        {
            if self.running[i] == id {
                proof {
                    let s = self.running@;
                    s.index_of_first_ensures(id);
                    assert(s.contains(id));
                    assert(s.index_of_first(id) == Some(i as int));
                }
                self.running.remove(i);
                return ;
            }
            i = i + 1;
        }
        proof {
            self.running@.index_of_first_ensures(id);
        }
    }

    fn add_running(&mut self, id: TaskId)
        ensures
            final(self).running_view() == add_id(old(self).running_view(), id),
            final(self).tasks_view() == old(self).tasks_view(),
            final(self).queue_view() == old(self).queue_view(),
            final(self).seen_view() == old(self).seen_view(),
            final(self).sequence_view() == old(self).sequence_view(),
            final(self).max_depth_view() == old(self).max_depth_view(),
            final(self).max_concurrency_view() == old(self).max_concurrency_view(),
    {
        let mut i: usize = 0;
        while i < self.running.len()
            invariant
                i <= self.running@.len(),
                forall|j: int| 0 <= j < i ==> self.running@[j] != id,
            decreases self.running@.len() - i,
        {
            if self.running[i] == id {
                assert(self.running@.contains(id));
                return ;
            }
            i = i + 1;
        }
        assert(!self.running@.contains(id));
        self.running.push(id);
    }

    /// Position of the first highest-ranked entry whose task is pending.
    fn best_pending(&self) -> (r: Option<usize>)
        ensures
            r matches Some(i) ==> is_best_pending(self.queue_view(), self.tasks_view(), i as int),
            r is None ==> forall|j: int|
                0 <= j < self.queue_view().len() ==> !is_pending(
                    self.queue_view()[j],
                    self.tasks_view(),
                ),
    {
        let ghost q = self.queue@;
        let ghost ts = self.tasks@;
        let mut best: Option<usize> = None;
        let mut k: usize = 0;
        while k < self.queue.len()
            invariant
                k <= q.len(),
                q == self.queue@,
                ts == self.tasks@,
                best matches Some(c) ==> {
                    &&& c < k
                    &&& is_pending(q[c as int], ts)
                    &&& forall|j: int| 0 <= j < k && is_pending(q[j], ts) ==> !outranks(q[j], q[c as int])
                    &&& forall|j: int| 0 <= j < c && is_pending(q[j], ts) ==> outranks(q[c as int], q[j])
                },
                best is None ==> forall|j: int| 0 <= j < k ==> !is_pending(q[j], ts),
            decreases q.len() - k,
        {
            let e = self.queue[k];
            if self.entry_is_pending(e) {
                let better = match best {
                    None => true,
                    Some(c) => {
                        let b = self.queue[c];
                        e.priority > b.priority || (e.priority == b.priority && e.sequence
                            < b.sequence)
                    },
                };
                if better {
                    best = Some(k);
                }
            }
            k = k + 1;
        }
        best
    }

    /// The queue without the entries that leave it up to and including position `i`.
    fn drop_popped(&mut self, i: usize)
        requires
            i < old(self).queue_view().len(),
        ensures
            final(self).queue_view() == kept_prefix(
                old(self).queue_view(),
                i as int,
                old(self).queue_view().len() as int,
            ),
            final(self).tasks_view() == old(self).tasks_view(),
            final(self).seen_view() == old(self).seen_view(),
            final(self).running_view() == old(self).running_view(),
            final(self).sequence_view() == old(self).sequence_view(),
            final(self).max_depth_view() == old(self).max_depth_view(),
            final(self).max_concurrency_view() == old(self).max_concurrency_view(),
    {
        let ghost q = self.queue@;
        let chosen = self.queue[i];
        let mut kept: Vec<QueueEntry> = Vec::new();
        let mut k: usize = 0;
        while k < self.queue.len()
            invariant
                k <= q.len(),
                i < q.len(),
                q == self.queue@,
                chosen == q[i as int],
                kept@ == kept_prefix(q, i as int, k as int),
            decreases q.len() - k,
        {
            let e = self.queue[k];
            let leaves = k == i || (e.priority > chosen.priority || (e.priority == chosen.priority
                && e.sequence < chosen.sequence)) || (k < i && !(chosen.priority > e.priority || (
            chosen.priority == e.priority && chosen.sequence < e.sequence)));
            if !leaves {
                kept.push(e);
            }
            k = k + 1;
        }
        self.queue = kept;
    }
}

impl Scheduler for InMemoryScheduler {
    /// Queues a task unless it is deeper than the limit or its fingerprint was queued before;
    /// a refused task is kept as skipped. Never fails.
    fn push(&mut self, task: Task) -> (r: Result<bool, LlphaError>)
        ensures
            ({
                let accepted = task.depth <= old(self).max_depth_view() && !old(
                    self,
                ).seen_view().contains(fingerprint_of(task));
                let status = if accepted {
                    TaskStatus::Pending
                } else {
                    TaskStatus::Skipped
                };
                let seq = if old(self).sequence_view() == u64::MAX {
                    u64::MAX
                } else {
                    (old(self).sequence_view() + 1) as u64
                };
                &&& r == Ok::<bool, LlphaError>(accepted)
                &&& final(self).tasks_view() == store_task(
                    old(self).tasks_view(),
                    Task { status, ..task },
                )
                &&& final(self).seen_view() == if task.depth <= old(self).max_depth_view()
                    && !old(self).seen_view().contains(fingerprint_of(task)) {
                    old(self).seen_view().push(fingerprint_of(task))
                } else {
                    old(self).seen_view()
                }
                &&& final(self).queue_view() == if accepted {
                    old(self).queue_view().push(
                        QueueEntry { priority: task.priority, sequence: seq, task_id: task.id },
                    )
                } else {
                    old(self).queue_view()
                }
                &&& final(self).sequence_view() == if accepted {
                    seq
                } else {
                    old(self).sequence_view()
                }
            }),
            final(self).running_view() == old(self).running_view(),
            final(self).max_depth_view() == old(self).max_depth_view(),
            final(self).max_concurrency_view() == old(self).max_concurrency_view(),
    {
        let mut task = task;
        if task.depth > self.max_depth {
            task.status = TaskStatus::Skipped;
            self.store(task);
            return Ok(false);
        }
        let fp = task.fingerprint();
        if self.seen_contains(fp.as_str()) {
            task.status = TaskStatus::Skipped;
            self.store(task);
            return Ok(false);
        }
        let ghost seen0 = self.seen_view();
        let ghost fpv = fp@;
        self.seen.push(fp);
        assert(self.seen_view() =~= seen0.push(fpv));
        task.status = TaskStatus::Pending;
        self.sequence = self.sequence.saturating_add(1);
        self.queue.push(QueueEntry { priority: task.priority, sequence: self.sequence, task_id: task.id });
        self.store(task);
        Ok(true)
    }

    /// Takes the first highest-priority pending task and marks it running, when fewer tasks
    /// run than allowed; the entries that leave the queue before it are dropped, and with no
    /// pending task the queue is emptied.
    fn next(&mut self) -> (r: Option<Task>)
        ensures
            old(self).running_view().len() >= old(self).max_concurrency_view() ==> r is None
                && *final(self) == *old(self),
            old(self).running_view().len() < old(self).max_concurrency_view() ==> {
                let q = old(self).queue_view();
                let ts = old(self).tasks_view();
                match r {
                    None => {
                        &&& forall|j: int| 0 <= j < q.len() ==> !is_pending(q[j], ts)
                        &&& final(self).queue_view().len() == 0
                        &&& final(self).tasks_view() == ts
                        &&& final(self).running_view() == old(self).running_view()
                    },
                    Some(t) => exists|i: int|
                        {
                            &&& is_best_pending(q, ts, i)
                            &&& t.id == q[i].task_id
                            &&& final(self).queue_view() == kept_prefix(q, i, q.len() as int)
                            &&& final(self).tasks_view() == set_task_status(
                                ts,
                                t.id,
                                TaskStatus::Running,
                            )
                            &&& task_lookup(final(self).tasks_view(), t.id) matches Some(u)
                                && same_task(t, u)
                            &&& final(self).running_view() == add_id(old(self).running_view(), t.id)
                        },
                }
            },
            old(self).running_view().len() < old(self).max_concurrency_view()
                ==> final(self).running_view().len() <= old(self).max_concurrency_view(),
            final(self).seen_view() == old(self).seen_view(),
            final(self).sequence_view() == old(self).sequence_view(),
            final(self).max_depth_view() == old(self).max_depth_view(),
            final(self).max_concurrency_view() == old(self).max_concurrency_view(),
    {
        if self.available_slots() == 0 {
            return None;
        }
        let ghost q = self.queue_view();
        let ghost ts = self.tasks_view();
        match self.best_pending() {
            None => {
                self.queue = Vec::new();
                None
            },
            Some(i) => {
                assert(is_best_pending(q, ts, i as int));
                let id = self.queue[i].task_id;
                self.drop_popped(i);
                self.set_status_of(id, TaskStatus::Running);
                self.add_running(id);
                proof {
                    lemma_task_index(ts, id, 0);
                    lemma_task_index(self.tasks@, id, 0);
                    let k0 = task_index(ts, id, 0)->0;
                    assert(self.tasks@[k0].id == id);
                }
                let j = self.find_task(id);
                match j {
                    Some(j) => {
                        let t = self.tasks[j].clone_task();
                        assert(is_best_pending(q, ts, i as int));
                        Some(t)
                    },
                    None => {
                        assert(false);
                        None
                    },
                }
            },
        }
    }

    /// Frees the task's slot and marks it succeeded.
    fn mark_succeeded(&mut self, task_id: TaskId)
        ensures
            final(self).running_view() == remove_id(old(self).running_view(), task_id),
            final(self).tasks_view() == set_task_status(
                old(self).tasks_view(),
                task_id,
                TaskStatus::Succeeded,
            ),
            final(self).queue_view() == old(self).queue_view(),
            final(self).seen_view() == old(self).seen_view(),
            final(self).sequence_view() == old(self).sequence_view(),
            final(self).max_depth_view() == old(self).max_depth_view(),
            final(self).max_concurrency_view() == old(self).max_concurrency_view(),
    {
        self.remove_running(task_id);
        self.set_status_of(task_id, TaskStatus::Succeeded);
    }

    /// Frees the task's slot and marks it failed.
    fn mark_failed(&mut self, task_id: TaskId)
        ensures
            final(self).running_view() == remove_id(old(self).running_view(), task_id),
            final(self).tasks_view() == set_task_status(
                old(self).tasks_view(),
                task_id,
                TaskStatus::Failed,
            ),
            final(self).queue_view() == old(self).queue_view(),
            final(self).seen_view() == old(self).seen_view(),
            final(self).sequence_view() == old(self).sequence_view(),
            final(self).max_depth_view() == old(self).max_depth_view(),
            final(self).max_concurrency_view() == old(self).max_concurrency_view(),
    {
        self.remove_running(task_id);
        self.set_status_of(task_id, TaskStatus::Failed);
    }

    /// The number of pending tasks.
    fn pending_len(&self) -> (n: usize)
        ensures
            n == count_status(self.tasks_view(), TaskStatus::Pending),
    {
        let mut n: usize = 0;
        let mut i: usize = 0;
        while i < self.tasks.len()
            invariant
                i <= self.tasks@.len(),
                n == count_status(self.tasks@.take(i as int), TaskStatus::Pending),
                n <= i,
            decreases self.tasks@.len() - i,
        {
            assert(self.tasks@.take(i as int + 1).drop_last() =~= self.tasks@.take(i as int));
            if self.tasks[i].status == TaskStatus::Pending {
                n = n + 1;
            }
            i = i + 1;
        }
        assert(self.tasks@.take(self.tasks@.len() as int) =~= self.tasks@);
        n
    }

    /// The number of running tasks.
    fn running_len(&self) -> (n: usize)
        ensures
            n == self.running_view().len(),
    {
        self.running.len()
    }
}

impl Default for InMemoryScheduler {
    /// An empty scheduler with depth limit 3 and one task at a time.
    fn default() -> (s: Self)
        ensures
            s.queue_view().len() == 0,
            s.tasks_view().len() == 0,
            s.seen_view().len() == 0,
            s.running_view().len() == 0,
            s.sequence_view() == 0,
            s.max_depth_view() == 3,
            s.max_concurrency_view() == 1,
    {
        InMemoryScheduler::new()
    }
}

} // verus!
