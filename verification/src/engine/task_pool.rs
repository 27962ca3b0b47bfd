//! A pool that runs work items with bounded concurrency, and the report of a run.
use std::time::Duration;
use vstd::prelude::*;

use crate::text::{push_str, string_of};

verus! {

/// How many items may run at once, and how long to wait between two starts.
#[derive(Clone, Copy, Debug)]
pub struct TaskPool {
    max_concurrency: usize,
    start_interval: Option<Duration>,
}

impl TaskPool {
    /// The most items running at once.
    pub closed spec fn concurrency(&self) -> usize {
        self.max_concurrency
    }

    /// The pause before each start.
    pub closed spec fn interval(&self) -> Option<Duration> {
        self.start_interval
    }

    /// A pool running up to `max_concurrency` items at once (at least one), without pauses.
    pub fn new(max_concurrency: usize) -> (p: Self)
        ensures
            p.concurrency() == if max_concurrency == 0 {
                1
            } else {
                max_concurrency
            },
            p.interval() is None,
    {
        TaskPool {
            max_concurrency: if max_concurrency == 0 {
                1
            } else {
                max_concurrency
            },
            start_interval: None,
        }
    }

    /// Sets the pause before each start.
    pub fn with_start_interval(self, start_interval: Duration) -> (p: Self)
        ensures
            p.concurrency() == self.concurrency(),
            p.interval() == Some(start_interval),
    {
        TaskPool { start_interval: Some(start_interval), ..self }
    }

    /// The most items running at once.
    pub fn max_concurrency(&self) -> (n: usize)
        ensures
            n == self.concurrency(),
    {
        self.max_concurrency
    }

    /// The pause before each start.
    pub fn start_interval(&self) -> (d: Option<Duration>)
        ensures
            d == self.interval(),
    {
        self.start_interval
    }

    /// Whether another item may start while `running` items run.
    pub fn may_start(&self, running: usize) -> (b: bool)
        ensures
            b == (running < self.concurrency()),
    {
        running < self.max_concurrency
    }
}

impl Default for TaskPool {
    /// One item at a time.
    fn default() -> (p: Self)
        ensures
            p.concurrency() == 1,
            p.interval() is None,
    {
        TaskPool::new(1)
    }
}

/// The outcome of a run: the values of the items that succeeded and the messages of those
/// that failed, in the order in which they finished.
#[derive(Clone, Debug, PartialEq, Eq)]
pub struct TaskPoolReport<T> {
    pub successes: Vec<T>,
    pub failures: Vec<String>,
}

/// Lines joined by line breaks.
pub open spec fn joined_lines(ls: Seq<Seq<char>>) -> Seq<char>
    decreases ls.len(),
{
    if ls.len() == 0 {
        Seq::empty()
    } else if ls.len() == 1 {
        ls[0]
    } else {
        joined_lines(ls.drop_last()) + "\n"@ + ls.last()
    }
}

/// `b` stands somewhere in `t`.
pub open spec fn occurs_in(b: Seq<char>, t: Seq<char>) -> bool {
    exists|off: int| 0 <= off && off + b.len() <= t.len() && #[trigger] t.subrange(off, off + b.len()) == b
}

proof fn lemma_joined_ends(ls: Seq<Seq<char>>)
    requires
        ls.len() >= 1,
    ensures
        joined_lines(ls).len() >= ls.last().len(),
        joined_lines(ls).subrange(joined_lines(ls).len() - ls.last().len(), joined_lines(ls).len() as int)
            == ls.last(),
{
    reveal_strlit("\n");
    let t = joined_lines(ls);
    assert(t.subrange(t.len() - ls.last().len(), t.len() as int) =~= ls.last());
}

/// Lines joined by line breaks keep every line, in order: each line stands in the text, and
/// each line is followed by a line break and the next one.
pub proof fn law_joined_lines_keep_every_line(ls: Seq<Seq<char>>)
    ensures
        ls.len() == 0 ==> joined_lines(ls).len() == 0,
        forall|i: int| 0 <= i < ls.len() ==> occurs_in(#[trigger] ls[i], joined_lines(ls)),
        forall|i: int|
            0 <= i && i + 1 < ls.len() ==> occurs_in(#[trigger] ls[i] + "\n"@ + ls[i + 1], joined_lines(ls)),
    decreases ls.len(),
{
    reveal_strlit("\n");
    if ls.len() > 0 {
        let p = ls.drop_last();
        law_joined_lines_keep_every_line(p);
        let t = joined_lines(ls);
        let prev = joined_lines(p);
        let last = ls.last();
        if ls.len() == 1 {
            assert(t == last);
        } else {
            assert(t == prev + "\n"@ + last);
        }
        assert forall|i: int| 0 <= i < ls.len() implies occurs_in(#[trigger] ls[i], t) by {
            let b = ls[i];
            if i == ls.len() - 1 {
                let off: int = t.len() - b.len();
                assert(t.subrange(off, off + b.len()) =~= b);
            } else {
                assert(b == p[i]);
                assert(occurs_in(b, prev));
                let off = choose|off: int| 0 <= off && off + b.len() <= prev.len() && #[trigger] prev.subrange(
                    off,
                    off + b.len(),
                ) == b;
                assert(t.subrange(off, off + b.len()) =~= prev.subrange(off, off + b.len()));
            }
        }
        assert forall|i: int| 0 <= i && i + 1 < ls.len() implies occurs_in(#[trigger] ls[i] + "\n"@ + ls[i + 1], t) by {
            let b = ls[i] + "\n"@ + ls[i + 1];
            assert(ls[i] == p[i]);
            if i + 1 == ls.len() - 1 {
                lemma_joined_ends(p);
                let off: int = prev.len() - ls[i].len();
                assert(prev.subrange(off, prev.len() as int) == ls[i]);
                assert(t.subrange(off, off + b.len()) =~= b);
            } else {
                assert(ls[i + 1] == p[i + 1]);
                assert(occurs_in(b, prev));
                let off = choose|off: int| 0 <= off && off + b.len() <= prev.len() && #[trigger] prev.subrange(
                    off,
                    off + b.len(),
                ) == b;
                assert(t.subrange(off, off + b.len()) =~= prev.subrange(off, off + b.len()));
            }
        }
    }
}

/// The message of a run in which some items failed.
pub open spec fn failures_message(fs: Seq<Seq<char>>) -> Seq<char> {
    "部分任务执行失败:\n"@ + joined_lines(fs)
}

impl<T> TaskPoolReport<T> {
    /// An empty report.
    pub fn new() -> (r: Self)
        ensures
            r.successes@.len() == 0,
            r.failures@.len() == 0,
    {
        TaskPoolReport { successes: Vec::new(), failures: Vec::new() }
    }

    /// Records a success.
    pub fn record_success(&mut self, value: T)
        ensures
            final(self).successes@ == old(self).successes@.push(value),
            final(self).failures@ == old(self).failures@,
    {
        self.successes.push(value);
    }

    /// Records a failure.
    pub fn record_failure(&mut self, message: String)
        ensures
            final(self).successes@ == old(self).successes@,
            final(self).failures@ == old(self).failures@.push(message),
    {
        self.failures.push(message);
    }

    /// Whether no item failed.
    pub fn is_success(&self) -> (b: bool)
        ensures
            b == (self.failures@.len() == 0),
    {
        self.failures.len() == 0
    }

    /// The successes when nothing failed; otherwise a message listing every failure, one per
    /// line.
    pub fn into_successes(self) -> (r: Result<Vec<T>, String>)
        ensures
            self.failures@.len() == 0 ==> r == Ok::<Vec<T>, String>(self.successes),
            self.failures@.len() > 0 ==> (r matches Err(m) && m@ == failures_message(
                self.failures@.map_values(|s: String| s@),
            )),
    {
        if self.failures.len() == 0 {
            return Ok(self.successes);
        }
        let ghost fs = self.failures@.map_values(|s: String| s@);
        let mut out: Vec<char> = Vec::new();
        push_str(&mut out, "部分任务执行失败:\n");
        let ghost head = out@;
        let mut i: usize = 0;
        while i < self.failures.len()
            invariant
                i <= self.failures@.len(),
                fs == self.failures@.map_values(|s: String| s@),
                out@ == head + joined_lines(fs.take(i as int)),
            decreases self.failures@.len() - i,
        {
            assert(fs.take(i + 1).drop_last() =~= fs.take(i as int));
            if i > 0 {
                push_str(&mut out, "\n");
            }
            push_str(&mut out, self.failures[i].as_str());
            i = i + 1;
            assert(i == 1 ==> fs.take(1) =~= seq![fs[0]]);
            assert(out@ =~= head + joined_lines(fs.take(i as int)));
        }
        assert(fs.take(i as int) =~= fs);
        Err(string_of(&out))
    }
}

} // verus!
