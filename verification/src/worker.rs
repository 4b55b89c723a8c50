//! The queue of a connection's worker: the one place through which the
//! blocking calls of a connection pass, in the order in which they were
//! handed in.
//!
//! The thread that runs the jobs lives outside; it takes each job from this
//! queue. There is no way to take a job out but from the front, so a caller
//! that loses interest cannot keep a job from running.

use std::collections::VecDeque;
use vstd::prelude::*;
use crate::error::Error;

verus! {

/// A worker's queue as contracts see it.
pub struct QueueView<T> {
    /// The jobs handed in and not yet taken, oldest first.
    pub pending: Seq<T>,
    /// Whether the worker still takes jobs.
    pub open: bool,
}

/// The queue after `job` was handed in: behind all others, or not at all once
/// the worker is gone.
pub open spec fn after_submit<T>(v: QueueView<T>, job: T) -> QueueView<T> {
    if v.open {
        QueueView { pending: v.pending.push(job), ..v }
    } else {
        v
    }
}

/// The queue after the worker took a job: the oldest one is gone.
pub open spec fn after_take<T>(v: QueueView<T>) -> QueueView<T> {
    if v.pending.len() > 0 {
        QueueView { pending: v.pending.drop_first(), ..v }
    } else {
        v
    }
}

/// The job that the worker takes next: the oldest one.
pub open spec fn next_job<T>(v: QueueView<T>) -> Option<T> {
    if v.pending.len() > 0 {
        Some(v.pending[0])
    } else {
        None
    }
}

/// The queue after the worker has gone: nothing pending, nothing accepted.
pub open spec fn after_shut_down<T>(v: QueueView<T>) -> QueueView<T> {
    QueueView { pending: Seq::empty(), open: false }
}

/// The queue after each of `jobs` was handed in, in that order.
pub open spec fn after_submit_all<T>(v: QueueView<T>, jobs: Seq<T>) -> QueueView<T>
    decreases jobs.len(),
{
    if jobs.len() == 0 {
        v
    } else {
        after_submit(after_submit_all(v, jobs.drop_last()), jobs.last())
    }
}

/// The jobs that the worker gets with its next `count` takes, in the order in
/// which it gets them.
pub open spec fn taken<T>(v: QueueView<T>, count: nat) -> Seq<T>
    decreases count,
{
    if count == 0 || v.pending.len() == 0 {
        Seq::empty()
    } else {
        seq![v.pending[0]] + taken(after_take(v), (count - 1) as nat)
    }
}

/// The worker gets the pending jobs from the front, one after the other.
pub proof fn lemma_taken_is_prefix<T>(v: QueueView<T>, count: nat)
    ensures
        taken(v, count) == if count <= v.pending.len() {
            v.pending.take(count as int)
        } else {
            v.pending
        },
    decreases count,
{
    if count == 0 || v.pending.len() == 0 {
        assert(taken(v, count) =~= v.pending.take(0));
    } else {
        lemma_taken_is_prefix(after_take(v), (count - 1) as nat);
        let rest = v.pending.drop_first();
        if count <= v.pending.len() {
            assert(seq![v.pending[0]] + rest.take(count - 1) =~= v.pending.take(count as int));
        } else {
            assert(seq![v.pending[0]] + rest =~= v.pending);
        }
    }
}

/// Jobs handed to an open queue line up behind those that were pending, in the
/// order in which they were handed in.
pub proof fn lemma_submit_all_appends<T>(v: QueueView<T>, jobs: Seq<T>)
    requires
        v.open,
    ensures
        after_submit_all(v, jobs) == (QueueView { pending: v.pending + jobs, open: true }),
    decreases jobs.len(),
{
    if jobs.len() == 0 {
        assert(v.pending + jobs =~= v.pending);
    } else {
        lemma_submit_all_appends(v, jobs.drop_last());
        assert((v.pending + jobs.drop_last()).push(jobs.last()) =~= v.pending + jobs);
    }
}

/// First in, first out: whatever jobs are handed to an open queue, and by
/// whom, the worker gets the jobs that were pending and then these, each in
/// the order in which it was handed in, with none left out and none twice.
pub proof fn lemma_jobs_run_in_submission_order<T>(v: QueueView<T>, jobs: Seq<T>, count: nat)
    requires
        v.open,
        count <= v.pending.len() + jobs.len(),
    ensures
        taken(after_submit_all(v, jobs), count) == (v.pending + jobs).take(count as int),
{
    lemma_submit_all_appends(v, jobs);
    lemma_taken_is_prefix(after_submit_all(v, jobs), count);
}

/// Once the worker has gone, every job handed in is refused, and nothing is
/// ever taken again.
pub proof fn lemma_closed_queue_stays_empty<T>(v: QueueView<T>, jobs: Seq<T>, count: nat)
    ensures
        after_submit_all(after_shut_down(v), jobs) == after_shut_down(v),
        taken(after_submit_all(after_shut_down(v), jobs), count) == Seq::<T>::empty(),
    decreases jobs.len(),
{
    if jobs.len() > 0 {
        lemma_closed_queue_stays_empty(v, jobs.drop_last(), count);
    }
}

/// The queue of one connection's worker.
pub struct WorkQueue<T> {
    pending: VecDeque<T>,
    open: bool,
}

impl<T> View for WorkQueue<T> {
    type V = QueueView<T>;

    closed spec fn view(&self) -> QueueView<T> {
        QueueView { pending: self.pending@, open: self.open }
    }
}

impl<T> WorkQueue<T> {
    /// An empty queue whose worker is running.
    pub fn new() -> (queue: WorkQueue<T>)
        ensures
            queue@ == (QueueView { pending: Seq::<T>::empty(), open: true }),
    {
        WorkQueue { pending: VecDeque::new(), open: true }
    }

    /// Whether the worker still takes jobs.
    pub fn is_open(&self) -> (open: bool)
        ensures
            open == self@.open,
    {
        self.open
    }

    /// The number of jobs handed in and not yet taken.
    pub fn len(&self) -> (count: usize)
        ensures
            count == self@.pending.len(),
    {
        self.pending.len()
    }

    /// Hands in a job. It goes behind all pending ones. Once the worker has
    /// gone the job is refused and the queue stays as it is.
    pub fn submit(&mut self, job: T) -> (result: Result<(), Error>)
        ensures
            final(self)@ == after_submit(old(self)@, job),
            result == if old(self)@.open {
                Ok::<(), Error>(())
            } else {
                Err::<(), Error>(Error::WorkerUnavailable)
            },
    {
        if self.open {
            self.pending.push_back(job);
            Ok(())
        } else {
            Err(Error::WorkerUnavailable)
        }
    }

    /// The worker takes its next job: the oldest pending one.
    pub fn take(&mut self) -> (job: Option<T>)
        ensures
            final(self)@ == after_take(old(self)@),
            job == next_job(old(self)@),
    {
        let job = self.pending.pop_front();
        proof {
            if old(self)@.pending.len() > 0 {
                assert(self.pending@ =~= old(self)@.pending.drop_first());
            } else {
                assert(self.pending@ =~= old(self)@.pending);
            }
        }
        job
    }

    /// The worker has gone. The jobs that were pending are handed back, oldest
    /// first, so that each of their callers can be told; from now on every
    /// job is refused.
    pub fn shut_down(&mut self) -> (unserved: VecDeque<T>)
        ensures
            final(self)@ == after_shut_down(old(self)@),
            unserved@ == old(self)@.pending,
    {
        self.open = false;
        let mut unserved: VecDeque<T> = VecDeque::new();
        unserved.append(&mut self.pending);
        proof {
            assert(unserved@ =~= old(self)@.pending);
            assert(self.pending@ =~= Seq::<T>::empty());
        }
        unserved
    }
}

} // verus!
