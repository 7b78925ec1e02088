//! The work queue: one hand-off structure between the submitters and the
//! workers. Jobs leave in the order in which they came in, each to exactly one
//! receiver. The queue never blocks: where a blocking channel would put the
//! caller to sleep, `recv` answers `Received::Empty` and the caller waits.

use std::collections::VecDeque;
use vstd::prelude::*;

verus! {

/// What a queue is, seen from outside.
pub struct QueueView<J> {
    /// The jobs that wait for a worker, oldest first.
    pub pending: Seq<J>,
    /// Whether the producer handle is still live.
    pub open: bool,
    /// How many consumer handles are live.
    pub consumers: nat,
}

/// The answer of the queue to a receive attempt.
pub enum Received<J> {
    /// The oldest waiting job, now owned by the receiver.
    Job(J),
    /// The producer handle is gone and nothing is left to deliver.
    Closed,
    /// Nothing waits, but the producer may still send: the receiver blocks.
    Empty,
}

/// A first-in first-out queue of jobs with a closed state and a count of the
/// consumer handles that are still held.
pub struct WorkQueue<J> {
    jobs: VecDeque<J>,
    open: bool,
    consumers: usize,
}

impl<J> View for WorkQueue<J> {
    type V = QueueView<J>;

    closed spec fn view(&self) -> QueueView<J> {
        QueueView { pending: self.jobs@, open: self.open, consumers: self.consumers as nat }
    }
}

impl<J> WorkQueue<J> {
    /// An open, empty queue on which `consumers` handles are held.
    pub fn new(consumers: usize) -> (queue: Self)
        ensures
            queue@ == (QueueView::<J> { pending: Seq::empty(), open: true, consumers: consumers as nat }),
    {
        WorkQueue { jobs: VecDeque::new(), open: true, consumers }
    }

    /// Enqueues `job` behind everything that waits. It fails, handing the job
    /// back, exactly when no consumer handle is left.
    pub fn send(&mut self, job: J) -> (sent: Result<(), J>)
        requires
            old(self)@.open,
        ensures
            old(self)@.consumers > 0 ==> sent is Ok && final(self)@ == (QueueView {
                pending: old(self)@.pending.push(job),
                ..old(self)@
            }),
            old(self)@.consumers == 0 ==> sent == Err::<(), J>(job) && final(self)@ == old(self)@,
    {
        if self.consumers == 0 {
            Err(job)
        } else {
            self.jobs.push_back(job);
            Ok(())
        }
    }

    /// Takes the oldest waiting job. With nothing waiting it reports `Closed`
    /// once the producer handle is gone, and `Empty` before that.
    pub fn recv(&mut self) -> (got: Received<J>)
        ensures
            old(self)@.pending.len() > 0 ==> got == Received::Job(old(self)@.pending[0])
                && final(self)@ == (QueueView {
                pending: old(self)@.pending.drop_first(),
                ..old(self)@
            }),
            old(self)@.pending.len() == 0 ==> final(self)@ == old(self)@ && got == (if old(
                self,
            )@.open {
                Received::<J>::Empty
            } else {
                Received::<J>::Closed
            }),
    {
        match self.jobs.pop_front() {
            Some(job) => Received::Job(job),
            None => if self.open {
                Received::Empty
            } else {
                Received::Closed
            },
        }
    }

    /// Gives up the producer handle: nothing can be sent from now on. What
    /// waits stays deliverable.
    pub fn close(&mut self)
        ensures
            final(self)@ == (QueueView { open: false, ..old(self)@ }),
    {
        self.open = false;
    }

    /// Gives up one consumer handle.
    pub fn detach(&mut self)
        requires
            old(self)@.consumers > 0,
        ensures
            final(self)@ == (QueueView {
                consumers: (old(self)@.consumers - 1) as nat,
                ..old(self)@
            }),
    {
        self.consumers = self.consumers - 1;
    }

    /// The number of jobs that wait.
    pub fn len(&self) -> (n: usize)
        ensures
            n == self@.pending.len(),
    {
        self.jobs.len()
    }

    /// Whether the producer handle is still live.
    pub fn is_open(&self) -> (open: bool)
        ensures
            open == self@.open,
    {
        self.open
    }

    /// The number of consumer handles that are live.
    pub fn consumers(&self) -> (n: usize)
        ensures
            n == self@.consumers,
    {
        self.consumers
    }
}

} // verus!
