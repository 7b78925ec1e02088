//! A worker: the state of one thread of the pool and the decisions of its
//! loop. The thread itself belongs to the caller; after each `poll` it does
//! what the returned `Step` says and, after running a job, reports the
//! outcome with `complete`.

use crate::queue::{QueueView, Received, WorkQueue};
use vstd::prelude::*;

verus! {

/// Where a worker stands. It is *running* while `Idle` or `Busy` and
/// *terminated* after that; a terminated worker never runs again.
#[derive(Clone, Copy, Debug, PartialEq, Eq, Structural)]
pub enum WorkerState {
    /// Waiting for the queue to hand out a job.
    Idle,
    /// Executing a job.
    Busy,
    /// Left its loop after the closed signal.
    Exited,
    /// Its thread ended when the job it was executing failed.
    Failed,
}

impl WorkerState {
    /// The thread is alive.
    pub open spec fn is_running(self) -> bool {
        self is Idle || self is Busy
    }

    /// The thread has ended.
    pub open spec fn is_terminated(self) -> bool {
        self is Exited || self is Failed
    }
}

/// How the execution of a job ended.
#[derive(Clone, Copy, Debug, PartialEq, Eq, Structural)]
pub enum Outcome {
    /// The job ran to its end.
    Completed,
    /// The job failed while it ran.
    Failed,
}

/// What the thread of a worker has to do after a `poll`.
pub enum Step<J> {
    /// Execute this job, then report with `complete`.
    Run(J),
    /// Block until the queue changes, then poll again.
    Wait,
    /// Leave the loop and end the thread.
    Exit,
}

/// What a worker is, seen from outside.
pub struct WorkerView {
    /// Its index in the pool.
    pub id: nat,
    pub state: WorkerState,
}

/// One worker of a pool.
#[derive(Clone, Copy, Debug)]
pub struct Worker {
    id: usize,
    state: WorkerState,
}

impl View for Worker {
    type V = WorkerView;

    closed spec fn view(&self) -> WorkerView {
        WorkerView { id: self.id as nat, state: self.state }
    }
}

/// The state in which a poll leaves an idle worker, given what the queue held.
pub open spec fn state_after_poll<J>(queue: QueueView<J>) -> WorkerState {
    if queue.pending.len() > 0 {
        WorkerState::Busy
    } else if queue.open {
        WorkerState::Idle
    } else {
        WorkerState::Exited
    }
}

/// The state in which the end of its job leaves a busy worker.
pub open spec fn state_after_job(outcome: Outcome) -> WorkerState {
    match outcome {
        Outcome::Completed => WorkerState::Idle,
        Outcome::Failed => WorkerState::Failed,
    }
}

impl Worker {
    /// A worker with the given index, waiting for its first job.
    pub fn new(id: usize) -> (worker: Worker)
        ensures
            worker@ == (WorkerView { id: id as nat, state: WorkerState::Idle }),
    {
        Worker { id, state: WorkerState::Idle }
    }

    pub fn id(&self) -> (id: usize)
        ensures
            id == self@.id,
    {
        self.id
    }

    pub fn state(&self) -> (state: WorkerState)
        ensures
            state == self@.state,
    {
        self.state
    }

    /// Whether the thread of this worker is alive.
    pub fn is_running(&self) -> (running: bool)
        ensures
            running == self@.state.is_running(),
    {
        match self.state {
            WorkerState::Idle => true,
            WorkerState::Busy => true,
            WorkerState::Exited => false,
            WorkerState::Failed => false,
        }
    }

    /// One turn of the worker loop. An idle worker asks the queue: a job makes
    /// it busy, the closed signal makes it exit and give up its consumer
    /// handle, an empty open queue leaves it waiting.
    pub fn poll<J>(&mut self, queue: &mut WorkQueue<J>) -> (step: Step<J>)
        requires
            old(self)@.state is Idle,
            old(queue)@.consumers > 0,
        ensures
            final(self)@ == (WorkerView { state: state_after_poll(old(queue)@), ..old(self)@ }),
            old(queue)@.pending.len() > 0 ==> step == Step::Run(old(queue)@.pending[0])
                && final(queue)@ == (QueueView {
                pending: old(queue)@.pending.drop_first(),
                ..old(queue)@
            }),
            old(queue)@.pending.len() == 0 && old(queue)@.open ==> step == Step::<J>::Wait
                && final(queue)@ == old(queue)@,
            old(queue)@.pending.len() == 0 && !old(queue)@.open ==> step == Step::<J>::Exit
                && final(queue)@ == (QueueView {
                consumers: (old(queue)@.consumers - 1) as nat,
                ..old(queue)@
            }),
    {
        match queue.recv() {
            Received::Job(job) => {
                self.state = WorkerState::Busy;
                Step::Run(job)
            },
            Received::Empty => Step::Wait,
            Received::Closed => {
                self.state = WorkerState::Exited;
                queue.detach();
                Step::Exit
            },
        }
    }

    /// The job that this worker was executing has ended. After a completed
    /// job the worker waits for the next one. A failed job ends the thread,
    /// and with it the consumer handle that it held.
    pub fn complete<J>(&mut self, outcome: Outcome, queue: &mut WorkQueue<J>)
        requires
            old(self)@.state is Busy,
            old(queue)@.consumers > 0,
        ensures
            final(self)@ == (WorkerView { state: state_after_job(outcome), ..old(self)@ }),
            outcome is Completed ==> final(queue)@ == old(queue)@,
            outcome is Failed ==> final(queue)@ == (QueueView {
                consumers: (old(queue)@.consumers - 1) as nat,
                ..old(queue)@
            }),
    {
        match outcome {
            Outcome::Completed => {
                self.state = WorkerState::Idle;
            },
            Outcome::Failed => {
                self.state = WorkerState::Failed;
                queue.detach();
            },
        }
    }
}

} // verus!
