//! The pool as a state machine over mathematical values: what a pool is at
//! any moment, which events can happen to it, and what each one changes.
//! The executable pool is proved to move exactly as this machine does.

use crate::worker::{state_after_job, Outcome, Step, WorkerState};
use vstd::prelude::*;

verus! {

/// How far a submitted job has come.
pub enum JobStatus {
    /// It waits in the queue.
    Queued,
    /// The worker with this index is executing it.
    Running { worker: nat },
    /// It ran to its end on this worker.
    Finished { worker: nat },
    /// It failed on this worker, and ended that worker's thread.
    Failed { worker: nat },
}

impl JobStatus {
    /// The job has been executed, to its end or to its failure.
    pub open spec fn is_done(self) -> bool {
        self is Finished || self is Failed
    }
}

/// The number of workers in `states` whose thread is alive.
pub open spec fn count_running(states: Seq<WorkerState>) -> nat
    decreases states.len(),
{
    if states.len() == 0 {
        0
    } else {
        count_running(states.drop_last()) + if states.last().is_running() {
            1nat
        } else {
            0nat
        }
    }
}

/// What a worker in this state still has before it: a busy worker has to
/// end its job and then to leave, an idle one only to leave.
pub open spec fn steps_ahead(state: WorkerState) -> nat {
    match state {
        WorkerState::Busy => 2,
        WorkerState::Idle => 1,
        WorkerState::Exited => 0,
        WorkerState::Failed => 0,
    }
}

/// The sum of what the workers in `states` have before them.
pub open spec fn total_steps_ahead(states: Seq<WorkerState>) -> nat
    decreases states.len(),
{
    if states.len() == 0 {
        0
    } else {
        total_steps_ahead(states.drop_last()) + steps_ahead(states.last())
    }
}

/// Something that happens to a pool.
pub enum Event<J> {
    /// A job is submitted.
    Submit(J),
    /// The worker with this index asks the queue for a job.
    Poll(nat),
    /// The worker with this index reports how its job ended.
    Complete(nat, Outcome),
    /// Teardown begins: the producer handle is given up.
    Close,
    /// Teardown tries to join the next worker.
    Join,
}

/// A pool at one moment, together with the record of every job it accepted.
#[verifier::ext_equal]
pub struct PoolView<J> {
    /// The state of each worker, by index.
    pub workers: Seq<WorkerState>,
    /// Whether the producer handle is live, so that jobs can be submitted.
    pub open: bool,
    /// Teardown has joined the workers with an index below this.
    pub joined: nat,
    /// Every job accepted so far, in the order of submission.
    pub jobs: Seq<J>,
    /// The status of each of `jobs`.
    pub status: Seq<JobStatus>,
    /// The jobs with an index below this have been handed to a worker.
    pub taken: nat,
    /// For a busy worker, the index in `jobs` of the job it executes.
    pub current: Seq<nat>,
}

impl<J> PoolView<J> {
    /// A pool of `size` workers to which nothing has happened yet.
    pub open spec fn fresh(size: nat) -> Self {
        PoolView {
            workers: Seq::new(size, |w: int| WorkerState::Idle),
            open: true,
            joined: 0,
            jobs: Seq::empty(),
            status: Seq::empty(),
            taken: 0,
            current: Seq::new(size, |w: int| 0nat),
        }
    }

    /// The number of workers.
    pub open spec fn size(self) -> nat {
        self.workers.len()
    }

    /// The jobs that wait in the queue, oldest first.
    pub open spec fn pending(self) -> Seq<J> {
        self.jobs.subrange(self.taken as int, self.jobs.len() as int)
    }

    /// The number of workers whose thread is alive.
    pub open spec fn live(self) -> nat {
        count_running(self.workers)
    }

    /// Teardown is over: the producer handle is gone and every worker joined.
    pub open spec fn torn_down(self) -> bool {
        !self.open && self.joined == self.workers.len()
    }

    /// What must hold of the job with index `k`.
    pub open spec fn job_ok(self, k: int) -> bool {
        match self.status[k] {
            JobStatus::Queued => k >= self.taken,
            JobStatus::Running { worker } => {
                &&& k < self.taken
                &&& worker < self.workers.len()
                &&& self.workers[worker as int] is Busy
                &&& self.current[worker as int] == k
            },
            JobStatus::Finished { worker } => k < self.taken && worker < self.workers.len(),
            JobStatus::Failed { worker } => {
                &&& k < self.taken
                &&& worker < self.workers.len()
                &&& self.workers[worker as int] is Failed
            },
        }
    }

    /// What must hold of the worker with index `w`.
    pub open spec fn worker_ok(self, w: int) -> bool {
        &&& w < self.joined ==> self.workers[w].is_terminated()
        &&& match self.workers[w] {
            WorkerState::Idle => true,
            WorkerState::Busy => {
                &&& self.current[w] < self.taken
                &&& self.status[self.current[w] as int] == (JobStatus::Running { worker: w as nat })
            },
            WorkerState::Exited => !self.open && self.taken == self.jobs.len(),
            WorkerState::Failed => true,
        }
    }

    /// The invariant of the pool. It holds of a fresh pool and no event breaks it.
    pub open spec fn inv(self) -> bool {
        &&& self.workers.len() > 0
        &&& self.current.len() == self.workers.len()
        &&& self.status.len() == self.jobs.len()
        &&& self.taken <= self.jobs.len()
        &&& self.joined <= self.workers.len()
        &&& self.open ==> self.joined == 0
        &&& forall|k: int| 0 <= k < self.jobs.len() ==> #[trigger] self.job_ok(k)
        &&& forall|w: int| 0 <= w < self.workers.len() ==> #[trigger] self.worker_ok(w)
    }

    /// The pool after `job` was submitted: the job waits behind all others.
    pub open spec fn submit(self, job: J) -> Self {
        PoolView { jobs: self.jobs.push(job), status: self.status.push(JobStatus::Queued), ..self }
    }

    /// What a worker that polls now is told to do: run the oldest waiting job,
    /// or wait while the pool is open, or exit once it is closed.
    pub open spec fn next_step(self) -> Step<J> {
        if self.taken < self.jobs.len() {
            Step::Run(self.jobs[self.taken as int])
        } else if self.open {
            Step::Wait
        } else {
            Step::Exit
        }
    }

    /// The pool after worker `w` asked the queue. The oldest waiting job, if
    /// there is one, is now running on `w`. With nothing waiting `w` exits if
    /// the pool is closed and goes on waiting if it is open.
    pub open spec fn poll(self, w: nat) -> Self {
        if self.taken < self.jobs.len() {
            PoolView {
                workers: self.workers.update(w as int, WorkerState::Busy),
                status: self.status.update(self.taken as int, JobStatus::Running { worker: w }),
                current: self.current.update(w as int, self.taken),
                taken: self.taken + 1,
                ..self
            }
        } else if self.open {
            self
        } else {
            PoolView { workers: self.workers.update(w as int, WorkerState::Exited), ..self }
        }
    }

    /// The pool after worker `w` reported the end of its job.
    pub open spec fn complete(self, w: nat, outcome: Outcome) -> Self {
        PoolView {
            workers: self.workers.update(w as int, state_after_job(outcome)),
            status: self.status.update(
                self.current[w as int] as int,
                match outcome {
                    Outcome::Completed => JobStatus::Finished { worker: w },
                    Outcome::Failed => JobStatus::Failed { worker: w },
                },
            ),
            ..self
        }
    }

    /// The pool after the producer handle was given up.
    pub open spec fn close(self) -> Self {
        PoolView { open: false, ..self }
    }

    /// Whether the next join would return: there is a worker left to join and
    /// its thread has ended.
    pub open spec fn can_join(self) -> bool {
        self.joined < self.workers.len() && self.workers[self.joined as int].is_terminated()
    }

    /// The pool after teardown tried to join the next worker.
    pub open spec fn join(self) -> Self {
        if self.can_join() {
            PoolView { joined: self.joined + 1, ..self }
        } else {
            self
        }
    }

    /// The pool after teardown joined workers, in order, until it met one
    /// that still runs or none was left.
    pub open spec fn join_all(self) -> Self
        decreases self.workers.len() - self.joined,
    {
        if self.can_join() {
            self.join().join_all()
        } else {
            self
        }
    }

    /// A bound on the number of events that can still change a closed pool:
    /// three for each waiting job, what the workers have before them, and
    /// one for each worker that is not joined.
    pub open spec fn work_left(self) -> int {
        3 * (self.jobs.len() - self.taken) + total_steps_ahead(self.workers) + (self.workers.len()
            - self.joined)
    }

    /// An event that moves a closed pool on while teardown is not over: the
    /// next worker to join polls if it is idle and ends its job if it is
    /// busy, and is joined once it has terminated.
    pub open spec fn next_move(self) -> Event<J> {
        match self.workers[self.joined as int] {
            WorkerState::Idle => Event::Poll(self.joined),
            WorkerState::Busy => Event::Complete(self.joined, Outcome::Completed),
            _ => Event::Join,
        }
    }

    /// Whether `event` can happen to this pool.
    pub open spec fn enabled(self, event: Event<J>) -> bool {
        match event {
            Event::Submit(_) => self.open && self.live() > 0,
            Event::Poll(w) => w < self.workers.len() && self.workers[w as int] is Idle,
            Event::Complete(w, _) => w < self.workers.len() && self.workers[w as int] is Busy,
            Event::Close => true,
            Event::Join => !self.open,
        }
    }

    /// The pool after `event`.
    pub open spec fn step(self, event: Event<J>) -> Self {
        match event {
            Event::Submit(job) => self.submit(job),
            Event::Poll(w) => self.poll(w),
            Event::Complete(w, outcome) => self.complete(w, outcome),
            Event::Close => self.close(),
            Event::Join => self.join(),
        }
    }

    /// The pool after the events of `trace`, in order.
    pub open spec fn run(self, trace: Seq<Event<J>>) -> Self
        decreases trace.len(),
    {
        if trace.len() == 0 {
            self
        } else {
            self.run(trace.drop_last()).step(trace.last())
        }
    }

    /// Whether each event of `trace` can happen at the moment it comes.
    pub open spec fn admits(self, trace: Seq<Event<J>>) -> bool
        decreases trace.len(),
    {
        trace.len() > 0 ==> self.admits(trace.drop_last()) && self.run(trace.drop_last()).enabled(
            trace.last(),
        )
    }
}

/// How often `trace`, run on `start`, hands the job with index `k` to a
/// worker: the number of its polls that find this job the oldest one waiting.
pub open spec fn times_started<J>(start: PoolView<J>, trace: Seq<Event<J>>, k: int) -> nat
    decreases trace.len(),
{
    if trace.len() == 0 {
        0
    } else {
        let before = start.run(trace.drop_last());
        times_started(start, trace.drop_last(), k) + if trace.last() is Poll && before.taken == k
            && k < before.jobs.len() {
            1nat
        } else {
            0nat
        }
    }
}

/// How often `trace`, run on `start`, sees the execution of the job with
/// index `k` end: the number of reports that come from the worker holding it.
pub open spec fn times_ended<J>(start: PoolView<J>, trace: Seq<Event<J>>, k: int) -> nat
    decreases trace.len(),
{
    if trace.len() == 0 {
        0
    } else {
        let before = start.run(trace.drop_last());
        times_ended(start, trace.drop_last(), k) + if trace.last() matches Event::Complete(w, _)
            && before.current[w as int] == k {
            1nat
        } else {
            0nat
        }
    }
}

/// The jobs that `trace` submits, in order.
pub open spec fn submitted<J>(trace: Seq<Event<J>>) -> Seq<J>
    decreases trace.len(),
{
    if trace.len() == 0 {
        Seq::empty()
    } else {
        match trace.last() {
            Event::Submit(job) => submitted(trace.drop_last()).push(job),
            _ => submitted(trace.drop_last()),
        }
    }
}

/// Replacing one state changes the count of running workers by what the old
/// and the new state contribute.
pub proof fn lemma_count_running_update(states: Seq<WorkerState>, w: int, state: WorkerState)
    requires
        0 <= w < states.len(),
    ensures
        count_running(states.update(w, state)) + (if states[w].is_running() {
            1nat
        } else {
            0nat
        }) == count_running(states) + (if state.is_running() {
            1nat
        } else {
            0nat
        }),
    decreases states.len(),
{
    let updated = states.update(w, state);
    if w == states.len() - 1 {
        assert(updated.drop_last() =~= states.drop_last());
    } else {
        assert(updated.drop_last() =~= states.drop_last().update(w, state));
        lemma_count_running_update(states.drop_last(), w, state);
    }
}

/// Replacing one state changes the sum of what the workers have before them
/// by the difference between the old and the new state.
pub proof fn lemma_total_steps_ahead_update(states: Seq<WorkerState>, w: int, state: WorkerState)
    requires
        0 <= w < states.len(),
    ensures
        total_steps_ahead(states.update(w, state)) + steps_ahead(states[w]) == total_steps_ahead(
            states,
        ) + steps_ahead(state),
    decreases states.len(),
{
    let updated = states.update(w, state);
    if w == states.len() - 1 {
        assert(updated.drop_last() =~= states.drop_last());
    } else {
        assert(updated.drop_last() =~= states.drop_last().update(w, state));
        lemma_total_steps_ahead_update(states.drop_last(), w, state);
    }
}

/// No more workers run than there are, and where one runs the count is positive.
pub proof fn lemma_count_running_bounds(states: Seq<WorkerState>)
    ensures
        count_running(states) <= states.len(),
        count_running(states) > 0 <==> exists|w: int|
            0 <= w < states.len() && (#[trigger] states[w]).is_running(),
    decreases states.len(),
{
    if states.len() > 0 {
        let front = states.drop_last();
        lemma_count_running_bounds(front);
        if count_running(states) > 0 {
            if states.last().is_running() {
                assert(states[states.len() - 1].is_running());
            } else {
                let w = choose|w: int| 0 <= w < front.len() && (#[trigger] front[w]).is_running();
                assert(states[w].is_running());
            }
        }
        if exists|w: int| 0 <= w < states.len() && (#[trigger] states[w]).is_running() {
            let w = choose|w: int| 0 <= w < states.len() && (#[trigger] states[w]).is_running();
            if w < front.len() {
                assert(front[w].is_running());
            }
        }
    }
}

/// When every worker is idle, all of them count as running.
pub proof fn lemma_count_running_all_idle(size: nat)
    ensures
        count_running(Seq::new(size, |w: int| WorkerState::Idle)) == size,
    decreases size,
{
    if size > 0 {
        let all = Seq::new(size, |w: int| WorkerState::Idle);
        assert(all.drop_last() =~= Seq::new((size - 1) as nat, |w: int| WorkerState::Idle));
        lemma_count_running_all_idle((size - 1) as nat);
    }
}

} // verus!
