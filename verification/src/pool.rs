//! The pool: a fixed set of workers, the queue they share, and the progress
//! of teardown. It decides and records; the caller owns the threads. A worker
//! thread calls `poll` and does what the answer says, and after running a job
//! it calls `complete`. The owner submits with `execute`. To end the pool it
//! calls `close` and then `join` for each worker in turn, blocking on the
//! thread of a worker for which the answer is `Join::Blocked`; `teardown`
//! does both as far as it gets without blocking.

use crate::laws::{law_fresh_pool, law_step_keeps_invariant};
use crate::model::{
    lemma_count_running_bounds, lemma_count_running_update, Event, JobStatus, PoolView,
};
use crate::queue::WorkQueue;
use crate::worker::{state_after_job, Outcome, Step, Worker, WorkerState, WorkerView};
use vstd::prelude::*;

verus! {

/// What the pool remembers of the jobs it accepted. Nothing of it exists when
/// the program runs.
struct Record<J> {
    jobs: Seq<J>,
    status: Seq<JobStatus>,
    taken: nat,
    current: Seq<nat>,
}

/// The answer to an attempt to join the next worker.
#[derive(Clone, Copy, Debug, PartialEq, Eq, Structural)]
pub enum Join {
    /// The worker with this index had terminated and is joined now.
    Joined(usize),
    /// The worker with this index still runs: the caller blocks on its thread.
    Blocked(usize),
    /// No worker is left to join.
    Done,
}

/// A pool of workers that share one queue of jobs of type `J`.
pub struct ThreadPool<J> {
    workers: Vec<Worker>,
    queue: WorkQueue<J>,
    joined: usize,
    record: Ghost<Record<J>>,
}

impl<J> View for ThreadPool<J> {
    type V = PoolView<J>;

    closed spec fn view(&self) -> PoolView<J> {
        PoolView {
            workers: Seq::new(self.workers@.len(), |w: int| self.workers@[w]@.state),
            open: self.queue@.open,
            joined: self.joined as nat,
            jobs: self.record@.jobs,
            status: self.record@.status,
            taken: self.record@.taken,
            current: self.record@.current,
        }
    }
}

impl<J> ThreadPool<J> {
    /// Whether the pool is in a state that its own operations can produce.
    /// `new` establishes it and every operation keeps it.
    pub closed spec fn wf(&self) -> bool {
        &&& self@.inv()
        &&& self.queue@.pending == self@.pending()
        &&& self.queue@.consumers == self@.live()
        &&& forall|w: int|
            0 <= w < self.workers@.len() ==> (#[trigger] self.workers@[w])@.id == w
    }

    /// The invariant of the model holds of every well-formed pool.
    pub proof fn lemma_wf_invariant(&self)
        requires
            self.wf(),
        ensures
            self@.inv(),
    {
    }

    /// A pool of `size` workers, all of them waiting, with an open and empty
    /// queue. A pool without workers does not exist.
    pub fn new(size: usize) -> (pool: Self)
        requires
            size > 0,
        ensures
            pool.wf(),
            pool@ == PoolView::<J>::fresh(size as nat),
    {
        let mut workers: Vec<Worker> = Vec::with_capacity(size);
        let mut id: usize = 0;
        while id < size
            invariant
                id <= size,
                workers@.len() == id,
                forall|w: int|
                    0 <= w < id ==> (#[trigger] workers@[w])@ == (WorkerView {
                        id: w as nat,
                        state: WorkerState::Idle,
                    }),
            decreases size - id,
        {
            workers.push(Worker::new(id));
            id = id + 1;
        }
        let pool = ThreadPool {
            workers,
            queue: WorkQueue::new(size),
            joined: 0,
            record: Ghost(
                Record {
                    jobs: Seq::empty(),
                    status: Seq::empty(),
                    taken: 0,
                    current: Seq::new(size as nat, |w: int| 0nat),
                },
            ),
        };
        proof {
            law_fresh_pool::<J>(size as nat);
            assert(pool@ =~~= PoolView::<J>::fresh(size as nat));
            assert(pool.queue@.pending =~= pool@.pending());
        }
        pool
    }

    /// Submits `job`: it waits in the queue behind the jobs submitted before
    /// it, until a worker polls for it. The pool must be open and must have a
    /// worker left to receive.
    pub fn execute(&mut self, job: J)
        requires
            old(self).wf(),
            old(self)@.open,
            old(self)@.live() > 0,
        ensures
            final(self).wf(),
            final(self)@ == old(self)@.submit(job),
    {
        let ghost before = self@;
        let ghost accepted = job;
        // A consumer is left, so the queue takes the job.
        match self.queue.send(job) {
            Ok(()) => {},
            Err(_) => {},
        }
        self.record = Ghost(
            Record {
                jobs: before.jobs.push(accepted),
                status: before.status.push(JobStatus::Queued),
                taken: before.taken,
                current: before.current,
            },
        );
        proof {
            law_step_keeps_invariant(before, Event::Submit(accepted));
            assert(self@ =~~= before.submit(accepted));
            assert(self.queue@.pending =~= self@.pending());
        }
    }

    /// One turn of the loop of worker `w`, which must be idle. The answer
    /// tells its thread what to do: run the oldest waiting job, wait, or exit
    /// because the pool is closed and drained.
    pub fn poll(&mut self, w: usize) -> (step: Step<J>)
        requires
            old(self).wf(),
            w < old(self)@.size(),
            old(self)@.workers[w as int] is Idle,
        ensures
            final(self).wf(),
            final(self)@ == old(self)@.poll(w as nat),
            step == old(self)@.next_step(),
    {
        let ghost before = self@;
        proof {
            lemma_count_running_bounds(before.workers);
        }
        let mut worker = self.workers[w];
        let step = worker.poll(&mut self.queue);
        self.workers.set(w, worker);
        self.record = Ghost(
            if before.taken < before.jobs.len() {
                Record {
                    jobs: before.jobs,
                    status: before.status.update(
                        before.taken as int,
                        JobStatus::Running { worker: w as nat },
                    ),
                    taken: before.taken + 1,
                    current: before.current.update(w as int, before.taken),
                }
            } else {
                Record {
                    jobs: before.jobs,
                    status: before.status,
                    taken: before.taken,
                    current: before.current,
                }
            },
        );
        proof {
            law_step_keeps_invariant(before, Event::Poll(w as nat));
            lemma_count_running_update(before.workers, w as int, self@.workers[w as int]);
            assert(self@ =~~= before.poll(w as nat));
            assert(self.queue@.pending =~= self@.pending());
        }
        step
    }

    /// Worker `w`, which must be busy, reports how its job ended. After a
    /// completed job it is idle again; a failed job ends it for good.
    pub fn complete(&mut self, w: usize, outcome: Outcome)
        requires
            old(self).wf(),
            w < old(self)@.size(),
            old(self)@.workers[w as int] is Busy,
        ensures
            final(self).wf(),
            final(self)@ == old(self)@.complete(w as nat, outcome),
    {
        let ghost before = self@;
        proof {
            lemma_count_running_bounds(before.workers);
            assert(before.worker_ok(w as int));
        }
        let mut worker = self.workers[w];
        worker.complete(outcome, &mut self.queue);
        self.workers.set(w, worker);
        self.record = Ghost(
            Record {
                jobs: before.jobs,
                status: before.complete(w as nat, outcome).status,
                taken: before.taken,
                current: before.current,
            },
        );
        proof {
            law_step_keeps_invariant(before, Event::Complete(w as nat, outcome));
            lemma_count_running_update(before.workers, w as int, state_after_job(outcome));
            assert(self@ =~~= before.complete(w as nat, outcome));
        }
    }

    /// Begins teardown by giving up the producer handle. Nothing can be
    /// submitted from now on; what waits is still handed out, and each worker
    /// exits when it finds the queue empty.
    pub fn close(&mut self)
        requires
            old(self).wf(),
        ensures
            final(self).wf(),
            final(self)@ == old(self)@.close(),
    {
        let ghost before = self@;
        self.queue.close();
        proof {
            law_step_keeps_invariant(before, Event::<J>::Close);
            assert(self@ =~~= before.close());
        }
    }

    /// Tries to join the next worker of a closed pool. A worker is joined
    /// only when its thread has ended.
    pub fn join(&mut self) -> (answer: Join)
        requires
            old(self).wf(),
            !old(self)@.open,
        ensures
            final(self).wf(),
            final(self)@ == old(self)@.join(),
            answer == (if old(self)@.joined == old(self)@.size() {
                Join::Done
            } else if old(self)@.can_join() {
                Join::Joined(old(self)@.joined as usize)
            } else {
                Join::Blocked(old(self)@.joined as usize)
            }),
    {
        let ghost before = self@;
        proof {
            law_step_keeps_invariant(before, Event::<J>::Join);
        }
        if self.joined == self.workers.len() {
            return Join::Done;
        }
        let next: usize = self.joined;
        if self.workers[next].is_running() {
            Join::Blocked(next)
        } else {
            self.joined = next + 1;
            proof {
                assert(self@ =~~= before.join());
            }
            Join::Joined(next)
        }
    }

    /// Teardown: closes the pool, then joins the workers in order for as long
    /// as their threads have ended. It names the worker on whose thread the
    /// caller has to block before calling again, or `None` when every worker
    /// is joined and teardown is over.
    pub fn teardown(&mut self) -> (blocked_on: Option<usize>)
        requires
            old(self).wf(),
        ensures
            final(self).wf(),
            final(self)@ == old(self)@.close().join_all(),
            blocked_on is None <==> final(self)@.torn_down(),
            blocked_on matches Some(w) ==> w == final(self)@.joined && w < final(self)@.size()
                && final(self)@.workers[w as int].is_running(),
    {
        self.close();
        let ghost closed = self@;
        loop
            invariant
                self.wf(),
                !self@.open,
                closed == old(self)@.close(),
                self@.join_all() == closed.join_all(),
            decreases self@.size() - self@.joined,
        {
            proof {
                self.lemma_wf_invariant();
            }
            match self.join() {
                Join::Joined(_) => {},
                Join::Blocked(w) => {
                    return Some(w);
                },
                Join::Done => {
                    return None;
                },
            }
        }
    }

    /// The number of workers, fixed when the pool was made.
    pub fn size(&self) -> (size: usize)
        requires
            self.wf(),
        ensures
            size == self@.size(),
    {
        self.workers.len()
    }

    /// The state of worker `w`.
    pub fn worker_state(&self, w: usize) -> (state: WorkerState)
        requires
            self.wf(),
            w < self@.size(),
        ensures
            state == self@.workers[w as int],
    {
        self.workers[w].state()
    }

    /// The number of workers whose thread is alive.
    pub fn live_workers(&self) -> (live: usize)
        requires
            self.wf(),
        ensures
            live == self@.live(),
    {
        self.queue.consumers()
    }

    /// The number of jobs that wait in the queue.
    pub fn pending_jobs(&self) -> (pending: usize)
        requires
            self.wf(),
        ensures
            pending == self@.pending().len(),
    {
        self.queue.len()
    }

    /// Whether the producer handle is live.
    pub fn is_open(&self) -> (open: bool)
        requires
            self.wf(),
        ensures
            open == self@.open,
    {
        self.queue.is_open()
    }

    /// The number of workers that teardown has joined.
    pub fn joined_workers(&self) -> (joined: usize)
        requires
            self.wf(),
        ensures
            joined == self@.joined,
    {
        self.joined
    }

    /// Whether teardown is over.
    pub fn is_torn_down(&self) -> (done: bool)
        requires
            self.wf(),
        ensures
            done == self@.torn_down(),
    {
        !self.queue.is_open() && self.joined == self.workers.len()
    }
}

} // verus!
