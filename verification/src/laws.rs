//! What holds of every pool, proved over the model: the invariant and what
//! follows from it for jobs, workers and teardown.

use crate::model::{
    lemma_count_running_all_idle, lemma_count_running_bounds, lemma_count_running_update,
    lemma_total_steps_ahead_update, submitted, times_ended, times_started, Event, JobStatus,
    PoolView,
};
use crate::worker::{Outcome, WorkerState};
use vstd::prelude::*;

verus! {

/// Whether a job status `after` can follow `before`: a job stays as it is, or
/// a queued job starts to run, or a running job is done on the worker that
/// ran it. Nothing goes back, and a job that is done stays done.
pub open spec fn follows(before: JobStatus, after: JobStatus) -> bool {
    ||| after == before
    ||| before is Queued && after is Running
    ||| before matches JobStatus::Running { worker } && (after == (JobStatus::Finished { worker })
        || after == (JobStatus::Failed { worker }))
}

/// A pool of `size` workers starts with exactly `size` workers, all of them
/// running and idle, open and with nothing submitted; and the invariant holds.
pub proof fn law_fresh_pool<J>(size: nat)
    requires
        size > 0,
    ensures
        PoolView::<J>::fresh(size).inv(),
        PoolView::<J>::fresh(size).size() == size,
        PoolView::<J>::fresh(size).live() == size,
        forall|w: int| 0 <= w < size ==> #[trigger] PoolView::<J>::fresh(size).workers[w] is Idle,
{
    let v = PoolView::<J>::fresh(size);
    lemma_count_running_all_idle(size);
    assert forall|w: int| 0 <= w < v.workers.len() implies #[trigger] v.worker_ok(w) by {}
}

/// No event that can happen breaks the invariant.
pub proof fn law_step_keeps_invariant<J>(v: PoolView<J>, event: Event<J>)
    requires
        v.inv(),
        v.enabled(event),
    ensures
        v.step(event).inv(),
{
    let next = v.step(event);
    if let Event::Complete(w, _) = event {
        assert(v.worker_ok(w as int));
    }
    assert forall|k: int| 0 <= k < next.jobs.len() implies #[trigger] next.job_ok(k) by {
        if k < v.jobs.len() {
            assert(v.job_ok(k));
            if let JobStatus::Running { worker } = v.status[k] {
                assert(v.worker_ok(worker as int));
            }
        }
        if let Event::Complete(w, _) = event {
            assert(v.worker_ok(w as int));
        }
    }
    assert forall|w: int| 0 <= w < next.workers.len() implies #[trigger] next.worker_ok(w) by {
        assert(v.worker_ok(w));
        match event {
            Event::Complete(done, _) => {
                assert(v.worker_ok(done as int));
            },
            Event::Join => {
                assert(v.worker_ok(v.joined as int) || v.joined >= v.workers.len());
            },
            _ => {},
        }
    }
}

/// No run of events that can happen breaks the invariant.
pub proof fn law_run_keeps_invariant<J>(v: PoolView<J>, trace: Seq<Event<J>>)
    requires
        v.inv(),
        v.admits(trace),
    ensures
        v.run(trace).inv(),
    decreases trace.len(),
{
    if trace.len() > 0 {
        law_run_keeps_invariant(v, trace.drop_last());
        law_step_keeps_invariant(v.run(trace.drop_last()), trace.last());
    }
}

/// The invariant holds in every state that a fresh pool can reach.
pub proof fn law_reachable_states_are_invariant<J>(size: nat, trace: Seq<Event<J>>)
    requires
        size > 0,
        PoolView::<J>::fresh(size).admits(trace),
    ensures
        PoolView::<J>::fresh(size).run(trace).inv(),
{
    law_fresh_pool::<J>(size);
    law_run_keeps_invariant(PoolView::<J>::fresh(size), trace);
}

/// The record of jobs only grows and each job only moves forward: an event
/// keeps every job that was accepted, in its place, and takes its status from
/// queued to running to done, never back. So no job is handed out twice, and
/// none is lost.
pub proof fn law_jobs_only_progress<J>(v: PoolView<J>, event: Event<J>)
    requires
        v.inv(),
        v.enabled(event),
    ensures
        v.step(event).jobs.len() >= v.jobs.len(),
        v.step(event).jobs.subrange(0, v.jobs.len() as int) == v.jobs,
        forall|k: int|
            0 <= k < v.jobs.len() ==> follows(v.status[k], #[trigger] v.step(event).status[k]),
{
    let next = v.step(event);
    assert(next.jobs.subrange(0, v.jobs.len() as int) =~= v.jobs);
    assert forall|k: int| 0 <= k < v.jobs.len() implies follows(
        v.status[k],
        #[trigger] next.status[k],
    ) by {
        assert(v.job_ok(k));
        if let Event::Complete(w, _) = event {
            assert(v.worker_ok(w as int));
        }
    }
}

/// A poll hands out the oldest queued job and no other: the one job whose
/// status it changes was queued before and runs on the polling worker after.
pub proof fn law_poll_starts_oldest_queued_job<J>(v: PoolView<J>, w: nat)
    requires
        v.inv(),
        v.enabled(Event::Poll(w)),
        v.pending().len() > 0,
    ensures
        v.status[v.taken as int] is Queued,
        v.poll(w).status[v.taken as int] == (JobStatus::Running { worker: w }),
        v.jobs[v.taken as int] == v.pending()[0],
        v.poll(w).pending() == v.pending().drop_first(),
        forall|k: int|
            0 <= k < v.jobs.len() && k != v.taken ==> #[trigger] v.poll(w).status[k] == v.status[k],
{
    assert(v.job_ok(v.taken as int));
    assert(v.poll(w).pending() =~= v.pending().drop_first());
}

/// A submitted job waits behind every job that waited before it, and changes
/// nothing else.
pub proof fn law_submit_appends_to_queue<J>(v: PoolView<J>, job: J)
    requires
        v.inv(),
    ensures
        v.submit(job).pending() == v.pending().push(job),
        v.submit(job).workers == v.workers,
        v.submit(job).open == v.open,
        v.submit(job).status[v.jobs.len() as int] is Queued,
{
    assert(v.submit(job).pending() =~= v.pending().push(job));
}

/// A worker executes one job at a time: two jobs that run at the same moment
/// run on different workers, so that at most as many jobs run as the pool
/// has workers.
pub proof fn law_one_job_per_worker<J>(v: PoolView<J>, first: int, second: int)
    requires
        v.inv(),
        0 <= first < v.jobs.len(),
        0 <= second < v.jobs.len(),
        first != second,
        v.status[first] is Running,
        v.status[second] is Running,
    ensures
        v.status[first]->Running_worker != v.status[second]->Running_worker,
        v.status[first]->Running_worker < v.size(),
        v.status[second]->Running_worker < v.size(),
{
    assert(v.job_ok(first));
    assert(v.job_ok(second));
}

/// While every worker is occupied, what waits goes on waiting: no event
/// starts a job until a worker has reported the end of the one it holds.
pub proof fn law_jobs_wait_while_all_workers_are_busy<J>(v: PoolView<J>, event: Event<J>)
    requires
        v.inv(),
        v.enabled(event),
        forall|w: int| 0 <= w < v.size() ==> !(#[trigger] v.workers[w] is Idle),
    ensures
        !(event is Poll),
        v.step(event).taken == v.taken,
        forall|k: int|
            0 <= k < v.jobs.len() && v.status[k] is Queued ==> #[trigger] v.step(event).status[k]
                is Queued,
{
    assert forall|k: int| 0 <= k < v.jobs.len() && v.status[k] is Queued implies #[trigger] v.step(
        event,
    ).status[k] is Queued by {
        assert(v.job_ok(k));
        if let Event::Complete(w, _) = event {
            assert(v.worker_ok(w as int));
        }
    }
}

/// A worker whose thread has ended stays as it is, whatever happens.
pub proof fn law_terminated_worker_stays<J>(v: PoolView<J>, event: Event<J>, w: int)
    requires
        v.inv(),
        v.enabled(event),
        0 <= w < v.size(),
        v.workers[w].is_terminated(),
    ensures
        v.step(event).workers[w] == v.workers[w],
{
}

/// A closed pool accepts nothing and stays closed: no event reopens it or
/// adds a job to its record.
pub proof fn law_closed_pool_stays_closed<J>(v: PoolView<J>, event: Event<J>)
    requires
        v.inv(),
        !v.open,
        v.enabled(event),
    ensures
        !v.step(event).open,
        !(event is Submit),
        v.step(event).jobs == v.jobs,
{
    if let Event::Complete(w, _) = event {
        assert(v.worker_ok(w as int));
    }
}

/// Teardown never hangs on the pool itself: while a closed pool is not torn
/// down, there is an event that can happen and that changes it.
pub proof fn law_closed_pool_is_never_stuck<J>(v: PoolView<J>)
    requires
        v.inv(),
        !v.open,
        !v.torn_down(),
    ensures
        v.enabled(v.next_move()),
        v.step(v.next_move()) != v,
{
    let w = v.joined as int;
    assert(v.worker_ok(w));
    match v.workers[w] {
        WorkerState::Idle => {
            assert(v.poll(v.joined).workers[w] != v.workers[w]);
        },
        WorkerState::Busy => {
            assert(v.complete(v.joined, Outcome::Completed).workers[w] != v.workers[w]);
        },
        _ => {},
    }
}

/// Teardown comes to an end: each event that changes a closed pool uses up
/// some of the work that is left, of which there is a bounded amount and
/// never less than none. So a closed pool changes at most `work_left` times.
pub proof fn law_closed_pool_moves_toward_its_end<J>(v: PoolView<J>, event: Event<J>)
    requires
        v.inv(),
        !v.open,
        v.enabled(event),
        v.step(event) != v,
    ensures
        0 <= v.step(event).work_left() < v.work_left(),
{
    let next = v.step(event);
    law_step_keeps_invariant(v, event);
    match event {
        Event::Poll(w) => {
            lemma_total_steps_ahead_update(v.workers, w as int, next.workers[w as int]);
        },
        Event::Complete(w, outcome) => {
            assert(v.worker_ok(w as int));
            lemma_total_steps_ahead_update(v.workers, w as int, next.workers[w as int]);
        },
        _ => {},
    }
}

/// A closed pool with no work left is torn down.
pub proof fn law_no_work_left_means_torn_down<J>(v: PoolView<J>)
    requires
        v.inv(),
        !v.open,
        v.work_left() == 0,
    ensures
        v.torn_down(),
{
}

/// Once teardown is over every worker has terminated, no job is running, and
/// no worker can ask for a job or be given one, nor can a job be submitted.
pub proof fn law_torn_down_pool_is_still<J>(v: PoolView<J>)
    requires
        v.inv(),
        v.torn_down(),
    ensures
        v.live() == 0,
        forall|w: int| 0 <= w < v.size() ==> (#[trigger] v.workers[w]).is_terminated(),
        forall|k: int| 0 <= k < v.jobs.len() ==> !(#[trigger] v.status[k] is Running),
        forall|w: nat| !#[trigger] v.enabled(Event::Poll(w)),
        forall|w: nat, outcome: Outcome| !#[trigger] v.enabled(Event::Complete(w, outcome)),
        forall|job: J| !#[trigger] v.enabled(Event::Submit(job)),
{
    assert forall|w: int| 0 <= w < v.size() implies (#[trigger] v.workers[w]).is_terminated() by {
        assert(v.worker_ok(w));
    }
    assert forall|k: int| 0 <= k < v.jobs.len() implies !(#[trigger] v.status[k] is Running) by {
        assert(v.job_ok(k));
    }
    lemma_count_running_bounds(v.workers);
}

/// Teardown passes no worker that still runs: a join leaves the pool as it
/// is until the thread of the next worker has ended.
pub proof fn law_join_waits_for_worker<J>(v: PoolView<J>)
    requires
        v.inv(),
        !v.open,
        v.joined < v.size(),
        v.workers[v.joined as int].is_running(),
    ensures
        v.join() == v,
        !v.join().torn_down(),
{
}

/// Once teardown is over, and at least one worker has left its loop on the
/// closed signal, nothing waits in the queue and every submitted job has been
/// executed, each on one worker.
pub proof fn law_drained_pool_ran_every_job<J>(v: PoolView<J>, exited: int)
    requires
        v.inv(),
        v.torn_down(),
        0 <= exited < v.size(),
        v.workers[exited] is Exited,
    ensures
        v.pending().len() == 0,
        forall|k: int| 0 <= k < v.jobs.len() ==> (#[trigger] v.status[k]).is_done(),
{
    assert(v.worker_ok(exited));
    assert forall|k: int| 0 <= k < v.jobs.len() implies (#[trigger] v.status[k]).is_done() by {
        assert(v.job_ok(k));
        if let JobStatus::Running { worker } = v.status[k] {
            assert(v.worker_ok(worker as int));
        }
    }
}

/// Once teardown is over and no worker has failed, every submitted job has
/// run to its end.
pub proof fn law_every_job_finished_without_failure<J>(v: PoolView<J>)
    requires
        v.inv(),
        v.torn_down(),
        forall|w: int| 0 <= w < v.size() ==> !(#[trigger] v.workers[w] is Failed),
    ensures
        v.pending().len() == 0,
        forall|k: int| 0 <= k < v.jobs.len() ==> #[trigger] v.status[k] is Finished,
{
    assert(v.worker_ok(0));
    assert(v.workers[0] is Exited);
    law_drained_pool_ran_every_job(v, 0);
    assert forall|k: int| 0 <= k < v.jobs.len() implies #[trigger] v.status[k] is Finished by {
        assert(v.job_ok(k));
    }
}

/// The record of a pool holds exactly the jobs that were submitted to it, in
/// the order of submission.
pub proof fn law_record_is_what_was_submitted<J>(v: PoolView<J>, trace: Seq<Event<J>>)
    ensures
        v.run(trace).jobs == v.jobs + submitted(trace),
    decreases trace.len(),
{
    if trace.len() == 0 {
        assert(v.jobs + submitted(trace) =~= v.jobs);
    } else {
        law_record_is_what_was_submitted(v, trace.drop_last());
        let before = v.run(trace.drop_last());
        assert(before.step(trace.last()).jobs =~= v.jobs + submitted(trace));
    }
}

/// The size of a pool is fixed when it is made: no event adds or removes a
/// worker.
pub proof fn law_size_is_fixed<J>(v: PoolView<J>, trace: Seq<Event<J>>)
    requires
        v.admits(trace),
    ensures
        v.run(trace).size() == v.size(),
    decreases trace.len(),
{
    if trace.len() > 0 {
        law_size_is_fixed(v, trace.drop_last());
    }
}

/// At no moment has a job been handed out more than once: whatever happened
/// to a pool since it was made, each job that is no longer queued was handed
/// to a worker exactly once, and each job that is still queued never.
pub proof fn law_job_is_started_at_most_once<J>(size: nat, trace: Seq<Event<J>>, k: int)
    requires
        size > 0,
        PoolView::<J>::fresh(size).admits(trace),
        0 <= k,
    ensures
        times_started(PoolView::<J>::fresh(size), trace, k) == (if k < PoolView::<J>::fresh(
            size,
        ).run(trace).taken {
            1nat
        } else {
            0nat
        }),
    decreases trace.len(),
{
    if trace.len() > 0 {
        law_job_is_started_at_most_once(size, trace.drop_last(), k);
        law_reachable_states_are_invariant(size, trace.drop_last());
    }
}

/// At no moment has the execution of a job ended more than once: each job
/// that is done was reported by its worker exactly once, and each job that
/// is queued or still running never.
pub proof fn law_job_ends_at_most_once<J>(size: nat, trace: Seq<Event<J>>, k: int)
    requires
        size > 0,
        PoolView::<J>::fresh(size).admits(trace),
        0 <= k < PoolView::<J>::fresh(size).run(trace).jobs.len(),
    ensures
        times_ended(PoolView::<J>::fresh(size), trace, k) == (if PoolView::<J>::fresh(size).run(
            trace,
        ).status[k].is_done() {
            1nat
        } else {
            0nat
        }),
    decreases trace.len(),
{
    let start = PoolView::<J>::fresh(size);
    if trace.len() > 0 {
        let before = start.run(trace.drop_last());
        law_reachable_states_are_invariant(size, trace.drop_last());
        match trace.last() {
            Event::Complete(w, _) => {
                assert(before.worker_ok(w as int));
            },
            _ => {},
        }
        if k < before.jobs.len() {
            law_job_ends_at_most_once(size, trace.drop_last(), k);
            assert(before.job_ok(k));
        } else {
            lemma_nothing_ends_beyond_the_record(size, trace.drop_last(), k);
        }
    }
}

/// No report concerns a job that has not been submitted yet.
proof fn lemma_nothing_ends_beyond_the_record<J>(size: nat, trace: Seq<Event<J>>, k: int)
    requires
        size > 0,
        PoolView::<J>::fresh(size).admits(trace),
        k >= PoolView::<J>::fresh(size).run(trace).jobs.len(),
    ensures
        times_ended(PoolView::<J>::fresh(size), trace, k) == 0,
    decreases trace.len(),
{
    let start = PoolView::<J>::fresh(size);
    if trace.len() > 0 {
        let before = start.run(trace.drop_last());
        law_reachable_states_are_invariant(size, trace.drop_last());
        lemma_nothing_ends_beyond_the_record(size, trace.drop_last(), k);
        match trace.last() {
            Event::Complete(w, _) => {
                assert(before.worker_ok(w as int));
            },
            _ => {},
        }
    }
}

/// Every submitted job runs exactly once. Whatever is submitted to a fresh
/// pool, and in whatever order its workers poll and report: once teardown is
/// over and no job has failed, the pool has recorded exactly the submitted
/// jobs, and each of them was handed to a worker once, ended once, and ran
/// to its end.
pub proof fn law_every_job_runs_exactly_once<J>(size: nat, trace: Seq<Event<J>>)
    requires
        size > 0,
        PoolView::<J>::fresh(size).admits(trace),
        PoolView::<J>::fresh(size).run(trace).torn_down(),
        forall|w: int|
            0 <= w < size ==> !(#[trigger] PoolView::<J>::fresh(size).run(trace).workers[w]
                is Failed),
    ensures
        PoolView::<J>::fresh(size).run(trace).jobs == submitted(trace),
        PoolView::<J>::fresh(size).run(trace).status.len() == submitted(trace).len(),
        forall|k: int|
            0 <= k < submitted(trace).len() ==> #[trigger] PoolView::<J>::fresh(size).run(
                trace,
            ).status[k] is Finished,
        forall|k: int|
            0 <= k < submitted(trace).len() ==> #[trigger] times_started(
                PoolView::<J>::fresh(size),
                trace,
                k,
            ) == 1,
        forall|k: int|
            0 <= k < submitted(trace).len() ==> #[trigger] times_ended(
                PoolView::<J>::fresh(size),
                trace,
                k,
            ) == 1,
{
    let start = PoolView::<J>::fresh(size);
    let end = start.run(trace);
    law_reachable_states_are_invariant(size, trace);
    law_record_is_what_was_submitted(start, trace);
    law_size_is_fixed(start, trace);
    assert(start.jobs + submitted(trace) =~= submitted(trace));
    law_every_job_finished_without_failure(end);
    assert forall|k: int| 0 <= k < submitted(trace).len() implies #[trigger] times_started(
        start,
        trace,
        k,
    ) == 1 by {
        assert(end.job_ok(k));
        law_job_is_started_at_most_once(size, trace, k);
    }
    assert forall|k: int| 0 <= k < submitted(trace).len() implies #[trigger] times_ended(
        start,
        trace,
        k,
    ) == 1 by {
        law_job_ends_at_most_once(size, trace, k);
    }
}

/// A job that fails takes its worker with it and nothing else: every other
/// worker stays as it was, the queue keeps what it held and stays open if it
/// was, and the number of running workers is lower by exactly one. A job
/// that completes leaves that number as it was.
pub proof fn law_failure_costs_one_worker<J>(v: PoolView<J>, w: nat)
    requires
        v.inv(),
        v.enabled(Event::Complete(w, Outcome::Failed)),
    ensures
        v.complete(w, Outcome::Failed).workers[w as int] is Failed,
        forall|other: int|
            0 <= other < v.size() && other != w ==> #[trigger] v.complete(
                w,
                Outcome::Failed,
            ).workers[other] == v.workers[other],
        v.complete(w, Outcome::Failed).live() == v.live() - 1,
        v.complete(w, Outcome::Completed).live() == v.live(),
        v.complete(w, Outcome::Failed).pending() == v.pending(),
        v.complete(w, Outcome::Failed).open == v.open,
        v.complete(w, Outcome::Failed).inv(),
{
    lemma_count_running_update(v.workers, w as int, WorkerState::Failed);
    lemma_count_running_update(v.workers, w as int, WorkerState::Idle);
    law_step_keeps_invariant(v, Event::Complete(w, Outcome::Failed));
}

/// After a failure the pool still serves: any worker that waits can poll,
/// and it is handed the oldest waiting job.
pub proof fn law_pool_survives_failure<J>(v: PoolView<J>, failed: nat, other: nat)
    requires
        v.inv(),
        v.enabled(Event::Complete(failed, Outcome::Failed)),
        other < v.size(),
        v.workers[other as int] is Idle,
        v.pending().len() > 0,
    ensures
        v.complete(failed, Outcome::Failed).enabled(Event::Poll(other)),
        v.complete(failed, Outcome::Failed).poll(other).workers[other as int] is Busy,
        v.complete(failed, Outcome::Failed).poll(other).status[v.taken as int] == (
        JobStatus::Running { worker: other }),
{
    assert(v.worker_ok(failed as int));
}

} // verus!
