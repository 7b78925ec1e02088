use std::cell::{Cell, RefCell};
use std::rc::Rc;

use worker_pool::pool::{Join, ThreadPool};
use worker_pool::worker::{Outcome, Step, WorkerState};

type Job = Box<dyn FnOnce()>;

/// Lets the workers take turns until none of them can do anything more:
/// each idle worker polls, runs what it is given and reports completion.
fn drive(pool: &mut ThreadPool<Job>) {
    loop {
        let mut progressed = false;
        for w in 0..pool.size() {
            if pool.worker_state(w) != WorkerState::Idle {
                continue;
            }
            match pool.poll(w) {
                Step::Run(job) => {
                    job();
                    pool.complete(w, Outcome::Completed);
                    progressed = true;
                }
                Step::Exit => progressed = true,
                Step::Wait => {}
            }
        }
        if !progressed {
            return;
        }
    }
}

fn run_counting_jobs(size: usize, jobs: usize) -> usize {
    let counter = Rc::new(Cell::new(0usize));
    let mut pool: ThreadPool<Job> = ThreadPool::new(size);
    for _ in 0..jobs {
        let counter = Rc::clone(&counter);
        pool.execute(Box::new(move || counter.set(counter.get() + 1)));
    }
    assert_eq!(pool.teardown().is_none(), false);
    drive(&mut pool);
    assert_eq!(pool.teardown(), None);
    assert!(pool.is_torn_down());
    assert_eq!(pool.pending_jobs(), 0);
    counter.get()
}

#[test]
fn new_pool_has_exactly_size_idle_workers() {
    for size in 1..=8usize {
        let pool: ThreadPool<u32> = ThreadPool::new(size);
        assert_eq!(pool.size(), size);
        assert_eq!(pool.live_workers(), size);
        assert!(pool.is_open());
        assert_eq!(pool.pending_jobs(), 0);
        assert_eq!(pool.joined_workers(), 0);
        for w in 0..size {
            assert_eq!(pool.worker_state(w), WorkerState::Idle);
        }
    }
}

#[test]
fn size_jobs_run_at_once_and_one_more_waits() {
    let size = 4usize;
    let mut pool: ThreadPool<u32> = ThreadPool::new(size);
    for job in 0..=size as u32 {
        pool.execute(job);
    }
    for w in 0..size {
        assert!(matches!(pool.poll(w), Step::Run(job) if job == w as u32));
    }
    for w in 0..size {
        assert_eq!(pool.worker_state(w), WorkerState::Busy);
    }
    assert_eq!(pool.pending_jobs(), 1);
    pool.complete(2, Outcome::Completed);
    assert_eq!(pool.worker_state(2), WorkerState::Idle);
    assert!(matches!(pool.poll(2), Step::Run(4)));
    assert_eq!(pool.pending_jobs(), 0);
}

#[test]
fn every_job_runs_exactly_once_for_no_job() {
    assert_eq!(run_counting_jobs(3, 0), 0);
}

#[test]
fn every_job_runs_exactly_once_for_one_job() {
    assert_eq!(run_counting_jobs(3, 1), 1);
}

#[test]
fn every_job_runs_exactly_once_for_ten_jobs() {
    assert_eq!(run_counting_jobs(3, 10), 10);
}

#[test]
fn every_job_runs_exactly_once_for_a_thousand_jobs() {
    assert_eq!(run_counting_jobs(4, 1000), 1000);
}

#[test]
fn each_job_is_delivered_to_one_worker_in_submission_order() {
    let seen = Rc::new(RefCell::new(Vec::new()));
    let mut pool: ThreadPool<Job> = ThreadPool::new(2);
    for id in 0..6u32 {
        let seen = Rc::clone(&seen);
        pool.execute(Box::new(move || seen.borrow_mut().push(id)));
    }
    drive(&mut pool);
    assert_eq!(*seen.borrow(), vec![0, 1, 2, 3, 4, 5]);
}

#[test]
fn teardown_waits_for_the_job_in_flight() {
    let finished = Rc::new(Cell::new(false));
    let mut pool: ThreadPool<Job> = ThreadPool::new(1);
    let flag = Rc::clone(&finished);
    pool.execute(Box::new(move || flag.set(true)));
    let job = match pool.poll(0) {
        Step::Run(job) => job,
        _ => panic!("the submitted job was not handed out"),
    };
    assert_eq!(pool.teardown(), Some(0));
    assert!(!pool.is_torn_down());
    assert!(!finished.get());
    job();
    pool.complete(0, Outcome::Completed);
    assert_eq!(pool.teardown(), Some(0));
    assert!(matches!(pool.poll(0), Step::Exit));
    assert_eq!(pool.teardown(), None);
    assert!(finished.get());
    assert!(pool.is_torn_down());
}

#[test]
fn teardown_right_after_submission_still_runs_the_job() {
    let finished = Rc::new(Cell::new(false));
    let mut pool: ThreadPool<Job> = ThreadPool::new(2);
    let flag = Rc::clone(&finished);
    pool.execute(Box::new(move || flag.set(true)));
    assert_eq!(pool.teardown(), Some(0));
    assert_eq!(pool.pending_jobs(), 1);
    drive(&mut pool);
    assert_eq!(pool.teardown(), None);
    assert!(finished.get());
}

#[test]
fn no_worker_is_alive_after_teardown() {
    let mut pool: ThreadPool<u32> = ThreadPool::new(3);
    pool.execute(1);
    pool.close();
    assert!(matches!(pool.poll(1), Step::Run(1)));
    assert!(matches!(pool.poll(0), Step::Exit));
    assert!(matches!(pool.poll(2), Step::Exit));
    assert_eq!(pool.join(), Join::Joined(0));
    assert_eq!(pool.join(), Join::Blocked(1));
    pool.complete(1, Outcome::Completed);
    assert_eq!(pool.join(), Join::Blocked(1));
    assert!(matches!(pool.poll(1), Step::Exit));
    assert_eq!(pool.join(), Join::Joined(1));
    assert_eq!(pool.join(), Join::Joined(2));
    assert_eq!(pool.join(), Join::Done);
    assert!(pool.is_torn_down());
    assert_eq!(pool.live_workers(), 0);
    assert_eq!(pool.joined_workers(), 3);
    for w in 0..3 {
        assert_eq!(pool.worker_state(w), WorkerState::Exited);
    }
}

#[test]
fn open_pool_with_empty_queue_makes_workers_wait() {
    let mut pool: ThreadPool<u32> = ThreadPool::new(2);
    assert!(matches!(pool.poll(0), Step::Wait));
    assert!(matches!(pool.poll(1), Step::Wait));
    assert_eq!(pool.worker_state(0), WorkerState::Idle);
    assert_eq!(pool.live_workers(), 2);
}

#[test]
fn closed_pool_hands_out_what_waits_before_workers_exit() {
    let mut pool: ThreadPool<u32> = ThreadPool::new(1);
    pool.execute(10);
    pool.execute(20);
    pool.close();
    assert!(!pool.is_open());
    assert!(matches!(pool.poll(0), Step::Run(10)));
    pool.complete(0, Outcome::Completed);
    assert!(matches!(pool.poll(0), Step::Run(20)));
    pool.complete(0, Outcome::Completed);
    assert!(matches!(pool.poll(0), Step::Exit));
    assert_eq!(pool.worker_state(0), WorkerState::Exited);
}

#[test]
fn failed_job_costs_one_worker_and_spares_the_rest() {
    let mut pool: ThreadPool<u32> = ThreadPool::new(3);
    for job in 0..4u32 {
        pool.execute(job);
    }
    assert!(matches!(pool.poll(0), Step::Run(0)));
    assert!(matches!(pool.poll(1), Step::Run(1)));
    pool.complete(0, Outcome::Failed);
    assert_eq!(pool.worker_state(0), WorkerState::Failed);
    assert_eq!(pool.worker_state(1), WorkerState::Busy);
    assert_eq!(pool.worker_state(2), WorkerState::Idle);
    assert_eq!(pool.live_workers(), 2);
    assert!(pool.is_open());
    assert_eq!(pool.pending_jobs(), 2);
    assert!(matches!(pool.poll(2), Step::Run(2)));
    pool.complete(1, Outcome::Completed);
    assert!(matches!(pool.poll(1), Step::Run(3)));
    pool.complete(1, Outcome::Completed);
    pool.complete(2, Outcome::Completed);
    assert_eq!(pool.live_workers(), 2);
    pool.execute(4);
    assert!(matches!(pool.poll(2), Step::Run(4)));
    pool.complete(2, Outcome::Completed);
    assert_eq!(pool.teardown(), Some(1));
    assert!(matches!(pool.poll(1), Step::Exit));
    assert!(matches!(pool.poll(2), Step::Exit));
    assert_eq!(pool.teardown(), None);
    assert_eq!(pool.worker_state(0), WorkerState::Failed);
}

#[test]
fn pool_whose_workers_all_failed_leaves_jobs_waiting() {
    let mut pool: ThreadPool<u32> = ThreadPool::new(1);
    pool.execute(1);
    pool.execute(2);
    assert!(matches!(pool.poll(0), Step::Run(1)));
    pool.complete(0, Outcome::Failed);
    assert_eq!(pool.live_workers(), 0);
    assert_eq!(pool.teardown(), None);
    assert_eq!(pool.pending_jobs(), 1);
}

/// A small generator of pseudo-random numbers, so that the interleavings
/// below are the same in every run.
struct Lcg(u64);

impl Lcg {
    fn below(&mut self, bound: usize) -> usize {
        self.0 = self.0.wrapping_mul(6364136223846793005).wrapping_add(1442695040888963407);
        ((self.0 >> 33) as usize) % bound
    }
}

#[test]
fn any_interleaving_runs_each_job_once_on_one_worker() {
    for seed in 0..50u64 {
        let mut random = Lcg(seed);
        let size = 1 + random.below(4);
        let mut pool: ThreadPool<usize> = ThreadPool::new(size);
        let mut held: Vec<Option<usize>> = vec![None; size];
        let mut runs: Vec<usize> = Vec::new();
        let mut submitted = 0usize;
        let mut failures = 0usize;
        for _ in 0..400 {
            let w = random.below(size);
            match random.below(4) {
                0 => {
                    if pool.is_open() && pool.live_workers() > 0 && submitted < 60 {
                        pool.execute(submitted);
                        runs.push(0);
                        submitted += 1;
                    }
                }
                1 | 2 => {
                    if pool.worker_state(w) == WorkerState::Idle {
                        if let Step::Run(job) = pool.poll(w) {
                            runs[job] += 1;
                            held[w] = Some(job);
                        }
                    }
                }
                _ => {
                    if pool.worker_state(w) == WorkerState::Busy {
                        let fails = random.below(10) == 0;
                        if fails {
                            failures += 1;
                        }
                        held[w] = None;
                        pool.complete(w, if fails { Outcome::Failed } else { Outcome::Completed });
                    }
                }
            }
            let busy = (0..size).filter(|&w| pool.worker_state(w) == WorkerState::Busy).count();
            assert_eq!(busy, held.iter().filter(|job| job.is_some()).count());
            assert_eq!(pool.live_workers(), size - failures);
            assert!(runs.iter().all(|&n| n <= 1));
            assert_eq!(pool.pending_jobs(), runs.iter().filter(|&&n| n == 0).count());
        }
        while let Some(w) = pool.teardown() {
            match pool.worker_state(w) {
                WorkerState::Idle => {
                    if let Step::Run(job) = pool.poll(w) {
                        runs[job] += 1;
                    }
                }
                WorkerState::Busy => pool.complete(w, Outcome::Completed),
                state => panic!("teardown blocked on a worker that is {:?}", state),
            }
        }
        assert!(pool.is_torn_down());
        assert_eq!(pool.live_workers(), 0);
        assert!(runs.iter().all(|&n| n <= 1));
        if failures < size {
            assert_eq!(pool.pending_jobs(), 0);
            assert!(runs.iter().all(|&n| n == 1));
        }
    }
}
