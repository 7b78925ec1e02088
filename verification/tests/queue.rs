use worker_pool::queue::{Received, WorkQueue};
use worker_pool::worker::{Outcome, Step, Worker, WorkerState};

#[test]
fn queue_delivers_in_order_then_reports_empty() {
    let mut queue: WorkQueue<u8> = WorkQueue::new(1);
    assert!(queue.is_open());
    assert_eq!(queue.consumers(), 1);
    assert_eq!(queue.send(1), Ok(()));
    assert_eq!(queue.send(2), Ok(()));
    assert_eq!(queue.len(), 2);
    assert!(matches!(queue.recv(), Received::Job(1)));
    assert!(matches!(queue.recv(), Received::Job(2)));
    assert!(matches!(queue.recv(), Received::Empty));
    assert_eq!(queue.len(), 0);
}

#[test]
fn closed_queue_drains_before_it_reports_closed() {
    let mut queue: WorkQueue<u8> = WorkQueue::new(2);
    assert_eq!(queue.send(5), Ok(()));
    queue.close();
    assert!(!queue.is_open());
    assert!(matches!(queue.recv(), Received::Job(5)));
    assert!(matches!(queue.recv(), Received::Closed));
    assert!(matches!(queue.recv(), Received::Closed));
}

#[test]
fn send_fails_only_without_consumers() {
    let mut queue: WorkQueue<u8> = WorkQueue::new(1);
    assert_eq!(queue.send(1), Ok(()));
    queue.detach();
    assert_eq!(queue.consumers(), 0);
    assert_eq!(queue.send(2), Err(2));
    assert_eq!(queue.len(), 1);
}

#[test]
fn worker_runs_until_the_closed_signal() {
    let mut queue: WorkQueue<&str> = WorkQueue::new(1);
    let mut worker = Worker::new(7);
    assert_eq!(worker.id(), 7);
    assert_eq!(worker.state(), WorkerState::Idle);
    assert!(worker.is_running());
    assert!(matches!(worker.poll(&mut queue), Step::Wait));
    assert_eq!(worker.state(), WorkerState::Idle);
    assert_eq!(queue.send("job"), Ok(()));
    assert!(matches!(worker.poll(&mut queue), Step::Run("job")));
    assert_eq!(worker.state(), WorkerState::Busy);
    worker.complete(Outcome::Completed, &mut queue);
    assert_eq!(worker.state(), WorkerState::Idle);
    queue.close();
    assert!(matches!(worker.poll(&mut queue), Step::Exit));
    assert_eq!(worker.state(), WorkerState::Exited);
    assert!(!worker.is_running());
    assert_eq!(queue.consumers(), 0);
}

#[test]
fn worker_whose_job_fails_is_terminated() {
    let mut queue: WorkQueue<u8> = WorkQueue::new(2);
    let mut worker = Worker::new(0);
    assert_eq!(queue.send(9), Ok(()));
    assert!(matches!(worker.poll(&mut queue), Step::Run(9)));
    worker.complete(Outcome::Failed, &mut queue);
    assert_eq!(worker.state(), WorkerState::Failed);
    assert!(!worker.is_running());
    assert_eq!(queue.consumers(), 1);
    assert!(queue.is_open());
}
