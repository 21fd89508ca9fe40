use worker_pool::Message;
use worker_pool::Received;
use worker_pool::ThreadPool;
use worker_pool::WorkerAction;
use worker_pool::thread_pool::worker_decision;

#[test]
fn new_spawns_exactly_that_many_workers() {
    for size in [1usize, 4, 8] {
        let pool = ThreadPool::new(size);
        assert_eq!(pool.worker_count(), size);
        assert!(pool.all_workers_running());
        assert!(!pool.all_workers_exited());
        assert!(!pool.is_shut_down());
        assert_eq!(pool.pending_count(), 0);
    }
}

#[test]
fn worker_decision_table() {
    assert_eq!(
        worker_decision(Received::Message(Message::NewJob(3))),
        WorkerAction::RunJob(3)
    );
    assert_eq!(
        worker_decision(Received::Message(Message::Terminate)),
        WorkerAction::Exit
    );
    assert_eq!(worker_decision(Received::Disconnected), WorkerAction::Exit);
    assert_eq!(worker_decision(Received::Empty), WorkerAction::Idle);
}

#[test]
fn single_worker_runs_jobs_in_submission_order() {
    let labels = ["A", "B", "C"];
    let mut pool = ThreadPool::new(1);
    pool.execute(0);
    pool.execute(1);
    pool.execute(2);
    let mut list: Vec<&str> = Vec::new();
    for _ in 0..3 {
        match pool.worker_step(0) {
            WorkerAction::RunJob(id) => list.push(labels[id as usize]),
            other => panic!("expected a job, got {:?}", other),
        }
    }
    assert_eq!(list, vec!["A", "B", "C"]);
    // nothing is left: the worker would now block on the queue
    assert_eq!(pool.worker_step(0), WorkerAction::Idle);
}

#[test]
fn dequeue_order_matches_submission_order() {
    let mut pool = ThreadPool::new(2);
    let submitted = [10u64, 20, 30, 40, 50];
    for id in submitted {
        pool.execute(id);
    }
    let mut collected: Vec<u64> = Vec::new();
    let mut wid: usize = 0;
    while pool.pending_count() > 0 {
        if let WorkerAction::RunJob(id) = pool.worker_step(wid) {
            collected.push(id);
        }
        wid = (wid + 1) % 2;
    }
    // dequeue order equals enqueue order, whichever worker took each job
    assert_eq!(collected, submitted.to_vec());
}

#[test]
fn every_job_runs_exactly_once_under_many_workers() {
    let size: usize = 3;
    let total: u64 = 10 * size as u64;
    let mut pool = ThreadPool::new(size);
    for id in 0..total {
        pool.execute(id);
    }
    let mut times_run = vec![0u32; total as usize];
    let mut wid: usize = 0;
    while pool.pending_count() > 0 {
        match pool.worker_step(wid) {
            WorkerAction::RunJob(id) => times_run[id as usize] += 1,
            WorkerAction::Idle => {}
            WorkerAction::Exit => panic!("no shutdown was signalled"),
        }
        wid = (wid + 1) % size;
    }
    assert!(times_run.iter().all(|&n| n == 1));
}

#[test]
fn jobs_spread_across_workers() {
    let mut pool = ThreadPool::new(4);
    pool.execute(100);
    pool.execute(200);
    // two idle workers each take one job: neither runs both
    assert_eq!(pool.worker_step(0), WorkerAction::RunJob(100));
    assert_eq!(pool.worker_step(1), WorkerAction::RunJob(200));
    assert_eq!(pool.pending_count(), 0);
}

#[test]
fn teardown_with_no_jobs_completes() {
    let mut pool = ThreadPool::new(4);
    pool.shutdown();
    assert_eq!(pool.pending_count(), 4);
    for wid in 0..4 {
        assert_eq!(pool.worker_step(wid), WorkerAction::Exit);
    }
    assert!(pool.all_workers_exited());
    assert_eq!(pool.pending_count(), 0);
}

#[test]
fn jobs_submitted_before_shutdown_all_run() {
    let size: usize = 2;
    let mut pool = ThreadPool::new(size);
    let submitted = [7u64, 8, 9];
    for id in submitted {
        pool.execute(id);
    }
    pool.shutdown();
    // three jobs, then one terminal signal per worker
    assert_eq!(pool.pending_count(), 3 + size);
    let mut collected: Vec<u64> = Vec::new();
    let mut running = [true; 2];
    let mut wid: usize = 0;
    while running.iter().any(|&r| r) {
        if running[wid] {
            match pool.worker_step(wid) {
                WorkerAction::RunJob(id) => collected.push(id),
                WorkerAction::Exit => running[wid] = false,
                WorkerAction::Idle => panic!("queue cannot be empty before all exits"),
            }
        }
        wid = (wid + 1) % size;
    }
    assert_eq!(collected, submitted.to_vec());
    assert!(pool.all_workers_exited());
    assert_eq!(pool.pending_count(), 0);
}
