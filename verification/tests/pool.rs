use webserver::pool::JobState;
use webserver::pool::Pool;
use webserver::pool::PoolError;
use webserver::pool::WorkerState;

#[test]
fn zero_size_pool_is_refused() {
    match Pool::new(0) {
        Err(PoolError::InvalidSize) => {}
        _ => panic!("a pool of zero workers must be a configuration error"),
    }
}

#[test]
fn new_pool_starts_exactly_size_workers() {
    for size in 1..6 {
        let p = Pool::new(size).unwrap();
        assert_eq!(p.workers.len(), size);
        assert_eq!(p.live_workers(), size);
        assert!(p.workers.iter().all(|w| matches!(w, WorkerState::Idle)));
        assert!(p.jobs.is_empty());
        assert!(p.queue.is_empty());
    }
}

#[test]
fn execute_enqueues_in_submission_order() {
    let mut p = Pool::new(2).unwrap();
    let a = p.execute().unwrap();
    let b = p.execute().unwrap();
    let c = p.execute().unwrap();
    assert_eq!((a, b, c), (0, 1, 2));
    assert_eq!(p.queue, vec![0, 1, 2]);
    assert!(matches!(p.jobs[0], JobState::Queued));
}

#[test]
fn more_jobs_than_workers_all_run_exactly_once() {
    let mut p = Pool::new(2).unwrap();
    for _ in 0..5 {
        p.execute().unwrap();
    }
    // both workers claim a job; at most `size` jobs are in flight at once
    let j0 = p.take_job(0).unwrap();
    let j1 = p.take_job(1).unwrap();
    assert_eq!((j0, j1), (0, 1));
    assert_eq!(p.queue.len(), 3);
    assert_eq!(p.workers.iter().filter(|w| matches!(w, WorkerState::Busy { .. })).count(), 2);
    p.finish_job(0, true);
    p.finish_job(1, true);
    p.run_until_idle();
    assert_eq!(p.completed_jobs(), 5);
    assert!(p.jobs.iter().all(|j| matches!(j, JobState::Completed)));
    assert!(p.queue.is_empty());
}

#[test]
fn failing_job_costs_no_worker() {
    let mut p = Pool::new(3).unwrap();
    p.execute().unwrap();
    p.take_job(1).unwrap();
    // the job fails; the worker goes back to waiting regardless
    p.finish_job(1, false);
    assert_eq!(p.live_workers(), 3);
    assert!(matches!(p.workers[1], WorkerState::Idle));
    // the pool can still run `size` jobs at once
    for _ in 0..3 {
        p.execute().unwrap();
    }
    assert!(p.take_job(0).is_some());
    assert!(p.take_job(1).is_some());
    assert!(p.take_job(2).is_some());
    assert_eq!(p.workers.iter().filter(|w| matches!(w, WorkerState::Busy { .. })).count(), 3);
}

#[test]
fn shutdown_is_a_barrier() {
    let mut p = Pool::new(2).unwrap();
    p.execute().unwrap();
    p.execute().unwrap();
    p.execute().unwrap();
    // job 0 is in flight when shutdown begins
    p.take_job(0).unwrap();
    p.shutdown();
    assert_eq!(p.live_workers(), 0);
    assert!(p.workers.iter().all(|w| matches!(w, WorkerState::Terminated)));
    // the in-flight job ran to completion before shutdown returned
    assert!(matches!(p.jobs[0], JobState::Completed));
    // unclaimed jobs were abandoned, never run
    assert!(matches!(p.jobs[1], JobState::Abandoned));
    assert!(matches!(p.jobs[2], JobState::Abandoned));
    assert!(p.queue.is_empty());
}

#[test]
fn submission_after_shutdown_fails_distinctly() {
    let mut p = Pool::new(1).unwrap();
    p.shutdown();
    match p.execute() {
        Err(PoolError::RejectedSubmission) => {}
        _ => panic!("a submission after shutdown must be rejected"),
    }
    // nothing was recorded or run
    assert!(p.jobs.is_empty());
    assert!(p.queue.is_empty());
}

#[test]
fn five_jobs_on_two_workers_take_three_rounds() {
    let mut p = Pool::new(2).unwrap();
    for _ in 0..5 {
        p.execute().unwrap();
    }
    let mut rounds = 0;
    while p.completed_jobs() < 5 {
        p.run_round();
        rounds += 1;
    }
    // each round runs min(waiting, size) jobs, so ceil(5 / 2) rounds drain it
    assert_eq!(rounds, 3);
    assert_eq!(p.completed_jobs(), 5);
    assert!(p.workers.iter().all(|w| matches!(w, WorkerState::Idle)));
}

#[test]
fn run_round_completes_at_most_size_jobs() {
    let mut p = Pool::new(2).unwrap();
    for _ in 0..5 {
        p.execute().unwrap();
    }
    p.run_round();
    assert_eq!(p.completed_jobs(), 2);
    assert_eq!(p.queue, vec![2, 3, 4]);
}
