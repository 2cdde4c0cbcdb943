use rust_server::pool::{ClaimOutcome, PoolError, ThreadPool, WorkerPhase};

/// `new(0)` is rejected as an invalid configuration and builds nothing.
#[test]
fn new_zero_is_invalid_configuration() {
    let r = ThreadPool::new(0);
    match r {
        Err(e) => assert_eq!(e, PoolError::InvalidConfiguration),
        Ok(_) => panic!("a zero-sized pool must be rejected"),
    }
}

/// `new(size)` creates exactly `size` workers, all running.
#[test]
fn new_creates_size_workers() {
    let p = ThreadPool::new(4).unwrap();
    assert_eq!(p.workers.len(), 4);
    for w in &p.workers {
        assert_eq!(*w, WorkerPhase::Running);
    }
    assert!(p.accepting);
    assert_eq!(p.queue.len(), 0);
    assert_eq!(p.submitted.len(), 0);
    assert_eq!(p.executed.len(), 0);
}

/// Submissions append to the queue in order while the pool is open.
#[test]
fn execute_enqueues_in_order() {
    let mut p = ThreadPool::new(2).unwrap();
    assert!(p.execute(10).is_ok());
    assert!(p.execute(20).is_ok());
    assert!(p.execute(30).is_ok());
    assert_eq!(p.queue, vec![10, 20, 30]);
    assert_eq!(p.submitted, vec![10, 20, 30]);
}

/// Submitting after shutdown fails with `PoolClosed` and changes nothing.
#[test]
fn execute_after_shutdown_fails() {
    let mut p = ThreadPool::new(2).unwrap();
    assert!(p.execute(1).is_ok());
    p.shutdown();
    let r = p.execute(2);
    match r {
        Err(e) => assert_eq!(e, PoolError::PoolClosed),
        Ok(()) => panic!("submission after shutdown must fail"),
    }
    assert_eq!(p.queue, vec![1]);
    assert_eq!(p.submitted, vec![1]);
}

/// A claim on an empty, open queue tells the worker to keep waiting.
#[test]
fn claim_on_open_empty_queue_waits() {
    let mut p = ThreadPool::new(1).unwrap();
    let c = p.claim(0);
    assert_eq!(c, ClaimOutcome::KeepWaiting);
    assert_eq!(p.workers[0], WorkerPhase::Running);
}

/// A claim hands out the front of the queue; the worker then executes it.
#[test]
fn claim_hands_out_front_of_queue() {
    let mut p = ThreadPool::new(2).unwrap();
    p.execute(5).unwrap();
    p.execute(6).unwrap();
    let c = p.claim(1);
    assert_eq!(c, ClaimOutcome::Claimed(5));
    assert_eq!(p.workers[1], WorkerPhase::Executing(5));
    assert_eq!(p.queue, vec![6]);
    p.finish(1);
    assert_eq!(p.workers[1], WorkerPhase::Running);
    assert_eq!(p.executed, vec![5]);
}

/// Closing the queue does not discard pending jobs: workers drain them
/// and exit only once the queue is empty.
#[test]
fn shutdown_drains_pending_jobs_before_exit() {
    let mut p = ThreadPool::new(1).unwrap();
    p.execute(7).unwrap();
    p.execute(8).unwrap();
    p.shutdown();
    assert_eq!(p.claim(0), ClaimOutcome::Claimed(7));
    p.finish(0);
    assert_eq!(p.claim(0), ClaimOutcome::Claimed(8));
    p.finish(0);
    assert_eq!(p.claim(0), ClaimOutcome::Exit);
    assert_eq!(p.workers[0], WorkerPhase::Terminated);
    assert_eq!(p.executed, vec![7, 8]);
    assert_eq!(p.queue.len(), 0);
}

/// A second shutdown is a no-op.
#[test]
fn shutdown_is_idempotent() {
    let mut p = ThreadPool::new(2).unwrap();
    p.execute(1).unwrap();
    p.shutdown();
    let queue_before = p.queue.clone();
    p.shutdown();
    assert!(!p.accepting);
    assert_eq!(p.queue, queue_before);
}

/// Each submitted job runs exactly once: after a full drain the finished
/// log holds exactly the submitted jobs, independent of the pool size.
#[test]
fn drain_runs_every_job_exactly_once() {
    let mut p = ThreadPool::new(2).unwrap();
    for j in 0..5 {
        p.execute(j).unwrap();
    }
    p.shutdown();
    // drive the two workers alternately until both exit
    let mut done = [false, false];
    while !(done[0] && done[1]) {
        for wid in 0..2 {
            if done[wid] {
                continue;
            }
            match p.claim(wid) {
                ClaimOutcome::Claimed(_) => p.finish(wid),
                ClaimOutcome::Exit => done[wid] = true,
                ClaimOutcome::KeepWaiting => unreachable!("queue is closed"),
            }
        }
    }
    assert_eq!(p.executed.len(), 5);
    let mut seen = p.executed.clone();
    seen.sort();
    assert_eq!(seen, vec![0, 1, 2, 3, 4]);
}

/// A single worker finishes jobs in exactly the submission order.
#[test]
fn single_worker_serializes_in_submission_order() {
    let mut p = ThreadPool::new(1).unwrap();
    p.execute(100).unwrap();
    p.execute(200).unwrap();
    p.execute(300).unwrap();
    p.shutdown();
    loop {
        match p.claim(0) {
            ClaimOutcome::Claimed(_) => p.finish(0),
            ClaimOutcome::Exit => break,
            ClaimOutcome::KeepWaiting => unreachable!("queue is closed"),
        }
    }
    assert_eq!(p.executed, vec![100, 200, 300]);
    assert_eq!(p.executed, p.submitted);
}

/// Many jobs over several workers, claims and completions interleaved out
/// of order: the totals still balance, with no loss and no duplication.
#[test]
fn interleaved_workers_lose_nothing() {
    let size = 4;
    let mut p = ThreadPool::new(size).unwrap();
    for j in 0..40 {
        p.execute(j).unwrap();
    }
    p.shutdown();
    let mut done = vec![false; size];
    let mut busy = vec![false; size];
    let mut step: usize = 0;
    while done.iter().any(|d| !d) {
        let wid = step % size;
        step += 1;
        if done[wid] {
            continue;
        }
        if busy[wid] {
            // finish late: other workers claimed meanwhile
            if step % 3 != 0 {
                p.finish(wid);
                busy[wid] = false;
            }
            continue;
        }
        match p.claim(wid) {
            ClaimOutcome::Claimed(_) => busy[wid] = true,
            ClaimOutcome::Exit => done[wid] = true,
            ClaimOutcome::KeepWaiting => unreachable!("queue is closed"),
        }
    }
    assert_eq!(p.executed.len(), 40);
    let mut seen = p.executed.clone();
    seen.sort();
    seen.dedup();
    assert_eq!(seen.len(), 40);
}

/// Four workers, eight jobs appending their index to an ordered log:
/// after the drain the log holds each index exactly once.
#[test]
fn four_workers_eight_jobs_complete_log() {
    let mut p = ThreadPool::new(4).unwrap();
    for j in 0..8 {
        p.execute(j).unwrap();
    }
    p.shutdown();
    let mut log: Vec<u64> = Vec::new();
    let mut done = [false; 4];
    while done.iter().any(|d| !d) {
        for wid in 0..4 {
            if done[wid] {
                continue;
            }
            match p.claim(wid) {
                ClaimOutcome::Claimed(j) => {
                    // the job itself: append its index to the shared log
                    log.push(j);
                    p.finish(wid);
                }
                ClaimOutcome::Exit => done[wid] = true,
                ClaimOutcome::KeepWaiting => unreachable!("queue is closed"),
            }
        }
    }
    assert_eq!(log.len(), 8);
    let mut seen = log.clone();
    seen.sort();
    assert_eq!(seen, vec![0, 1, 2, 3, 4, 5, 6, 7]);
    assert_eq!(p.executed, log);
}

/// The join-failure error is a distinct variant of the pool's errors.
#[test]
fn error_variants_are_distinct() {
    assert_eq!(PoolError::WorkerJoinFailure, PoolError::WorkerJoinFailure);
    assert_ne!(PoolError::WorkerJoinFailure, PoolError::PoolClosed);
    assert_ne!(PoolError::PoolClosed, PoolError::InvalidConfiguration);
}
