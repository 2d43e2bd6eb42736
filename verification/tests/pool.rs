use rust_book_server::{Dispatch, PoolError, ThreadPool, WorkerState};
use std::cell::{Cell, RefCell};
use std::rc::Rc;

type Job = Box<dyn FnOnce()>;

/// Lets every worker take turns until all of them have left, executing each
/// job it is handed. Returns the number of jobs executed.
fn drain(pool: &mut ThreadPool<Job>) -> usize {
    let width: usize = pool.number_of_threads();
    let mut executed: usize = 0;
    let mut left: usize = 0;
    while left < width {
        left = 0;
        for id in 0..width {
            match pool.dequeue(id) {
                Some(Dispatch::Run(job)) => {
                    job();
                    executed += 1;
                    assert_eq!(pool.finish(id, false), Ok(()));
                }
                Some(Dispatch::Wait) => panic!("worker {} told to wait on a closed pool", id),
                Some(Dispatch::Exit) => left += 1,
                None => left += 1,
            }
        }
    }
    executed
}

fn join_all(pool: &mut ThreadPool<Job>, ids: &[usize]) {
    for id in ids {
        assert!(pool.join(*id));
    }
}

#[test]
fn create_sets_worker_count() {
    for size in [1usize, 2, 4, 64, 1000] {
        let pool = ThreadPool::<u32>::new(size).expect("a positive size is accepted");
        assert_eq!(pool.number_of_threads(), size);
        assert!(pool.is_accepting());
        assert_eq!(pool.pending(), 0);
        assert!(!pool.is_terminated());
        for id in 0..size {
            assert_eq!(pool.worker_state(id), Some(WorkerState::Running));
        }
        assert_eq!(pool.worker_state(size), None);
    }
}

#[test]
fn create_zero_is_invalid_configuration() {
    match ThreadPool::<u32>::new(0) {
        Ok(_) => panic!("a pool without workers was created"),
        Err(e) => assert_eq!(e, PoolError::InvalidConfiguration),
    }
}

#[test]
fn every_job_runs_exactly_once() {
    for n in [0usize, 1, 10, 37] {
        let runs: Rc<RefCell<Vec<u32>>> = Rc::new(RefCell::new(vec![0; n]));
        let mut pool = ThreadPool::<Job>::new(3).unwrap();
        for k in 0..n {
            let runs = Rc::clone(&runs);
            assert_eq!(pool.execute(Box::new(move || runs.borrow_mut()[k] += 1)), Ok(()));
        }
        assert_eq!(pool.pending(), n);
        let ids = pool.shutdown();
        assert_eq!(ids, vec![0, 1, 2]);
        assert_eq!(drain(&mut pool), n);
        join_all(&mut pool, &ids);
        assert!(pool.is_terminated());
        assert_eq!(pool.pending(), 0);
        assert!(runs.borrow().iter().all(|count| *count == 1));
    }
}

#[test]
fn submit_after_shutdown_is_pool_closed() {
    let mut pool = ThreadPool::<u32>::new(2).unwrap();
    assert_eq!(pool.execute(1), Ok(()));
    pool.shutdown();
    assert!(!pool.is_accepting());
    assert_eq!(pool.execute(2), Err(PoolError::PoolClosed));
    assert_eq!(pool.pending(), 1);
    assert_eq!(pool.dequeue(0), Some(Dispatch::Run(1)));
    assert_eq!(pool.execute(3), Err(PoolError::PoolClosed));
    assert_eq!(pool.pending(), 0);
}

#[test]
fn single_worker_serializes() {
    let log: Rc<RefCell<Vec<&'static str>>> = Rc::new(RefCell::new(Vec::new()));
    let mut pool = ThreadPool::<Job>::new(1).unwrap();
    let a = Rc::clone(&log);
    let b = Rc::clone(&log);
    pool.execute(Box::new(move || a.borrow_mut().push("A"))).unwrap();
    pool.execute(Box::new(move || b.borrow_mut().push("B"))).unwrap();
    let first = match pool.dequeue(0) {
        Some(Dispatch::Run(job)) => job,
        _ => panic!("the worker was not handed the first job"),
    };
    // While A is in the worker's hands B cannot begin.
    assert!(pool.dequeue(0).is_none());
    assert_eq!(pool.pending(), 1);
    first();
    assert_eq!(*log.borrow(), vec!["A"]);
    assert_eq!(pool.finish(0, false), Ok(()));
    match pool.dequeue(0) {
        Some(Dispatch::Run(job)) => job(),
        _ => panic!("the worker was not handed the second job"),
    }
    assert_eq!(*log.borrow(), vec!["A", "B"]);
}

#[test]
fn four_workers_hundred_jobs_count_to_hundred() {
    let counter: Rc<Cell<u32>> = Rc::new(Cell::new(0));
    let mut pool = ThreadPool::<Job>::new(4).unwrap();
    for _ in 0..100 {
        let counter = Rc::clone(&counter);
        pool.execute(Box::new(move || counter.set(counter.get() + 1))).unwrap();
    }
    let ids = pool.shutdown();
    assert_eq!(drain(&mut pool), 100);
    join_all(&mut pool, &ids);
    assert!(pool.is_terminated());
    assert_eq!(counter.get(), 100);
}

#[test]
fn four_workers_hold_four_jobs_at_once() {
    let mut pool = ThreadPool::<u32>::new(4).unwrap();
    for job in 0..6 {
        pool.execute(job).unwrap();
    }
    for id in 0..4 {
        assert_eq!(pool.dequeue(id), Some(Dispatch::Run(id as u32)));
        assert_eq!(pool.worker_state(id), Some(WorkerState::Executing));
    }
    assert_eq!(pool.pending(), 2);
    // Every worker is busy: nobody can take the fifth job.
    for id in 0..4 {
        assert_eq!(pool.dequeue(id), None);
    }
    assert_eq!(pool.finish(2, false), Ok(()));
    assert_eq!(pool.dequeue(2), Some(Dispatch::Run(4)));
}

#[test]
fn shutdown_waits_for_job_in_flight() {
    let mut pool = ThreadPool::<u32>::new(2).unwrap();
    pool.execute(11).unwrap();
    assert_eq!(pool.dequeue(1), Some(Dispatch::Run(11)));
    let ids = pool.shutdown();
    assert_eq!(ids, vec![0, 1]);
    assert_eq!(pool.dequeue(0), Some(Dispatch::Exit));
    assert!(pool.join(0));
    // Worker 1 is still executing: it cannot be joined, and shutdown is not over.
    assert!(!pool.join(1));
    assert_eq!(pool.worker_state(1), Some(WorkerState::Executing));
    assert!(!pool.is_terminated());
    assert_eq!(pool.finish(1, false), Ok(()));
    assert!(!pool.join(1));
    assert_eq!(pool.dequeue(1), Some(Dispatch::Exit));
    assert_eq!(pool.worker_state(1), Some(WorkerState::Terminating));
    assert!(!pool.is_terminated());
    assert!(pool.join(1));
    assert_eq!(pool.worker_state(1), Some(WorkerState::Joined));
    assert!(pool.is_terminated());
}

#[test]
fn interleaved_producers_lose_no_job() {
    let mut pool = ThreadPool::<(u8, u32)>::new(2).unwrap();
    let mut taken: Vec<(u8, u32)> = Vec::new();
    // Three producers take turns; a worker takes a job now and then.
    for round in 0..20u32 {
        for producer in 0..3u8 {
            assert_eq!(pool.execute((producer, round)), Ok(()));
        }
        if round % 4 == 0 {
            match pool.dequeue(0) {
                Some(Dispatch::Run(job)) => taken.push(job),
                other => panic!("expected a job, got {:?}", other),
            }
            assert_eq!(pool.finish(0, false), Ok(()));
        }
    }
    assert_eq!(taken.len() + pool.pending(), 60);
    pool.shutdown();
    loop {
        match pool.dequeue(1) {
            Some(Dispatch::Run(job)) => {
                taken.push(job);
                assert_eq!(pool.finish(1, false), Ok(()));
            }
            Some(Dispatch::Exit) => break,
            other => panic!("unexpected answer {:?}", other),
        }
    }
    assert_eq!(taken.len(), 60);
    // Each producer's jobs were delivered in the order in which it submitted them.
    for producer in 0..3u8 {
        let rounds: Vec<u32> =
            taken.iter().filter(|job| job.0 == producer).map(|job| job.1).collect();
        assert_eq!(rounds, (0..20).collect::<Vec<u32>>());
    }
}

#[test]
fn jobs_leave_in_submission_order() {
    let mut pool = ThreadPool::<&'static str>::new(3).unwrap();
    for job in ["a", "b", "c", "d"] {
        pool.execute(job).unwrap();
    }
    assert_eq!(pool.dequeue(2), Some(Dispatch::Run("a")));
    assert_eq!(pool.dequeue(0), Some(Dispatch::Run("b")));
    assert_eq!(pool.finish(2, false), Ok(()));
    assert_eq!(pool.dequeue(2), Some(Dispatch::Run("c")));
    assert_eq!(pool.dequeue(1), Some(Dispatch::Run("d")));
    assert_eq!(pool.pending(), 0);
}

#[test]
fn idle_worker_waits_while_open_and_leaves_once_closed() {
    let mut pool = ThreadPool::<u32>::new(1).unwrap();
    assert_eq!(pool.dequeue(0), Some(Dispatch::Wait));
    assert_eq!(pool.worker_state(0), Some(WorkerState::Running));
    assert_eq!(pool.dequeue(0), Some(Dispatch::Wait));
    pool.shutdown();
    assert_eq!(pool.dequeue(0), Some(Dispatch::Exit));
    assert_eq!(pool.worker_state(0), Some(WorkerState::Terminating));
    // A worker that is leaving is handed nothing more.
    assert_eq!(pool.dequeue(0), None);
    assert_eq!(pool.worker_state(0), Some(WorkerState::Terminating));
}

#[test]
fn queued_jobs_are_drained_after_shutdown_begins() {
    let mut pool = ThreadPool::<u32>::new(1).unwrap();
    pool.execute(1).unwrap();
    pool.execute(2).unwrap();
    pool.shutdown();
    assert_eq!(pool.pending(), 2);
    assert_eq!(pool.dequeue(0), Some(Dispatch::Run(1)));
    assert_eq!(pool.finish(0, false), Ok(()));
    assert_eq!(pool.dequeue(0), Some(Dispatch::Run(2)));
    assert_eq!(pool.finish(0, false), Ok(()));
    assert_eq!(pool.dequeue(0), Some(Dispatch::Exit));
}

#[test]
fn faulted_job_is_reported_and_worker_stays_in_rotation() {
    let mut pool = ThreadPool::<u32>::new(1).unwrap();
    pool.execute(1).unwrap();
    pool.execute(2).unwrap();
    assert_eq!(pool.dequeue(0), Some(Dispatch::Run(1)));
    assert_eq!(pool.finish(0, true), Err(PoolError::JobFault));
    assert_eq!(pool.worker_state(0), Some(WorkerState::Running));
    assert_eq!(pool.dequeue(0), Some(Dispatch::Run(2)));
    assert_eq!(pool.finish(0, false), Ok(()));
    assert_eq!(pool.number_of_threads(), 1);
}

#[test]
fn finish_without_a_job_changes_nothing() {
    let mut pool = ThreadPool::<u32>::new(2).unwrap();
    pool.execute(5).unwrap();
    assert_eq!(pool.finish(0, false), Ok(()));
    assert_eq!(pool.finish(0, true), Ok(()));
    assert_eq!(pool.finish(9, true), Ok(()));
    assert_eq!(pool.worker_state(0), Some(WorkerState::Running));
    assert_eq!(pool.pending(), 1);
    assert_eq!(pool.dequeue(0), Some(Dispatch::Run(5)));
}

#[test]
fn unknown_worker_is_refused() {
    let mut pool = ThreadPool::<u32>::new(2).unwrap();
    pool.execute(5).unwrap();
    assert_eq!(pool.dequeue(2), None);
    assert_eq!(pool.dequeue(usize::MAX), None);
    assert!(!pool.join(2));
    assert_eq!(pool.worker_state(2), None);
    assert_eq!(pool.pending(), 1);
}

#[test]
fn join_applies_only_to_a_worker_that_is_leaving() {
    let mut pool = ThreadPool::<u32>::new(1).unwrap();
    assert!(!pool.join(0));
    pool.shutdown();
    assert!(!pool.join(0));
    assert_eq!(pool.dequeue(0), Some(Dispatch::Exit));
    assert!(pool.join(0));
    assert!(!pool.join(0));
    assert_eq!(pool.worker_state(0), Some(WorkerState::Joined));
}

#[test]
fn second_shutdown_is_harmless() {
    let mut pool = ThreadPool::<u32>::new(3).unwrap();
    pool.execute(8).unwrap();
    assert_eq!(pool.shutdown(), vec![0, 1, 2]);
    assert_eq!(pool.dequeue(1), Some(Dispatch::Run(8)));
    assert_eq!(pool.dequeue(0), Some(Dispatch::Exit));
    assert!(pool.join(0));
    assert_eq!(pool.shutdown(), vec![1, 2]);
    assert!(!pool.is_accepting());
    assert_eq!(pool.pending(), 0);
    assert_eq!(pool.worker_state(1), Some(WorkerState::Executing));
    assert_eq!(pool.finish(1, false), Ok(()));
    assert_eq!(pool.dequeue(1), Some(Dispatch::Exit));
    assert_eq!(pool.dequeue(2), Some(Dispatch::Exit));
    assert!(pool.join(2));
    assert!(pool.join(1));
    assert_eq!(pool.shutdown(), Vec::<usize>::new());
    assert!(pool.is_terminated());
}

#[test]
fn shutdown_of_an_idle_pool_ends_with_every_worker_joined() {
    let mut pool = ThreadPool::<Job>::new(5).unwrap();
    let ids = pool.shutdown();
    assert_eq!(ids, vec![0, 1, 2, 3, 4]);
    assert_eq!(drain(&mut pool), 0);
    assert!(!pool.is_terminated());
    join_all(&mut pool, &ids);
    assert!(pool.is_terminated());
}
