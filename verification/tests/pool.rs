use workpool::Lifecycle;
use workpool::PoolError;
use workpool::ReceiveOutcome;
use workpool::ThreadPool;
use workpool::WorkerState;

fn collected_tags(p: &ThreadPool) -> Vec<u64> {
    let mut tags: Vec<u64> = Vec::new();
    for w in &p.workers {
        tags.extend(w.executed.iter().copied());
    }
    tags.sort();
    tags
}

#[test]
fn construction_spawns_waiting_workers() {
    let p = ThreadPool::new(4);
    assert_eq!(p.workers.len(), 4);
    assert_eq!(p.lifecycle, Lifecycle::Active);
    for (i, w) in p.workers.iter().enumerate() {
        assert_eq!(w.id, i);
        assert_eq!(w.state, WorkerState::Waiting);
        assert!(w.executed.is_empty());
        assert_eq!(w.failed_job, None);
        assert!(!w.joined);
    }
}

#[test]
fn any_positive_size_succeeds() {
    for size in 1..6usize {
        let p = ThreadPool::try_new(size).unwrap();
        assert_eq!(p.workers.len(), size);
    }
}

#[test]
fn zero_size_fails_at_construction() {
    match ThreadPool::try_new(0) {
        Err(e) => assert_eq!(e, PoolError::InvalidPoolSize),
        Ok(_) => panic!("a zero-size pool must not construct"),
    }
}

#[test]
fn full_concurrency_at_size() {
    let mut p = ThreadPool::new(3);
    p.execute(10);
    p.execute(20);
    p.execute(30);
    assert_eq!(p.worker_try_dequeue(0), ReceiveOutcome::Job(10));
    assert_eq!(p.worker_try_dequeue(1), ReceiveOutcome::Job(20));
    assert_eq!(p.worker_try_dequeue(2), ReceiveOutcome::Job(30));
    assert_eq!(p.workers[0].state, WorkerState::Executing(10));
    assert_eq!(p.workers[1].state, WorkerState::Executing(20));
    assert_eq!(p.workers[2].state, WorkerState::Executing(30));
    p.worker_finish_job(0);
    p.worker_finish_job(1);
    p.worker_finish_job(2);
    assert_eq!(collected_tags(&p), vec![10, 20, 30]);
}

#[test]
fn all_jobs_run_and_teardown_drains() {
    let mut p = ThreadPool::new(2);
    let submitted: Vec<u64> = vec![1, 2, 3, 4, 5];
    for &t in &submitted {
        p.execute(t);
    }
    p.begin_teardown();
    assert_eq!(p.lifecycle, Lifecycle::ShuttingDown);
    loop {
        for i in 0..2 {
            match p.workers[i].state {
                WorkerState::Waiting => {
                    p.worker_try_dequeue(i);
                }
                WorkerState::Executing(_) => {
                    p.worker_finish_job(i);
                }
                WorkerState::Terminated => {}
            }
        }
        if p.workers.iter().all(|w| w.state == WorkerState::Terminated) {
            break;
        }
    }
    p.join_worker(0);
    p.join_worker(1);
    p.complete_teardown();
    assert_eq!(p.lifecycle, Lifecycle::Stopped);
    assert_eq!(p.channel.pending_len(), 0);
    assert_eq!(collected_tags(&p), submitted);
}

#[test]
fn teardown_of_an_idle_pool() {
    let mut p = ThreadPool::new(1);
    p.begin_teardown();
    assert_eq!(p.worker_try_dequeue(0), ReceiveOutcome::Closed);
    assert_eq!(p.workers[0].state, WorkerState::Terminated);
    p.join_worker(0);
    assert!(p.workers[0].joined);
    p.complete_teardown();
    assert_eq!(p.lifecycle, Lifecycle::Stopped);
    assert!(collected_tags(&p).is_empty());
}

#[test]
fn interleaved_submitters_lose_nothing_and_duplicate_nothing() {
    let mut p = ThreadPool::new(3);
    p.execute(101);
    p.execute(201);
    assert_eq!(p.worker_try_dequeue(0), ReceiveOutcome::Job(101));
    p.execute(102);
    assert_eq!(p.worker_try_dequeue(1), ReceiveOutcome::Job(201));
    p.execute(202);
    p.worker_finish_job(0);
    p.execute(103);
    assert_eq!(p.worker_try_dequeue(2), ReceiveOutcome::Job(102));
    p.worker_finish_job(1);
    p.worker_finish_job(2);
    assert_eq!(p.worker_try_dequeue(0), ReceiveOutcome::Job(202));
    assert_eq!(p.worker_try_dequeue(1), ReceiveOutcome::Job(103));
    p.worker_finish_job(0);
    p.worker_finish_job(1);
    let tags = collected_tags(&p);
    assert_eq!(tags, vec![101, 102, 103, 201, 202]);
    let mut deduped = tags.clone();
    deduped.dedup();
    assert_eq!(deduped, tags);
}

#[test]
fn submission_after_teardown_is_silently_dropped() {
    let mut p = ThreadPool::new(1);
    p.begin_teardown();
    p.execute(99);
    assert_eq!(p.channel.pending_len(), 0);
    assert_eq!(p.worker_try_dequeue(0), ReceiveOutcome::Closed);
    p.join_worker(0);
    p.complete_teardown();
    assert!(collected_tags(&p).is_empty());
}

#[test]
fn dequeue_serialization_does_not_serialize_execution() {
    let mut p = ThreadPool::new(2);
    p.execute(71);
    p.execute(72);
    assert_eq!(p.worker_try_dequeue(0), ReceiveOutcome::Job(71));
    assert_eq!(p.worker_try_dequeue(1), ReceiveOutcome::Job(72));
    let both_in_progress = matches!(p.workers[0].state, WorkerState::Executing(_))
        && matches!(p.workers[1].state, WorkerState::Executing(_));
    assert!(both_in_progress);
    p.worker_finish_job(1);
    p.worker_finish_job(0);
}

#[test]
fn a_failed_job_terminates_only_its_worker() {
    let mut p = ThreadPool::new(2);
    p.execute(1);
    p.execute(2);
    assert_eq!(p.worker_try_dequeue(0), ReceiveOutcome::Job(1));
    assert_eq!(p.worker_try_dequeue(1), ReceiveOutcome::Job(2));
    p.worker_job_panicked(0);
    assert_eq!(p.workers[0].state, WorkerState::Terminated);
    assert_eq!(p.workers[0].failed_job, Some(1));
    assert!(p.workers[0].executed.is_empty());
    p.worker_finish_job(1);
    assert_eq!(p.workers[1].state, WorkerState::Waiting);
    p.execute(3);
    assert_eq!(p.worker_try_dequeue(1), ReceiveOutcome::Job(3));
    p.worker_finish_job(1);
    assert_eq!(p.workers[1].executed, vec![2, 3]);
}

#[test]
fn jobs_are_dispatched_in_submission_order() {
    let mut p = ThreadPool::new(1);
    p.execute(5);
    p.execute(6);
    p.execute(7);
    for expected in [5u64, 6, 7] {
        assert_eq!(p.worker_try_dequeue(0), ReceiveOutcome::Job(expected));
        p.worker_finish_job(0);
    }
    assert_eq!(p.workers[0].executed, vec![5, 6, 7]);
}

#[test]
fn waiting_worker_blocks_while_the_pool_is_active() {
    let mut p = ThreadPool::new(2);
    assert_eq!(p.worker_try_dequeue(0), ReceiveOutcome::WouldBlock);
    assert_eq!(p.workers[0].state, WorkerState::Waiting);
    p.execute(8);
    assert_eq!(p.worker_try_dequeue(0), ReceiveOutcome::Job(8));
}
