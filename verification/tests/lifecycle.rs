use threadpool::pool::ThreadPool;
use threadpool::worker::Worker;

#[test]
fn size_invariant() {
    let sizes: Vec<usize> = vec![1, 2, 4, 7];
    for &size in &sizes {
        let p = ThreadPool::new(size);
        assert_eq!(p.workers.len(), size);
        for (i, w) in p.workers.iter().enumerate() {
            assert_eq!(w.id, i);
            assert!(w.running);
            assert!(w.handle);
        }
    }
}

#[test]
fn zero_size_is_rejected() {
    assert!(ThreadPool::try_new(0).is_none());
    let p = ThreadPool::try_new(2).expect("a positive size yields a pool");
    assert_eq!(p.workers.len(), 2);
}

#[test]
fn pool_of_four_runs_eight_jobs() {
    let mut p = ThreadPool::new(4);
    for i in 0..8 {
        p.execute(i);
    }
    p.shutdown();
    assert_eq!(p.executed.len(), 8);
    let mut seen = p.executed.clone();
    seen.sort();
    assert_eq!(seen, (0..8).collect::<Vec<usize>>());
}

#[test]
fn empty_pool_shuts_down() {
    let mut p = ThreadPool::new(3);
    p.send_terminates();
    assert_eq!(p.queue.len(), 3);
    p.drain();
    p.join_all();
    assert!(p.executed.is_empty());
    assert_eq!(p.workers.len(), 3);
    assert_eq!(p.running_workers(), 0);
    for w in &p.workers {
        assert!(!w.running);
        assert!(!w.handle);
    }
}

#[test]
fn single_worker_runs_hundred_in_order() {
    let mut p = ThreadPool::new(1);
    for i in 0..100 {
        p.execute(i);
    }
    p.shutdown();
    assert_eq!(p.executed, (0..100).collect::<Vec<usize>>());
}

#[test]
fn termination_completeness() {
    let mut p = ThreadPool::new(3);
    p.execute(0);
    p.execute(1);
    p.shutdown();
    assert_eq!(p.queue.len(), 0);
    assert_eq!(p.running_workers(), 0);
    for w in &p.workers {
        assert!(!w.running);
        assert!(!w.handle);
    }
}

#[test]
fn shutdown_is_idempotent() {
    let mut p = ThreadPool::new(2);
    p.execute(7);
    p.shutdown();
    assert_eq!(p.executed, vec![7]);
    p.shutdown();
    assert_eq!(p.executed, vec![7]);
    assert_eq!(p.queue.len(), 0);
    assert_eq!(p.running_workers(), 0);
    assert_eq!(p.workers.len(), 2);
}

#[test]
fn worker_record_starts_running() {
    let w = Worker::new(5);
    assert_eq!(w.id, 5);
    assert!(w.running);
    assert!(w.handle);
}
