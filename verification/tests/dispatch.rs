use threadpool::message::Message;
use threadpool::pool::ThreadPool;

#[test]
fn fifo_dequeue_order() {
    let mut p = ThreadPool::new(2);
    p.execute(10);
    p.execute(11);
    p.execute(12);
    assert_eq!(p.step(), Message::NewJob(10));
    assert_eq!(p.step(), Message::NewJob(11));
    assert_eq!(p.step(), Message::NewJob(12));
    assert_eq!(p.executed, vec![10, 11, 12]);
    p.shutdown();
    assert_eq!(p.executed, vec![10, 11, 12]);
}

#[test]
fn jobs_drain_before_terminates() {
    let mut p = ThreadPool::new(2);
    p.execute(5);
    p.execute(6);
    p.send_terminates();
    assert_eq!(p.queue.len(), 4);
    assert_eq!(p.step(), Message::NewJob(5));
    assert_eq!(p.step(), Message::NewJob(6));
    assert_eq!(p.step(), Message::Terminate);
    assert_eq!(p.step(), Message::Terminate);
    assert_eq!(p.queue.len(), 0);
    assert_eq!(p.executed, vec![5, 6]);
}

#[test]
fn terminate_stops_one_worker_at_a_time() {
    let mut p = ThreadPool::new(2);
    p.send_terminates();
    assert_eq!(p.running_workers(), 2);
    assert_eq!(p.step(), Message::Terminate);
    assert_eq!(p.running_workers(), 1);
    assert_eq!(p.step(), Message::Terminate);
    assert_eq!(p.running_workers(), 0);
    p.join_all();
    for w in &p.workers {
        assert!(!w.handle);
    }
}

#[test]
fn submissions_are_queued_not_run() {
    let mut p = ThreadPool::new(1);
    p.execute(42);
    assert!(p.executed.is_empty());
    assert_eq!(p.queue, vec![Message::NewJob(42)]);
    p.shutdown();
    assert_eq!(p.executed, vec![42]);
}

#[test]
fn send_terminates_appends_one_token_per_worker() {
    let mut p = ThreadPool::new(3);
    p.execute(1);
    p.send_terminates();
    assert_eq!(
        p.queue,
        vec![
            Message::NewJob(1),
            Message::Terminate,
            Message::Terminate,
            Message::Terminate,
        ]
    );
}
