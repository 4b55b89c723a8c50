use sqlite_statement::error::Error;
use sqlite_statement::worker::WorkQueue;

#[test]
fn jobs_leave_in_the_order_they_came() {
    let mut queue: WorkQueue<u32> = WorkQueue::new();
    assert!(queue.is_open());
    for job in 0..8 {
        assert_eq!(queue.submit(job), Ok(()));
    }
    assert_eq!(queue.len(), 8);
    for job in 0..8 {
        assert_eq!(queue.take(), Some(job));
    }
    assert_eq!(queue.take(), None);
    assert_eq!(queue.len(), 0);
}

#[test]
fn submitting_and_taking_may_alternate() {
    let mut queue: WorkQueue<&str> = WorkQueue::new();
    assert_eq!(queue.submit("a"), Ok(()));
    assert_eq!(queue.submit("b"), Ok(()));
    assert_eq!(queue.take(), Some("a"));
    assert_eq!(queue.submit("c"), Ok(()));
    assert_eq!(queue.take(), Some("b"));
    assert_eq!(queue.take(), Some("c"));
    assert_eq!(queue.take(), None);
}

#[test]
fn empty_queue_gives_no_job() {
    let mut queue: WorkQueue<u8> = WorkQueue::new();
    assert_eq!(queue.take(), None);
    assert!(queue.is_open());
}

#[test]
fn shut_down_hands_back_what_was_pending() {
    let mut queue: WorkQueue<u32> = WorkQueue::new();
    assert_eq!(queue.submit(1), Ok(()));
    assert_eq!(queue.submit(2), Ok(()));
    assert_eq!(queue.submit(3), Ok(()));
    assert_eq!(queue.take(), Some(1));
    let unserved: Vec<u32> = queue.shut_down().into_iter().collect();
    assert_eq!(unserved, vec![2, 3]);
    assert!(!queue.is_open());
    assert_eq!(queue.len(), 0);
    assert_eq!(queue.take(), None);
}

#[test]
fn gone_worker_refuses_every_job() {
    let mut queue: WorkQueue<u32> = WorkQueue::new();
    assert!(queue.shut_down().is_empty());
    assert_eq!(queue.submit(1), Err(Error::WorkerUnavailable));
    assert_eq!(queue.submit(2), Err(Error::WorkerUnavailable));
    assert_eq!(queue.len(), 0);
    assert_eq!(queue.take(), None);
}
