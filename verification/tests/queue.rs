use load_balancer::queue::JobQueue;
use load_balancer::worker::Received;

#[test]
fn new_queue_is_open_and_empty() {
    let mut queue = JobQueue::<String>::new();
    assert!(queue.is_open());
    assert_eq!(queue.len(), 0);
    assert!(matches!(queue.pop(), Received::Empty));
}

#[test]
fn queue_is_first_in_first_out() {
    let mut queue = JobQueue::<&str>::new();
    assert_eq!(queue.push("first"), Ok(()));
    assert_eq!(queue.push("second"), Ok(()));
    assert_eq!(queue.push("third"), Ok(()));
    assert_eq!(queue.len(), 3);
    assert!(matches!(queue.pop(), Received::Job("first")));
    assert_eq!(queue.push("fourth"), Ok(()));
    assert!(matches!(queue.pop(), Received::Job("second")));
    assert!(matches!(queue.pop(), Received::Job("third")));
    assert!(matches!(queue.pop(), Received::Job("fourth")));
    assert!(matches!(queue.pop(), Received::Empty));
    assert_eq!(queue.len(), 0);
}

#[test]
fn closed_queue_hands_the_job_back() {
    let mut queue = JobQueue::<u8>::new();
    queue.close();
    assert!(!queue.is_open());
    assert_eq!(queue.push(9), Err(9));
    assert_eq!(queue.len(), 0);
    assert!(matches!(queue.pop(), Received::Disconnected));
}

#[test]
fn closed_queue_drains_before_it_disconnects() {
    let mut queue = JobQueue::<u8>::new();
    assert_eq!(queue.push(1), Ok(()));
    assert_eq!(queue.push(2), Ok(()));
    queue.close();
    assert_eq!(queue.len(), 2);
    assert!(matches!(queue.pop(), Received::Job(1)));
    assert!(matches!(queue.pop(), Received::Job(2)));
    assert!(matches!(queue.pop(), Received::Disconnected));
}

#[test]
fn closing_twice_changes_nothing() {
    let mut queue = JobQueue::<u8>::new();
    assert_eq!(queue.push(5), Ok(()));
    queue.close();
    queue.close();
    assert!(!queue.is_open());
    assert_eq!(queue.len(), 1);
    assert!(matches!(queue.pop(), Received::Job(5)));
}
