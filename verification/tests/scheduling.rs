use load_balancer::scheduling::{round_robin_scheduler, Dispatch, RoundRobin};
use load_balancer::Message;

fn workers(n: usize) -> Vec<String> {
    (0..n).map(|i| format!("127.0.0.1:{}", 9001 + i)).collect()
}

fn sample() -> Message {
    Message {
        message: "GET / HTTP/1.1".to_string(),
        worker_addr: String::new(),
        client_addr: "127.0.0.1:5000".to_string(),
    }
}

#[test]
fn rotation_starts_with_the_first_worker() {
    let rotation = RoundRobin::new(workers(3)).unwrap();
    assert_eq!(rotation.len(), 3);
    assert_eq!(rotation.position(), 0);
    assert_eq!(rotation.current(), "127.0.0.1:9001");
}

#[test]
fn rotation_wraps_after_the_last_worker() {
    let mut rotation = RoundRobin::new(workers(3)).unwrap();
    let mut seen: Vec<usize> = Vec::new();
    for _ in 0..7 {
        seen.push(rotation.position());
        rotation.advance();
    }
    assert_eq!(seen, vec![0, 1, 2, 0, 1, 2, 0]);
    assert_eq!(rotation.position(), 1);
    assert_eq!(rotation.current(), "127.0.0.1:9002");
}

#[test]
fn rotation_over_one_worker_stays_put() {
    let mut rotation = RoundRobin::new(workers(1)).unwrap();
    rotation.advance();
    assert_eq!(rotation.position(), 0);
}

#[test]
fn no_rotation_over_nothing() {
    assert!(RoundRobin::new(Vec::new()).is_none());
    assert!(round_robin_scheduler(Vec::new(), sample()).is_none());
}

#[test]
fn scheduler_sends_to_reached_workers_and_skips_the_others() {
    let mut scheduler = round_robin_scheduler(workers(2), sample()).unwrap();
    assert_eq!(scheduler.target(), "127.0.0.1:9001");
    match scheduler.step(true) {
        Dispatch::Send(payload) => assert_eq!(payload, "GET / HTTP/1.1"),
        other => panic!("unexpected {:?}", other),
    }
    assert_eq!(scheduler.target(), "127.0.0.1:9002");
    assert!(matches!(scheduler.step(false), Dispatch::Skip));
    assert_eq!(scheduler.target(), "127.0.0.1:9001");
    assert!(matches!(scheduler.step(false), Dispatch::Skip));
    assert_eq!(scheduler.target(), "127.0.0.1:9002");
    assert!(matches!(scheduler.step(true), Dispatch::Send(_)));
    assert_eq!(scheduler.target(), "127.0.0.1:9001");
}
