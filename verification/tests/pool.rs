use load_balancer::error::ThreadError;
use load_balancer::hashing::hash_client_id;
use load_balancer::worker::{Received, Worker, WorkerStep};
use load_balancer::ThreadPool;

#[test]
fn zero_threads() {
    let pool = ThreadPool::<u32>::new(0);
    assert!(pool.is_err());

    if let Err(ThreadError::InvalidSize(msg)) = pool {
        assert_eq!(msg, "Thread pool with size 0 cannot be initialized!");
    } else {
        panic!("Expected ThreadError::InvalidSize error, but got a different error type.");
    }
}

#[test]
fn zero_threads_error_renders_as_invalid_size() {
    let error = ThreadPool::<u32>::new(0).err().unwrap();
    assert_eq!(
        error.to_string(),
        "InvalidSizeError: Thread pool with size 0 cannot be initialized!"
    );
}

#[test]
fn pool_of_k_has_k_running_workers() {
    for k in 1..=5usize {
        let pool = ThreadPool::<u32>::new(k).unwrap();
        assert_eq!(pool.worker_count(), k);
        assert!(pool.is_open());
        assert_eq!(pool.pending_jobs(), 0);
        assert_eq!(pool.hash_ring().len(), k);
        for id in 0..k {
            let worker = pool.worker(id).unwrap();
            assert_eq!(worker.id(), id);
            assert!(worker.is_running());
        }
        assert!(pool.worker(k).is_none());
    }
}

#[test]
fn every_job_is_received_exactly_once_in_order() {
    let mut pool = ThreadPool::<u32>::new(3).unwrap();
    for job in 0..7u32 {
        assert!(pool.execute("127.0.0.1:5000", job).is_ok());
    }
    assert_eq!(pool.pending_jobs(), 7);
    let mut seen: Vec<u32> = Vec::new();
    loop {
        match pool.receive() {
            Received::Job(job) => seen.push(job),
            Received::Empty => break,
            other => panic!("unexpected {:?}", other),
        }
    }
    assert_eq!(seen, vec![0, 1, 2, 3, 4, 5, 6]);
    assert_eq!(pool.pending_jobs(), 0);
    assert!(matches!(pool.receive(), Received::Empty));
}

#[test]
fn execute_reports_the_worker_the_ring_assigns() {
    let mut pool = ThreadPool::<u32>::new(4).unwrap();
    assert_eq!(pool.execute("127.0.0.1:5000", 1).unwrap(), 3);
    assert_eq!(pool.execute("127.0.0.1:5001", 2).unwrap(), 2);
    assert_eq!(pool.execute("127.0.0.1:5003", 3).unwrap(), 0);
    assert_eq!(pool.pending_jobs(), 3);
}

#[test]
fn get_worker_for_request_follows_the_ring() {
    let one = ThreadPool::<u32>::new(1).unwrap();
    let two = ThreadPool::<u32>::new(2).unwrap();
    let three = ThreadPool::<u32>::new(3).unwrap();
    let four = ThreadPool::<u32>::new(4).unwrap();
    assert_eq!(one.get_worker_for_request("127.0.0.1:5001"), 0);
    assert_eq!(two.get_worker_for_request("127.0.0.1:5001"), 0);
    assert_eq!(two.get_worker_for_request("127.0.0.1:40008"), 1);
    assert_eq!(three.get_worker_for_request("127.0.0.1:5000"), 0);
    assert_eq!(three.get_worker_for_request("127.0.0.1:5001"), 2);
    assert_eq!(three.get_worker_for_request("10.0.0.7:41000"), 2);
    assert_eq!(four.get_worker_for_request("127.0.0.1:5000"), 3);
    assert_eq!(four.get_worker_for_request("127.0.0.1:5001"), 2);
    assert_eq!(four.get_worker_for_request("127.0.0.1:5003"), 0);
    assert_eq!(four.get_worker_for_request("client-b"), 3);
}

#[test]
fn get_worker_for_request_is_total_and_repeatable() {
    let pool = ThreadPool::<u32>::new(5).unwrap();
    for port in 0..200u32 {
        let client = format!("192.168.1.{}:{}", port % 250, 30000 + port);
        let first = pool.get_worker_for_request(&client);
        let second = pool.get_worker_for_request(&client);
        assert!(first < 5);
        assert_eq!(first, second);
        assert_eq!(first, pool.worker_at(hash_client_id(&client)));
        assert_eq!(Some(first), pool.hash_ring().locate(hash_client_id(&client)));
    }
}

#[test]
fn shutdown_refuses_new_jobs_and_drains_old_ones() {
    let mut pool = ThreadPool::<u32>::new(2).unwrap();
    pool.execute("a", 10).unwrap();
    pool.execute("b", 20).unwrap();
    pool.execute("c", 30).unwrap();
    pool.shutdown();
    assert!(!pool.is_open());
    match pool.execute("d", 40) {
        Err(ThreadError::SenderError(msg)) => {
            assert_eq!(msg, "The pool is shut down and accepts no more jobs")
        }
        other => panic!("unexpected {:?}", other),
    }
    assert_eq!(pool.pending_jobs(), 3);
    assert!(matches!(pool.receive(), Received::Job(10)));
    assert!(matches!(pool.receive(), Received::Job(20)));
    assert!(matches!(pool.receive(), Received::Job(30)));
    assert!(matches!(pool.receive(), Received::Disconnected));
    assert!(matches!(pool.receive(), Received::Disconnected));
}

#[test]
fn open_pool_with_nothing_waiting_answers_empty() {
    let mut pool = ThreadPool::<u32>::new(1).unwrap();
    assert!(matches!(pool.receive(), Received::Empty));
    pool.shutdown();
    assert!(matches!(pool.receive(), Received::Disconnected));
}

#[test]
fn workers_are_joined_lowest_ordinal_first() {
    let mut pool = ThreadPool::<u32>::new(3).unwrap();
    pool.shutdown();
    assert_eq!(pool.join_next(), Some(0));
    assert!(!pool.worker(0).unwrap().is_running());
    assert!(pool.worker(1).unwrap().is_running());
    assert_eq!(pool.join_next(), Some(1));
    assert_eq!(pool.join_next(), Some(2));
    assert_eq!(pool.join_next(), None);
    assert_eq!(pool.join_next(), None);
    for id in 0..3 {
        assert!(!pool.worker(id).unwrap().is_running());
        assert_eq!(pool.worker(id).unwrap().id(), id);
    }
}

#[test]
fn join_next_closes_the_queue_first() {
    let mut pool = ThreadPool::<u32>::new(2).unwrap();
    pool.execute("a", 1).unwrap();
    assert_eq!(pool.join_next(), Some(0));
    assert!(!pool.is_open());
    assert!(pool.execute("a", 2).is_err());
    assert!(matches!(pool.receive(), Received::Job(1)));
    assert!(matches!(pool.receive(), Received::Disconnected));
}

#[test]
fn join_failure_is_a_join_error() {
    match ThreadPool::<u32>::join_failed(12, "thread panicked") {
        ThreadError::JoinError(msg) => {
            assert_eq!(msg, "Worker 12 could not be joined: thread panicked")
        }
        other => panic!("unexpected {:?}", other),
    }
    assert_eq!(
        ThreadPool::<u32>::join_failed(0, "x").to_string(),
        "JoinThreadError: Worker 0 could not be joined: x"
    );
}

#[test]
fn worker_runs_a_received_job() {
    assert!(matches!(Worker::on_receive(Received::Job(7u32)), WorkerStep::Run(7)));
}

#[test]
fn worker_waits_on_an_empty_queue() {
    assert!(matches!(Worker::on_receive(Received::<u32>::Empty), WorkerStep::Wait));
}

#[test]
fn worker_leaves_when_disconnected() {
    assert!(matches!(
        Worker::on_receive(Received::<u32>::Disconnected),
        WorkerStep::Shutdown
    ));
}

#[test]
fn worker_fails_with_mutex_error_on_poisoned_lock() {
    match Worker::on_receive(Received::<u32>::Poisoned("poisoned lock".to_string())) {
        WorkerStep::Fail(ThreadError::MutexError(msg)) => assert_eq!(
            msg,
            "Maybe a thread panicked somewhere? Can't lock the mutex:/\nHere's additional info: poisoned lock"
        ),
        other => panic!("unexpected {:?}", other),
    }
}

#[test]
fn spawn_failure_is_a_thread_handler_error() {
    match Worker::spawn_failed("out of threads") {
        ThreadError::ThreadHandlerError(msg) => assert_eq!(
            msg,
            "Whoops, a handler error.. Too many workers perhaps?\nHere's additional info: out of threads"
        ),
        other => panic!("unexpected {:?}", other),
    }
}

#[test]
fn worker_record_starts_running_and_stops() {
    let mut worker = Worker::new(4);
    assert_eq!(worker.id(), 4);
    assert!(worker.is_running());
    worker.stop();
    assert_eq!(worker.id(), 4);
    assert!(!worker.is_running());
}
