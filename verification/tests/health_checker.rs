use load_balancer::health_checker::{
    check_health, HealthReport, HealthStatus, PROBE_INTERVAL_SECS,
};

#[test]
fn one_cycle_reports_every_backend_once_in_address_order() {
    let workers = vec!["127.0.0.1:9001".to_string(), "127.0.0.1:9002".to_string()];
    let reachable = [true, false];
    let mut checker = check_health(workers.clone()).unwrap();
    let mut reports: Vec<HealthReport> = Vec::new();
    for outcome in reachable {
        assert_eq!(checker.target(), &workers[reports.len()]);
        reports.push(checker.record(outcome));
    }
    assert_eq!(reports.len(), 2);
    assert_eq!(reports[0].worker, "127.0.0.1:9001");
    assert_eq!(reports[0].status, HealthStatus::Up);
    assert_eq!(reports[1].worker, "127.0.0.1:9002");
    assert_eq!(reports[1].status, HealthStatus::Down);
    assert_eq!(reports.iter().filter(|r| r.status == HealthStatus::Up).count(), 1);
    assert_eq!(reports.iter().filter(|r| r.status == HealthStatus::Down).count(), 1);
    assert_eq!(checker.target(), "127.0.0.1:9001");
}

#[test]
fn probes_go_round_and_round() {
    let workers: Vec<String> = (0..3).map(|i| format!("10.0.0.{}:80", i)).collect();
    let mut checker = check_health(workers.clone()).unwrap();
    for turn in 0..10usize {
        assert_eq!(checker.target(), &workers[turn % 3]);
        let report = checker.record(turn % 2 == 0);
        assert_eq!(report.worker, workers[turn % 3]);
    }
}

#[test]
fn single_backend_is_probed_every_time() {
    let mut checker = check_health(vec!["only:1".to_string()]).unwrap();
    for _ in 0..4 {
        assert_eq!(checker.target(), "only:1");
        assert_eq!(checker.record(false).status, HealthStatus::Down);
    }
}

#[test]
fn nothing_to_monitor_without_backends() {
    assert!(check_health(Vec::new()).is_none());
}

#[test]
fn reports_say_up_or_down() {
    let up = HealthReport { worker: "127.0.0.1:9001".to_string(), status: HealthStatus::Up };
    assert_eq!(up.message(), "Worker node 127.0.0.1:9001 is up!");
    assert_eq!(up.event_name(), "[WORKER UP]");
    assert!(!up.is_warning());
    let down = HealthReport { worker: "127.0.0.1:9002".to_string(), status: HealthStatus::Down };
    assert_eq!(down.message(), "Worker node 127.0.0.1:9002 is down");
    assert_eq!(down.event_name(), "[WORKER DOWN]");
    assert!(down.is_warning());
}

#[test]
fn probes_are_ten_seconds_apart() {
    assert_eq!(PROBE_INTERVAL_SECS, 10);
}
