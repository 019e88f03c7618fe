use std::sync::atomic::{AtomicU64, AtomicUsize, Ordering};
use std::sync::Arc;

use app_frame::health_endpoint::{health_reply, is_health_check, HealthReply};
use app_frame::service_manager::{
    assess_service, check_service, pretty, services_to_restart, summarize,
    Heartbeat, Publication, RunConfig, RunConfigError, ServiceReportPublisher,
    ServiceReportSummary, ServiceStatus, Unhealthy,
};
use app_frame::time::Clock;

struct ManualClock(AtomicU64);

impl Clock for ManualClock {
    fn current_timestamp(&self) -> u64 {
        self.0.load(Ordering::SeqCst)
    }
}

fn unhealthy(s: &ServiceStatus) -> &Unhealthy {
    match s {
        ServiceStatus::Unhealthy(u) => u,
        ServiceStatus::Healthy => panic!("expected unhealthy"),
    }
}

#[test]
fn healthy_service() {
    let (s, stored) = assess_service(100, 95, 10, true, 42);
    assert!(matches!(s, ServiceStatus::Healthy));
    assert_eq!(stored, 0);
}

#[test]
fn overdue_heartbeat() {
    let (s, stored) = assess_service(100, 80, 10, true, 0);
    let u = unhealthy(&s);
    assert_eq!(u.since, 90);
    assert_eq!(u.reasons, vec!["No heartbeat for 20 seconds (ttl: 10)".to_string()]);
    assert_eq!(stored, 0);
}

#[test]
fn failing_health_checks_start_now() {
    let (s, stored) = assess_service(100, 95, 10, false, 0);
    let u = unhealthy(&s);
    assert_eq!(u.since, 100);
    assert_eq!(u.reasons, vec!["Failed health checks for 0 seconds".to_string()]);
    assert_eq!(stored, 100);
}

#[test]
fn failing_and_overdue() {
    let (s, stored) = assess_service(100, 50, 10, false, 70);
    let u = unhealthy(&s);
    assert_eq!(u.since, 60);
    assert_eq!(
        u.reasons,
        vec![
            "No heartbeat for 50 seconds (ttl: 10)".to_string(),
            "Failed health checks for 30 seconds".to_string()
        ]
    );
    assert_eq!(stored, 70);
}

#[test]
fn check_service_updates_the_failing_start() {
    let heart = AtomicUsize::new(95);
    let failing = AtomicUsize::new(0);
    let s = check_service(&heart, &failing, 100, 10, false);
    assert_eq!(unhealthy(&s).reasons, vec!["Failed health checks for 0 seconds".to_string()]);
    assert_eq!(failing.load(Ordering::SeqCst), 100);
    let s = check_service(&heart, &failing, 104, 10, false);
    assert_eq!(unhealthy(&s).reasons, vec!["Failed health checks for 4 seconds".to_string()]);
    let s = check_service(&heart, &failing, 104, 10, true);
    assert!(matches!(s, ServiceStatus::Healthy));
    assert_eq!(failing.load(Ordering::SeqCst), 0);
}

#[test]
fn heartbeat_stores_the_clock_time() {
    let heart = Arc::new(AtomicUsize::new(0));
    let clock: Arc<dyn Clock> = Arc::new(ManualClock(AtomicU64::new(1234)));
    (heart.clone(), clock).beat();
    assert_eq!(heart.load(Ordering::SeqCst), 1234);
    ().beat();
}

fn sample_summary() -> ServiceReportSummary {
    let dead = ServiceStatus::Unhealthy(Unhealthy { since: 10, reasons: vec!["x".to_string()] });
    let dead2 = ServiceStatus::Unhealthy(Unhealthy { since: 50, reasons: vec!["y".to_string()] });
    summarize(
        vec![
            ("a".to_string(), ServiceStatus::Healthy),
            ("b".to_string(), dead),
            ("c".to_string(), ServiceStatus::Healthy),
            ("d".to_string(), dead2),
        ],
        77,
    )
}

#[test]
fn summary_partitions_by_status() {
    let s = sample_summary();
    assert_eq!(s.timestamp, 77);
    let alive: Vec<(usize, String)> = s.alive.iter().map(|r| (r.id, r.name.clone())).collect();
    assert_eq!(alive, vec![(0, "a".to_string()), (2, "c".to_string())]);
    let dead: Vec<(usize, String, i32)> =
        s.dead.iter().map(|r| (r.id, r.name.clone(), r.status.since)).collect();
    assert_eq!(dead, vec![(1, "b".to_string(), 10), (3, "d".to_string(), 50)]);
}

#[test]
fn restart_only_long_dead_services() {
    let s = sample_summary();
    assert_eq!(services_to_restart(&s, 20, 40), vec![1]);
    assert_eq!(services_to_restart(&s, 20, 71), vec![1, 3]);
    assert_eq!(services_to_restart(&s, 20, 30), Vec::<usize>::new());
}

#[test]
fn publisher_reports_healthy_once_per_interval() {
    let healthy = summarize(vec![("a".to_string(), ServiceStatus::Healthy)], 100);
    let mut p = ServiceReportPublisher::new(50);
    assert_eq!(p.handle_report(&healthy), Publication::HealthyList);
    assert_eq!(p.handle_report(&healthy), Publication::Nothing);
    let later = summarize(vec![("a".to_string(), ServiceStatus::Healthy)], 150);
    assert_eq!(p.handle_report(&later), Publication::HealthyCount);
    assert_eq!(p.last_healthy_log, 150);
    let s = sample_summary();
    assert_eq!(p.handle_report(&s), Publication::Unhealthy);
    assert_eq!(p.last_healthy_log, 150);
    assert_eq!(p.last_dead_count, 2);
}

#[test]
fn pretty_lists_names() {
    assert_eq!(pretty(&vec!["a".to_string(), "b".to_string()]), "\n    a\n    b");
    assert_eq!(pretty(&vec![]), "[]");
}

fn run_config(log_interval: i32, attempt_recovery_after: i32) -> RunConfig {
    RunConfig { log_interval, attempt_recovery_after, http_health_endpoint: None }
}

#[test]
fn run_intervals_must_not_be_negative() {
    assert_eq!(run_config(0, 0).validate(), Ok(()));
    assert_eq!(run_config(-1, 5).validate(), Err(RunConfigError::NegativeLogInterval));
    assert_eq!(run_config(-1, -5).validate(), Err(RunConfigError::NegativeLogInterval));
    assert_eq!(run_config(1, -5).validate(), Err(RunConfigError::NegativeRecoveryDelay));
}

#[test]
fn default_run_config() {
    let c = RunConfig::default();
    assert_eq!(c.log_interval, 21600);
    assert_eq!(c.attempt_recovery_after, 120);
    let h = c.http_health_endpoint.unwrap();
    assert_eq!(h.port, 3417);
    assert_eq!(h.success_status.as_u16(), 200);
    assert_eq!(h.fail_status.as_u16(), 500);
    assert_eq!(h.clone().port, 3417);
}

#[test]
fn health_endpoint_answers() {
    assert!(is_health_check(true, "/health"));
    assert!(!is_health_check(false, "/health"));
    assert!(!is_health_check(true, "/healthz"));
    assert!(!is_health_check(true, "/"));
    let healthy = summarize(
        vec![("a".to_string(), ServiceStatus::Healthy), ("b".to_string(), ServiceStatus::Healthy)],
        1,
    );
    match health_reply(&healthy) {
        HealthReply::Live(body) => assert_eq!(body, "2 live services"),
        other => panic!("unexpected {other:?}"),
    }
    let s = sample_summary();
    match health_reply(&s) {
        HealthReply::Dead(body) => {
            assert_eq!(body, format!("2 live services. dead services: {:#?}", s.dead))
        }
        other => panic!("unexpected {other:?}"),
    }
}

#[test]
fn failing_service_with_fresh_heartbeat_waits_for_recovery_delay() {
    // Beats at 1000, fails its health checks since 990, recovery after 120 s.
    let (status, stored) = assess_service(1000, 1000, 30, false, 990);
    assert_eq!(stored, 990);
    assert_eq!(unhealthy(&status).since, 990);
    let summary = summarize(vec![("svc".to_string(), status)], 1000);
    assert_eq!(services_to_restart(&summary, 120, 1000), Vec::<usize>::new());
    assert_eq!(services_to_restart(&summary, 120, 1110), Vec::<usize>::new());
    assert_eq!(services_to_restart(&summary, 120, 1111), vec![0]);
}

#[test]
fn failing_seconds_accumulate_over_checks() {
    let (_, stored) = assess_service(100, 100, 30, false, 0);
    assert_eq!(stored, 100);
    let (status, stored) = assess_service(125, 120, 30, false, stored);
    assert_eq!(stored, 100);
    let u = unhealthy(&status);
    assert_eq!(u.since, 100);
    assert_eq!(u.reasons, vec!["Failed health checks for 25 seconds".to_string()]);
    let (status, stored) = assess_service(130, 130, 30, true, stored);
    assert_eq!(stored, 0);
    assert!(matches!(status, ServiceStatus::Healthy));
}

#[test]
fn default_health_endpoint_statuses() {
    let c = RunConfig::default();
    let h = c.http_health_endpoint.expect("the default serves a health endpoint");
    assert_eq!(h.port, 3417);
    assert_eq!(h.success_status.as_u16(), 200);
    assert_eq!(h.fail_status.as_u16(), 500);
}
