use oris_runtime::runtime::api::errors::ApiErrorKind;
use oris_runtime::runtime::api::validate::RetryPolicyInput;
use oris_runtime::runtime::api::worker::{
    resolve_poll_limits, worker_ack, worker_heartbeat, worker_poll, worker_report_step, PollDecision, PollLimits,
    MIN_POLL_SCAN, POLL_LEASE_MS,
};
use oris_runtime::runtime::attempt::AttemptExecutionStatus;
use oris_runtime::runtime::store::InMemoryRuntimeRepository;

const NOW: i64 = 1_700_000_000_000;

fn limits(max_active: Option<usize>, tenant_max: Option<usize>) -> PollLimits {
    resolve_poll_limits(None, 1, max_active, 8, tenant_max, 8)
}

fn poll(repo: &mut InMemoryRuntimeRepository, worker: &str, l: PollLimits, now: i64, lease: &str) -> PollDecision {
    repo.lease_tick(now).expect("lease tick");
    worker_poll(repo, worker, l, now, lease, "5555555555555555")
}

#[test]
fn poll_limits_default_and_floor_at_one() {
    let l = resolve_poll_limits(Some(0), 1, None, 8, Some(3), 8);
    assert_eq!(l, PollLimits { poll_limit: 1, max_active: 8, tenant_max: 3 });
    assert_eq!(MIN_POLL_SCAN, 16);
}

#[test]
fn worker_poll_heartbeat_ack_flow_works() {
    let mut repo = InMemoryRuntimeRepository::new();
    repo.enqueue_attempt("attempt-worker-1", "run-worker-1").unwrap();
    let lease = match poll(&mut repo, "worker-1", limits(None, None), NOW, "lease-1") {
        PollDecision::Dispatched { attempt_id, lease, recovered, active, limit, .. } => {
            assert_eq!(attempt_id, "attempt-worker-1");
            assert!(!recovered);
            assert_eq!((active, limit), (0, 8));
            lease
        }
        other => panic!("expected a dispatch, got {:?}", other),
    };
    assert_eq!(lease.lease_id, "lease-1");
    assert_eq!(lease.lease_expires_at_ms, NOW + POLL_LEASE_MS);
    assert_eq!(repo.get_attempt_status("attempt-worker-1").unwrap(), Some((1, AttemptExecutionStatus::Leased)));

    let (expires, _) = worker_heartbeat(&mut repo, "worker-1", "lease-1", Some(5), NOW + 1_000, "6666666666666666").expect("heartbeat");
    assert_eq!(expires, NOW + 6_000);
    let renewed = repo.get_lease_by_id("lease-1").unwrap().unwrap();
    assert_eq!(renewed.version, lease.version + 1);

    let outcome = worker_ack(&mut repo, "worker-1", "attempt-worker-1", "completed", None, 0, NOW + 2_000, "7777777777777777", "r1").expect("ack");
    assert_eq!(outcome.status, "completed");
    assert_eq!(outcome.next_retry_at_ms, None);
    assert_eq!(repo.get_attempt_status("attempt-worker-1").unwrap(), Some((1, AttemptExecutionStatus::Completed)));
    assert!(repo.get_lease_for_attempt("attempt-worker-1").unwrap().is_none());
}

#[test]
fn worker_conflict_failover_backpressure_are_enforced() {
    let mut repo = InMemoryRuntimeRepository::new();
    repo.enqueue_attempt("attempt-worker-2a", "run-worker-2").unwrap();
    repo.enqueue_attempt("attempt-worker-2b", "run-worker-2").unwrap();
    let first = poll(&mut repo, "worker-2", limits(Some(1), None), NOW, "lease-2a");
    assert!(matches!(first, PollDecision::Dispatched { .. }));

    match poll(&mut repo, "worker-2", limits(Some(1), None), NOW + 10, "lease-2b") {
        PollDecision::WorkerBackpressure { active, limit } => assert_eq!((active, limit), (1, 1)),
        other => panic!("expected backpressure, got {:?}", other),
    }

    let wrong = worker_heartbeat(&mut repo, "worker-other", "lease-2a", Some(5), NOW + 20, "6666666666666666").unwrap_err();
    assert_eq!(wrong.kind, ApiErrorKind::Conflict);
    assert_eq!(wrong.message, "lease ownership mismatch");

    repo.heartbeat_lease("lease-2a", NOW - 40_000, NOW - 20_000).expect("force-expire lease");
    match poll(&mut repo, "worker-2", limits(Some(1), None), NOW + 30, "lease-2c") {
        PollDecision::Dispatched { .. } => {}
        other => panic!("expected a dispatch after failover, got {:?}", other),
    }
}

#[test]
fn worker_poll_returns_tenant_backpressure_when_tenant_is_rate_limited() {
    let mut repo = InMemoryRuntimeRepository::new();
    repo.enqueue_attempt("attempt-tenant-1a", "run-tenant-1").unwrap();
    repo.enqueue_attempt("attempt-tenant-1b", "run-tenant-1").unwrap();
    repo.set_attempt_tenant_id("attempt-tenant-1a", Some("tenant-1")).unwrap();
    repo.set_attempt_tenant_id("attempt-tenant-1b", Some("tenant-1")).unwrap();
    match poll(&mut repo, "worker-tenant-1", limits(None, Some(1)), NOW, "lease-t1") {
        PollDecision::Dispatched { tenant_id, .. } => assert_eq!(tenant_id.as_deref(), Some("tenant-1")),
        other => panic!("expected a dispatch, got {:?}", other),
    }
    match poll(&mut repo, "worker-tenant-2", limits(None, Some(1)), NOW + 1, "lease-t2") {
        PollDecision::TenantBackpressure { tenant_id, tenant_active, tenant_limit, .. } => {
            assert_eq!(tenant_id, "tenant-1");
            assert_eq!((tenant_active, tenant_limit), (1, 1));
        }
        other => panic!("expected tenant backpressure, got {:?}", other),
    }
}

#[test]
fn worker_poll_prefers_higher_priority_attempts() {
    let mut repo = InMemoryRuntimeRepository::new();
    repo.enqueue_attempt("attempt-low", "run-p").unwrap();
    repo.enqueue_attempt("attempt-high", "run-p").unwrap();
    repo.set_attempt_priority("attempt-high", 90).unwrap();
    match poll(&mut repo, "worker-p", limits(None, None), NOW, "lease-p") {
        PollDecision::Dispatched { attempt_id, .. } => assert_eq!(attempt_id, "attempt-high"),
        other => panic!("expected a dispatch, got {:?}", other),
    }
}

#[test]
fn worker_poll_on_empty_queue_is_a_noop() {
    let mut repo = InMemoryRuntimeRepository::new();
    match poll(&mut repo, "worker-x", limits(None, None), NOW, "lease-x") {
        PollDecision::Noop { active, limit, tenant_limit } => assert_eq!((active, limit, tenant_limit), (0, 8, 8)),
        other => panic!("expected nothing to do, got {:?}", other),
    }
}

#[test]
fn worker_report_step_dedupe_is_enforced() {
    let mut repo = InMemoryRuntimeRepository::new();
    repo.enqueue_attempt("attempt-report-1", "run-report-1").unwrap();
    let (first, _) = worker_report_step(&mut repo, "worker-r", "attempt-report-1", "action-1", "completed", "token-1", NOW, "8888888888888888").unwrap();
    assert_eq!(first, "reported");
    let (again, _) = worker_report_step(&mut repo, "worker-r", "attempt-report-1", "action-1", "completed", "token-1", NOW + 1, "8888888888888888").unwrap();
    assert_eq!(again, "reported_idempotent");
    let conflict = worker_report_step(&mut repo, "worker-r", "attempt-report-1", "action-2", "completed", "token-1", NOW + 2, "8888888888888888").unwrap_err();
    assert_eq!(conflict.kind, ApiErrorKind::Conflict);
    assert_eq!(
        conflict.message,
        "driver error: dedupe_token 'token-1' already used with different payload for attempt 'attempt-report-1'"
    );
    let blank = worker_report_step(&mut repo, " ", "a", "b", "c", "d", NOW, "8888888888888888").unwrap_err();
    assert_eq!(blank.message, "worker_id must not be empty");
}

#[test]
fn worker_failed_ack_schedules_retry_and_history_is_queryable() {
    let mut repo = InMemoryRuntimeRepository::new();
    repo.enqueue_attempt("attempt-retry-1", "run-retry-1").unwrap();
    let policy = RetryPolicyInput {
        strategy: "fixed".to_string(),
        backoff_ms: 1_000,
        max_backoff_ms: None,
        multiplier_bits: 2.0f64.to_bits(),
        multiplier_above_one: true,
        max_retries: 2,
    };
    let outcome = worker_ack(&mut repo, "worker-r", "attempt-retry-1", "failed", Some(&policy), 0, NOW, "9999999999999999", "r1").expect("ack");
    assert_eq!(outcome.status, "retry_scheduled");
    assert_eq!(outcome.next_retry_at_ms, Some(NOW + 1_000));
    assert_eq!(outcome.next_attempt_no, 2);
    let history = repo.get_attempt_retry_history("attempt-retry-1").unwrap().expect("history");
    assert_eq!(history.current_attempt_no, 2);
    assert_eq!(history.current_status, AttemptExecutionStatus::RetryBackoff);
    assert_eq!(history.history.len(), 1);
    assert_eq!(history.history[0].backoff_ms, 1_000);

    let missing = worker_ack(&mut repo, "worker-r", "nope", "failed", None, 0, NOW, "9999999999999999", "r1").unwrap_err();
    assert_eq!(missing.kind, ApiErrorKind::Internal);
    assert_eq!(missing.message, "driver error: attempt not found for ack: nope");
    assert_eq!(missing.request_id.as_deref(), Some("r1"));
    let bad = worker_ack(&mut repo, "worker-r", "attempt-retry-1", "done", None, 0, NOW, "9999999999999999", "r1").unwrap_err();
    assert_eq!(bad.message, "terminal_status must be one of: completed|failed|cancelled");
}
