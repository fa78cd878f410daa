use oris_runtime::runtime::repository::RuntimeRepository;
use oris_runtime::runtime::scheduler::{SchedulerDecision, SkeletonScheduler, DISPATCH_LEASE_MS};
use oris_runtime::runtime::attempt::{AttemptExecutionStatus, RetryStrategy, TimeoutPolicyConfig};
use oris_runtime::runtime::models::{ReplayEffectClaim, StepReportWriteResult};
use oris_runtime::runtime::retry::RetryPolicyConfig;
use oris_runtime::runtime::store::InMemoryRuntimeRepository;

const NOW: i64 = 1_700_000_000_000;

/// Exponential growth for the attempt's current number, as the caller computes it.
fn exponential_raw(repo: &InMemoryRuntimeRepository, attempt_id: &str, given: Option<&RetryPolicyConfig>) -> i64 {
    let (n, stored) = repo.ack_inputs(attempt_id).expect("attempt exists");
    let policy = given.copied().or(stored);
    match policy {
        Some(p) => {
            let multiplier = p.multiplier_bits.map(f64::from_bits).unwrap_or(2.0);
            ((p.backoff_ms as f64) * multiplier.powi((n - 1) as i32)).round() as i64
        }
        None => 0,
    }
}

#[test]
fn replay_effect_guard_persists_completed_effects_and_dedupes() {
    let mut repo = InMemoryRuntimeRepository::new();
    let claim = repo
        .claim_replay_effect("thread-replay-guard", "latest_state:abc123", "fingerprint-1", NOW)
        .expect("claim replay effect");
    assert_eq!(claim, ReplayEffectClaim::Acquired);

    repo.complete_replay_effect(
        "fingerprint-1",
        r#"{"thread_id":"thread-replay-guard","status":"completed"}"#,
        NOW + 5,
    )
    .expect("complete replay effect");

    let second_claim = repo
        .claim_replay_effect("thread-replay-guard", "latest_state:abc123", "fingerprint-1", NOW + 10)
        .expect("claim completed replay effect");
    match second_claim {
        ReplayEffectClaim::Completed(response_json) => {
            assert!(response_json.contains("\"thread_id\":\"thread-replay-guard\""));
        }
        other => panic!("expected completed replay effect, got {:?}", other),
    }

    let rows = repo.list_replay_effects_for_thread("thread-replay-guard").expect("list replay effects");
    assert_eq!(rows.len(), 1);
    assert_eq!(rows[0].fingerprint, "fingerprint-1");
    assert_eq!(rows[0].replay_target, "latest_state:abc123");
    assert_eq!(rows[0].effect_type, "job_replay");
    assert_eq!(rows[0].status, "completed");
    assert_eq!(rows[0].execution_count, 1);
    assert!(rows[0].completed_at_ms.is_some());
}

#[test]
fn attempt_trace_context_round_trip_and_advances() {
    let mut repo = InMemoryRuntimeRepository::new();
    repo.enqueue_attempt("attempt-trace-1", "run-trace-1").expect("enqueue trace attempt");
    repo.set_attempt_trace_context(
        "attempt-trace-1",
        "0123456789abcdef0123456789abcdef",
        Some("1111111111111111"),
        "2222222222222222",
        "01",
    )
    .expect("set trace context");

    let current = repo.get_attempt_trace_context("attempt-trace-1").expect("get trace context").expect("trace context");
    assert_eq!(current.trace_id, "0123456789abcdef0123456789abcdef");
    assert_eq!(current.parent_span_id.as_deref(), Some("1111111111111111"));
    assert_eq!(current.span_id, "2222222222222222");
    assert_eq!(current.trace_flags, "01");

    let advanced = repo.advance_attempt_trace("attempt-trace-1", "3333333333333333").expect("advance trace").expect("advanced trace");
    assert_eq!(advanced.parent_span_id.as_deref(), Some("2222222222222222"));
    assert_eq!(advanced.span_id, "3333333333333333");

    let latest = repo.latest_attempt_trace_for_run("run-trace-1").expect("latest trace for run").expect("run trace");
    assert_eq!(latest.parent_span_id.as_deref(), Some("2222222222222222"));
    assert_eq!(latest.span_id, "3333333333333333");
}

#[test]
fn ack_attempt_exponential_backoff_respects_cap_and_max_retries() {
    let mut repo = InMemoryRuntimeRepository::new();
    repo.enqueue_attempt("attempt-retry-exp", "run-retry-exp").expect("enqueue retry attempt");
    let policy = RetryPolicyConfig {
        strategy: RetryStrategy::Exponential,
        backoff_ms: 100,
        max_backoff_ms: Some(250),
        multiplier_bits: Some(3.0f64.to_bits()),
        max_retries: 2,
    };

    let raw = exponential_raw(&repo, "attempt-retry-exp", Some(&policy));
    let first = repo
        .ack_attempt("attempt-retry-exp", AttemptExecutionStatus::Failed, Some(policy), raw, NOW)
        .expect("schedule first retry");
    assert_eq!(first.status, AttemptExecutionStatus::RetryBackoff);
    assert_eq!(first.next_attempt_no, 2);

    let raw = exponential_raw(&repo, "attempt-retry-exp", None);
    let second = repo
        .ack_attempt("attempt-retry-exp", AttemptExecutionStatus::Failed, None, raw, NOW)
        .expect("schedule second retry");
    assert_eq!(second.status, AttemptExecutionStatus::RetryBackoff);
    assert_eq!(second.next_attempt_no, 3);

    let raw = exponential_raw(&repo, "attempt-retry-exp", None);
    let third = repo
        .ack_attempt("attempt-retry-exp", AttemptExecutionStatus::Failed, None, raw, NOW)
        .expect("final failure after max retries");
    assert_eq!(third.status, AttemptExecutionStatus::Failed);
    assert_eq!(third.next_attempt_no, 3);

    let snapshot = repo.get_attempt_retry_history("attempt-retry-exp").expect("read retry history").expect("retry history exists");
    assert_eq!(snapshot.current_attempt_no, 3);
    assert_eq!(snapshot.current_status, AttemptExecutionStatus::Failed);
    assert_eq!(snapshot.history.len(), 2);
    assert_eq!(snapshot.history[0].attempt_no, 2);
    assert_eq!(snapshot.history[0].backoff_ms, 100);
    assert_eq!(snapshot.history[1].attempt_no, 3);
    assert_eq!(snapshot.history[1].backoff_ms, 250);
}

#[test]
fn transition_timed_out_attempts_applies_configured_terminal_status() {
    let mut repo = InMemoryRuntimeRepository::new();
    repo.enqueue_attempt("attempt-timeout-1", "run-timeout-1").expect("enqueue timeout attempt");
    repo.set_attempt_timeout_policy(
        "attempt-timeout-1",
        &TimeoutPolicyConfig { timeout_ms: 1_000, on_timeout_status: AttemptExecutionStatus::Cancelled },
    )
    .expect("set timeout policy");
    let lease = repo.upsert_lease("attempt-timeout-1", "worker-timeout-1", NOW + 30_000, NOW).expect("lease timeout attempt");
    assert!(!lease.lease_id.is_empty());
    repo.set_attempt_started_at("attempt-timeout-1", Some(NOW - 5_000)).expect("backdate started_at");

    let transitioned = repo.transition_timed_out_attempts(NOW).expect("transition timed out attempts");
    assert_eq!(transitioned, 1);
    assert!(repo.get_lease_for_attempt("attempt-timeout-1").expect("read lease").is_none());
    let (attempt_no, status) = repo.get_attempt_status("attempt-timeout-1").expect("read attempt status").expect("attempt exists");
    assert_eq!(attempt_no, 1);
    assert_eq!(status, AttemptExecutionStatus::Cancelled);
}

#[test]
fn final_failed_attempts_are_persisted_to_dead_letter_queue_and_replayable() {
    let mut repo = InMemoryRuntimeRepository::new();
    repo.enqueue_attempt("attempt-dlq-1", "run-dlq-1").expect("enqueue dlq attempt");

    let outcome = repo.ack_attempt("attempt-dlq-1", AttemptExecutionStatus::Failed, None, 0, NOW).expect("mark final failed");
    assert_eq!(outcome.status, AttemptExecutionStatus::Failed);

    let row = repo.get_dead_letter("attempt-dlq-1").expect("read dead letter").expect("dead letter exists");
    assert_eq!(row.run_id, "run-dlq-1");
    assert_eq!(row.terminal_status, "failed");
    assert_eq!(row.replay_status, "pending");
    assert_eq!(row.replay_count, 0);

    let replayed = repo.replay_dead_letter("attempt-dlq-1", NOW).expect("replay dead letter");
    assert_eq!(replayed.replay_status, "replayed");
    assert_eq!(replayed.replay_count, 1);

    let (_, status) = repo.get_attempt_status("attempt-dlq-1").expect("read replayed attempt status").expect("attempt exists");
    assert_eq!(status, AttemptExecutionStatus::Queued);
}

#[test]
fn list_dispatchable_attempts_prefers_higher_priority_first() {
    let mut repo = InMemoryRuntimeRepository::new();
    repo.enqueue_attempt("attempt-priority-low", "run-priority").expect("enqueue low priority");
    repo.enqueue_attempt("attempt-priority-high", "run-priority").expect("enqueue high priority");
    repo.set_attempt_priority("attempt-priority-low", 10).expect("set low priority");
    repo.set_attempt_priority("attempt-priority-high", 90).expect("set high priority");

    let rows = repo.list_dispatchable_attempts(NOW, 10).expect("list dispatchable attempts");
    assert_eq!(rows.len(), 2);
    assert_eq!(rows[0].attempt_id, "attempt-priority-high");
    assert_eq!(rows[1].attempt_id, "attempt-priority-low");
}

#[test]
fn dispatch_order_breaks_ties_by_attempt_number_then_id() {
    let mut repo = InMemoryRuntimeRepository::new();
    for id in ["c", "a", "b"] {
        repo.enqueue_attempt(id, "run").unwrap();
    }
    let rows = repo.list_dispatchable_attempts(NOW, 2).unwrap();
    let ids: Vec<&str> = rows.iter().map(|r| r.attempt_id.as_str()).collect();
    assert_eq!(ids, vec!["a", "b"]);
    assert_eq!(repo.queue_depth(NOW).unwrap(), 3);
    assert!(repo.list_dispatchable_attempts(NOW, 0).unwrap().is_empty());
}

#[test]
fn leased_attempts_are_not_dispatchable_until_expiry() {
    let mut repo = InMemoryRuntimeRepository::new();
    repo.enqueue_attempt("a1", "run").unwrap();
    repo.upsert_lease("a1", "w1", NOW + 1_000, NOW).unwrap();
    assert_eq!(repo.queue_depth(NOW).unwrap(), 0);
    let err = repo.upsert_lease("a1", "w2", NOW + 1_000, NOW).unwrap_err();
    assert_eq!(err.message(), "driver error: active lease already exists for attempt: a1");
    assert_eq!(repo.active_leases_for_worker("w1", NOW).unwrap(), 1);

    let expired = repo.expire_leases_and_requeue(NOW + 2_000).unwrap();
    assert_eq!(expired, 1);
    let (_, status) = repo.get_attempt_status("a1").unwrap().unwrap();
    assert_eq!(status, AttemptExecutionStatus::Queued);
    assert_eq!(repo.active_leases_for_worker("w1", NOW + 2_000).unwrap(), 0);
    assert_eq!(repo.queue_depth(NOW + 2_000).unwrap(), 1);
}

#[test]
fn lease_requires_a_dispatchable_attempt() {
    let mut repo = InMemoryRuntimeRepository::new();
    let err = repo.upsert_lease("missing", "w1", NOW + 1_000, NOW).unwrap_err();
    assert_eq!(err.message(), "driver error: attempt is not dispatchable for lease: missing");
    repo.enqueue_attempt("done", "run").unwrap();
    repo.mark_attempt_status("done", AttemptExecutionStatus::Completed).unwrap();
    assert!(repo.upsert_lease("done", "w1", NOW + 1_000, NOW).is_err());
}

#[test]
fn heartbeat_checks_owner_and_version() {
    let mut repo = InMemoryRuntimeRepository::new();
    repo.enqueue_attempt("a1", "run").unwrap();
    let lease = repo.upsert_lease("a1", "w1", NOW + 1_000, NOW).unwrap();
    assert_eq!(lease.version, 1);
    assert!(lease.lease_id.starts_with("lease-"));
    repo.heartbeat_lease_with_version(&lease.lease_id, "w1", 1, NOW + 500, NOW + 5_000).unwrap();
    let renewed = repo.get_lease_by_id(&lease.lease_id).unwrap().unwrap();
    assert_eq!(renewed.version, 2);
    assert_eq!(renewed.lease_expires_at_ms, NOW + 5_000);
    assert_eq!(renewed.heartbeat_at_ms, NOW + 500);
    let stale = repo.heartbeat_lease_with_version(&lease.lease_id, "w1", 1, NOW + 600, NOW + 6_000).unwrap_err();
    assert!(stale.message().contains("lease heartbeat version conflict"));
    assert!(repo.heartbeat_lease_with_version(&lease.lease_id, "w2", 2, NOW + 600, NOW + 6_000).is_err());
    assert!(repo.heartbeat_lease("lease-missing", NOW, NOW).is_err());
}

#[test]
fn failed_timeouts_are_dead_lettered() {
    let mut repo = InMemoryRuntimeRepository::new();
    repo.enqueue_attempt("t1", "run-t").unwrap();
    repo.set_attempt_timeout_policy("t1", &TimeoutPolicyConfig { timeout_ms: 100, on_timeout_status: AttemptExecutionStatus::Failed }).unwrap();
    repo.upsert_lease("t1", "w1", NOW + 30_000, NOW).unwrap();
    assert_eq!(repo.transition_timed_out_attempts(NOW + 50).unwrap(), 0);
    assert_eq!(repo.transition_timed_out_attempts(NOW + 100).unwrap(), 1);
    let dl = repo.get_dead_letter("t1").unwrap().unwrap();
    assert_eq!(dl.reason.as_deref(), Some("execution_timeout"));
    assert_eq!(dl.dead_at_ms, NOW + 100);
}

#[test]
fn timeout_policy_is_checked() {
    let mut repo = InMemoryRuntimeRepository::new();
    repo.enqueue_attempt("a", "run").unwrap();
    let zero = repo.set_attempt_timeout_policy("a", &TimeoutPolicyConfig { timeout_ms: 0, on_timeout_status: AttemptExecutionStatus::Failed }).unwrap_err();
    assert_eq!(zero.message(), "driver error: timeout policy timeout_ms must be > 0");
    let status = repo.set_attempt_timeout_policy("a", &TimeoutPolicyConfig { timeout_ms: 5, on_timeout_status: AttemptExecutionStatus::Queued }).unwrap_err();
    assert_eq!(status.message(), "driver error: timeout policy terminal status must be failed or cancelled");
    let missing = repo.set_attempt_timeout_policy("b", &TimeoutPolicyConfig { timeout_ms: 5, on_timeout_status: AttemptExecutionStatus::Failed }).unwrap_err();
    assert_eq!(missing.message(), "driver error: attempt not found for timeout policy: b");
}

#[test]
fn replaying_a_dead_letter_twice_conflicts() {
    let mut repo = InMemoryRuntimeRepository::new();
    repo.enqueue_attempt("d", "run").unwrap();
    repo.ack_attempt("d", AttemptExecutionStatus::Failed, None, 0, NOW).unwrap();
    repo.replay_dead_letter("d", NOW).unwrap();
    let err = repo.replay_dead_letter("d", NOW).unwrap_err();
    assert_eq!(err.message(), "driver error: dead letter already replayed for attempt: d");
    let missing = repo.replay_dead_letter("x", NOW).unwrap_err();
    assert_eq!(missing.message(), "driver error: dead letter not found for attempt: x");
}

#[test]
fn fixed_retry_budget_ends_in_dead_letter() {
    let mut repo = InMemoryRuntimeRepository::new();
    repo.enqueue_attempt("f", "run").unwrap();
    let policy = RetryPolicyConfig { strategy: RetryStrategy::Fixed, backoff_ms: 0, max_backoff_ms: None, multiplier_bits: None, max_retries: 1 };
    let first = repo.ack_attempt("f", AttemptExecutionStatus::Failed, Some(policy), 0, NOW).unwrap();
    assert_eq!(first.status, AttemptExecutionStatus::RetryBackoff);
    assert_eq!(first.next_retry_at_ms, Some(NOW + 1));
    assert_eq!(repo.queue_depth(NOW).unwrap(), 0);
    assert_eq!(repo.queue_depth(NOW + 1).unwrap(), 1);
    let second = repo.ack_attempt("f", AttemptExecutionStatus::Failed, None, 0, NOW).unwrap();
    assert_eq!(second.status, AttemptExecutionStatus::Failed);
    assert_eq!(second.next_attempt_no, 2);
    assert_eq!(repo.get_dead_letter("f").unwrap().unwrap().reason.as_deref(), Some("terminal_failed"));
    let missing = repo.ack_attempt("nope", AttemptExecutionStatus::Completed, None, 0, NOW).unwrap_err();
    assert_eq!(missing.message(), "driver error: attempt not found for ack: nope");
}

#[test]
fn completed_acks_are_not_dead_lettered() {
    let mut repo = InMemoryRuntimeRepository::new();
    repo.enqueue_attempt("c", "run").unwrap();
    repo.upsert_lease("c", "w", NOW + 1_000, NOW).unwrap();
    let out = repo.ack_attempt("c", AttemptExecutionStatus::Completed, None, 0, NOW).unwrap();
    assert_eq!(out.status, AttemptExecutionStatus::Completed);
    assert_eq!(out.next_attempt_no, 1);
    assert!(repo.get_lease_for_attempt("c").unwrap().is_none());
    assert!(repo.get_dead_letter("c").unwrap().is_none());
}

#[test]
fn step_reports_dedupe_by_token() {
    let mut repo = InMemoryRuntimeRepository::new();
    assert_eq!(repo.record_step_report("w", "a", "act", "ok", "t1", NOW).unwrap(), StepReportWriteResult::Inserted);
    assert_eq!(repo.record_step_report("w", "a", "act", "ok", "t1", NOW).unwrap(), StepReportWriteResult::Duplicate);
    let err = repo.record_step_report("w", "a", "other", "ok", "t1", NOW).unwrap_err();
    assert_eq!(err.message(), "driver error: dedupe_token 't1' already used with different payload for attempt 'a'");
    assert_eq!(repo.record_step_report("w", "b", "act", "ok", "t1", NOW).unwrap(), StepReportWriteResult::Inserted);
}

#[test]
fn replay_effects_in_progress_and_abandon() {
    let mut repo = InMemoryRuntimeRepository::new();
    assert_eq!(repo.claim_replay_effect("t", "x", "fp", NOW).unwrap(), ReplayEffectClaim::Acquired);
    assert_eq!(repo.claim_replay_effect("t", "x", "fp", NOW).unwrap(), ReplayEffectClaim::InProgress);
    repo.abandon_replay_effect("fp").unwrap();
    assert_eq!(repo.claim_replay_effect("t", "x", "fp", NOW).unwrap(), ReplayEffectClaim::Acquired);
    assert!(repo.complete_replay_effect("other", "{}", NOW).is_err());
}

#[test]
fn replay_effects_list_in_creation_order() {
    let mut repo = InMemoryRuntimeRepository::new();
    repo.claim_replay_effect("t", "x", "late", NOW + 10).unwrap();
    repo.claim_replay_effect("t", "y", "early", NOW).unwrap();
    repo.claim_replay_effect("u", "z", "other", NOW).unwrap();
    let rows = repo.list_replay_effects_for_thread("t").unwrap();
    let fps: Vec<&str> = rows.iter().map(|r| r.fingerprint.as_str()).collect();
    assert_eq!(fps, vec!["early", "late"]);
}

#[test]
fn tenant_settings_are_trimmed() {
    let mut repo = InMemoryRuntimeRepository::new();
    repo.enqueue_attempt("a", "run").unwrap();
    repo.set_attempt_tenant_id("a", Some("  acme  ")).unwrap();
    repo.upsert_lease("a", "w", NOW + 1_000, NOW).unwrap();
    assert_eq!(repo.active_leases_for_tenant("acme", NOW).unwrap(), 1);
    repo.set_attempt_tenant_id("a", Some("   ")).unwrap();
    assert_eq!(repo.active_leases_for_tenant("acme", NOW).unwrap(), 0);
    assert!(repo.set_attempt_tenant_id("missing", None).is_err());
}

#[test]
fn enqueue_is_idempotent() {
    let mut repo = InMemoryRuntimeRepository::new();
    repo.enqueue_attempt("a", "run-1").unwrap();
    repo.set_attempt_priority("a", 5).unwrap();
    repo.enqueue_attempt("a", "run-2").unwrap();
    let rows = repo.list_dispatchable_attempts(NOW, 10).unwrap();
    assert_eq!(rows.len(), 1);
    assert_eq!(rows[0].run_id, "run-1");
    assert_eq!(rows[0].attempt_no, 1);
}

fn assert_dispatch_lease_requeue_contract<R: RuntimeRepository>(repo: &mut R, name: &str) {
    let run_id = format!("run-{}", name);
    let attempt_id = format!("attempt-{}", name);
    let now = NOW;

    let initial = repo.list_dispatchable_attempts(now, 10).expect("list dispatchable initial");
    assert!(initial.iter().any(|r| r.attempt_id == attempt_id));

    let lease = repo.upsert_lease(&attempt_id, "worker-a", now + 1_000, now).expect("upsert lease");

    let duplicate = repo.upsert_lease(&attempt_id, "worker-b", now + 2_000, now);
    assert!(duplicate.is_err());

    let hidden = repo.list_dispatchable_attempts(now, 10).expect("list dispatchable while leased");
    assert!(!hidden.iter().any(|r| r.attempt_id == attempt_id));

    repo.heartbeat_lease(&lease.lease_id, now + 500, now + 2_000).expect("heartbeat lease");

    let expired = repo.expire_leases_and_requeue(now + 10_000).expect("expire and requeue");
    assert_eq!(expired, 1);

    let available = repo.list_dispatchable_attempts(now + 10_000, 10).expect("list dispatchable after requeue");
    assert!(available.iter().any(|r| r.attempt_id == attempt_id));

    assert_eq!(repo.latest_seq_for_run(&run_id).expect("latest seq"), 0);
}

#[test]
fn runtime_repository_contract_sqlite() {
    let mut repo = InMemoryRuntimeRepository::new();
    repo.enqueue_attempt("attempt-sqlite", "run-sqlite").expect("seed attempt");
    assert!(repo.get_lease_for_attempt("attempt-sqlite").expect("lease lookup").is_none());
    assert_dispatch_lease_requeue_contract(&mut repo, "sqlite");
}

#[test]
fn heartbeat_with_version_enforces_ownership() {
    let mut repo = InMemoryRuntimeRepository::new();
    repo.enqueue_attempt("attempt-owner", "run-owner").expect("enqueue attempt");
    let lease = repo.upsert_lease("attempt-owner", "owner-worker", NOW + 20_000, NOW).expect("upsert lease");

    let wrong_owner = repo.heartbeat_lease_with_version(&lease.lease_id, "other-worker", lease.version, NOW + 1_000, NOW + 25_000);
    assert!(wrong_owner.is_err(), "wrong worker must not heartbeat another lease");

    let wrong_version =
        repo.heartbeat_lease_with_version(&lease.lease_id, "owner-worker", lease.version + 1, NOW + 1_000, NOW + 25_000);
    assert!(wrong_version.is_err(), "stale/invalid version must be rejected");

    repo.heartbeat_lease_with_version(&lease.lease_id, "owner-worker", lease.version, NOW + 1_000, NOW + 25_000)
        .expect("owner heartbeat");
    let renewed = repo.get_lease_by_id(&lease.lease_id).expect("lookup").expect("lease");
    assert_eq!(renewed.version, lease.version + 1);
    assert_eq!(renewed.lease_expires_at_ms, NOW + 25_000);
    assert_eq!(renewed.heartbeat_at_ms, NOW + 1_000);
}

#[test]
fn scheduler_dispatches_first_attempt_then_idles() {
    let mut repo = InMemoryRuntimeRepository::new();
    repo.enqueue_attempt("attempt-low", "run-a").expect("enqueue");
    repo.enqueue_attempt("attempt-high", "run-b").expect("enqueue");
    repo.set_attempt_priority("attempt-high", 10).expect("priority");
    let mut scheduler = SkeletonScheduler::new(repo);
    match scheduler.dispatch_one_at("worker-1", NOW).expect("dispatch") {
        SchedulerDecision::Dispatched { attempt_id, worker_id } => {
            assert_eq!(attempt_id, "attempt-high");
            assert_eq!(worker_id, "worker-1");
        }
        other => panic!("expected dispatch, got {:?}", other),
    }
    let lease = scheduler.repository().get_lease_for_attempt("attempt-high").expect("lookup").expect("lease");
    assert_eq!(lease.lease_expires_at_ms, NOW + DISPATCH_LEASE_MS);
    assert!(matches!(scheduler.dispatch_one_at("worker-2", NOW).expect("dispatch"), SchedulerDecision::Dispatched { .. }));
    assert!(matches!(scheduler.dispatch_one_at("worker-3", NOW).expect("dispatch"), SchedulerDecision::Noop));
    assert!(matches!(scheduler.dispatch_one("worker-3").expect("dispatch now"), SchedulerDecision::Noop));
}
