use oris_runtime::runtime::api::access::{
    audit_entry, authenticate_repository_key, check_access, method_name, resolve_auth_context, AccessDecision,
};
use oris_runtime::runtime::api::auth::{ApiRole, AuthContext, ExecutionApiAuthConfig, HttpMethod};
use oris_runtime::runtime::api::errors::ApiErrorKind;
use oris_runtime::runtime::api::interrupts::{
    begin_interrupt_resume, cancel_job, finish_interrupt_resume, reject_interrupt, InterruptResume,
};
use oris_runtime::runtime::api::jobs::{
    admit_run, begin_replay, check_idempotency, check_scheduling_options, ensure_not_cancelled, graph_read_error,
    history_items, job_status, json_hash, payload_hash, record_interrupts, record_resume, record_run,
    replay_effect_fingerprint, replay_target, replayed_response, run_job_response, run_status, timeline_of,
    validate_checkpoint_id, CancelledThreads, IdempotencyDecision, IdempotencyRecord, IdempotencyStore, ReplayGuard,
};
use oris_runtime::runtime::api::trace::TraceContextState;
use oris_runtime::runtime::api::validate::{check_audit_window, dead_letter_replay_error, parse_audit_target};
use oris_runtime::runtime::attempt::{AttemptExecutionStatus, TimeoutPolicyConfig};
use oris_runtime::runtime::models::AuditLogEntry;
use oris_runtime::runtime::store::InMemoryRuntimeRepository;

const NOW: i64 = 1_700_000_000_000;

fn trace() -> TraceContextState {
    TraceContextState {
        trace_id: "0123456789abcdef0123456789abcdef".to_string(),
        parent_span_id: None,
        span_id: "1111111111111111".to_string(),
        trace_flags: "01".to_string(),
    }
}

fn run_with_interrupt(repo: &mut InMemoryRuntimeRepository, thread_id: &str) {
    record_run(repo, thread_id, "interrupted", &vec!["{\"ask\":\"approve\"}".to_string()], 0, None, &trace(), None, "run-1", NOW);
}

#[test]
fn cancelled_threads_refuse_new_runs() {
    let mut cancelled = CancelledThreads::new();
    assert!(admit_run(&cancelled, "t-1", None, None, "r1").is_ok());
    cancel_job(&mut cancelled, "t-1").expect("cancel");
    assert!(cancelled.contains("t-1"));
    let e = admit_run(&cancelled, "t-1", None, None, "r1").expect_err("cancelled");
    assert_eq!(e.kind, ApiErrorKind::Conflict);
    assert_eq!(e.message, "thread 't-1' is cancelled");
    assert!(ensure_not_cancelled(&cancelled, "t-2").is_ok());
    assert_eq!(job_status(&cancelled, "t-1"), "cancelled");
    assert_eq!(job_status(&cancelled, "t-2"), "running");
    assert_eq!(cancel_job(&mut cancelled, " ").expect_err("blank").message, "thread_id must not be empty");
}

#[test]
fn run_admission_checks_in_order() {
    let cancelled = CancelledThreads::new();
    assert_eq!(admit_run(&cancelled, "", Some(500), Some("bad tenant"), "r1").unwrap_err().message, "thread_id must not be empty");
    assert_eq!(
        admit_run(&cancelled, "t", Some(500), Some("bad tenant"), "r1").unwrap_err().message,
        "priority must be between 0 and 100"
    );
    assert_eq!(admit_run(&cancelled, "t", Some(5), Some("bad tenant"), "r1").unwrap_err().message, "tenant_id contains unsupported characters");
    assert_eq!(admit_run(&cancelled, "t", Some(5), Some(" acme "), "r1").unwrap(), (5, Some("acme".to_string())));
    assert_eq!(admit_run(&cancelled, "t", None, None, "r1").unwrap(), (0, None));
}

#[test]
fn payload_hash_covers_every_field() {
    let base = payload_hash("t", "hello", None, 0, None);
    assert_eq!(base.len(), 64);
    assert_eq!(base, payload_hash("t", "hello", None, 0, None));
    assert_ne!(base, payload_hash("t", "hello!", None, 0, None));
    assert_ne!(base, payload_hash("t", "hello", Some("{\"timeout_ms\":5}"), 0, None));
    assert_ne!(base, payload_hash("t", "hello", None, 1, None));
    assert_ne!(base, payload_hash("t", "hello", None, 0, Some("acme")));
    // the hashed text is `thread|input|timeout|priority|tenant`
    assert_eq!(base, json_hash("t|hello||0|"));
    assert_eq!(payload_hash("t", "in", Some("{}"), -3, Some("x")), json_hash("t|in|{}|-3|x"));
}

#[test]
fn idempotent_run_same_key_replays_response() {
    let mut store = IdempotencyStore::new();
    let hash = payload_hash("idem-1", "API run", None, 0, None);
    assert_eq!(check_idempotency("key-1", store.get("key-1").as_ref(), "idem-1", &hash).unwrap(), IdempotencyDecision::Fresh);
    store.put(
        "key-1",
        IdempotencyRecord {
            operation: "run".to_string(),
            thread_id: "idem-1".to_string(),
            payload_hash: hash.clone(),
            response_json: "{\"status\":\"completed\"}".to_string(),
        },
    );
    assert_eq!(
        check_idempotency("key-1", store.get("key-1").as_ref(), "idem-1", &hash).unwrap(),
        IdempotencyDecision::Replay("{\"status\":\"completed\"}".to_string())
    );
}

#[test]
fn idempotent_run_payload_mismatch_conflicts() {
    let mut store = IdempotencyStore::new();
    let hash = payload_hash("idem-2", "first", None, 0, None);
    store.put(
        "key-2",
        IdempotencyRecord { operation: "run".to_string(), thread_id: "idem-2".to_string(), payload_hash: hash, response_json: "{}".to_string() },
    );
    let other = payload_hash("idem-2", "second", None, 0, None);
    let e = check_idempotency("key-2", store.get("key-2").as_ref(), "idem-2", &other).unwrap_err();
    assert_eq!(e.kind, ApiErrorKind::Conflict);
    assert_eq!(e.message, "idempotency_key already exists with different request payload");
    assert_eq!(e.details, vec![("idempotency_key".to_string(), "key-2".to_string()), ("operation".to_string(), "run".to_string())]);
    assert_eq!(check_idempotency("  ", None, "idem-2", &other).unwrap_err().message, "idempotency_key must not be empty");
}

#[test]
fn scheduling_options_need_a_repository() {
    assert!(check_scheduling_options(false, 0, false, false).is_ok());
    assert!(check_scheduling_options(true, 0, false, true).is_ok());
    let e = check_scheduling_options(false, 3, false, false).unwrap_err();
    assert_eq!(e.kind, ApiErrorKind::Internal);
    assert_eq!(e.message, "runtime scheduling options require runtime repository");
    assert_eq!(run_status(0), "completed");
    assert_eq!(run_status(2), "interrupted");
}

#[test]
fn run_answers_its_interrupts_and_a_replay_answers_them_again() {
    let fresh = run_job_response("idem-run-1", Vec::new(), Some("idem-key-1".to_string()), None);
    assert_eq!(fresh.thread_id, "idem-run-1");
    assert_eq!(fresh.status, "completed");
    assert!(fresh.interrupts.is_empty());
    assert_eq!(fresh.idempotency_key.as_deref(), Some("idem-key-1"));
    assert!(!fresh.idempotent_replay);
    let again = replayed_response(fresh);
    assert!(again.idempotent_replay);
    assert_eq!(again.thread_id, "idem-run-1");
    assert_eq!(again.status, "completed");
    assert_eq!(again.idempotency_key.as_deref(), Some("idem-key-1"));

    let raised = vec![serde_json::Value::String("approve?".to_string())];
    let interrupted = run_job_response("t-9", raised.clone(), None, None);
    assert_eq!(interrupted.status, "interrupted");
    assert_eq!(interrupted.interrupts, raised);
    assert_eq!(interrupted.idempotency_key, None);
    assert!(interrupted.trace.is_none());
}

#[test]
fn finished_run_records_job_attempt_and_interrupts() {
    let mut repo = InMemoryRuntimeRepository::new();
    let policy = TimeoutPolicyConfig { timeout_ms: 5_000, on_timeout_status: AttemptExecutionStatus::Failed };
    let attempt_id = record_run(
        &mut repo,
        "run-int-1",
        "interrupted",
        &vec!["\"approve?\"".to_string(), "\"really?\"".to_string()],
        7,
        Some(" tenant-a "),
        &trace(),
        Some(&policy),
        "uuid-1",
        NOW,
    );
    assert_eq!(attempt_id, "attempt-run-int-1-uuid-1");
    let (no, status) = repo.get_attempt_status(&attempt_id).unwrap().expect("attempt");
    assert_eq!((no, status), (1, AttemptExecutionStatus::Queued));
    let ctx = repo.get_attempt_trace_context(&attempt_id).unwrap().expect("trace");
    assert_eq!(ctx.trace_id, "0123456789abcdef0123456789abcdef");
    let jobs = repo.list_runs(10, 0, None).unwrap();
    assert_eq!(jobs, vec![("run-int-1".to_string(), "interrupted".to_string(), NOW)]);
    let first = repo.get_interrupt("int-run-int-1-0").unwrap().expect("first interrupt");
    assert_eq!(first.status, "pending");
    assert_eq!(first.run_id, "run-int-1");
    assert_eq!(first.attempt_id, "attempt-run-int-1-main");
    assert_eq!(first.value_json, "\"approve?\"");
    let second = repo.get_interrupt("int-run-int-1-1").unwrap().expect("second interrupt");
    assert_eq!(second.value_json, "\"really?\"");
    let listed = repo.list_dispatchable_attempts(NOW, 10).unwrap();
    assert_eq!(listed.len(), 1);
}

#[test]
fn recorded_interrupts_are_not_overwritten() {
    let mut repo = InMemoryRuntimeRepository::new();
    record_interrupts(&mut repo, "t", &vec!["1".to_string()], NOW);
    record_interrupts(&mut repo, "t", &vec!["2".to_string(), "3".to_string()], NOW + 1);
    assert_eq!(repo.get_interrupt("int-t-0").unwrap().unwrap().value_json, "1");
    assert_eq!(repo.get_interrupt("int-t-1").unwrap().unwrap().value_json, "3");
    assert_eq!(repo.list_interrupts(None, Some("t"), 10).unwrap().len(), 2);
}

#[test]
fn list_jobs_paginated() {
    let mut repo = InMemoryRuntimeRepository::new();
    repo.upsert_job("list-job-1", "completed", NOW).unwrap();
    repo.upsert_job("list-job-2", "interrupted", NOW + 10).unwrap();
    repo.upsert_job("list-job-3", "completed", NOW + 5).unwrap();
    repo.upsert_job("list-job-1", "completed", NOW + 20).unwrap();
    let page = repo.list_runs(10, 0, None).unwrap();
    let ids: Vec<&str> = page.iter().map(|j| j.0.as_str()).collect();
    assert_eq!(ids, vec!["list-job-1", "list-job-2", "list-job-3"]);
    let second = repo.list_runs(1, 1, None).unwrap();
    assert_eq!(second[0].0, "list-job-2");
    let completed = repo.list_runs(10, 0, Some("completed")).unwrap();
    assert_eq!(completed.iter().map(|j| j.0.as_str()).collect::<Vec<_>>(), vec!["list-job-1", "list-job-3"]);
    assert!(repo.list_runs(10, 5, None).unwrap().is_empty());
    assert!(repo.list_runs(0, 0, None).unwrap().is_empty());
    assert_eq!(repo.list_runs(usize::MAX, usize::MAX, None).unwrap().len(), 0);
}

#[test]
fn list_interrupts_filtered() {
    let mut repo = InMemoryRuntimeRepository::new();
    run_with_interrupt(&mut repo, "int-list-1");
    repo.insert_interrupt("other", "int-list-2", "int-list-2", "a", "null", NOW + 1).unwrap();
    let rows = repo.list_interrupts(Some("pending"), Some("int-list-1"), 50).unwrap();
    assert_eq!(rows.len(), 1);
    assert_eq!(rows[0].interrupt_id, "int-int-list-1-0");
    let all = repo.list_interrupts(None, None, 50).unwrap();
    assert_eq!(all.iter().map(|r| r.interrupt_id.as_str()).collect::<Vec<_>>(), vec!["other", "int-int-list-1-0"]);
    let dup = repo.insert_interrupt("other", "x", "x", "a", "null", NOW).unwrap_err();
    assert_eq!(dup.message(), "driver error: insert interrupt: interrupt already exists: other");
}

#[test]
fn resume_interrupt_success() {
    let mut repo = InMemoryRuntimeRepository::new();
    let cancelled = CancelledThreads::new();
    run_with_interrupt(&mut repo, "resume-int-1");
    let hash = json_hash("true");
    match begin_interrupt_resume(&mut repo, &cancelled, "int-resume-int-1-0", &hash).expect("resume") {
        InterruptResume::Resume { thread_id } => assert_eq!(thread_id, "resume-int-1"),
        other => panic!("expected a resume, got {:?}", other),
    }
    assert_eq!(repo.get_interrupt("int-resume-int-1-0").unwrap().unwrap().status, "resuming");
    record_resume(&mut repo, "resume-int-1", "completed", &Vec::new(), NOW + 5);
    finish_interrupt_resume(&mut repo, "int-resume-int-1-0", &hash, "{\"status\":\"completed\"}").expect("persist");
    let row = repo.get_interrupt("int-resume-int-1-0").unwrap().unwrap();
    assert_eq!(row.status, "resumed");
    assert_eq!(row.resume_payload_hash.as_deref(), Some(hash.as_str()));
    assert_eq!(repo.list_runs(10, 0, None).unwrap()[0].1, "completed");
}

#[test]
fn duplicate_resume_same_payload_returns_same_result() {
    let mut repo = InMemoryRuntimeRepository::new();
    let cancelled = CancelledThreads::new();
    run_with_interrupt(&mut repo, "resume-idem-1");
    let hash = json_hash("true");
    begin_interrupt_resume(&mut repo, &cancelled, "int-resume-idem-1-0", &hash).expect("first resume");
    finish_interrupt_resume(&mut repo, "int-resume-idem-1-0", &hash, "{\"status\":\"completed\"}").expect("persist");
    let again = begin_interrupt_resume(&mut repo, &cancelled, "int-resume-idem-1-0", &hash).expect("second resume");
    assert_eq!(again, InterruptResume::Stored("{\"status\":\"completed\"}".to_string()));
}

#[test]
fn duplicate_resume_different_payload_conflicts() {
    let mut repo = InMemoryRuntimeRepository::new();
    let cancelled = CancelledThreads::new();
    run_with_interrupt(&mut repo, "resume-idem-2");
    let first = json_hash("true");
    begin_interrupt_resume(&mut repo, &cancelled, "int-resume-idem-2-0", &first).expect("first resume");
    finish_interrupt_resume(&mut repo, "int-resume-idem-2-0", &first, "{}").expect("persist");
    let e = begin_interrupt_resume(&mut repo, &cancelled, "int-resume-idem-2-0", &json_hash("false")).unwrap_err();
    assert_eq!(e.kind, ApiErrorKind::Conflict);
    assert_eq!(e.message, "interrupt already resumed with different payload");
    let e = finish_interrupt_resume(&mut repo, "int-resume-idem-2-0", &json_hash("false"), "{}").unwrap_err();
    assert_eq!(e.kind, ApiErrorKind::Conflict);
    let e = finish_interrupt_resume(&mut repo, "missing", &first, "{}").unwrap_err();
    assert_eq!(e.kind, ApiErrorKind::Internal);
    assert_eq!(e.message, "driver error: interrupt not found: missing");
}

#[test]
fn reject_interrupt_cancels_its_thread() {
    let mut repo = InMemoryRuntimeRepository::new();
    let mut cancelled = CancelledThreads::new();
    run_with_interrupt(&mut repo, "reject-int-1");
    let thread = reject_interrupt(&mut repo, &mut cancelled, "int-reject-int-1-0", NOW + 1).expect("reject");
    assert_eq!(thread, "reject-int-1");
    assert!(cancelled.contains("reject-int-1"));
    assert_eq!(repo.get_interrupt("int-reject-int-1-0").unwrap().unwrap().status, "rejected");
    assert_eq!(repo.list_runs(10, 0, Some("cancelled")).unwrap()[0].0, "reject-int-1");
    let again = reject_interrupt(&mut repo, &mut cancelled, "int-reject-int-1-0", NOW + 2).unwrap_err();
    assert_eq!(again.message, "interrupt already rejected");
    let missing = reject_interrupt(&mut repo, &mut cancelled, "nope", NOW).unwrap_err();
    assert_eq!(missing.kind, ApiErrorKind::NotFound);
    let resume = begin_interrupt_resume(&mut repo, &cancelled, "int-reject-int-1-0", "h").unwrap_err();
    assert_eq!(resume.message, "interrupt already rejected");
}

#[test]
fn resume_of_a_cancelled_thread_conflicts() {
    let mut repo = InMemoryRuntimeRepository::new();
    let mut cancelled = CancelledThreads::new();
    run_with_interrupt(&mut repo, "t-c");
    cancel_job(&mut cancelled, "t-c").unwrap();
    let e = begin_interrupt_resume(&mut repo, &cancelled, "int-t-c-0", "h").unwrap_err();
    assert_eq!(e.message, "thread 't-c' is cancelled");
    assert_eq!(repo.get_interrupt("int-t-c-0").unwrap().unwrap().status, "pending");
}

#[test]
fn resume_marks_pending_interrupts_and_records_new_ones() {
    let mut repo = InMemoryRuntimeRepository::new();
    run_with_interrupt(&mut repo, "t-r");
    repo.insert_interrupt("int-t-r-5", "t-r", "t-r", "a", "x", NOW).unwrap();
    record_resume(&mut repo, "t-r", "interrupted", &vec!["\"next\"".to_string(), "\"more\"".to_string()], NOW + 9);
    assert_eq!(repo.get_interrupt("int-t-r-0").unwrap().unwrap().status, "resumed");
    assert_eq!(repo.get_interrupt("int-t-r-5").unwrap().unwrap().status, "resumed");
    // `int-t-r-0` exists already, so only the second new interrupt is recorded
    assert_eq!(repo.get_interrupt("int-t-r-0").unwrap().unwrap().value_json, "{\"ask\":\"approve\"}");
    let new = repo.get_interrupt("int-t-r-1").unwrap().unwrap();
    assert_eq!((new.status.as_str(), new.value_json.as_str()), ("pending", "\"more\""));
}

#[test]
fn replay_guard_dedupes_duplicate_replays() {
    let mut repo = InMemoryRuntimeRepository::new();
    let target = replay_target(None, Some("{\"messages\":[]}")).expect("target");
    assert!(target.starts_with("latest_state:"));
    assert_eq!(target.len(), "latest_state:".len() + 64);
    assert_eq!(replay_target(Some("cp-1"), Some("{}")), Some("checkpoint:cp-1".to_string()));
    assert_eq!(replay_target(None, None), None);

    assert_eq!(begin_replay(&mut repo, "replay-guard-1", None, NOW).unwrap(), ReplayGuard::Unguarded);
    let fp = match begin_replay(&mut repo, "replay-guard-1", Some(&target), NOW).unwrap() {
        ReplayGuard::Claimed(fp) => fp,
        other => panic!("expected a claim, got {:?}", other),
    };
    assert_eq!(fp, replay_effect_fingerprint("replay-guard-1", &target));
    assert_eq!(fp, json_hash(&format!("replay-guard-1|{}|job_replay_effect", target)));
    let busy = begin_replay(&mut repo, "replay-guard-1", Some(&target), NOW + 1).unwrap_err();
    assert_eq!(busy.kind, ApiErrorKind::Conflict);
    assert_eq!(busy.message, "replay already in progress for this target");
    repo.complete_replay_effect(&fp, "{\"status\":\"completed\"}", NOW + 2).unwrap();
    assert_eq!(
        begin_replay(&mut repo, "replay-guard-1", Some(&target), NOW + 3).unwrap(),
        ReplayGuard::Stored("{\"status\":\"completed\"}".to_string())
    );
}

#[test]
fn timelines_and_history_of_jobs() {
    let history = vec![(Some("cp-1".to_string()), "t1".to_string()), (None, "t2".to_string())];
    let timeline = timeline_of("job", &history).unwrap();
    assert_eq!(timeline.len(), 2);
    assert_eq!((timeline[1].seq, timeline[1].event_type.as_str()), (2, "checkpoint_saved"));
    assert_eq!(timeline[0].checkpoint_id.as_deref(), Some("cp-1"));
    let items = history_items(&history);
    assert_eq!(items[1].created_at, "t2");
    let e = timeline_of("job-x", &Vec::new()).unwrap_err();
    assert_eq!((e.kind, e.message.as_str()), (ApiErrorKind::NotFound, "No timeline found for thread: job-x"));
    assert_eq!(validate_checkpoint_id(" ").unwrap_err().message, "checkpoint_id must not be empty");
}

#[test]
fn graph_errors_are_classified() {
    let e = graph_read_error("No state found for thread t", "inspect failed: ", false);
    assert_eq!((e.kind, e.message.as_str()), (ApiErrorKind::NotFound, "No state found for thread t"));
    let e = graph_read_error("Checkpoint not found: c", "inspect checkpoint failed: ", true);
    assert_eq!(e.kind, ApiErrorKind::NotFound);
    let e = graph_read_error("Checkpoint not found: c", "inspect failed: ", false);
    assert_eq!((e.kind, e.message.as_str()), (ApiErrorKind::Internal, "inspect failed: Checkpoint not found: c"));
}

#[test]
fn audit_logs_api_rejects_invalid_time_range() {
    let e = check_audit_window(Some(10), Some(5)).unwrap_err();
    assert_eq!((e.kind, e.message.as_str()), (ApiErrorKind::BadRequest, "from_ms must be less than or equal to to_ms"));
    assert!(check_audit_window(Some(5), Some(5)).is_ok());
    assert!(check_audit_window(None, Some(5)).is_ok());
}

#[test]
fn audit_logs_are_listed_newest_first_with_filters() {
    let mut repo = InMemoryRuntimeRepository::new();
    let ctx = AuthContext { actor_type: "api_key".to_string(), actor_id: Some("ops".to_string()), role: ApiRole::Operator };
    let run = parse_audit_target(HttpMethod::Post, "/v1/jobs/run").unwrap();
    let cancel = parse_audit_target(HttpMethod::Post, "/v1/jobs/t/cancel").unwrap();
    repo.append_audit_log(&audit_entry(Some(&ctx), &run, "rid-1", 200, None), NOW).unwrap();
    repo.append_audit_log(&audit_entry(None, &cancel, "rid-2", 403, Some("{}".to_string())), NOW + 10).unwrap();
    repo.append_audit_log(&audit_entry(Some(&ctx), &run, "rid-3", 500, None), NOW + 20).unwrap();
    let all = repo.list_audit_logs(10).unwrap();
    assert_eq!(all.iter().map(|r| r.audit_id).collect::<Vec<_>>(), vec![3, 2, 1]);
    assert_eq!(all[1].actor_type, "anonymous");
    assert_eq!(all[1].result, "error");
    assert_eq!(all[2].actor_role.as_deref(), Some("operator"));
    assert_eq!(all[2].result, "success");
    let runs = repo.list_audit_logs_filtered(None, Some("job.run"), None, None, 10).unwrap();
    assert_eq!(runs.len(), 2);
    let windowed = repo.list_audit_logs_filtered(None, None, Some(NOW + 5), Some(NOW + 15), 10).unwrap();
    assert_eq!(windowed.iter().map(|r| r.request_id.as_str()).collect::<Vec<_>>(), vec!["rid-2"]);
    let by_request = repo.list_audit_logs_filtered(Some("rid-1"), None, None, None, 10).unwrap();
    assert_eq!(by_request[0].audit_id, 1);
    assert_eq!(repo.list_audit_logs(1).unwrap()[0].audit_id, 3);
}

#[test]
fn dead_letters_are_listed_newest_first() {
    let mut repo = InMemoryRuntimeRepository::new();
    assert!(repo.list_dead_letters(None, 10).unwrap().is_empty());
    assert_eq!(dead_letter_replay_error("dead letter not found: a").kind, ApiErrorKind::NotFound);
    assert_eq!(dead_letter_replay_error("dead letter already replayed: a").kind, ApiErrorKind::Conflict);
    assert_eq!(dead_letter_replay_error("disk full").kind, ApiErrorKind::Internal);
}

fn keyed_repo(active: bool) -> InMemoryRuntimeRepository {
    let mut repo = InMemoryRuntimeRepository::new();
    repo.upsert_api_key_record("db-key-1", &ExecutionApiAuthConfig::secret_hash("db-secret-1"), active, "worker", NOW).unwrap();
    repo
}

#[test]
fn auth_sqlite_api_key_record_allows_access() {
    let repo = keyed_repo(true);
    let auth = ExecutionApiAuthConfig::default();
    match check_access(&auth, Some(&repo), None, Some("db-secret-1"), Some("db-key-1"), HttpMethod::Post, "/v1/workers/poll") {
        AccessDecision::Allowed(ctx) => {
            assert_eq!(ctx.role, ApiRole::Worker);
            assert_eq!(ctx.actor_id.as_deref(), Some("db-key-1"));
        }
        other => panic!("expected access, got {:?}", other),
    }
    let ctx = authenticate_repository_key(&repo, Some("db-key-1"), Some("db-secret-1")).unwrap();
    assert_eq!(ctx.actor_type, "api_key");
}

#[test]
fn auth_sqlite_disabled_api_key_is_rejected() {
    let mut repo = keyed_repo(true);
    repo.set_api_key_status("db-key-1", false, NOW + 1).unwrap();
    assert!(!repo.get_api_key_record("db-key-1").unwrap().unwrap().active);
    let auth = ExecutionApiAuthConfig::default();
    match check_access(&auth, Some(&repo), None, Some("db-secret-1"), Some("db-key-1"), HttpMethod::Post, "/v1/jobs/run") {
        AccessDecision::Denied(e) => {
            assert_eq!(e.kind, ApiErrorKind::Unauthorized);
            assert_eq!(e.status_code(), 401);
            assert_eq!(e.details, vec![("supported_auth".to_string(), "sqlite:x-api-key-id+x-api-key".to_string())]);
        }
        other => panic!("expected a refusal, got {:?}", other),
    }
    assert_eq!(repo.set_api_key_status("nope", true, NOW).unwrap_err().message(), "driver error: api key not found: nope");
}

#[test]
fn unknown_repository_roles_count_as_operator() {
    let mut repo = InMemoryRuntimeRepository::new();
    repo.upsert_api_key_record("k", &ExecutionApiAuthConfig::secret_hash("s"), true, "superuser", NOW).unwrap();
    assert!(repo.has_any_api_keys().unwrap());
    let ctx = resolve_auth_context(&ExecutionApiAuthConfig::default(), Some(&repo), None, Some("s"), Some("k")).unwrap();
    assert_eq!(ctx.role, ApiRole::Operator);
}

#[test]
fn auth_is_open_without_credentials_configured() {
    let repo = InMemoryRuntimeRepository::new();
    let auth = ExecutionApiAuthConfig::default();
    assert!(matches!(check_access(&auth, Some(&repo), None, None, None, HttpMethod::Post, "/v1/jobs/run"), AccessDecision::Open));
    assert!(matches!(check_access(&auth, None, None, None, None, HttpMethod::Get, "/v1/jobs"), AccessDecision::Open));
}

#[test]
fn security_auth_bypass_with_mixed_invalid_credentials_is_rejected() {
    let mut auth = ExecutionApiAuthConfig::default();
    auth.set_keyed_api_key("sec-key-1".to_string(), "sec-secret-1".to_string(), true, ApiRole::Operator);
    let decision = check_access(
        &auth,
        None,
        Some("definitely-wrong"),
        Some("wrong-secret"),
        Some("sec-key-1"),
        HttpMethod::Post,
        "/v1/jobs/run",
    );
    match decision {
        AccessDecision::Denied(e) => {
            assert_eq!(e.kind, ApiErrorKind::Unauthorized);
            assert_eq!(e.message, "missing or invalid credentials");
        }
        other => panic!("expected a refusal, got {:?}", other),
    }
}

#[test]
fn auth_worker_role_cannot_run_jobs() {
    let mut auth = ExecutionApiAuthConfig::default();
    auth.set_keyed_api_key("worker-key".to_string(), "worker-secret".to_string(), true, ApiRole::Worker);
    match check_access(&auth, None, None, Some("worker-secret"), Some("worker-key"), HttpMethod::Post, "/v1/jobs/run") {
        AccessDecision::Denied(e) => {
            assert_eq!(e.kind, ApiErrorKind::Forbidden);
            assert_eq!(e.status_code(), 403);
            assert_eq!(
                e.details,
                vec![
                    ("role".to_string(), "worker".to_string()),
                    ("method".to_string(), "POST".to_string()),
                    ("path".to_string(), "/v1/jobs/run".to_string()),
                ]
            );
        }
        other => panic!("expected a refusal, got {:?}", other),
    }
    assert_eq!(method_name(HttpMethod::Delete), "DELETE");
}
