use oris_runtime::runtime::api::auth::{
    api_key_from_header, authenticate_static, bearer_token_from_header, normalize_text, role_can_access,
    supported_auth_methods, ApiRole, ExecutionApiAuthConfig, HttpMethod,
};
use oris_runtime::runtime::api::errors::{ApiError, ApiErrorKind};
use oris_runtime::runtime::api::models::{dead_letter_limit, listing_limit, ApiMeta};
use oris_runtime::runtime::api::trace::{
    format_traceparent, is_hex_id, normalize_request_id, parse_traceparent, to_ascii_lowercase, TraceContextState,
};
use oris_runtime::runtime::api::validate::{
    ack_response_status, audit_result, parse_audit_target, parse_priority, parse_retry_policy, parse_tenant_id,
    parse_terminal_status, parse_timeout_policy, report_response_status, validate_step_report, validate_thread_id,
    validate_worker_id, RetryPolicyInput,
};
use oris_runtime::runtime::attempt::{AttemptExecutionStatus, RetryStrategy};
use oris_runtime::runtime::models::StepReportWriteResult;

const SHA_ABC: &str = "ba7816bf8f01cfea414140de5dae2223b00361a396177a9cb410ff61f20015ad";
const SHA_EMPTY: &str = "e3b0c44298fc1c149afbf4c8996fb92427ae41e4649b934ca495991b7852b855";

fn bad_request_message<T: std::fmt::Debug>(r: Result<T, ApiError>) -> String {
    let e = r.expect_err("expected a bad request");
    assert_eq!(e.kind, ApiErrorKind::BadRequest);
    assert_eq!(e.status_code(), 400);
    if let Some(rid) = e.request_id.as_deref() {
        assert_eq!(rid, "r1");
    }
    e.message
}

#[test]
fn role_names_round_trip() {
    for role in [ApiRole::Admin, ApiRole::Operator, ApiRole::Worker] {
        assert_eq!(ApiRole::from_str(role.as_str()), Some(role));
    }
    assert_eq!(ApiRole::Operator.as_str(), "operator");
    assert_eq!(ApiRole::from_str("  WoRkEr "), Some(ApiRole::Worker));
    assert_eq!(ApiRole::from_str("root"), None);
    assert_eq!(ApiRole::default(), ApiRole::Admin);
}

#[test]
fn secrets_are_kept_as_sha256_hex() {
    assert_eq!(ExecutionApiAuthConfig::secret_hash("abc"), SHA_ABC);
    assert_eq!(ExecutionApiAuthConfig::secret_hash(""), SHA_EMPTY);
    assert_eq!(ExecutionApiAuthConfig::normalize_hashed_secret(Some("  abc ".to_string())), Some(SHA_ABC.to_string()));
    assert_eq!(ExecutionApiAuthConfig::normalize_hashed_secret(Some("   ".to_string())), None);
    assert_eq!(ExecutionApiAuthConfig::normalize_key_id(Some(" key-1 ".to_string())), Some("key-1".to_string()));
    assert_eq!(normalize_text(Some("\t x \n")), Some("x".to_string()));
    assert_eq!(normalize_text(None), None);
}

#[test]
fn auth_config_from_optional_credentials() {
    let auth = ExecutionApiAuthConfig::from_optional(Some(" token-1 ".to_string()), Some("abc".to_string()));
    assert_eq!(auth.bearer_token.as_deref(), Some("token-1"));
    assert_eq!(auth.api_key_hash.as_deref(), Some(SHA_ABC));
    assert_eq!(auth.bearer_role, ApiRole::Admin);
    assert!(auth.is_enabled());
    assert!(!ExecutionApiAuthConfig::default().is_enabled());
    let none = ExecutionApiAuthConfig::from_optional(Some("  ".to_string()), None);
    assert!(!none.is_enabled());
}

#[test]
fn credential_headers_are_trimmed() {
    assert_eq!(bearer_token_from_header(Some("Bearer  secret-token ")), Some("secret-token".to_string()));
    assert_eq!(bearer_token_from_header(Some("Basic abc")), None);
    assert_eq!(bearer_token_from_header(Some("Bearer    ")), None);
    assert_eq!(bearer_token_from_header(None), None);
    assert_eq!(api_key_from_header(Some(" key ")), Some("key".to_string()));
    assert_eq!(api_key_from_header(Some("  ")), None);
}

#[test]
fn static_authentication_tries_bearer_then_api_key_then_named_key() {
    let mut auth = ExecutionApiAuthConfig::from_optional(Some("token-1".to_string()), Some("shared-key".to_string()));
    auth.set_keyed_api_key("ops-key".to_string(), "ops-secret".to_string(), true, ApiRole::Operator);
    auth.set_keyed_api_key("old-key".to_string(), "old-secret".to_string(), false, ApiRole::Admin);

    let by_bearer = authenticate_static(Some("token-1"), Some("shared-key"), None, &auth).expect("bearer");
    assert_eq!(by_bearer.actor_type, "bearer");
    assert_eq!(by_bearer.actor_id, None);

    let by_key = authenticate_static(Some("wrong"), Some("shared-key"), None, &auth).expect("api key");
    assert_eq!(by_key.actor_type, "api_key");
    assert_eq!(by_key.role, ApiRole::Admin);

    let named = authenticate_static(None, Some("ops-secret"), Some("ops-key"), &auth).expect("named key");
    assert_eq!(named.actor_type, "api_key");
    assert_eq!(named.actor_id.as_deref(), Some("ops-key"));
    assert_eq!(named.role, ApiRole::Operator);

    assert!(authenticate_static(None, Some("old-secret"), Some("old-key"), &auth).is_none());
    assert!(authenticate_static(None, Some("wrong"), Some("ops-key"), &auth).is_none());
    assert!(authenticate_static(None, None, None, &auth).is_none());
}

#[test]
fn named_keys_are_replaced_by_id() {
    let mut auth = ExecutionApiAuthConfig::default();
    auth.set_keyed_api_key(" k1 ".to_string(), "first".to_string(), true, ApiRole::Worker);
    auth.set_keyed_api_key("k1".to_string(), "second".to_string(), true, ApiRole::Admin);
    auth.set_keyed_api_key("".to_string(), "ignored".to_string(), true, ApiRole::Admin);
    assert_eq!(auth.keyed_api_keys.len(), 1);
    assert!(authenticate_static(None, Some("first"), Some("k1"), &auth).is_none());
    let ctx = authenticate_static(None, Some("second"), Some("k1"), &auth).expect("replaced key");
    assert_eq!(ctx.role, ApiRole::Admin);
    assert_eq!(supported_auth_methods(&auth, false), vec!["x-api-key-id+x-api-key"]);
}

#[test]
fn supported_auth_methods_follow_configuration() {
    let auth = ExecutionApiAuthConfig::from_optional(Some("t".to_string()), Some("k".to_string()));
    assert_eq!(supported_auth_methods(&auth, true), vec!["bearer", "x-api-key", "sqlite:x-api-key-id+x-api-key"]);
    assert!(supported_auth_methods(&ExecutionApiAuthConfig::default(), false).is_empty());
}

#[test]
fn roles_reach_their_endpoints_only() {
    assert!(!role_can_access(&ApiRole::Worker, HttpMethod::Post, "/v1/jobs/run"));
    assert!(role_can_access(&ApiRole::Worker, HttpMethod::Post, "/v1/workers/poll"));
    assert!(!role_can_access(&ApiRole::Worker, HttpMethod::Get, "/v1/workers/poll"));
    assert!(!role_can_access(&ApiRole::Operator, HttpMethod::Post, "/v1/workers/poll"));
    assert!(role_can_access(&ApiRole::Operator, HttpMethod::Post, "/v1/jobs/run"));
    assert!(role_can_access(&ApiRole::Operator, HttpMethod::Get, "/v1/audit/logs"));
    assert!(!role_can_access(&ApiRole::Operator, HttpMethod::Post, "/v1/audit/logs"));
    assert!(role_can_access(&ApiRole::Operator, HttpMethod::Get, "/v1/attempts/a/retries"));
    assert!(role_can_access(&ApiRole::Operator, HttpMethod::Post, "/v1/dlq/a/replay"));
    assert!(!role_can_access(&ApiRole::Worker, HttpMethod::Get, "/v1/dlq"));
    assert!(!role_can_access(&ApiRole::Worker, HttpMethod::Get, "/v1/attempts/a/retries"));
    assert!(role_can_access(&ApiRole::Admin, HttpMethod::Post, "/v1/workers/poll"));
    assert!(role_can_access(&ApiRole::Admin, HttpMethod::Delete, "/anything"));
}

#[test]
fn request_ids_are_checked() {
    assert_eq!(normalize_request_id("  req-1:a_b.c "), Some("req-1:a_b.c".to_string()));
    assert_eq!(normalize_request_id("has space"), None);
    assert_eq!(normalize_request_id("   "), None);
    assert_eq!(normalize_request_id("ünï"), None);
    let longest = "a".repeat(128);
    assert_eq!(normalize_request_id(&longest), Some(longest.clone()));
    assert_eq!(normalize_request_id(&"a".repeat(129)), None);
}

#[test]
fn traceparent_is_parsed_and_lowercased() {
    let (trace, span, flags) =
        parse_traceparent(" 00-0123456789ABCDEF0123456789abcdef-0123456789ABCDEF-0A ").expect("valid traceparent");
    assert_eq!(trace, "0123456789abcdef0123456789abcdef");
    assert_eq!(span, "0123456789abcdef");
    assert_eq!(flags, "0a");
    assert_eq!(format_traceparent(&trace, &span, &flags), "00-0123456789abcdef0123456789abcdef-0123456789abcdef-0a");
}

#[test]
fn malformed_traceparent_is_a_bad_request() {
    let expected = "traceparent must use format 00-<32 hex trace_id>-<16 hex span_id>-<2 hex flags>";
    for raw in [
        "01-0123456789abcdef0123456789abcdef-0123456789abcdef-01",
        "00-00000000000000000000000000000000-0123456789abcdef-01",
        "00-0123456789abcdef0123456789abcdef-0000000000000000-01",
        "00-0123456789abcdef0123456789abcdeg-0123456789abcdef-01",
        "00-0123456789abcdef0123456789abcdef-0123456789abcdef",
        "00-0123456789abcdef0123456789abcdef-0123456789abcdef-01-extra",
        "",
    ] {
        assert_eq!(bad_request_message(parse_traceparent(raw)), expected, "input {:?}", raw);
    }
}

#[test]
fn hex_ids_and_lowercasing() {
    assert!(is_hex_id("0aF9", 4));
    assert!(!is_hex_id("0aF9", 3));
    assert!(!is_hex_id("0aG9", 4));
    assert_eq!(to_ascii_lowercase("AbC-É"), "abc-É");
}

#[test]
fn trace_context_keeps_caller_trace_and_renders_traceparent() {
    let parsed = Some(("a".repeat(32), "b".repeat(16), "01".to_string()));
    let ctx = TraceContextState::new_from_parts(parsed);
    assert_eq!(ctx.trace_id, "a".repeat(32));
    assert_eq!(ctx.parent_span_id.as_deref(), Some("b".repeat(16).as_str()));
    assert_eq!(ctx.span_id.len(), 16);
    assert_ne!(ctx.span_id, "b".repeat(16));
    let resp = ctx.to_response();
    assert_eq!(resp.traceparent, format!("00-{}-{}-01", "a".repeat(32), ctx.span_id));

    let fresh = TraceContextState::new_from_parts(None);
    assert_eq!(fresh.trace_id.len(), 32);
    assert!(fresh.trace_id.chars().all(|c| c.is_ascii_hexdigit() && !c.is_ascii_uppercase()));
    assert_eq!(fresh.parent_span_id, None);
    assert_eq!(fresh.trace_flags, "01");
}

#[test]
fn ids_and_priority_are_validated() {
    assert_eq!(bad_request_message(validate_thread_id("  ")), "thread_id must not be empty");
    assert!(validate_thread_id("t-1").is_ok());
    assert_eq!(bad_request_message(validate_worker_id("")), "worker_id must not be empty");
    assert_eq!(parse_priority(None, "r1").unwrap(), 0);
    assert_eq!(parse_priority(Some(100), "r1").unwrap(), 100);
    assert_eq!(bad_request_message(parse_priority(Some(101), "r1")), "priority must be between 0 and 100");
    assert_eq!(bad_request_message(parse_priority(Some(-1), "r1")), "priority must be between 0 and 100");
}

#[test]
fn tenant_ids_are_validated() {
    assert_eq!(parse_tenant_id(None, "r1").unwrap(), None);
    assert_eq!(parse_tenant_id(Some("   "), "r1").unwrap(), None);
    assert_eq!(parse_tenant_id(Some(" tenant-a.1:x_y "), "r1").unwrap(), Some("tenant-a.1:x_y".to_string()));
    assert_eq!(bad_request_message(parse_tenant_id(Some("bad tenant"), "r1")), "tenant_id contains unsupported characters");
    assert_eq!(
        bad_request_message(parse_tenant_id(Some(&"t".repeat(129)), "r1")),
        "tenant_id must be 128 characters or fewer"
    );
    assert!(parse_tenant_id(Some(&"t".repeat(128)), "r1").is_ok());
}

#[test]
fn timeout_policies_are_validated() {
    assert_eq!(parse_timeout_policy(None, "failed", "r1").unwrap(), None);
    let p = parse_timeout_policy(Some(1000), " Cancelled ", "r1").unwrap().expect("policy");
    assert_eq!(p.timeout_ms, 1000);
    assert_eq!(p.on_timeout_status, AttemptExecutionStatus::Cancelled);
    let zero = parse_timeout_policy(Some(0), "failed", "r1").unwrap_err();
    assert_eq!(zero.kind, ApiErrorKind::BadRequest);
    assert_eq!(zero.message, "timeout_policy.timeout_ms must be > 0");
    assert_eq!(zero.request_id.as_deref(), Some("r1"));
    let status = parse_timeout_policy(Some(1000), "completed", "r1").unwrap_err();
    assert_eq!(status.kind, ApiErrorKind::BadRequest);
    assert_eq!(status.message, "timeout_policy.on_timeout_status must be one of: failed|cancelled");
    assert_eq!(status.request_id.as_deref(), Some("r1"));
}

fn retry_input(strategy: &str, backoff_ms: i64, max_backoff_ms: Option<i64>, multiplier: f64) -> RetryPolicyInput {
    RetryPolicyInput {
        strategy: strategy.to_string(),
        backoff_ms,
        max_backoff_ms,
        multiplier_bits: multiplier.to_bits(),
        multiplier_above_one: multiplier > 1.0,
        max_retries: 3,
    }
}

#[test]
fn retry_policies_are_validated_in_order() {
    assert_eq!(parse_retry_policy(None, "r1").unwrap(), None);
    let ok = parse_retry_policy(Some(&retry_input("exponential", 100, Some(1000), 2.0)), "r1").unwrap().expect("policy");
    assert_eq!(ok.strategy, RetryStrategy::Exponential);
    assert_eq!(ok.multiplier_bits, Some(2.0f64.to_bits()));
    assert_eq!(ok.max_backoff_ms, Some(1000));
    let fixed = parse_retry_policy(Some(&retry_input("fixed", 100, None, 0.5)), "r1").unwrap().expect("policy");
    assert_eq!(fixed.multiplier_bits, None);
    assert_eq!(
        bad_request_message(parse_retry_policy(Some(&retry_input("linear", 0, None, 2.0)), "r1")),
        "retry_policy.backoff_ms must be > 0"
    );
    assert_eq!(
        bad_request_message(parse_retry_policy(Some(&retry_input("linear", 10, None, 2.0)), "r1")),
        "retry_policy.strategy must be one of: fixed|exponential"
    );
    assert_eq!(
        bad_request_message(parse_retry_policy(Some(&retry_input("fixed", 10, Some(0), 2.0)), "r1")),
        "retry_policy.max_backoff_ms must be > 0"
    );
    assert_eq!(
        bad_request_message(parse_retry_policy(Some(&retry_input("fixed", 10, Some(5), 2.0)), "r1")),
        "retry_policy.max_backoff_ms must be >= retry_policy.backoff_ms"
    );
    assert_eq!(
        bad_request_message(parse_retry_policy(Some(&retry_input("exponential", 10, None, 1.0)), "r1")),
        "retry_policy.multiplier must be > 1.0 for exponential backoff"
    );
}

#[test]
fn terminal_statuses_and_answers() {
    assert_eq!(parse_terminal_status("failed").unwrap(), AttemptExecutionStatus::Failed);
    assert_eq!(
        bad_request_message(parse_terminal_status("queued")),
        "terminal_status must be one of: completed|failed|cancelled"
    );
    assert_eq!(ack_response_status(AttemptExecutionStatus::RetryBackoff), "retry_scheduled");
    assert_eq!(ack_response_status(AttemptExecutionStatus::Completed), "completed");
    assert_eq!(report_response_status(StepReportWriteResult::Inserted), "reported");
    assert_eq!(report_response_status(StepReportWriteResult::Duplicate), "reported_idempotent");
}

#[test]
fn step_reports_are_validated_field_by_field() {
    assert!(validate_step_report("a", "b", "c", "d").is_ok());
    assert_eq!(bad_request_message(validate_step_report(" ", "b", "c", "d")), "attempt_id must not be empty");
    assert_eq!(bad_request_message(validate_step_report("a", "", "c", "d")), "action_id must not be empty");
    assert_eq!(bad_request_message(validate_step_report("a", "b", " ", "d")), "status must not be empty");
    assert_eq!(bad_request_message(validate_step_report("a", "b", "c", "")), "dedupe_token must not be empty");
}

#[test]
fn audit_targets_of_control_plane_posts() {
    let t = parse_audit_target(HttpMethod::Post, "/v1/jobs/run").expect("run");
    assert_eq!((t.action, t.resource_type, t.resource_id), ("job.run", "thread", None));
    let t = parse_audit_target(HttpMethod::Post, "/v1/jobs/t-1/resume").expect("resume");
    assert_eq!((t.action, t.resource_id.as_deref()), ("job.resume", Some("t-1")));
    let t = parse_audit_target(HttpMethod::Post, "//v1//interrupts/i-1/reject/").expect("reject");
    assert_eq!((t.action, t.resource_type, t.resource_id.as_deref()), ("interrupt.reject", "interrupt", Some("i-1")));
    let t = parse_audit_target(HttpMethod::Post, "/v1/dlq/a-1/replay").expect("dlq");
    assert_eq!((t.action, t.resource_type), ("dlq.replay", "attempt"));
    assert!(parse_audit_target(HttpMethod::Get, "/v1/jobs/run").is_none());
    assert!(parse_audit_target(HttpMethod::Post, "/v1/workers/poll").is_none());
    assert!(parse_audit_target(HttpMethod::Post, "/v2/jobs").is_none());
    assert_eq!(audit_result(200), "success");
    assert_eq!(audit_result(403), "error");
    assert_eq!(audit_result(299), "success");
}

#[test]
fn api_errors_carry_status_request_id_and_details() {
    let e = ApiError::conflict("busy").with_request_id("rid-1").with_detail("k", "v");
    assert_eq!(e.status_code(), 409);
    assert_eq!(e.request_id.as_deref(), Some("rid-1"));
    assert_eq!(e.details, vec![("k".to_string(), "v".to_string())]);
    assert_eq!(ApiError::not_found("x").status_code(), 404);
    assert_eq!(ApiError::internal("x").status_code(), 500);
    assert_eq!(ApiError::new(ApiErrorKind::Unauthorized, "x").status_code(), 401);
    assert_eq!(ApiError::new(ApiErrorKind::Forbidden, "x").status_code(), 403);
    assert_eq!(ApiMeta::ok().status, "ok");
}

#[test]
fn api_error_codes_name_their_kind() {
    let empty_thread = validate_thread_id("").unwrap_err().with_request_id("req-123");
    assert_eq!(empty_thread.code(), "invalid_argument");
    assert_eq!(empty_thread.status_code(), 400);
    assert_eq!(empty_thread.request_id.as_deref(), Some("req-123"));
    assert_eq!(ApiError::new(ApiErrorKind::Unauthorized, "x").code(), "unauthorized");
    assert_eq!(ApiError::conflict("x").code(), "conflict");
    assert_eq!(ApiError::not_found("x").code(), "not_found");
}

#[test]
fn listing_limits_are_clamped() {
    assert_eq!(listing_limit(None), 50);
    assert_eq!(listing_limit(Some(500)), 200);
    assert_eq!(listing_limit(Some(7)), 7);
    assert_eq!(dead_letter_limit(None), 100);
    assert_eq!(dead_letter_limit(Some(0)), 1);
    assert_eq!(dead_letter_limit(Some(900)), 500);
}
