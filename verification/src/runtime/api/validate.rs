//! Checks of request fields, and the names the API answers with.
use crate::runtime::api::auth::{opt_str, HttpMethod};
use crate::runtime::api::errors::{api_error_for, api_error_is, ApiError, ApiErrorKind};

use crate::runtime::attempt::{status_name, AttemptExecutionStatus, RetryStrategy, TimeoutPolicyConfig, strategy_from_name};
use crate::runtime::models::StepReportWriteResult;
use crate::runtime::retry::RetryPolicyConfig;
use crate::runtime::store::attempts::opt_view;
use crate::text::{all_token_chars, is_token_char, lower_eq, lower_seq, split_char, split_on, str_eq, trim, trimmed};
use vstd::prelude::*;
use vstd::utf8::encode_utf8;

verus! {

/// Rejects an id that is empty once trimmed, with message `<field> must not be empty`.
pub fn require_non_empty(value: &str, message: &str) -> (r: Result<(), ApiError>)
    ensures
        trimmed(value@).len() > 0 ==> r is Ok,
        trimmed(value@).len() == 0 ==> api_error_is(r, ApiErrorKind::BadRequest, message@),
{
    if trim(value).unicode_len() == 0 {
        return Err(ApiError::bad_request(message));
    }
    Ok(())
}

/// A thread id must not be blank.
pub fn validate_thread_id(thread_id: &str) -> (r: Result<(), ApiError>)
    ensures
        trimmed(thread_id@).len() > 0 ==> r is Ok,
        trimmed(thread_id@).len() == 0 ==> api_error_is(r, ApiErrorKind::BadRequest, "thread_id must not be empty"@),
{
    require_non_empty(thread_id, "thread_id must not be empty")
}

/// A worker id must not be blank.
pub fn validate_worker_id(worker_id: &str) -> (r: Result<(), ApiError>)
    ensures
        trimmed(worker_id@).len() > 0 ==> r is Ok,
        trimmed(worker_id@).len() == 0 ==> api_error_is(r, ApiErrorKind::BadRequest, "worker_id must not be empty"@),
{
    require_non_empty(worker_id, "worker_id must not be empty")
}

/// A priority for request `rid`: 0 by default, else between 0 and 100; an error answers `rid`.
pub fn parse_priority(priority: Option<i32>, rid: &str) -> (r: Result<i32, ApiError>)
    ensures
        ({
            let p = match priority {
                Some(p) => p,
                None => 0,
            };
            &&& 0 <= p <= 100 ==> r == Ok::<i32, ApiError>(p)
            &&& !(0 <= p <= 100) ==> api_error_for(r, ApiErrorKind::BadRequest, "priority must be between 0 and 100"@, rid@)
        }),
{
    let p = match priority {
        Some(p) => p,
        None => 0,
    };
    if p < 0 || p > 100 {
        return Err(ApiError::bad_request("priority must be between 0 and 100").with_request_id(rid));
    }
    Ok(p)
}

/// Outcome of checking a tenant id: trimmed; none when absent or blank; at most 128 bytes;
/// of ASCII letters, digits and `- _ . :` only.
pub open spec fn tenant_check(tenant_id: Option<Seq<char>>) -> Result<Option<Seq<char>>, Seq<char>> {
    match tenant_id {
        None => Ok(None),
        Some(raw) => {
            let t = trimmed(raw);
            if t.len() == 0 {
                Ok(None)
            } else if encode_utf8(t).len() > 128 {
                Err("tenant_id must be 128 characters or fewer"@)
            } else if !(forall|k: int| 0 <= k < t.len() ==> #[trigger] is_token_char(t[k])) {
                Err("tenant_id contains unsupported characters"@)
            } else {
                Ok(Some(t))
            }
        },
    }
}

/// Checks the tenant id of request `rid` (see [tenant_check]); an error answers `rid`.
pub fn parse_tenant_id(tenant_id: Option<&str>, rid: &str) -> (r: Result<Option<String>, ApiError>)
    ensures
        match tenant_check(opt_str(tenant_id)) {
            Ok(t) => r matches Ok(v) && opt_view(v) == t,
            Err(m) => api_error_for(r, ApiErrorKind::BadRequest, m, rid@),
        },
{
    let raw = match tenant_id {
        None => {
            return Ok(None);
        },
        Some(raw) => raw,
    };
    let t = trim(raw);
    if t.unicode_len() == 0 {
        return Ok(None);
    }
    let bytes = t.as_bytes();
    if bytes.len() > 128 {
        return Err(ApiError::bad_request("tenant_id must be 128 characters or fewer").with_request_id(rid));
    }
    if !all_token_chars(t) {
        return Err(ApiError::bad_request("tenant_id contains unsupported characters").with_request_id(rid));
    }
    Ok(Some(t.to_owned()))
}

/// Terminal status named by a timeout policy request: `failed` or `cancelled`, ignoring
/// surrounding whitespace and ASCII case.
pub open spec fn timeout_status_of(value: Seq<char>) -> Option<AttemptExecutionStatus> {
    let v = lower_seq(trimmed(value));
    if v == "failed"@ {
        Some(AttemptExecutionStatus::Failed)
    } else if v == "cancelled"@ {
        Some(AttemptExecutionStatus::Cancelled)
    } else {
        None
    }
}

/// Checks a requested timeout policy for request `rid`: the timeout must be positive and the
/// status failed or cancelled; an error answers `rid`.
pub fn parse_timeout_policy(timeout_ms: Option<i64>, on_timeout_status: &str, rid: &str) -> (r: Result<Option<TimeoutPolicyConfig>, ApiError>)
    ensures
        match timeout_ms {
            None => r == Ok::<Option<TimeoutPolicyConfig>, ApiError>(None),
            Some(ms) => if ms <= 0 {
                api_error_for(r, ApiErrorKind::BadRequest, "timeout_policy.timeout_ms must be > 0"@, rid@)
            } else {
                match timeout_status_of(on_timeout_status@) {
                    Some(s) => r == Ok::<Option<TimeoutPolicyConfig>, ApiError>(Some(TimeoutPolicyConfig { timeout_ms: ms, on_timeout_status: s })),
                    None => api_error_for(
                        r,
                        ApiErrorKind::BadRequest,
                        "timeout_policy.on_timeout_status must be one of: failed|cancelled"@,
                        rid@,
                    ),
                }
            },
        },
{
    let ms = match timeout_ms {
        None => {
            return Ok(None);
        },
        Some(ms) => ms,
    };
    if ms <= 0 {
        return Err(ApiError::bad_request("timeout_policy.timeout_ms must be > 0").with_request_id(rid));
    }
    let v = trim(on_timeout_status);
    let status = if lower_eq(v, "failed") {
        AttemptExecutionStatus::Failed
    } else if lower_eq(v, "cancelled") {
        AttemptExecutionStatus::Cancelled
    } else {
        return Err(
            ApiError::bad_request("timeout_policy.on_timeout_status must be one of: failed|cancelled").with_request_id(rid),
        );
    };
    Ok(Some(TimeoutPolicyConfig { timeout_ms: ms, on_timeout_status: status }))
}

/// A requested retry policy. The exponential multiplier is a floating-point value handled
/// by the caller: `multiplier_bits` is its bit pattern (2.0 when none was given) and
/// `multiplier_above_one` whether it exceeds 1.
#[derive(Clone, Debug)]
pub struct RetryPolicyInput {
    pub strategy: String,
    pub backoff_ms: i64,
    pub max_backoff_ms: Option<i64>,
    pub multiplier_bits: u64,
    pub multiplier_above_one: bool,
    pub max_retries: u32,
}

/// Outcome of checking a requested retry policy, first failing rule first.
pub open spec fn retry_policy_check(req: RetryPolicyInput) -> Result<RetryPolicyConfig, Seq<char>> {
    if req.backoff_ms <= 0 {
        Err("retry_policy.backoff_ms must be > 0"@)
    } else if strategy_from_name(req.strategy@) is None {
        Err("retry_policy.strategy must be one of: fixed|exponential"@)
    } else if req.max_backoff_ms is Some && req.max_backoff_ms->0 <= 0 {
        Err("retry_policy.max_backoff_ms must be > 0"@)
    } else if req.max_backoff_ms is Some && req.max_backoff_ms->0 < req.backoff_ms {
        Err("retry_policy.max_backoff_ms must be >= retry_policy.backoff_ms"@)
    } else if strategy_from_name(req.strategy@) == Some(RetryStrategy::Exponential) && !req.multiplier_above_one {
        Err("retry_policy.multiplier must be > 1.0 for exponential backoff"@)
    } else {
        let strategy = strategy_from_name(req.strategy@)->0;
        Ok(
            RetryPolicyConfig {
                strategy,
                backoff_ms: req.backoff_ms,
                max_backoff_ms: req.max_backoff_ms,
                multiplier_bits: if strategy == RetryStrategy::Exponential { Some(req.multiplier_bits) } else { None },
                max_retries: req.max_retries,
            },
        )
    }
}

/// Checks the retry policy requested by request `rid` (see [retry_policy_check]); an error
/// answers `rid`.
pub fn parse_retry_policy(request: Option<&RetryPolicyInput>, rid: &str) -> (r: Result<Option<RetryPolicyConfig>, ApiError>)
    ensures
        match request {
            None => r == Ok::<Option<RetryPolicyConfig>, ApiError>(None),
            Some(req) => match retry_policy_check(*req) {
                Ok(p) => r == Ok::<Option<RetryPolicyConfig>, ApiError>(Some(p)),
                Err(m) => api_error_for(r, ApiErrorKind::BadRequest, m, rid@),
            },
        },
{
    let req = match request {
        None => {
            return Ok(None);
        },
        Some(req) => req,
    };
    if req.backoff_ms <= 0 {
        return Err(ApiError::bad_request("retry_policy.backoff_ms must be > 0").with_request_id(rid));
    }
    let strategy = match RetryStrategy::from_str(req.strategy.as_str()) {
        Some(s) => s,
        None => {
            return Err(ApiError::bad_request("retry_policy.strategy must be one of: fixed|exponential").with_request_id(rid));
        },
    };
    match req.max_backoff_ms {
        Some(m) => {
            if m <= 0 {
                return Err(ApiError::bad_request("retry_policy.max_backoff_ms must be > 0").with_request_id(rid));
            }
            if m < req.backoff_ms {
                return Err(ApiError::bad_request("retry_policy.max_backoff_ms must be >= retry_policy.backoff_ms").with_request_id(rid));
            }
        },
        None => {},
    }
    let multiplier_bits = match strategy {
        RetryStrategy::Fixed => None,
        RetryStrategy::Exponential => {
            if !req.multiplier_above_one {
                return Err(ApiError::bad_request("retry_policy.multiplier must be > 1.0 for exponential backoff").with_request_id(rid));
            }
            Some(req.multiplier_bits)
        },
    };
    Ok(
        Some(
            RetryPolicyConfig {
                strategy,
                backoff_ms: req.backoff_ms,
                max_backoff_ms: req.max_backoff_ms,
                multiplier_bits,
                max_retries: req.max_retries,
            },
        ),
    )
}

/// Terminal status a worker may acknowledge: `completed`, `failed` or `cancelled`, exactly.
pub open spec fn terminal_status_of(value: Seq<char>) -> Option<AttemptExecutionStatus> {
    if value == "completed"@ {
        Some(AttemptExecutionStatus::Completed)
    } else if value == "failed"@ {
        Some(AttemptExecutionStatus::Failed)
    } else if value == "cancelled"@ {
        Some(AttemptExecutionStatus::Cancelled)
    } else {
        None
    }
}

/// Reads the terminal status of an acknowledgement (see [terminal_status_of]).
pub fn parse_terminal_status(value: &str) -> (r: Result<AttemptExecutionStatus, ApiError>)
    ensures
        match terminal_status_of(value@) {
            Some(s) => r == Ok::<AttemptExecutionStatus, ApiError>(s),
            None => api_error_is(r, ApiErrorKind::BadRequest, "terminal_status must be one of: completed|failed|cancelled"@),
        },
{
    if str_eq(value, "completed") {
        Ok(AttemptExecutionStatus::Completed)
    } else if str_eq(value, "failed") {
        Ok(AttemptExecutionStatus::Failed)
    } else if str_eq(value, "cancelled") {
        Ok(AttemptExecutionStatus::Cancelled)
    } else {
        Err(ApiError::bad_request("terminal_status must be one of: completed|failed|cancelled"))
    }
}

/// Status answered for an acknowledgement: `retry_scheduled` for a retry, else the status's name.
pub open spec fn ack_status_name(status: AttemptExecutionStatus) -> Seq<char> {
    if status == AttemptExecutionStatus::RetryBackoff {
        "retry_scheduled"@
    } else {
        status_name(status)
    }
}

/// Status answered for an acknowledgement (see [ack_status_name]).
pub fn ack_response_status(status: AttemptExecutionStatus) -> (r: &'static str)
    ensures
        r@ == ack_status_name(status),
{
    match status {
        AttemptExecutionStatus::RetryBackoff => "retry_scheduled",
        AttemptExecutionStatus::Completed => "completed",
        AttemptExecutionStatus::Failed => "failed",
        AttemptExecutionStatus::Cancelled => "cancelled",
        AttemptExecutionStatus::Queued => "queued",
        AttemptExecutionStatus::Leased => "leased",
        AttemptExecutionStatus::Running => "running",
    }
}

/// Status answered for a step report: `reported`, or `reported_idempotent` for a duplicate.
pub fn report_response_status(outcome: StepReportWriteResult) -> (r: &'static str)
    ensures
        outcome == StepReportWriteResult::Inserted ==> r@ == "reported"@,
        outcome == StepReportWriteResult::Duplicate ==> r@ == "reported_idempotent"@,
{
    match outcome {
        StepReportWriteResult::Inserted => "reported",
        StepReportWriteResult::Duplicate => "reported_idempotent",
    }
}

/// Checks the fields of a step report, in order: attempt, action, status, dedupe token.
pub fn validate_step_report(attempt_id: &str, action_id: &str, status: &str, dedupe_token: &str) -> (r: Result<(), ApiError>)
    ensures
        trimmed(attempt_id@).len() == 0 ==> api_error_is(r, ApiErrorKind::BadRequest, "attempt_id must not be empty"@),
        trimmed(attempt_id@).len() > 0 && trimmed(action_id@).len() == 0 ==> api_error_is(
            r,
            ApiErrorKind::BadRequest,
            "action_id must not be empty"@,
        ),
        trimmed(attempt_id@).len() > 0 && trimmed(action_id@).len() > 0 && trimmed(status@).len() == 0 ==> api_error_is(
            r,
            ApiErrorKind::BadRequest,
            "status must not be empty"@,
        ),
        trimmed(attempt_id@).len() > 0 && trimmed(action_id@).len() > 0 && trimmed(status@).len() > 0 && trimmed(
            dedupe_token@,
        ).len() == 0 ==> api_error_is(r, ApiErrorKind::BadRequest, "dedupe_token must not be empty"@),
        r is Ok <==> trimmed(attempt_id@).len() > 0 && trimmed(action_id@).len() > 0 && trimmed(status@).len() > 0
            && trimmed(dedupe_token@).len() > 0,
{
    require_non_empty(attempt_id, "attempt_id must not be empty")?;
    require_non_empty(action_id, "action_id must not be empty")?;
    require_non_empty(status, "status must not be empty")?;
    require_non_empty(dedupe_token, "dedupe_token must not be empty")
}

/// What an audited request acts on.
#[derive(Clone, Debug)]
pub struct AuditTarget {
    pub action: &'static str,
    pub resource_type: &'static str,
    pub resource_id: Option<String>,
}

/// The non-empty segments of a path.
pub open spec fn path_segments(path: Seq<char>) -> Seq<Seq<char>> {
    split_on(path, '/').filter(|s: Seq<char>| s.len() > 0)
}

/// The audited action of a request: control-plane POSTs under `/v1` on jobs, interrupts and
/// the dead-letter queue, as (action, resource type, resource id).
pub open spec fn audit_target_of(method: HttpMethod, path: Seq<char>) -> Option<(Seq<char>, Seq<char>, Option<Seq<char>>)> {
    let seg = path_segments(path);
    if method != HttpMethod::Post || seg.len() < 2 || seg[0] != "v1"@ {
        None
    } else if seg.len() == 2 && seg[1] == "jobs"@ {
        Some(("job.run"@, "thread"@, None))
    } else if seg.len() == 3 && seg[1] == "jobs"@ && seg[2] == "run"@ {
        Some(("job.run"@, "thread"@, None))
    } else if seg.len() == 4 && seg[1] == "jobs"@ && seg[3] == "resume"@ {
        Some(("job.resume"@, "thread"@, Some(seg[2])))
    } else if seg.len() == 4 && seg[1] == "jobs"@ && seg[3] == "replay"@ {
        Some(("job.replay"@, "thread"@, Some(seg[2])))
    } else if seg.len() == 4 && seg[1] == "jobs"@ && seg[3] == "cancel"@ {
        Some(("job.cancel"@, "thread"@, Some(seg[2])))
    } else if seg.len() == 4 && seg[1] == "interrupts"@ && seg[3] == "resume"@ {
        Some(("interrupt.resume"@, "interrupt"@, Some(seg[2])))
    } else if seg.len() == 4 && seg[1] == "interrupts"@ && seg[3] == "reject"@ {
        Some(("interrupt.reject"@, "interrupt"@, Some(seg[2])))
    } else if seg.len() == 4 && seg[1] == "dlq"@ && seg[3] == "replay"@ {
        Some(("dlq.replay"@, "attempt"@, Some(seg[2])))
    } else {
        None
    }
}

fn segments(path: &str) -> (r: Vec<String>)
    ensures
        r@.len() == path_segments(path@).len(),
        forall|k: int| 0 <= k < r@.len() ==> #[trigger] r@[k]@ == path_segments(path@)[k],
{
    let parts = split_char(path, '/');
    let ghost all = split_on(path@, '/');
    let ghost pred = |s: Seq<char>| s.len() > 0;
    let mut out: Vec<String> = Vec::new();
    let mut i: usize = 0;
    while i < parts.len()
        invariant
            i <= parts@.len(),
            parts@.len() == all.len(),
            forall|k: int| 0 <= k < parts@.len() ==> #[trigger] parts@[k]@ == all[k],
            pred == (|s: Seq<char>| s.len() > 0),
            out@.len() == all.take(i as int).filter(pred).len(),
            forall|k: int| 0 <= k < out@.len() ==> #[trigger] out@[k]@ == all.take(i as int).filter(pred)[k],
        decreases parts@.len() - i,
    {
        proof {
            assert(all.take(i + 1).drop_last() =~= all.take(i as int));
            reveal(Seq::filter);
        }
        if parts[i].unicode_len() > 0 {
            out.push(parts[i].clone());
        }
        i = i + 1;
    }
    proof {
        assert(all.take(i as int) =~= all);
    }
    out
}

/// The audited action of a request (see [audit_target_of]).
pub fn parse_audit_target(method: HttpMethod, path: &str) -> (r: Option<AuditTarget>)
    ensures
        match audit_target_of(method, path@) {
            Some((a, t, id)) => r matches Some(x) && x.action@ == a && x.resource_type@ == t && opt_view(x.resource_id) == id,
            None => r is None,
        },
{
    let is_post = match method {
        HttpMethod::Post => true,
        _ => false,
    };
    if !is_post {
        return None;
    }
    let seg = segments(path);
    if seg.len() < 2 || !str_eq(seg[0].as_str(), "v1") {
        return None;
    }
    let n = seg.len();
    if n == 2 && str_eq(seg[1].as_str(), "jobs") {
        return Some(AuditTarget { action: "job.run", resource_type: "thread", resource_id: None });
    }
    if n == 3 && str_eq(seg[1].as_str(), "jobs") && str_eq(seg[2].as_str(), "run") {
        return Some(AuditTarget { action: "job.run", resource_type: "thread", resource_id: None });
    }
    if n != 4 {
        return None;
    }
    let id = Some(seg[2].clone());
    proof {
        reveal_strlit("jobs");
        reveal_strlit("interrupts");
        reveal_strlit("dlq");
        assert("jobs"@[0] != "interrupts"@[0] && "jobs"@[0] != "dlq"@[0] && "interrupts"@[0] != "dlq"@[0]);
    }
    if str_eq(seg[1].as_str(), "jobs") {
        if str_eq(seg[3].as_str(), "resume") {
            return Some(AuditTarget { action: "job.resume", resource_type: "thread", resource_id: id });
        }
        if str_eq(seg[3].as_str(), "replay") {
            return Some(AuditTarget { action: "job.replay", resource_type: "thread", resource_id: id });
        }
        if str_eq(seg[3].as_str(), "cancel") {
            return Some(AuditTarget { action: "job.cancel", resource_type: "thread", resource_id: id });
        }
        return None;
    }
    if str_eq(seg[1].as_str(), "interrupts") {
        if str_eq(seg[3].as_str(), "resume") {
            return Some(AuditTarget { action: "interrupt.resume", resource_type: "interrupt", resource_id: id });
        }
        if str_eq(seg[3].as_str(), "reject") {
            return Some(AuditTarget { action: "interrupt.reject", resource_type: "interrupt", resource_id: id });
        }
        return None;
    }
    if str_eq(seg[1].as_str(), "dlq") && str_eq(seg[3].as_str(), "replay") {
        return Some(AuditTarget { action: "dlq.replay", resource_type: "attempt", resource_id: id });
    }
    None
}

/// Result recorded for an audited request: `success` for a 2xx status, else `error`.
pub fn audit_result(status_code: u16) -> (r: &'static str)
    ensures
        200 <= status_code < 300 ==> r@ == "success"@,
        !(200 <= status_code < 300) ==> r@ == "error"@,
{
    if 200 <= status_code && status_code < 300 {
        "success"
    } else {
        "error"
    }
}

/// An audit log time window must not end before it starts.
pub fn check_audit_window(from_ms: Option<i64>, to_ms: Option<i64>) -> (r: Result<(), ApiError>)
    ensures
        (from_ms matches Some(f) && to_ms matches Some(t) && f > t) ==> api_error_is(
            r,
            ApiErrorKind::BadRequest,
            "from_ms must be less than or equal to to_ms"@,
        ),
        !(from_ms matches Some(f) && to_ms matches Some(t) && f > t) ==> r is Ok,
{
    match (from_ms, to_ms) {
        (Some(f), Some(t)) => {
            if f > t {
                return Err(ApiError::bad_request("from_ms must be less than or equal to to_ms"));
            }
        },
        _ => {},
    }
    Ok(())
}

/// The error answered when replaying a dead letter failed with `message`: not found when it
/// says so, a conflict when the dead letter was already replayed, else an internal error.
pub fn dead_letter_replay_error(message: &str) -> (r: ApiError)
    ensures
        r.message@ == message@,
        r.kind == if crate::text::contains_seq(message@, "not found"@) {
            ApiErrorKind::NotFound
        } else if crate::text::contains_seq(message@, "already replayed"@) {
            ApiErrorKind::Conflict
        } else {
            ApiErrorKind::Internal
        },
{
    if crate::text::str_contains(message, "not found") {
        ApiError::not_found(message)
    } else if crate::text::str_contains(message, "already replayed") {
        ApiError::conflict(message)
    } else {
        ApiError::internal(message)
    }
}

} // verus!
