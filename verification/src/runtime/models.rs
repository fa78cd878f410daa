//! Records of the runtime repository: attempts, leases, dead letters, replay effects.
//!
//! Times are milliseconds since the Unix epoch.
use crate::runtime::attempt::{AttemptExecutionStatus, TimeoutPolicyConfig};
use crate::runtime::retry::RetryPolicyConfig;
use vstd::prelude::*;

verus! {

/// A lease: `worker_id` owns the attempt until `lease_expires_at_ms`.
#[derive(Debug)]
pub struct LeaseRecord {
    pub lease_id: String,
    pub attempt_id: String,
    pub worker_id: String,
    pub lease_expires_at_ms: i64,
    pub heartbeat_at_ms: i64,
    pub version: u64,
}

impl Clone for LeaseRecord {
    fn clone(&self) -> (r: Self)
        ensures
            r == *self,
    {
        LeaseRecord {
            lease_id: self.lease_id.clone(),
            attempt_id: self.attempt_id.clone(),
            worker_id: self.worker_id.clone(),
            lease_expires_at_ms: self.lease_expires_at_ms,
            heartbeat_at_ms: self.heartbeat_at_ms,
            version: self.version,
        }
    }
}

/// An attempt that may be handed to a worker.
#[derive(Debug)]
pub struct AttemptDispatchRecord {
    pub attempt_id: String,
    pub run_id: String,
    pub attempt_no: u32,
    pub status: AttemptExecutionStatus,
    pub retry_at_ms: Option<i64>,
}

/// Trace context stored with an attempt.
#[derive(Debug, PartialEq, Eq)]
pub struct AttemptTraceContextRow {
    pub trace_id: String,
    pub parent_span_id: Option<String>,
    pub span_id: String,
    pub trace_flags: String,
}

/// Copy of an optional string.
pub fn clone_opt_string(s: &Option<String>) -> (r: Option<String>)
    ensures
        r == *s,
{
    match s {
        Some(v) => Some(v.clone()),
        None => None,
    }
}

impl Clone for AttemptTraceContextRow {
    fn clone(&self) -> (r: Self)
        ensures
            r == *self,
    {
        AttemptTraceContextRow {
            trace_id: self.trace_id.clone(),
            parent_span_id: clone_opt_string(&self.parent_span_id),
            span_id: self.span_id.clone(),
            trace_flags: self.trace_flags.clone(),
        }
    }
}

/// One attempt as the repository holds it.
#[derive(Debug)]
pub struct AttemptRow {
    pub attempt_id: String,
    pub run_id: String,
    pub attempt_no: u32,
    pub status: AttemptExecutionStatus,
    pub retry_at_ms: Option<i64>,
    pub started_at_ms: Option<i64>,
    pub priority: i32,
    pub tenant_id: Option<String>,
    pub timeout: Option<TimeoutPolicyConfig>,
    pub retry_policy: Option<RetryPolicyConfig>,
    pub trace: Option<AttemptTraceContextRow>,
}

/// Outcome of acknowledging an attempt.
#[derive(Clone, Copy, Debug, PartialEq, Eq, Structural)]
pub struct AttemptAckOutcome {
    pub status: AttemptExecutionStatus,
    pub next_retry_at_ms: Option<i64>,
    pub next_attempt_no: u32,
}

/// One scheduled retry of an attempt.
#[derive(Debug)]
pub struct AttemptRetryHistoryRow {
    pub attempt_id: String,
    pub attempt_no: u32,
    pub strategy: String,
    pub backoff_ms: i64,
    pub max_retries: u32,
    pub scheduled_at_ms: i64,
}

/// Retry state of an attempt with its scheduled retries.
#[derive(Debug)]
pub struct AttemptRetryHistorySnapshot {
    pub attempt_id: String,
    pub current_attempt_no: u32,
    pub current_status: AttemptExecutionStatus,
    pub history: Vec<AttemptRetryHistoryRow>,
}

/// An attempt that ended for good in failure, kept for inspection and replay.
#[derive(Debug)]
pub struct DeadLetterRow {
    pub attempt_id: String,
    pub run_id: String,
    pub attempt_no: u32,
    pub terminal_status: String,
    pub reason: Option<String>,
    pub dead_at_ms: i64,
    pub replay_status: String,
    pub replay_count: u32,
    pub last_replayed_at_ms: Option<i64>,
}

impl Clone for DeadLetterRow {
    fn clone(&self) -> (r: Self)
        ensures
            r == *self,
    {
        DeadLetterRow {
            attempt_id: self.attempt_id.clone(),
            run_id: self.run_id.clone(),
            attempt_no: self.attempt_no,
            terminal_status: self.terminal_status.clone(),
            reason: clone_opt_string(&self.reason),
            dead_at_ms: self.dead_at_ms,
            replay_status: self.replay_status.clone(),
            replay_count: self.replay_count,
            last_replayed_at_ms: self.last_replayed_at_ms,
        }
    }
}

/// Result of claiming a replay side effect by its fingerprint.
#[derive(Clone, Debug, PartialEq, Eq)]
pub enum ReplayEffectClaim {
    /// The caller owns the effect and must complete or abandon it.
    Acquired,
    /// Another replay holds the effect.
    InProgress,
    /// The effect already ran; its stored response.
    Completed(String),
}

/// A replay side effect as the repository holds it.
#[derive(Debug)]
pub struct ReplayEffectLogRow {
    pub fingerprint: String,
    pub thread_id: String,
    pub replay_target: String,
    pub effect_type: String,
    pub status: String,
    pub execution_count: u32,
    pub created_at_ms: i64,
    pub completed_at_ms: Option<i64>,
    pub response_json: Option<String>,
}

impl Clone for ReplayEffectLogRow {
    fn clone(&self) -> (r: Self)
        ensures
            r == *self,
    {
        ReplayEffectLogRow {
            fingerprint: self.fingerprint.clone(),
            thread_id: self.thread_id.clone(),
            replay_target: self.replay_target.clone(),
            effect_type: self.effect_type.clone(),
            status: self.status.clone(),
            execution_count: self.execution_count,
            created_at_ms: self.created_at_ms,
            completed_at_ms: self.completed_at_ms,
            response_json: clone_opt_string(&self.response_json),
        }
    }
}

/// A dispatchable attempt with what backpressure checks need.
#[derive(Debug)]
pub struct DispatchableAttemptContext {
    pub attempt_id: String,
    pub tenant_id: Option<String>,
    pub started_at_ms: Option<i64>,
}

/// A step report of a worker, deduplicated per attempt by its token.
#[derive(Debug)]
pub struct StepReportRow {
    pub worker_id: String,
    pub attempt_id: String,
    pub action_id: String,
    pub status: String,
    pub dedupe_token: String,
    pub created_at_ms: i64,
}

/// Result of recording a step report.
#[derive(Clone, Copy, Debug, PartialEq, Eq, Structural)]
pub enum StepReportWriteResult {
    Inserted,
    Duplicate,
}

/// One audited control-plane action.
#[derive(Clone, Debug)]
pub struct AuditLogEntry {
    pub actor_type: String,
    pub actor_id: Option<String>,
    pub actor_role: Option<String>,
    pub action: String,
    pub resource_type: String,
    pub resource_id: Option<String>,
    pub result: String,
    pub request_id: String,
    pub details_json: Option<String>,
}

/// A job (a thread run through the graph) with its latest status.
#[derive(Debug)]
pub struct JobRow {
    pub thread_id: String,
    pub status: String,
    pub created_at_ms: i64,
    pub updated_at_ms: i64,
}

/// A human-in-the-loop interrupt raised by a run.
#[derive(Debug)]
pub struct InterruptRow {
    pub interrupt_id: String,
    pub thread_id: String,
    pub run_id: String,
    pub attempt_id: String,
    pub value_json: String,
    pub status: String,
    pub created_at_ms: i64,
    pub resume_payload_hash: Option<String>,
    pub resume_response_json: Option<String>,
}

impl Clone for InterruptRow {
    fn clone(&self) -> (r: Self)
        ensures
            r == *self,
    {
        InterruptRow {
            interrupt_id: self.interrupt_id.clone(),
            thread_id: self.thread_id.clone(),
            run_id: self.run_id.clone(),
            attempt_id: self.attempt_id.clone(),
            value_json: self.value_json.clone(),
            status: self.status.clone(),
            created_at_ms: self.created_at_ms,
            resume_payload_hash: clone_opt_string(&self.resume_payload_hash),
            resume_response_json: clone_opt_string(&self.resume_response_json),
        }
    }
}

/// An API key kept by the repository: its hashed secret, role name and whether it is active.
#[derive(Debug)]
pub struct ApiKeyRow {
    pub key_id: String,
    pub secret_hash: String,
    pub role: String,
    pub active: bool,
    pub created_at_ms: i64,
    pub updated_at_ms: i64,
}

impl Clone for ApiKeyRow {
    fn clone(&self) -> (r: Self)
        ensures
            r == *self,
    {
        ApiKeyRow {
            key_id: self.key_id.clone(),
            secret_hash: self.secret_hash.clone(),
            role: self.role.clone(),
            active: self.active,
            created_at_ms: self.created_at_ms,
            updated_at_ms: self.updated_at_ms,
        }
    }
}

/// An audit log entry as stored, with its id (increasing) and time.
#[derive(Debug)]
pub struct AuditLogRow {
    pub audit_id: i64,
    pub actor_type: String,
    pub actor_id: Option<String>,
    pub actor_role: Option<String>,
    pub action: String,
    pub resource_type: String,
    pub resource_id: Option<String>,
    pub result: String,
    pub request_id: String,
    pub details_json: Option<String>,
    pub created_at_ms: i64,
}

impl Clone for AuditLogRow {
    fn clone(&self) -> (r: Self)
        ensures
            r == *self,
    {
        AuditLogRow {
            audit_id: self.audit_id,
            actor_type: self.actor_type.clone(),
            actor_id: clone_opt_string(&self.actor_id),
            actor_role: clone_opt_string(&self.actor_role),
            action: self.action.clone(),
            resource_type: self.resource_type.clone(),
            resource_id: clone_opt_string(&self.resource_id),
            result: self.result.clone(),
            request_id: self.request_id.clone(),
            details_json: clone_opt_string(&self.details_json),
            created_at_ms: self.created_at_ms,
        }
    }
}

} // verus!
