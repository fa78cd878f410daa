//! Request and response records of the execution API.
//!
//! Times are RFC 3339 strings, as the API renders them.
use vstd::prelude::*;

verus! {

/// Every response: status metadata, the request id and the payload.
#[derive(Clone, Debug)]
pub struct ApiEnvelope<T> {
    pub meta: ApiMeta,
    pub request_id: String,
    pub data: T,
}

/// Status metadata of a response.
#[derive(Clone, Debug)]
pub struct ApiMeta {
    pub status: &'static str,
    pub api_version: &'static str,
}

impl ApiMeta {
    /// Metadata of a successful response: status `ok`, API version `v1`.
    pub fn ok() -> (r: Self)
        ensures
            r.status@ == "ok"@,
            r.api_version@ == "v1"@,
    {
        ApiMeta { status: "ok", api_version: "v1" }
    }
}

/// Request to run a job.
#[derive(Clone, Debug)]
pub struct RunJobRequest {
    pub thread_id: String,
    pub input: Option<String>,
    pub idempotency_key: Option<String>,
    pub timeout_policy: Option<TimeoutPolicyRequest>,
}

/// Request to replay a job, optionally from a checkpoint.
#[derive(Clone, Debug)]
pub struct ReplayJobRequest {
    pub checkpoint_id: Option<String>,
}

/// Request to cancel a job.
#[derive(Clone, Debug)]
pub struct CancelJobRequest {
    pub reason: Option<String>,
}

/// One checkpoint of a job's history.
#[derive(Clone, Debug)]
pub struct JobHistoryItem {
    pub checkpoint_id: Option<String>,
    pub created_at: String,
}

/// A job's checkpoint history.
#[derive(Clone, Debug)]
pub struct JobHistoryResponse {
    pub thread_id: String,
    pub history: Vec<JobHistoryItem>,
}

/// One event of a job's timeline.
#[derive(Clone, Debug)]
pub struct JobTimelineItem {
    pub seq: u64,
    pub event_type: String,
    pub checkpoint_id: Option<String>,
    pub created_at: String,
}

/// A job's timeline.
#[derive(Clone, Debug)]
pub struct JobTimelineResponse {
    pub thread_id: String,
    pub timeline: Vec<JobTimelineItem>,
}

/// Answer to a cancellation.
#[derive(Clone, Debug)]
pub struct CancelJobResponse {
    pub thread_id: String,
    pub status: String,
    pub reason: Option<String>,
}

/// A worker asking for work.
#[derive(Clone, Debug)]
pub struct WorkerPollRequest {
    pub worker_id: String,
    pub limit: Option<usize>,
    pub max_active_leases: Option<usize>,
}

/// Answer to a poll.
#[derive(Clone, Debug)]
pub struct WorkerPollResponse {
    pub decision: String,
    pub attempt_id: Option<String>,
    pub lease_id: Option<String>,
    pub lease_expires_at: Option<String>,
}

/// A worker renewing its lease.
#[derive(Clone, Debug)]
pub struct WorkerHeartbeatRequest {
    pub lease_id: String,
    pub lease_ttl_seconds: Option<i64>,
}

/// A worker extending its lease.
#[derive(Clone, Debug)]
pub struct WorkerExtendLeaseRequest {
    pub lease_id: String,
    pub lease_ttl_seconds: Option<i64>,
}

/// A worker reporting a step of an attempt.
#[derive(Clone, Debug)]
pub struct WorkerReportStepRequest {
    pub attempt_id: String,
    pub action_id: String,
    pub status: String,
    pub dedupe_token: String,
}

/// Requested execution timeout of an attempt.
#[derive(Clone, Debug)]
pub struct TimeoutPolicyRequest {
    pub timeout_ms: i64,
    pub on_timeout_status: String,
}

/// Answer to a heartbeat.
#[derive(Clone, Debug)]
pub struct WorkerLeaseResponse {
    pub worker_id: String,
    pub lease_id: String,
    pub lease_expires_at: String,
}

/// Answer to an acknowledgement or a step report.
#[derive(Clone, Debug)]
pub struct WorkerAckResponse {
    pub attempt_id: String,
    pub status: String,
    pub next_retry_at: Option<String>,
    pub next_attempt_no: Option<u32>,
}

/// One job of a listing.
#[derive(Clone, Debug)]
pub struct JobListItem {
    pub thread_id: String,
    pub status: String,
    pub updated_at: String,
}

/// A listing of jobs.
#[derive(Clone, Debug)]
pub struct ListJobsResponse {
    pub jobs: Vec<JobListItem>,
}

/// Filters of an audit log listing.
#[derive(Clone, Debug)]
pub struct ListAuditLogsQuery {
    pub request_id: Option<String>,
    pub action: Option<String>,
    pub from_ms: Option<i64>,
    pub to_ms: Option<i64>,
    pub limit: Option<usize>,
}

/// Filters of a dead-letter listing.
#[derive(Clone, Debug)]
pub struct ListDeadLettersQuery {
    pub status: Option<String>,
    pub limit: Option<usize>,
}

/// Request to reject an interrupt.
#[derive(Clone, Debug)]
pub struct RejectInterruptRequest {
    pub reason: Option<String>,
}

/// A job's timeline and history, for export.
#[derive(Clone, Debug)]
pub struct TimelineExportResponse {
    pub thread_id: String,
    pub timeline: Vec<JobTimelineItem>,
    pub history: Vec<JobHistoryItem>,
}

/// One scheduled retry, numbered from 1.
#[derive(Clone, Debug)]
pub struct AttemptRetryHistoryItem {
    pub retry_no: u32,
    pub attempt_no: u32,
    pub strategy: String,
    pub backoff_ms: i64,
    pub max_retries: u32,
    pub scheduled_at: String,
}

/// Retry state of an attempt.
#[derive(Clone, Debug)]
pub struct AttemptRetryHistoryResponse {
    pub attempt_id: String,
    pub current_attempt_no: u32,
    pub current_status: String,
    pub history: Vec<AttemptRetryHistoryItem>,
}

/// One dead letter.
#[derive(Clone, Debug)]
pub struct DeadLetterItem {
    pub attempt_id: String,
    pub run_id: String,
    pub attempt_no: u32,
    pub terminal_status: String,
    pub reason: Option<String>,
    pub dead_at: String,
    pub replay_status: String,
    pub replay_count: u32,
    pub last_replayed_at: Option<String>,
}

/// A listing of dead letters.
#[derive(Clone, Debug)]
pub struct DeadLetterListResponse {
    pub entries: Vec<DeadLetterItem>,
}

/// Answer to a dead-letter replay.
#[derive(Clone, Debug)]
pub struct DeadLetterReplayResponse {
    pub attempt_id: String,
    pub status: String,
    pub replay_count: u32,
}

/// Filters and paging of a job listing.
#[derive(Clone, Debug)]
pub struct ListJobsQuery {
    pub status: Option<String>,
    pub limit: Option<usize>,
    pub offset: Option<usize>,
}

/// Filters of an interrupt listing.
#[derive(Clone, Debug)]
pub struct ListInterruptsQuery {
    pub status: Option<String>,
    pub run_id: Option<String>,
    pub limit: Option<usize>,
}

/// Page size of a job or interrupt listing: 50 by default, at most 200.
pub fn listing_limit(limit: Option<usize>) -> (r: usize)
    ensures
        r == match limit {
            Some(l) => if l < 200 { l } else { 200 },
            None => 50,
        },
{
    match limit {
        Some(l) => if l < 200 { l } else { 200 },
        None => 50,
    }
}

/// Page size of a dead-letter listing: 100 by default, between 1 and 500.
pub fn dead_letter_limit(limit: Option<usize>) -> (r: usize)
    ensures
        r == match limit {
            Some(l) => if l < 1 { 1 } else if l > 500 { 500 } else { l },
            None => 100,
        },
{
    match limit {
        Some(l) => if l < 1 { 1 } else if l > 500 { 500 } else { l },
        None => 100,
    }
}

} // verus!
