//! Attempt statuses, retry strategies and timeout policies, with their stored names.
use crate::kernel::event::KernelError;
use crate::text::{lower_eq, lower_seq, str_eq, trim, trimmed};
use vstd::prelude::*;

verus! {

/// Execution status of one attempt of a run.
#[derive(Clone, Copy, Debug, PartialEq, Eq, Structural)]
pub enum AttemptExecutionStatus {
    Queued,
    Leased,
    Running,
    RetryBackoff,
    Completed,
    Failed,
    Cancelled,
}

/// Stored name of a status.
pub open spec fn status_name(status: AttemptExecutionStatus) -> Seq<char> {
    match status {
        AttemptExecutionStatus::Queued => "queued"@,
        AttemptExecutionStatus::Leased => "leased"@,
        AttemptExecutionStatus::Running => "running"@,
        AttemptExecutionStatus::RetryBackoff => "retry_backoff"@,
        AttemptExecutionStatus::Completed => "completed"@,
        AttemptExecutionStatus::Failed => "failed"@,
        AttemptExecutionStatus::Cancelled => "cancelled"@,
    }
}

/// Status read back from its stored name; unknown names read as `Queued`.
pub open spec fn status_from_name(value: Seq<char>) -> AttemptExecutionStatus {
    if value == "leased"@ {
        AttemptExecutionStatus::Leased
    } else if value == "running"@ {
        AttemptExecutionStatus::Running
    } else if value == "retry_backoff"@ {
        AttemptExecutionStatus::RetryBackoff
    } else if value == "completed"@ {
        AttemptExecutionStatus::Completed
    } else if value == "failed"@ {
        AttemptExecutionStatus::Failed
    } else if value == "cancelled"@ {
        AttemptExecutionStatus::Cancelled
    } else {
        AttemptExecutionStatus::Queued
    }
}

/// Completed, failed and cancelled attempts are terminal.
pub open spec fn is_terminal(status: AttemptExecutionStatus) -> bool {
    status == AttemptExecutionStatus::Completed || status == AttemptExecutionStatus::Failed
        || status == AttemptExecutionStatus::Cancelled
}

/// The stored name of a status.
pub fn attempt_status_to_str(status: &AttemptExecutionStatus) -> (r: &'static str)
    ensures
        r@ == status_name(*status),
{
    match status {
        AttemptExecutionStatus::Queued => "queued",
        AttemptExecutionStatus::Leased => "leased",
        AttemptExecutionStatus::Running => "running",
        AttemptExecutionStatus::RetryBackoff => "retry_backoff",
        AttemptExecutionStatus::Completed => "completed",
        AttemptExecutionStatus::Failed => "failed",
        AttemptExecutionStatus::Cancelled => "cancelled",
    }
}

/// Reads a stored status name; an unknown name reads as `Queued`.
pub fn parse_attempt_status(value: &str) -> (r: AttemptExecutionStatus)
    ensures
        r == status_from_name(value@),
{
    if str_eq(value, "leased") {
        AttemptExecutionStatus::Leased
    } else if str_eq(value, "running") {
        AttemptExecutionStatus::Running
    } else if str_eq(value, "retry_backoff") {
        AttemptExecutionStatus::RetryBackoff
    } else if str_eq(value, "completed") {
        AttemptExecutionStatus::Completed
    } else if str_eq(value, "failed") {
        AttemptExecutionStatus::Failed
    } else if str_eq(value, "cancelled") {
        AttemptExecutionStatus::Cancelled
    } else {
        AttemptExecutionStatus::Queued
    }
}

/// Every status reads back from its stored name.
pub proof fn lemma_status_name_round_trip(status: AttemptExecutionStatus)
    ensures
        status_from_name(status_name(status)) == status,
{
    reveal_strlit("queued");
    reveal_strlit("leased");
    reveal_strlit("running");
    reveal_strlit("retry_backoff");
    reveal_strlit("completed");
    reveal_strlit("failed");
    reveal_strlit("cancelled");
    let names = seq!["queued"@, "leased"@, "running"@, "retry_backoff"@, "completed"@, "failed"@, "cancelled"@];
    // the names are pairwise different: by length, or by their first two characters
    assert("leased"@[0] != "queued"@[0] && "leased"@[0] != "running"@[0] && "leased"@[0] != "retry_backoff"@[0]);
    assert("leased"@[0] != "completed"@[0] && "leased"@[0] != "failed"@[0] && "leased"@[0] != "cancelled"@[0]);
    assert("running"@[1] != "retry_backoff"@[1]);
    assert("completed"@[1] != "cancelled"@[1]);
    assert("failed"@[0] != "queued"@[0]);
    assert("running"@ != "leased"@ && "running"@ != "queued"@);
}

/// Retry backoff strategy.
#[derive(Clone, Copy, Debug, PartialEq, Eq, Structural)]
pub enum RetryStrategy {
    Fixed,
    Exponential,
}

pub open spec fn strategy_name(strategy: RetryStrategy) -> Seq<char> {
    match strategy {
        RetryStrategy::Fixed => "fixed"@,
        RetryStrategy::Exponential => "exponential"@,
    }
}

/// Strategy named by `value`, ignoring surrounding whitespace and ASCII case.
pub open spec fn strategy_from_name(value: Seq<char>) -> Option<RetryStrategy> {
    let v = lower_seq(trimmed(value));
    if v == "fixed"@ {
        Some(RetryStrategy::Fixed)
    } else if v == "exponential"@ {
        Some(RetryStrategy::Exponential)
    } else {
        None
    }
}

impl RetryStrategy {
    /// Stored name of the strategy.
    pub fn as_str(&self) -> (r: &'static str)
        ensures
            r@ == strategy_name(*self),
    {
        match self {
            RetryStrategy::Fixed => "fixed",
            RetryStrategy::Exponential => "exponential",
        }
    }

    /// Parses a strategy name, ignoring surrounding whitespace and ASCII case.
    pub fn from_str(value: &str) -> (r: Option<RetryStrategy>)
        ensures
            r == strategy_from_name(value@),
    {
        let v = trim(value);
        if lower_eq(v, "fixed") {
            Some(RetryStrategy::Fixed)
        } else if lower_eq(v, "exponential") {
            Some(RetryStrategy::Exponential)
        } else {
            None
        }
    }
}

/// Every strategy reads back from its stored name.
pub proof fn lemma_strategy_name_round_trip(strategy: RetryStrategy)
    ensures
        strategy_from_name(strategy_name(strategy)) == Some(strategy),
{
    reveal_strlit("fixed");
    reveal_strlit("exponential");
    let n = strategy_name(strategy);
    assert(trimmed(n) == n) by {
        assert(!crate::text::is_ws(n[0]));
        assert(!crate::text::is_ws(n.last()));
        assert(crate::text::trim_start(n) == n);
    }
    assert(lower_seq(n) =~= n);
}

/// What an attempt does when its execution times out.
#[derive(Clone, Copy, Debug, PartialEq, Eq, Structural)]
pub struct TimeoutPolicyConfig {
    pub timeout_ms: i64,
    pub on_timeout_status: AttemptExecutionStatus,
}

/// A timeout policy is accepted when its timeout is positive and its terminal status is failed or cancelled.
pub fn validate_timeout_policy(policy: &TimeoutPolicyConfig) -> (r: Result<(), KernelError>)
    ensures
        r is Ok <==> policy.timeout_ms > 0 && (policy.on_timeout_status == AttemptExecutionStatus::Failed
            || policy.on_timeout_status == AttemptExecutionStatus::Cancelled),
        r matches Err(KernelError::Driver(m)) ==> m@ == (if policy.timeout_ms <= 0 {
            "timeout policy timeout_ms must be > 0"@
        } else {
            "timeout policy terminal status must be failed or cancelled"@
        }),
        r is Err ==> r matches Err(KernelError::Driver(_)),
{
    if policy.timeout_ms <= 0 {
        return Err(KernelError::Driver("timeout policy timeout_ms must be > 0".to_owned()));
    }
    match policy.on_timeout_status {
        AttemptExecutionStatus::Failed | AttemptExecutionStatus::Cancelled => Ok(()),
        _ => Err(KernelError::Driver("timeout policy terminal status must be failed or cancelled".to_owned())),
    }
}

} // verus!
