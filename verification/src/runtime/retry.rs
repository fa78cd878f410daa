//! Retry policy of an attempt and the decision taken when an attempt is acknowledged.
use crate::runtime::attempt::{AttemptExecutionStatus, RetryStrategy};
use vstd::prelude::*;

verus! {

/// How a failed attempt is retried.
///
/// The exponential multiplier is a floating-point value; it is carried here by its
/// bit pattern (`f64::to_bits`) so that the policy can be stored and handed back to
/// the caller that computes exponential growth.
#[derive(Clone, Copy, Debug, PartialEq, Eq, Structural)]
pub struct RetryPolicyConfig {
    pub strategy: RetryStrategy,
    pub backoff_ms: i64,
    pub max_backoff_ms: Option<i64>,
    pub multiplier_bits: Option<u64>,
    pub max_retries: u32,
}

/// `raw` capped by `max`, when there is one.
pub open spec fn capped_backoff(raw: int, max: Option<i64>) -> int {
    match max {
        Some(m) => if raw < m { raw } else { m as int },
        None => raw,
    }
}

/// Backoff before the next try: the fixed backoff, or the exponential growth
/// `exponential_raw_ms` computed for the current attempt, capped by `max_backoff_ms`.
pub open spec fn next_backoff(policy: RetryPolicyConfig, exponential_raw_ms: i64) -> int {
    capped_backoff(
        match policy.strategy {
            RetryStrategy::Fixed => policy.backoff_ms as int,
            RetryStrategy::Exponential => exponential_raw_ms as int,
        },
        policy.max_backoff_ms,
    )
}

impl RetryPolicyConfig {
    /// Backoff before the next try (see [next_backoff]).
    pub fn next_backoff_ms(&self, exponential_raw_ms: i64) -> (r: i64)
        ensures
            r == next_backoff(*self, exponential_raw_ms),
    {
        let raw = match self.strategy {
            RetryStrategy::Fixed => self.backoff_ms,
            RetryStrategy::Exponential => exponential_raw_ms,
        };
        match self.max_backoff_ms {
            Some(m) => if raw < m { raw } else { m },
            None => raw,
        }
    }
}

/// Backoff law: a fixed policy waits its own `backoff_ms`, held at `max_backoff_ms`, whatever
/// exponential growth is passed; an exponential policy waits the growth, held at
/// `max_backoff_ms`; no policy waits longer than its cap.
pub proof fn lemma_backoff_by_strategy(policy: RetryPolicyConfig, growth: i64, other_growth: i64)
    ensures
        policy.strategy == RetryStrategy::Fixed ==> next_backoff(policy, growth) == next_backoff(policy, other_growth),
        policy.strategy == RetryStrategy::Fixed ==> next_backoff(policy, growth) <= policy.backoff_ms,
        policy.strategy == RetryStrategy::Fixed && policy.max_backoff_ms is None ==> next_backoff(policy, growth)
            == policy.backoff_ms,
        policy.strategy == RetryStrategy::Fixed && (policy.max_backoff_ms matches Some(m) && policy.backoff_ms <= m)
            ==> next_backoff(policy, growth) == policy.backoff_ms,
        policy.strategy == RetryStrategy::Exponential && policy.max_backoff_ms is None ==> next_backoff(policy, growth)
            == growth,
        policy.strategy == RetryStrategy::Exponential && (policy.max_backoff_ms matches Some(m) && growth <= m)
            ==> next_backoff(policy, growth) == growth,
        policy.max_backoff_ms matches Some(m) ==> next_backoff(policy, growth) <= m,
{
}

/// What acknowledging an attempt does.
#[derive(Clone, Copy, Debug, PartialEq, Eq, Structural)]
pub enum AckPlan {
    /// The attempt goes back to the queue after `backoff_ms`, as attempt `next_attempt_no`.
    Retry { next_attempt_no: u32, backoff_ms: i64, retry_at_ms: i64 },
    /// The attempt takes the acknowledged status for good; a failure goes to the dead-letter queue.
    Terminal { attempt_no: u32, dead_letter: bool },
}

/// Attempt number as counted for retries: stored numbers below 1 count as 1.
pub open spec fn counted_attempt_no(stored: u32) -> u32 {
    if stored < 1 { 1 } else { stored }
}

/// A failure is retried while the attempt number does not exceed `max_retries`.
pub open spec fn retries(status: AttemptExecutionStatus, stored_attempt_no: u32, policy: Option<RetryPolicyConfig>) -> bool {
    status == AttemptExecutionStatus::Failed && policy is Some
        && counted_attempt_no(stored_attempt_no) <= policy->0.max_retries
}

/// Backoff of a retry: at least one millisecond.
pub open spec fn retry_backoff(policy: RetryPolicyConfig, exponential_raw_ms: i64) -> int {
    let b = next_backoff(policy, exponential_raw_ms);
    if b < 1 { 1 } else { b }
}

/// The decision taken when an attempt is acknowledged with `status`.
pub open spec fn ack_plan(
    status: AttemptExecutionStatus,
    stored_attempt_no: u32,
    policy: Option<RetryPolicyConfig>,
    exponential_raw_ms: i64,
    now_ms: i64,
) -> AckPlan {
    let n = counted_attempt_no(stored_attempt_no);
    if retries(status, stored_attempt_no, policy) {
        let b = retry_backoff(policy->0, exponential_raw_ms);
        AckPlan::Retry { next_attempt_no: (n + 1) as u32, backoff_ms: b as i64, retry_at_ms: (now_ms + b) as i64 }
    } else {
        AckPlan::Terminal { attempt_no: n, dead_letter: status == AttemptExecutionStatus::Failed }
    }
}

/// The inputs on which acknowledging is defined: the next attempt number and the
/// retry time fit their types.
pub open spec fn ack_plan_defined(
    status: AttemptExecutionStatus,
    stored_attempt_no: u32,
    policy: Option<RetryPolicyConfig>,
    exponential_raw_ms: i64,
    now_ms: i64,
) -> bool {
    retries(status, stored_attempt_no, policy) ==> (counted_attempt_no(stored_attempt_no) < u32::MAX && now_ms
        + retry_backoff(policy->0, exponential_raw_ms) <= i64::MAX)
}

/// Decides what acknowledging an attempt with `status` does: a failure with a retry policy
/// whose `max_retries` the attempt number does not exceed is retried after the policy's backoff
/// (at least one millisecond); anything else is terminal, and a terminal failure is dead-lettered.
pub fn plan_ack(
    status: AttemptExecutionStatus,
    stored_attempt_no: u32,
    policy: Option<RetryPolicyConfig>,
    exponential_raw_ms: i64,
    now_ms: i64,
) -> (r: AckPlan)
    requires
        ack_plan_defined(status, stored_attempt_no, policy, exponential_raw_ms, now_ms),
    ensures
        r == ack_plan(status, stored_attempt_no, policy, exponential_raw_ms, now_ms),
{
    let n: u32 = if stored_attempt_no < 1 { 1 } else { stored_attempt_no };
    let failed = match status {
        AttemptExecutionStatus::Failed => true,
        _ => false,
    };
    match policy {
        Some(p) => {
            if failed && n <= p.max_retries {
                let b0 = p.next_backoff_ms(exponential_raw_ms);
                let b: i64 = if b0 < 1 { 1 } else { b0 };
                return AckPlan::Retry { next_attempt_no: n + 1, backoff_ms: b, retry_at_ms: now_ms + b };
            }
        },
        None => {},
    }
    AckPlan::Terminal { attempt_no: n, dead_letter: failed }
}

/// Retry budget: under a policy allowing `max_retries` retries, an attempt that keeps
/// failing from attempt 1 is retried exactly `max_retries` times, each retry numbering the
/// next attempt one higher, and the failure of attempt `max_retries + 1` is terminal and
/// dead-lettered.
pub proof fn lemma_retry_budget(policy: RetryPolicyConfig, exponential_raw_ms: i64, now_ms: i64, n: u32)
    requires
        policy.max_retries < u32::MAX,
        1 <= n,
        n <= policy.max_retries + 1,
    ensures
        n <= policy.max_retries ==> (ack_plan(AttemptExecutionStatus::Failed, n, Some(policy), exponential_raw_ms, now_ms)
            matches AckPlan::Retry { next_attempt_no, .. } && next_attempt_no == n + 1),
        n == policy.max_retries + 1 ==> ack_plan(AttemptExecutionStatus::Failed, n, Some(policy), exponential_raw_ms, now_ms)
            == (AckPlan::Terminal { attempt_no: n, dead_letter: true }),
{
}

/// Only failures are retried: any other acknowledged status is terminal and never dead-lettered.
pub proof fn lemma_only_failures_retry(
    status: AttemptExecutionStatus,
    stored_attempt_no: u32,
    policy: Option<RetryPolicyConfig>,
    exponential_raw_ms: i64,
    now_ms: i64,
)
    requires
        status != AttemptExecutionStatus::Failed,
    ensures
        ack_plan(status, stored_attempt_no, policy, exponential_raw_ms, now_ms)
            == (AckPlan::Terminal { attempt_no: counted_attempt_no(stored_attempt_no), dead_letter: false }),
{
}

/// A retry is scheduled strictly in the future, never later than the cap allows.
pub proof fn lemma_retry_in_future(
    policy: RetryPolicyConfig,
    stored_attempt_no: u32,
    exponential_raw_ms: i64,
    now_ms: i64,
)
    requires
        retries(AttemptExecutionStatus::Failed, stored_attempt_no, Some(policy)),
    ensures
        ack_plan(AttemptExecutionStatus::Failed, stored_attempt_no, Some(policy), exponential_raw_ms, now_ms)
            matches AckPlan::Retry { backoff_ms, .. } && backoff_ms >= 1
            && (policy.max_backoff_ms is Some && policy.max_backoff_ms->0 >= 1 ==> backoff_ms <= policy.max_backoff_ms->0),
{
}

} // verus!
