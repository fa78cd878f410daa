//! Stub components for kernels that only replay.
//! Replay calls neither the executor nor the step function.
use crate::kernel::event::{Action, ActionResult, KernelError};
use crate::kernel::policy::{Policy, PolicyCtx, RetryDecision};
use crate::kernel::step::{ActionExecutor, Next, RetryDelay, StepFn};
use vstd::prelude::*;

verus! {

/// Action executor that refuses to run anything.
pub struct NoopActionExecutor;

impl<V> ActionExecutor<V> for NoopActionExecutor {
    /// Every action is refused.
    open spec fn answers(&self, run_id: Seq<char>, action: Action<V>, r: Result<ActionResult<V>, KernelError>) -> bool {
        r matches Err(KernelError::Driver(m)) && m@ == "action execution not used in replay"@
    }

    fn execute(&self, run_id: &str, action: &Action<V>) -> (r: Result<ActionResult<V>, KernelError>)
        ensures
            r matches Err(KernelError::Driver(m)) && m@ == "action execution not used in replay"@,
    {
        Err(KernelError::Driver("action execution not used in replay".to_owned()))
    }
}

/// Step function that completes immediately.
pub struct NoopStepFn;

impl<S, V> StepFn<S, V> for NoopStepFn {
    /// The run completes at once.
    open spec fn answers(&self, state: S, r: Result<Next<V>, KernelError>) -> bool {
        r matches Ok(Next::<V>::Complete)
    }

    fn next(&self, state: &S) -> (r: Result<Next<V>, KernelError>)
        ensures
            r matches Ok(Next::<V>::Complete),
    {
        Ok(Next::Complete)
    }
}

/// Policy that allows every action.
pub struct AllowAllPolicy;

impl<V> Policy<V> for AllowAllPolicy {
    /// A failed action is never retried.
    open spec fn decides(&self, err: KernelError, action: Action<V>, attempt: u32, d: RetryDecision) -> bool {
        d == RetryDecision::Fail
    }

    fn authorize(&self, run_id: &str, action: &Action<V>, ctx: &PolicyCtx) -> (r: Result<(), KernelError>)
        ensures
            r is Ok,
    {
        Ok(())
    }

    /// Never retry.
    fn retry_strategy(&self, err: &KernelError, action: &Action<V>) -> (r: RetryDecision)
        ensures
            r == RetryDecision::Fail,
    {
        RetryDecision::Fail
    }
}

/// Retry delay that does not wait.
pub struct NoDelay;

impl RetryDelay for NoDelay {
    fn wait_ms(&self, ms: u64) {
    }
}

} // verus!
