//! Governance: authorization, retry decisions and budgets.
use crate::kernel::event::{Action, KernelError};
use vstd::prelude::*;

verus! {

/// Context passed to a policy (caller identity, run metadata).
#[derive(Clone, Debug)]
pub struct PolicyCtx {
    pub user_id: Option<String>,
    pub metadata: Vec<(String, String)>,
}

impl PolicyCtx {
    /// No caller identity and no metadata.
    pub fn new() -> (r: Self)
        ensures
            r.user_id is None,
            r.metadata@.len() == 0,
    {
        PolicyCtx { user_id: None, metadata: Vec::new() }
    }
}

impl Default for PolicyCtx {
    fn default() -> (r: Self)
        ensures
            r.user_id is None,
            r.metadata@.len() == 0,
    {
        PolicyCtx::new()
    }
}

/// Decision after an action failed with an error.
#[derive(Clone, Copy, Debug, PartialEq, Eq)]
pub enum RetryDecision {
    Retry,
    RetryAfterMs(u64),
    Fail,
}

/// Optional budget rules (cost, token limits).
#[derive(Clone, Copy, Debug, PartialEq, Eq)]
pub struct BudgetRules {
    pub max_tool_calls: Option<u64>,
    pub max_llm_tokens: Option<u64>,
}

impl BudgetRules {
    /// No limits.
    pub fn unlimited() -> (r: Self)
        ensures
            r.max_tool_calls is None,
            r.max_llm_tokens is None,
    {
        BudgetRules { max_tool_calls: None, max_llm_tokens: None }
    }
}

impl Default for BudgetRules {
    fn default() -> (r: Self)
        ensures
            r.max_tool_calls is None,
            r.max_llm_tokens is None,
    {
        BudgetRules::unlimited()
    }
}

/// Authorizes actions, decides retries and provides a budget.
pub trait Policy<V> {
    /// This policy may allow `action` of run `run_id`; unless an implementation says more,
    /// any action.
    open spec fn permits(&self, run_id: Seq<char>, action: Action<V>) -> bool {
        true
    }

    /// `d` is a decision this policy may take on the error `err` of `action` at retry
    /// `attempt` (0 for the first failure); unless an implementation says more, any decision.
    open spec fn decides(&self, err: KernelError, action: Action<V>, attempt: u32, d: RetryDecision) -> bool {
        true
    }

    /// Whether the action is allowed for this run and context.
    fn authorize(&self, run_id: &str, action: &Action<V>, ctx: &PolicyCtx) -> (r: Result<(), KernelError>)
        ensures
            r is Ok ==> self.permits(run_id@, *action),
    ;

    /// Whether to retry after an error, whatever the retry.
    fn retry_strategy(&self, err: &KernelError, action: &Action<V>) -> (r: RetryDecision)
        ensures
            forall|attempt: u32| #[trigger] self.decides(*err, *action, attempt, r),
    ;

    /// Retry decision for the given retry attempt (0 for the first failure);
    /// by default the same as [Policy::retry_strategy].
    fn retry_strategy_attempt(&self, err: &KernelError, action: &Action<V>, attempt: u32) -> (r: RetryDecision)
        ensures
            self.decides(*err, *action, attempt, r),
    {
        self.retry_strategy(err, action)
    }

    /// Budget; by default no limits.
    fn budget(&self) -> (r: BudgetRules)
        default_ensures
            r.max_tool_calls is None,
            r.max_llm_tokens is None,
    {
        BudgetRules::unlimited()
    }
}

} // verus!
