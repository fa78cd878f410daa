//! Step functions, action executors and the waiting used between retries.
use crate::kernel::event::{Action, ActionResult, Event, KernelError};
use vstd::prelude::*;

verus! {

/// Payload of an interrupt (human-in-the-loop or policy stop).
#[derive(Clone, Debug)]
pub struct InterruptInfo<V> {
    pub value: V,
}

/// What the step function asks the driver to do next.
#[derive(Clone, Debug)]
pub enum Next<V> {
    /// Append these events and apply them to the state.
    Emit(Vec<Event<V>>),
    /// Execute this action through the executor.
    Do(Action<V>),
    /// Stop on an interrupt.
    Interrupt(InterruptInfo<V>),
    /// The run is complete.
    Complete,
}

/// Decides the next step from the current state.
pub trait StepFn<S, V> {
    /// `r` is an answer this step function may give on `state` (a step function that asks a
    /// model may answer many ways); unless an implementation says more, any answer.
    open spec fn answers(&self, state: S, r: Result<Next<V>, KernelError>) -> bool {
        true
    }

    fn next(&self, state: &S) -> (r: Result<Next<V>, KernelError>)
        ensures
            self.answers(*state, r),
    ;
}

/// Executes actions: the single channel to tools and the outside world.
pub trait ActionExecutor<V> {
    /// `r` is an answer this executor may give to `action` of run `run_id`; unless an
    /// implementation says more, any answer.
    open spec fn answers(&self, run_id: Seq<char>, action: Action<V>, r: Result<ActionResult<V>, KernelError>) -> bool {
        true
    }

    fn execute(&self, run_id: &str, action: &Action<V>) -> (r: Result<ActionResult<V>, KernelError>)
        ensures
            self.answers(run_id@, *action, r),
    ;
}

/// Waits between retries of a failed action.
pub trait RetryDelay {
    fn wait_ms(&self, ms: u64);
}

} // verus!
