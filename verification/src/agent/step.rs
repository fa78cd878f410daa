//! Agent state driven by the kernel, and how one agent invocation becomes a kernel step.
use crate::agent::checkpoint::PromptArgs;
use crate::kernel::event::{Event, KernelError};
use crate::kernel::state::KernelState;
use crate::kernel::step::{InterruptInfo, Next};

use vstd::prelude::*;

verus! {

/// Agent state for the kernel: prompt variables and the agent's last output.
#[derive(Clone, Debug)]
pub struct AgentStepState {
    pub prompt_args: PromptArgs,
    pub last_output: Option<String>,
}

impl AgentStepState {
    /// State with these prompt variables and no output yet.
    pub fn new(prompt_args: PromptArgs) -> (r: Self)
        ensures
            r.prompt_args == prompt_args,
            r.last_output is None,
    {
        AgentStepState { prompt_args, last_output: None }
    }
}

impl Default for AgentStepState {
    /// No prompt variables and no output.
    fn default() -> (r: Self)
        ensures
            r.prompt_args@.len() == 0,
            r.last_output is None,
    {
        AgentStepState { prompt_args: Vec::new(), last_output: None }
    }
}

impl KernelState for AgentStepState {
    /// Schema version 1.
    fn version(&self) -> (r: u32)
        ensures
            r == 1,
    {
        1
    }
}

/// Outcome of one agent invocation.
#[derive(Clone, Debug)]
pub enum AgentInvokeResult {
    /// The agent answered.
    Complete(String),
    /// The agent stopped for a human; the interrupt value as JSON text.
    Interrupt { interrupt_value: String },
}

/// Values an agent step puts into the kernel's events.
#[derive(Clone, Debug)]
pub enum AgentStepValue {
    /// The agent's answer.
    Output(String),
    /// An interrupt value, as JSON text.
    InterruptValue(String),
}

/// `e` records the agent answer `out` under step `agent`.
pub open spec fn emits_output(e: Event<AgentStepValue>, out: Seq<char>) -> bool {
    e matches Event::StateUpdated { step_id: Some(id), payload: AgentStepValue::Output(o) } && id@ == AGENT_STEP_ID@ && o@ == out
}

/// Step id under which agent answers are recorded.
pub const AGENT_STEP_ID: &'static str = "agent";

/// The kernel step for one agent invocation: an answer is emitted as a state update of step
/// `agent`; an interrupt stops the run with its value; an agent failure is a driver error.
pub fn agent_step_next(result: Result<AgentInvokeResult, String>) -> (r: Result<Next<AgentStepValue>, KernelError>)
    ensures
        match result {
            Ok(AgentInvokeResult::Complete(out)) => r matches Ok(Next::Emit(evs)) && evs@.len() == 1 && emits_output(evs@[0], out@),
            Ok(AgentInvokeResult::Interrupt { interrupt_value }) => r matches Ok(Next::Interrupt(info)) && info.value matches AgentStepValue::InterruptValue(v)
                && v@ == interrupt_value@,
            Err(m) => r matches Err(KernelError::Driver(x)) && x@ == m@,
        },
{
    match result {
        Ok(AgentInvokeResult::Complete(output)) => {
            let mut events: Vec<Event<AgentStepValue>> = Vec::new();
            events.push(Event::StateUpdated { step_id: Some(AGENT_STEP_ID.to_owned()), payload: AgentStepValue::Output(output) });
            Ok(Next::Emit(events))
        },
        Ok(AgentInvokeResult::Interrupt { interrupt_value }) => Ok(
            Next::Interrupt(InterruptInfo { value: AgentStepValue::InterruptValue(interrupt_value) }),
        ),
        Err(m) => Err(KernelError::Driver(m)),
    }
}

} // verus!
