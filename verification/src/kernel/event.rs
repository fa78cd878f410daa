//! Events, actions and errors of the kernel's event log.
//!
//! The event log is the source of truth: state is the projection of the log
//! through a [crate::kernel::reducer::Reducer]. Payloads are of a type `V`
//! chosen by the embedding application (for instance a JSON value).
use crate::text::concat;
use vstd::prelude::*;

verus! {

/// Sequence number of an event within a run; the first event has number 1.
pub type SeqNo = u64;

/// System action: the only way the kernel interacts with the outside world.
#[derive(Clone, Debug)]
pub enum Action<V> {
    CallTool { tool: String, input: V },
    CallLLM { provider: String, input: V },
    Sleep { millis: u64 },
    /// Human-in-the-loop or external signal.
    WaitSignal { name: String },
}

/// Result of executing an action; the driver turns it into an event.
#[derive(Clone, Debug)]
pub enum ActionResult<V> {
    Success(V),
    Failure(String),
}

/// One entry of a run's event log.
#[derive(Clone, Debug)]
pub enum Event<V> {
    /// The step produced a new state.
    StateUpdated { step_id: Option<String>, payload: V },
    /// An action is about to be executed.
    ActionRequested { action_id: String, action: Action<V> },
    /// The action with this id succeeded.
    ActionSucceeded { action_id: String, output: V },
    /// The action with this id failed.
    ActionFailed { action_id: String, error: String },
    /// The run stopped on an interrupt.
    Interrupted { value: V },
    /// The run was resumed with a value.
    Resumed { value: V },
    /// The run completed.
    Completed,
}

/// An event with its sequence number.
#[derive(Clone, Debug)]
pub struct SequencedEvent<V> {
    pub seq: SeqNo,
    pub event: Event<V>,
}

/// Errors of the kernel and of the stores it drives.
#[derive(Clone, Debug, PartialEq, Eq)]
pub enum KernelError {
    Driver(String),
    EventStore(String),
    SnapshotStore(String),
    Executor(String),
    Policy(String),
}

impl KernelError {
    pub open spec fn rendered(&self) -> Seq<char> {
        match self {
            KernelError::Driver(m) => "driver error: "@ + m@,
            KernelError::EventStore(m) => "event store error: "@ + m@,
            KernelError::SnapshotStore(m) => "snapshot store error: "@ + m@,
            KernelError::Executor(m) => "executor error: "@ + m@,
            KernelError::Policy(m) => "policy error: "@ + m@,
        }
    }

    /// Human-readable message.
    pub fn message(&self) -> (r: String)
        ensures
            r@ == self.rendered(),
    {
        match self {
            KernelError::Driver(m) => concat("driver error: ", m.as_str()),
            KernelError::EventStore(m) => concat("event store error: ", m.as_str()),
            KernelError::SnapshotStore(m) => concat("snapshot store error: ", m.as_str()),
            KernelError::Executor(m) => concat("executor error: ", m.as_str()),
            KernelError::Policy(m) => concat("policy error: ", m.as_str()),
        }
    }
}

/// The log numbers its events 1, 2, 3, ...
pub open spec fn numbered<V>(log: Seq<SequencedEvent<V>>) -> bool {
    forall|i: int| 0 <= i < log.len() ==> (#[trigger] log[i]).seq == i + 1
}

/// `evs` numbered consecutively from `first`.
pub open spec fn number_from<V>(evs: Seq<Event<V>>, first: int) -> Seq<SequencedEvent<V>> {
    Seq::new(evs.len(), |i: int| SequencedEvent { seq: (first + i) as u64, event: evs[i] })
}

} // verus!
