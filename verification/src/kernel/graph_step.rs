//! Kernel state and reducer for driving a graph one node per step.
use crate::kernel::event::{Event, KernelError, SequencedEvent};
use crate::kernel::reducer::Reducer;
use crate::kernel::state::KernelState;
use vstd::prelude::*;

verus! {

/// Name of the virtual entry node of a graph.
pub const START: &'static str = "__start__";

/// Graph state plus the node to run next (kept for replay).
#[derive(Clone, Debug)]
pub struct GraphStepState<S> {
    pub graph_state: S,
    pub current_node: String,
}

impl<S> GraphStepState<S> {
    /// A state positioned at the graph's entry node.
    pub fn new(graph_state: S) -> (r: Self)
        ensures
            r.graph_state == graph_state,
            r.current_node@ == START@,
    {
        GraphStepState { graph_state, current_node: START.to_owned() }
    }
}

impl<S: KernelState> KernelState for GraphStepState<S> {
    fn version(&self) -> u32 {
        self.graph_state.version()
    }
}

/// Applies `StateUpdated` to a [GraphStepState]: the payload becomes the graph
/// state and, when present, the step id becomes the current node. Other events are no-ops.
#[derive(Debug, Clone, Default)]
pub struct GraphStepReducer;

impl<S: Copy> Reducer<GraphStepState<S>, S> for GraphStepReducer {
    open spec fn reduce(&self, state: GraphStepState<S>, event: SequencedEvent<S>) -> Option<GraphStepState<S>> {
        match event.event {
            Event::StateUpdated { step_id, payload } => Some(GraphStepState {
                graph_state: payload,
                current_node: match step_id {
                    Some(next) => next,
                    None => state.current_node,
                },
            }),
            _ => Some(state),
        }
    }

    fn apply(&self, state: &mut GraphStepState<S>, event: &SequencedEvent<S>) -> (r: Result<(), KernelError>) {
        if let Event::StateUpdated { step_id, payload } = &event.event {
            state.graph_state = *payload;
            if let Some(next) = step_id {
                state.current_node = next.clone();
            }
        }
        Ok(())
    }
}

} // verus!
