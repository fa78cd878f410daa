//! Reducer: projects events onto state.
//!
//! State is the projection of the event log: replaying a log applies the
//! reducer to each event in order. A reducer is a function of the state and
//! the event, so the same log and initial state always give the same state.
use crate::kernel::event::{Event, KernelError, SequencedEvent};
use crate::kernel::event_store::EventStore;
use crate::kernel::state::KernelState;
use vstd::prelude::*;

verus! {

/// Applies events to state. `reduce` is the mathematical function that `apply` computes.
pub trait Reducer<S, V> {
    /// The state after `event`, or `None` when the reducer rejects it.
    spec fn reduce(&self, state: S, event: SequencedEvent<V>) -> Option<S>;

    /// Applies one sequenced event to the state in place.
    fn apply(&self, state: &mut S, event: &SequencedEvent<V>) -> (r: Result<(), KernelError>)
        ensures
            r is Ok <==> self.reduce(*old(state), *event) is Some,
            r is Ok ==> self.reduce(*old(state), *event) == Some(*final(state)),
    ;
}

/// Replays `evs` from `state`, stopping at the first rejected event.
pub open spec fn fold_events<S, V, R: Reducer<S, V>>(
    reducer: R,
    state: S,
    evs: Seq<SequencedEvent<V>>,
) -> Option<S>
    decreases evs.len(),
{
    if evs.len() == 0 {
        Some(state)
    } else {
        match fold_events(reducer, state, evs.drop_last()) {
            Some(t) => reducer.reduce(t, evs.last()),
            None => None,
        }
    }
}

/// Replaying a concatenation is replaying the first part, then the second from its result.
pub proof fn lemma_fold_concat<S, V, R: Reducer<S, V>>(
    reducer: R,
    state: S,
    a: Seq<SequencedEvent<V>>,
    b: Seq<SequencedEvent<V>>,
)
    ensures
        fold_events(reducer, state, a + b) == (match fold_events(reducer, state, a) {
            Some(t) => fold_events(reducer, t, b),
            None => None,
        }),
    decreases b.len(),
{
    if b.len() == 0 {
        assert(a + b =~= a);
    } else {
        lemma_fold_concat(reducer, state, a, b.drop_last());
        assert((a + b).drop_last() =~= a + b.drop_last());
        assert((a + b).last() == b.last());
    }
}

/// Replaying one more event extends the fold by one reduction.
pub proof fn lemma_fold_push<S, V, R: Reducer<S, V>>(
    reducer: R,
    state: S,
    a: Seq<SequencedEvent<V>>,
    e: SequencedEvent<V>,
)
    ensures
        fold_events(reducer, state, a.push(e)) == (match fold_events(reducer, state, a) {
            Some(t) => reducer.reduce(t, e),
            None => None,
        }),
{
    assert(a.push(e).drop_last() =~= a);
}

/// Replays positions `from..to` of a run's log onto `state`.
pub fn replay_range<S, V, E: EventStore<V>, R: Reducer<S, V>>(
    events: &E,
    reducer: &R,
    run_id: &str,
    state: S,
    from: u64,
    to: u64,
) -> (r: Result<S, KernelError>)
    requires
        events.well_formed(),
        from <= to <= events.log(run_id@).len(),
    ensures
        r is Ok <==> fold_events(*reducer, state, events.log(run_id@).subrange(from as int, to as int)) is Some,
        r matches Ok(t) ==> fold_events(*reducer, state, events.log(run_id@).subrange(from as int, to as int)) == Some(t),
{
    let ghost log = events.log(run_id@);
    let ghost init = state;
    let mut st = state;
    let mut i = from;
    proof {
        assert(log.subrange(from as int, from as int) =~= Seq::<SequencedEvent<V>>::empty());
    }
    while i < to
        invariant
            events.well_formed(),
            log == events.log(run_id@),
            init == state,
            from <= i <= to <= log.len(),
            fold_events(*reducer, init, log.subrange(from as int, i as int)) == Some(st),
        decreases to - i,
    {
        let e = events.get(run_id, i).unwrap();
        proof {
            assert(log.subrange(from as int, i + 1) =~= log.subrange(from as int, i as int).push(log[i as int]));
            lemma_fold_push(*reducer, init, log.subrange(from as int, i as int), log[i as int]);
        }
        let ghost st_before = st;
        let res = reducer.apply(&mut st, e);
        if res.is_err() {
            proof {
                assert(fold_events(*reducer, init, log.subrange(from as int, i + 1)) is None);
                // a rejected event ends the replay: every longer prefix fails too
                lemma_fold_none_extends(*reducer, init, log.subrange(from as int, i + 1), log.subrange(i + 1, to as int));
                assert(log.subrange(from as int, i + 1) + log.subrange(i + 1, to as int) =~= log.subrange(from as int, to as int));
            }
            return Err(res.unwrap_err());
        }
        i = i + 1;
    }
    Ok(st)
}

/// Once a replay fails, replaying more events still fails.
pub proof fn lemma_fold_none_extends<S, V, R: Reducer<S, V>>(
    reducer: R,
    state: S,
    a: Seq<SequencedEvent<V>>,
    b: Seq<SequencedEvent<V>>,
)
    requires
        fold_events(reducer, state, a) is None,
    ensures
        fold_events(reducer, state, a + b) is None,
{
    lemma_fold_concat(reducer, state, a, b);
}

/// Applies only `StateUpdated`: the payload becomes the new state; every other event is a no-op.
pub struct StateUpdatedOnlyReducer;

impl<S: KernelState + Copy> Reducer<S, S> for StateUpdatedOnlyReducer {
    open spec fn reduce(&self, state: S, event: SequencedEvent<S>) -> Option<S> {
        match event.event {
            Event::StateUpdated { payload, .. } => Some(payload),
            _ => Some(state),
        }
    }

    fn apply(&self, state: &mut S, event: &SequencedEvent<S>) -> (r: Result<(), KernelError>) {
        if let Event::StateUpdated { payload, .. } = &event.event {
            *state = *payload;
        }
        Ok(())
    }
}

} // verus!
