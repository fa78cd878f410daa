//! Timeline forking: alternate executions from a point of a run's log.
//!
//! A fork replays the source run up to a sequence number, applies an
//! alternate event at the fork point, then applies the remaining events of
//! the source run on top of it.
use crate::kernel::event::{Event, KernelError, SeqNo, SequencedEvent};
use crate::kernel::event_store::EventStore;
use crate::kernel::reducer::{Reducer, fold_events, lemma_fold_concat, lemma_fold_none_extends, lemma_fold_push, replay_range};
use crate::runtime::recovery::RunId;
use vstd::prelude::*;

verus! {

/// Metadata of a fork.
#[derive(Clone, Debug)]
pub struct TimelineFork<V> {
    /// The run that was forked.
    pub source_run_id: RunId,
    /// The new branch.
    pub branch_id: RunId,
    /// Events up to and including this sequence number were replayed before the fork.
    pub fork_point_seq: SeqNo,
    /// The alternate event injected at the fork point, if any.
    pub alternate_event: Option<Event<V>>,
}

/// A fork and the state it ends in.
#[derive(Clone, Debug)]
pub struct ForkResult<S, V> {
    pub fork: TimelineFork<V>,
    pub final_state: S,
}

/// Creates alternate timelines from a run's log.
pub struct TimelineForker<E, R> {
    /// Event store (source of truth).
    pub events: E,
    /// Reducer that applies events to state.
    pub reducer: R,
}

/// Number of events of a log with sequence number at most `n`.
pub open spec fn prefix_len<V>(log: Seq<SequencedEvent<V>>, n: u64) -> int {
    if n >= log.len() { log.len() as int } else { n as int }
}

/// The events a fork at `n` applies, in order.
pub open spec fn forked_events<V>(log: Seq<SequencedEvent<V>>, n: u64, alternate: Event<V>) -> Seq<SequencedEvent<V>> {
    let k = prefix_len(log, n);
    log.subrange(0, k).push(SequencedEvent { seq: (n + 1) as u64, event: alternate }) + log.subrange(k, log.len() as int)
}

impl<E, R> TimelineForker<E, R> {
    /// Replays the run's events numbered up to and including `up_to_seq`; returns the state
    /// they lead to and `up_to_seq`.
    pub fn replay_up_to<S, V>(&self, run_id: &str, up_to_seq: SeqNo, initial_state: S) -> (r: Result<(S, SeqNo), KernelError>) where
        E: EventStore<V>,
        R: Reducer<S, V>,

        requires
            self.events.well_formed(),
        ensures
            r matches Ok((s, n)) ==> n == up_to_seq && fold_events(
                self.reducer,
                initial_state,
                self.events.log(run_id@).subrange(0, prefix_len(self.events.log(run_id@), up_to_seq)),
            ) == Some(s),
            r is Ok <==> self.events.readable(run_id@) && fold_events(
                self.reducer,
                initial_state,
                self.events.log(run_id@).subrange(0, prefix_len(self.events.log(run_id@), up_to_seq)),
            ) is Some,
    {
        let h = self.events.head(run_id)?;
        let k = if up_to_seq >= h { h } else { up_to_seq };
        let state = replay_range(&self.events, &self.reducer, run_id, initial_state, 0, k)?;
        Ok((state, up_to_seq))
    }

    /// Forks the source run at `fork_at_seq`: replays the events numbered up to
    /// it, applies `alternate_event` numbered `fork_at_seq + 1`, then applies
    /// the source run's events numbered after `fork_at_seq`.
    pub fn fork<S, V>(
        &self,
        source_run_id: &str,
        branch_id: RunId,
        fork_at_seq: SeqNo,
        alternate_event: Event<V>,
        initial_state: S,
    ) -> (r: Result<ForkResult<S, V>, KernelError>) where
        E: EventStore<V>,
        R: Reducer<S, V>,

        requires
            self.events.well_formed(),
            fork_at_seq < u64::MAX,
        ensures
            r matches Ok(res) ==> {
                &&& fold_events(self.reducer, initial_state, forked_events(self.events.log(source_run_id@), fork_at_seq, alternate_event)) == Some(res.final_state)
                &&& res.fork.source_run_id@ == source_run_id@
                &&& res.fork.branch_id == branch_id
                &&& res.fork.fork_point_seq == fork_at_seq
                &&& res.fork.alternate_event == Some(alternate_event)
            },
            r is Ok <==> self.events.readable(source_run_id@) && fold_events(
                self.reducer,
                initial_state,
                forked_events(self.events.log(source_run_id@), fork_at_seq, alternate_event),
            ) is Some,
    {
        let ghost log = self.events.log(source_run_id@);
        let h = self.events.head(source_run_id)?;
        let k = if fork_at_seq >= h { h } else { fork_at_seq };
        proof {
            let alt_ev = SequencedEvent { seq: (fork_at_seq + 1) as u64, event: alternate_event };
            let rest = seq![alt_ev] + log.subrange(k as int, h as int);
            assert(forked_events(log, fork_at_seq, alternate_event) =~= log.subrange(0, k as int) + rest);
            if fold_events(self.reducer, initial_state, log.subrange(0, k as int)) is None {
                lemma_fold_none_extends(self.reducer, initial_state, log.subrange(0, k as int), rest);
            }
        }
        let (mut state, _) = self.replay_up_to(source_run_id, fork_at_seq, initial_state)?;
        let alt = SequencedEvent { seq: fork_at_seq + 1, event: alternate_event };
        let ghost before_alt = state;
        let applied = self.reducer.apply(&mut state, &alt);
        proof {
            lemma_fold_push(self.reducer, initial_state, log.subrange(0, k as int), alt);
            let pre = log.subrange(0, k as int).push(alt);
            lemma_fold_concat(self.reducer, initial_state, pre, log.subrange(k as int, h as int));
        }
        if applied.is_err() {
            return Err(applied.unwrap_err());
        }
        let final_state = replay_range(&self.events, &self.reducer, source_run_id, state, k, h)?;
        let fork = TimelineFork {
            source_run_id: source_run_id.to_owned(),
            branch_id,
            fork_point_seq: fork_at_seq,
            alternate_event: Some(alt.event),
        };
        Ok(ForkResult { fork, final_state })
    }

    /// Replays the whole source run under a new branch, without an alternate event.
    pub fn clone_timeline<S, V>(&self, source_run_id: &str, branch_id: RunId, initial_state: S) -> (r: Result<ForkResult<S, V>, KernelError>) where
        E: EventStore<V>,
        R: Reducer<S, V>,

        requires
            self.events.well_formed(),
        ensures
            r matches Ok(res) ==> {
                &&& fold_events(self.reducer, initial_state, self.events.log(source_run_id@)) == Some(res.final_state)
                &&& res.fork.source_run_id@ == source_run_id@
                &&& res.fork.branch_id == branch_id
                &&& res.fork.fork_point_seq == 0
                &&& res.fork.alternate_event is None
            },
            r is Ok <==> self.events.readable(source_run_id@) && fold_events(self.reducer, initial_state, self.events.log(source_run_id@)) is Some,
    {
        let h = self.events.head(source_run_id)?;
        proof {
            assert(self.events.log(source_run_id@).subrange(0, h as int) =~= self.events.log(source_run_id@));
        }
        let final_state = replay_range(&self.events, &self.reducer, source_run_id, initial_state, 0, h)?;
        let fork = TimelineFork {
            source_run_id: source_run_id.to_owned(),
            branch_id,
            fork_point_seq: 0,
            alternate_event: None,
        };
        Ok(ForkResult { fork, final_state })
    }
}

} // verus!
