//! Append-only event logs, one per run.
use crate::kernel::event::{Event, KernelError, SeqNo, SequencedEvent, number_from, numbered};
use crate::text::str_eq;
use vstd::prelude::*;

verus! {

/// Storage of per-run event logs.
///
/// A store keeps, for every run, a log numbered 1, 2, 3, ...; appending
/// extends one run's log and leaves the others untouched.
pub trait EventStore<V> {
    /// The log of a run.
    spec fn log(&self, run_id: Seq<char>) -> Seq<SequencedEvent<V>>;

    /// Every log is numbered from 1 without gaps.
    spec fn well_formed(&self) -> bool;

    /// The store can tell the run's head (a store backed by a database may not).
    spec fn readable(&self, run_id: Seq<char>) -> bool;

    /// The store takes `n` more events for the run.
    spec fn accepts(&self, run_id: Seq<char>, n: nat) -> bool;

    /// Appends `events` to the run's log, numbering them after its head; returns the new head.
    fn append(&mut self, run_id: &str, events: Vec<Event<V>>) -> (r: Result<SeqNo, KernelError>)
        requires
            old(self).well_formed(),
        ensures
            final(self).well_formed(),
            r matches Ok(head) ==> {
                &&& final(self).log(run_id@) == old(self).log(run_id@) + number_from(
                    events@,
                    (old(self).log(run_id@).len() + 1) as int,
                )
                &&& head == final(self).log(run_id@).len()
            },
            r is Ok <==> old(self).accepts(run_id@, events@.len()),
            r is Err ==> final(self).log(run_id@) == old(self).log(run_id@),
            forall|other: Seq<char>|
                other != run_id@ ==> #[trigger] final(self).log(other) == old(self).log(other),
    ;

    /// Sequence number of the run's last event (0 when the run has none).
    fn head(&self, run_id: &str) -> (r: Result<SeqNo, KernelError>)
        requires
            self.well_formed(),
        ensures
            r is Ok <==> self.readable(run_id@),
            r matches Ok(h) ==> h == self.log(run_id@).len(),
    ;

    /// The event at position `index` (0-based) of the run's log.
    fn get(&self, run_id: &str, index: u64) -> (r: Option<&SequencedEvent<V>>)
        requires
            self.well_formed(),
        ensures
            index < self.log(run_id@).len() ==> r == Some(&self.log(run_id@)[index as int]),
            index >= self.log(run_id@).len() ==> r is None,
    ;
}

/// One run's log inside [InMemoryEventStore].
pub struct RunLog<V> {
    pub run_id: String,
    pub events: Vec<SequencedEvent<V>>,
}

/// Position of a run within a sequence of run logs.
pub closed spec fn slot_in<V>(runs: Seq<RunLog<V>>, run_id: Seq<char>) -> Option<int> {
    if exists|i: int| 0 <= i < runs.len() && #[trigger] runs[i].run_id@ == run_id {
        Some(choose|i: int| 0 <= i < runs.len() && #[trigger] runs[i].run_id@ == run_id)
    } else {
        None
    }
}

/// The log of a run within a sequence of run logs.
pub closed spec fn log_in<V>(runs: Seq<RunLog<V>>, run_id: Seq<char>) -> Seq<SequencedEvent<V>> {
    match slot_in(runs, run_id) {
        Some(i) => runs[i].events@,
        None => Seq::empty(),
    }
}

pub closed spec fn distinct_runs<V>(runs: Seq<RunLog<V>>) -> bool {
    forall|i: int, j: int|
        0 <= i < runs.len() && 0 <= j < runs.len() && i != j ==> runs[i].run_id@ != runs[j].run_id@
}

proof fn lemma_slot_at<V>(runs: Seq<RunLog<V>>, run_id: Seq<char>, i: int)
    requires
        distinct_runs(runs),
        0 <= i < runs.len(),
        runs[i].run_id@ == run_id,
    ensures
        slot_in(runs, run_id) == Some(i),
        log_in(runs, run_id) == runs[i].events@,
{
    let j = choose|j: int| 0 <= j < runs.len() && #[trigger] runs[j].run_id@ == run_id;
    assert(j == i);
}

proof fn lemma_slot_none<V>(runs: Seq<RunLog<V>>, run_id: Seq<char>)
    requires
        forall|k: int| 0 <= k < runs.len() ==> #[trigger] runs[k].run_id@ != run_id,
    ensures
        slot_in(runs, run_id) is None,
        log_in(runs, run_id) == Seq::<SequencedEvent<V>>::empty(),
{
}

/// Replacing the log at `idx` (same run id) leaves every other run's log unchanged.
proof fn lemma_update_others<V>(runs: Seq<RunLog<V>>, idx: int, r: RunLog<V>)
    requires
        distinct_runs(runs),
        0 <= idx < runs.len(),
        r.run_id@ == runs[idx].run_id@,
    ensures
        distinct_runs(runs.update(idx, r)),
        log_in(runs.update(idx, r), r.run_id@) == r.events@,
        forall|other: Seq<char>|
            other != r.run_id@ ==> #[trigger] log_in(runs.update(idx, r), other) == log_in(runs, other),
{
    let runs2 = runs.update(idx, r);
    lemma_slot_at(runs2, r.run_id@, idx);
    assert forall|other: Seq<char>| other != r.run_id@ implies #[trigger] log_in(runs2, other)
        == log_in(runs, other) by {
        if exists|k: int| 0 <= k < runs.len() && #[trigger] runs[k].run_id@ == other {
            let k = choose|k: int| 0 <= k < runs.len() && #[trigger] runs[k].run_id@ == other;
            lemma_slot_at(runs, other, k);
            assert(runs2[k] == runs[k]);
            lemma_slot_at(runs2, other, k);
        } else {
            lemma_slot_none(runs, other);
            assert forall|k: int| 0 <= k < runs2.len() implies #[trigger] runs2[k].run_id@ != other by {
                if k != idx {
                    assert(runs2[k] == runs[k]);
                }
            }
            lemma_slot_none(runs2, other);
        }
    }
}

/// Adding a run log with a fresh id leaves every other run's log unchanged.
proof fn lemma_push_fresh<V>(runs: Seq<RunLog<V>>, r: RunLog<V>)
    requires
        distinct_runs(runs),
        forall|k: int| 0 <= k < runs.len() ==> #[trigger] runs[k].run_id@ != r.run_id@,
        r.events@.len() == 0,
    ensures
        distinct_runs(runs.push(r)),
        forall|other: Seq<char>| #[trigger] log_in(runs.push(r), other) == log_in(runs, other),
{
    let runs2 = runs.push(r);
    assert forall|other: Seq<char>| #[trigger] log_in(runs2, other) == log_in(runs, other) by {
        if other == r.run_id@ {
            lemma_slot_none(runs, other);
            lemma_slot_at(runs2, other, runs.len() as int);
        } else if exists|k: int| 0 <= k < runs.len() && #[trigger] runs[k].run_id@ == other {
            let k = choose|k: int| 0 <= k < runs.len() && #[trigger] runs[k].run_id@ == other;
            lemma_slot_at(runs, other, k);
            lemma_slot_at(runs2, other, k);
        } else {
            lemma_slot_none(runs, other);
            lemma_slot_none(runs2, other);
        }
    }
}

/// Event store kept in memory.
pub struct InMemoryEventStore<V> {
    runs: Vec<RunLog<V>>,
}

impl<V> InMemoryEventStore<V> {
    /// An empty store.
    pub fn new() -> (r: Self)
        ensures
            r.well_formed(),
            forall|run: Seq<char>| #[trigger] r.log(run) == Seq::<SequencedEvent<V>>::empty(),
    {
        let r = InMemoryEventStore { runs: Vec::new() };
        proof {
            assert forall|run: Seq<char>| #[trigger] r.log(run) == Seq::<SequencedEvent<V>>::empty() by {
                lemma_slot_none(r.runs@, run);
            }
        }
        r
    }

    fn find(&self, run_id: &str) -> (r: Option<usize>)
        requires
            distinct_runs(self.runs@),
        ensures
            r matches Some(i) ==> i < self.runs@.len() && self.runs@[i as int].run_id@ == run_id@,
            r is None ==> forall|k: int| 0 <= k < self.runs@.len() ==> #[trigger] self.runs@[k].run_id@ != run_id@,
    {
        let mut i: usize = 0;
        while i < self.runs.len()
            invariant
                i <= self.runs@.len(),
                forall|k: int| 0 <= k < i ==> #[trigger] self.runs@[k].run_id@ != run_id@,
            decreases self.runs@.len() - i,
        {
            if str_eq(self.runs[i].run_id.as_str(), run_id) {
                return Some(i);
            }
            i = i + 1;
        }
        None
    }
}

impl<V> EventStore<V> for InMemoryEventStore<V> {
    closed spec fn log(&self, run_id: Seq<char>) -> Seq<SequencedEvent<V>> {
        log_in(self.runs@, run_id)
    }

    closed spec fn well_formed(&self) -> bool {
        &&& distinct_runs(self.runs@)
        &&& forall|i: int| 0 <= i < self.runs@.len() ==> numbered(#[trigger] self.runs@[i].events@)
        &&& forall|i: int|
            0 <= i < self.runs@.len() ==> (#[trigger] self.runs@[i].events@).len() < u64::MAX
    }

    /// Heads are always known.
    open spec fn readable(&self, run_id: Seq<char>) -> bool {
        true
    }

    /// A log holds fewer than `u64::MAX - 1` events.
    open spec fn accepts(&self, run_id: Seq<char>, n: nat) -> bool {
        self.log(run_id).len() + n < u64::MAX - 1
    }

    fn append(&mut self, run_id: &str, events: Vec<Event<V>>) -> (r: Result<SeqNo, KernelError>) {
        let found = self.find(run_id);
        let idx: usize = match found {
            Some(i) => i,
            None => {
                let fresh = RunLog { run_id: run_id.to_owned(), events: Vec::new() };
                proof {
                    lemma_push_fresh(self.runs@, fresh);
                }
                self.runs.push(fresh);
                self.runs.len() - 1
            },
        };
        let ghost before = self.runs@;
        proof {
            assert forall|i: int| 0 <= i < before.len() implies numbered(#[trigger] before[i].events@)
                && before[i].events@.len() < u64::MAX by {
                if i < old(self).runs@.len() {
                    assert(before[i] == old(self).runs@[i]);
                }
            }
            lemma_slot_at(before, run_id@, idx as int);
            assert forall|other: Seq<char>| #![auto] other != run_id@ implies log_in(before, other)
                == log_in(old(self).runs@, other) by {}
        }
        proof {
            if found is None {
                lemma_slot_none(old(self).runs@, run_id@);
            } else {
                lemma_slot_at(old(self).runs@, run_id@, idx as int);
            }
            assert(old(self).log(run_id@) == before[idx as int].events@);
        }
        let mut run = self.runs.remove(idx);
        let start = run.events.len();
        if events.len() as u64 >= u64::MAX - 1 - start as u64 {
            self.runs.insert(idx, run);
            proof {
                assert(self.runs@ =~= before);
            }
            return Err(KernelError::EventStore("event log is full".to_owned()));
        }
        let mut events = events;
        let ghost evs = events@;
        let mut drained: Vec<Event<V>> = Vec::new();
        while events.len() > 0
            invariant
                drained@ + events@.reverse() == evs.reverse(),
            decreases events@.len(),
        {
            let e = events.pop().unwrap();
            proof {
                assert(drained@.push(e) + events@.reverse() =~= drained@ + (events@.push(
                    e,
                )).reverse());
            }
            drained.push(e);
        }
        proof {
            assert(drained@ =~= evs.reverse());
            assert(evs.subrange(0, evs.len() as int) =~= evs);
            assert(evs.subrange(0, 0) =~= Seq::<Event<V>>::empty());
            assert(run.events@ =~= before[idx as int].events@ + number_from(evs.subrange(0, 0), start + 1));
        }
        let total = drained.len();
        let mut k: usize = 0;
        while drained.len() > 0
            invariant
                idx < before.len(),
                start == before[idx as int].events@.len(),
                start + evs.len() < u64::MAX - 1,
                total == evs.len(),
                drained@.len() + k == total,
                drained@ == evs.subrange(k as int, total as int).reverse(),
                run.events@ == before[idx as int].events@ + number_from(
                    evs.subrange(0, k as int),
                    start + 1,
                ),
                run.run_id@ == run_id@,
            decreases drained@.len(),
        {
            let e = drained.pop().unwrap();
            proof {
                assert(evs.subrange(k as int, total as int).reverse().last() == evs[k as int]);
                assert(drained@ =~= evs.subrange(k + 1, total as int).reverse());
            }
            let seq: u64 = start as u64 + k as u64 + 1;
            run.events.push(SequencedEvent { seq, event: e });
            proof {
                assert(run.events@ =~= before[idx as int].events@ + number_from(
                    evs.subrange(0, k + 1),
                    start + 1,
                ));
            }
            k = k + 1;
        }
        let head = run.events.len() as u64;
        proof {
            assert(numbered(run.events@));
            lemma_update_others(before, idx as int, run);
        }
        self.runs.insert(idx, run);
        proof {
            assert(self.runs@ =~= before.update(idx as int, run));
            assert forall|i: int| 0 <= i < self.runs@.len() implies numbered(
                #[trigger] self.runs@[i].events@,
            ) && self.runs@[i].events@.len() < u64::MAX by {
                if i != idx {
                    assert(self.runs@[i] == before[i]);
                }
            }
        }
        Ok(head)
    }

    fn head(&self, run_id: &str) -> (r: Result<SeqNo, KernelError>) {
        match self.find(run_id) {
            Some(i) => {
                proof {
                    lemma_slot_at(self.runs@, run_id@, i as int);
                }
                Ok(self.runs[i].events.len() as u64)
            },
            None => {
                proof {
                    lemma_slot_none(self.runs@, run_id@);
                }
                Ok(0)
            },
        }
    }

    fn get(&self, run_id: &str, index: u64) -> (r: Option<&SequencedEvent<V>>) {
        match self.find(run_id) {
            Some(i) => {
                proof {
                    lemma_slot_at(self.runs@, run_id@, i as int);
                }
                if index < self.runs[i].events.len() as u64 {
                    Some(&self.runs[i].events[index as usize])
                } else {
                    None
                }
            },
            None => {
                proof {
                    lemma_slot_none(self.runs@, run_id@);
                }
                None
            },
        }
    }
}

} // verus!
