//! Snapshots of run state, used to shorten replay.
use crate::kernel::event::{KernelError, SeqNo};
use crate::text::str_eq;
use vstd::prelude::*;

verus! {

/// The state of a run after the event with sequence number `at_seq`.
#[derive(Clone, Debug)]
pub struct Snapshot<S> {
    pub run_id: String,
    pub at_seq: SeqNo,
    pub state: S,
}

/// Storage of snapshots.
pub trait SnapshotStore<S> {
    /// `r` is an answer this store may give when asked for the run's most recent snapshot;
    /// unless an implementation says more, any answer.
    open spec fn loads(&self, run_id: Seq<char>, r: Result<Option<Snapshot<S>>, KernelError>) -> bool {
        true
    }

    /// The most recent snapshot of the run, if any.
    fn load_latest(&self, run_id: &str) -> (r: Result<Option<Snapshot<S>>, KernelError>)
        ensures
            self.loads(run_id@, r),
    ;

    /// Stores a snapshot.
    fn save(&mut self, snapshot: Snapshot<S>) -> Result<(), KernelError>;
}

/// Snapshot store kept in memory.
pub struct InMemorySnapshotStore<S> {
    snaps: Vec<Snapshot<S>>,
}

/// Index of the last snapshot of `run_id` among the first `n` of `snaps`.
pub open spec fn latest_index<S>(snaps: Seq<Snapshot<S>>, run_id: Seq<char>, n: int) -> Option<int>
    decreases n,
{
    if n <= 0 {
        None
    } else if snaps[n - 1].run_id@ == run_id {
        Some(n - 1)
    } else {
        latest_index(snaps, run_id, n - 1)
    }
}

impl<S: Clone> InMemorySnapshotStore<S> {
    /// The saved snapshots, oldest first.
    pub closed spec fn saved(&self) -> Seq<Snapshot<S>> {
        self.snaps@
    }

    /// An empty store.
    pub fn new() -> (r: Self)
        ensures
            r.saved().len() == 0,
    {
        InMemorySnapshotStore { snaps: Vec::new() }
    }

    /// The most recently saved snapshot of the run (its state cloned).
    pub fn latest(&self, run_id: &str) -> (r: Option<Snapshot<S>>)
        ensures
            match latest_index(self.saved(), run_id@, self.saved().len() as int) {
                None => r is None,
                Some(i) => r matches Some(sn) && sn.run_id@ == self.saved()[i].run_id@
                    && sn.at_seq == self.saved()[i].at_seq && cloned(self.saved()[i].state, sn.state),
            },
    {
        let mut i = self.snaps.len();
        while i > 0
            invariant
                i <= self.snaps@.len(),
                latest_index(self.snaps@, run_id@, self.snaps@.len() as int) == latest_index(
                    self.snaps@,
                    run_id@,
                    i as int,
                ),
            decreases i,
        {
            if str_eq(self.snaps[i - 1].run_id.as_str(), run_id) {
                let sn = &self.snaps[i - 1];
                return Some(Snapshot { run_id: sn.run_id.clone(), at_seq: sn.at_seq, state: sn.state.clone() });
            }
            i = i - 1;
        }
        None
    }

    /// Appends a snapshot.
    pub fn push(&mut self, snapshot: Snapshot<S>)
        ensures
            final(self).saved() == old(self).saved().push(snapshot),
    {
        self.snaps.push(snapshot);
    }
}

impl<S: Clone> SnapshotStore<S> for InMemorySnapshotStore<S> {
    /// The latest saved snapshot of the run (its state cloned), never an error.
    open spec fn loads(&self, run_id: Seq<char>, r: Result<Option<Snapshot<S>>, KernelError>) -> bool {
        r matches Ok(found) && match latest_index(self.saved(), run_id, self.saved().len() as int) {
            None => found is None,
            Some(i) => found matches Some(sn) && sn.run_id@ == self.saved()[i].run_id@
                && sn.at_seq == self.saved()[i].at_seq && cloned(self.saved()[i].state, sn.state),
        }
    }

    fn load_latest(&self, run_id: &str) -> (r: Result<Option<Snapshot<S>>, KernelError>)
        ensures
            r matches Ok(found) && match latest_index(self.saved(), run_id@, self.saved().len() as int) {
                None => found is None,
                Some(i) => found matches Some(sn) && sn.run_id@ == self.saved()[i].run_id@
                    && sn.at_seq == self.saved()[i].at_seq && cloned(self.saved()[i].state, sn.state),
            },
    {
        Ok(self.latest(run_id))
    }

    fn save(&mut self, snapshot: Snapshot<S>) -> (r: Result<(), KernelError>)
        ensures
            r is Ok,
            final(self).saved() == old(self).saved().push(snapshot),
    {
        self.push(snapshot);
        Ok(())
    }
}

/// Loading after saving gives back the snapshot just saved.
pub proof fn lemma_load_after_save<S>(snaps: Seq<Snapshot<S>>, snapshot: Snapshot<S>)
    ensures
        latest_index(snaps.push(snapshot), snapshot.run_id@, (snaps.len() + 1) as int) == Some(snaps.len() as int),
        snaps.push(snapshot)[snaps.len() as int] == snapshot,
{
}

} // verus!
