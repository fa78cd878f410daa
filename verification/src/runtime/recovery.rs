//! Crash recovery pipeline: lease expiry, checkpoint reload, replay, re-dispatch.
//!
//! When a worker crashes its lease expires; the attempt is requeued, its
//! checkpoint reloaded and replayed, and it becomes dispatchable again.
use vstd::prelude::*;

verus! {

/// Identifier of a run.
pub type RunId = String;

/// Steps of the zero-data-loss recovery pipeline.
#[derive(Clone, Copy, Debug, Eq, PartialEq)]
pub enum RecoveryStep {
    /// The lease expired or the worker is gone; the attempt is requeued.
    LeaseExpired,
    /// The run's checkpoint is reloaded.
    CheckpointReload,
    /// Execution is replayed from the checkpoint.
    Replay,
    /// The attempt can be dispatched to a new worker.
    ReadyForDispatch,
}

/// The pipeline order.
pub open spec fn recovery_order() -> Seq<RecoveryStep> {
    seq![
        RecoveryStep::LeaseExpired,
        RecoveryStep::CheckpointReload,
        RecoveryStep::Replay,
        RecoveryStep::ReadyForDispatch,
    ]
}

impl RecoveryStep {
    /// The ordered steps of the pipeline.
    pub fn pipeline() -> (r: [RecoveryStep; 4])
        ensures
            r@ == recovery_order(),
    {
        let r = [
            RecoveryStep::LeaseExpired,
            RecoveryStep::CheckpointReload,
            RecoveryStep::Replay,
            RecoveryStep::ReadyForDispatch,
        ];
        proof {
            assert(r@ =~= recovery_order());
        }
        r
    }
}

/// Context produced after checkpoint reload, handed to replay.
#[derive(Clone, Debug, Default)]
pub struct RecoveryContext {
    pub attempt_id: String,
    pub run_id: RunId,
}

impl RecoveryContext {
    pub fn new(attempt_id: &str, run_id: &str) -> (r: Self)
        ensures
            r.attempt_id@ == attempt_id@,
            r.run_id@ == run_id@,
    {
        RecoveryContext { attempt_id: attempt_id.to_owned(), run_id: run_id.to_owned() }
    }
}

/// Drives one attempt from lease expiry to re-dispatch.
#[derive(Clone, Debug)]
pub struct CrashRecoveryPipeline {
    pub attempt_id: String,
    pub run_id: RunId,
}

impl CrashRecoveryPipeline {
    pub fn new(attempt_id: &str, run_id: &str) -> (r: Self)
        ensures
            r.attempt_id@ == attempt_id@,
            r.run_id@ == run_id@,
    {
        CrashRecoveryPipeline { attempt_id: attempt_id.to_owned(), run_id: run_id.to_owned() }
    }

    /// The ordered recovery steps.
    pub fn steps() -> (r: [RecoveryStep; 4])
        ensures
            r@ == recovery_order(),
    {
        RecoveryStep::pipeline()
    }

    /// The context for the replay phase: same attempt and run.
    pub fn replay_context(&self) -> (r: RecoveryContext)
        ensures
            r.attempt_id@ == self.attempt_id@,
            r.run_id@ == self.run_id@,
    {
        RecoveryContext::new(self.attempt_id.as_str(), self.run_id.as_str())
    }
}

} // verus!
