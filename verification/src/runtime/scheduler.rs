//! Hands queued attempts to workers, one at a time.
use crate::kernel::event::KernelError;
use crate::runtime::clock::current_time_ms;
use crate::runtime::repository::{lease_refused, RuntimeRepository};
use crate::runtime::models::LeaseRecord;
use crate::text::{contains_seq, str_contains};
use vstd::prelude::*;

verus! {

/// Lease length granted on dispatch, in milliseconds.
pub const DISPATCH_LEASE_MS: i64 = 30_000;

/// Outcome of one dispatch.
#[derive(Clone, Debug)]
pub enum SchedulerDecision {
    Dispatched { attempt_id: String, worker_id: String },
    Noop,
}

/// The decision once the repository answered the lease asked for `attempt_id` on behalf of
/// `worker_id`: a granted lease dispatches the attempt, a refusal dispatches nothing, and any
/// other error is passed on.
pub fn decide_dispatch(attempt_id: String, worker_id: &str, lease: Result<LeaseRecord, KernelError>) -> (r: Result<
    SchedulerDecision,
    KernelError,
>)
    ensures
        match lease {
            Ok(_) => r matches Ok(SchedulerDecision::Dispatched { attempt_id: a, worker_id: w }) && a == attempt_id && w@
                == worker_id@,
            Err(e) => if lease_refused(e) {
                r matches Ok(SchedulerDecision::Noop)
            } else {
                r == Err::<SchedulerDecision, KernelError>(e)
            },
        },
{
    match lease {
        Ok(_) => Ok(SchedulerDecision::Dispatched { attempt_id, worker_id: worker_id.to_owned() }),
        Err(e) => {
            let refused = match &e {
                KernelError::Driver(m) => str_contains(m.as_str(), "active lease already exists") || str_contains(
                    m.as_str(),
                    "not dispatchable",
                ),
                _ => false,
            };
            if refused {
                Ok(SchedulerDecision::Noop)
            } else {
                Err(e)
            }
        },
    }
}

/// What a dispatch at `now_ms` decided: with the repository answering listings, nothing is
/// dispatched when no attempt can be handed out; when the first attempt can be leased, the
/// dispatch succeeds (the repository may still refuse the lease, and then nothing is
/// dispatched); a dispatched attempt is the first one, leased to the worker.
pub open spec fn decided_at<R: RuntimeRepository>(
    before: R,
    after: R,
    r: Result<SchedulerDecision, KernelError>,
    worker_id: Seq<char>,
    now_ms: i64,
) -> bool {
    let first = before.first_dispatchable(now_ms);
    &&& (before.lists() && first is None) ==> (r is Ok && r->Ok_0 is Noop)
    &&& (before.lists() && first is Some && before.grants(first->0, now_ms)) ==> r is Ok
    &&& (r is Ok && r->Ok_0 is Dispatched) ==> (Some(r->Ok_0->attempt_id@) == first && after.lease_of(r->Ok_0->attempt_id@)
        == Some((worker_id, (now_ms + DISPATCH_LEASE_MS) as i64)))
}

/// Dispatches queued attempts from a repository to workers.
pub struct SkeletonScheduler<R: RuntimeRepository> {
    repository: R,
}

impl<R: RuntimeRepository> SkeletonScheduler<R> {
    /// The repository dispatched from.
    pub closed spec fn repo(&self) -> R {
        self.repository
    }

    /// A scheduler over `repository`.
    pub fn new(repository: R) -> (r: Self)
        ensures
            r.repo() == repository,
    {
        SkeletonScheduler { repository }
    }

    /// The repository dispatched from.
    pub fn repository(&self) -> (r: &R)
        ensures
            *r == self.repo(),
    {
        &self.repository
    }

    /// The repository, given back.
    pub fn into_repository(self) -> (r: R)
        ensures
            r == self.repo(),
    {
        self.repository
    }

    /// Hands the first attempt in dispatch order at `now_ms` to `worker_id` with a lease of
    /// [DISPATCH_LEASE_MS]. Nothing is dispatched when no attempt can be handed out, or when
    /// the repository refuses the lease (a driver error saying that an active lease already
    /// exists or that the attempt is not dispatchable); other repository errors are
    /// passed on.
    ///
    /// Refusals are recognised by their messages (see [decide_dispatch]); whether the
    /// repository grants the lease is its own answer.
    pub fn dispatch_one_at(&mut self, worker_id: &str, now_ms: i64) -> (r: Result<SchedulerDecision, KernelError>)
        requires
            old(self).repo().repo_wf(),
            now_ms <= i64::MAX - DISPATCH_LEASE_MS,
        ensures
            final(self).repo().repo_wf(),
            old(self).repo().first_dispatchable(now_ms) is None ==> final(self).repo() == old(self).repo() && (r is Err
                || r matches Ok(SchedulerDecision::Noop)),
            r matches Ok(SchedulerDecision::Dispatched { attempt_id, worker_id: w }) ==> old(self).repo().first_dispatchable(
                now_ms,
            ) == Some(attempt_id@) && w@ == worker_id@ && final(self).repo().lease_of(attempt_id@) == Some(
                (worker_id@, (now_ms + DISPATCH_LEASE_MS) as i64),
            ),
            decided_at(old(self).repo(), final(self).repo(), r, worker_id@, now_ms),
    {
        let mut candidates = match self.repository.list_dispatchable_attempts(now_ms, 1) {
            Ok(v) => v,
            Err(e) => {
                return Err(e);
            },
        };
        let candidate = match candidates.pop() {
            None => {
                return Ok(SchedulerDecision::Noop);
            },
            Some(c) => c,
        };
        let lease_expires_at_ms = now_ms + DISPATCH_LEASE_MS;
        let lease = self.repository.upsert_lease(candidate.attempt_id.as_str(), worker_id, lease_expires_at_ms, now_ms);
        decide_dispatch(candidate.attempt_id, worker_id, lease)
    }

    /// Dispatches at the current time (see [Self::dispatch_one_at]); a clock too close to the
    /// end of `i64` to add the lease length is refused.
    pub fn dispatch_one(&mut self, worker_id: &str) -> (r: Result<SchedulerDecision, KernelError>)
        requires
            old(self).repo().repo_wf(),
        ensures
            final(self).repo().repo_wf(),
            r matches Ok(SchedulerDecision::Dispatched { worker_id: w, .. }) ==> w@ == worker_id@,
            (exists|now_ms: i64| #[trigger] decided_at(old(self).repo(), final(self).repo(), r, worker_id@, now_ms)) || (
            final(self).repo() == old(self).repo() && (r matches Err(KernelError::Driver(m)) && m@ == "clock out of range"@)),
    {
        let now_ms = current_time_ms();
        if now_ms > i64::MAX - DISPATCH_LEASE_MS {
            return Err(KernelError::Driver("clock out of range".to_owned()));
        }
        self.dispatch_one_at(worker_id, now_ms)
    }
}

} // verus!
