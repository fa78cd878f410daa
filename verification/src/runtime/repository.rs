//! What the scheduler needs from a runtime repository.
use crate::kernel::event::KernelError;
use crate::runtime::models::{AttemptDispatchRecord, LeaseRecord};
use crate::runtime::store::dispatch::{first_dispatchable_pos, lemma_selection_first};
use crate::runtime::store::keyed::key_pos;

use crate::runtime::attempt::AttemptExecutionStatus;
use crate::runtime::models::AttemptRow;
use crate::runtime::store::dispatch::{dispatch_selection, record_of};
use crate::runtime::store::expiry::{ended_by_timeout, leases_after_timeouts, timed_out, timed_out_count, timeout_dead_letter};
use crate::runtime::store::leases::{dispatchable_status, expired_count, has_expired_lease, lease_active, renewed, requeued, unexpired};
use crate::runtime::store::fails_with;
use crate::runtime::store::InMemoryRuntimeRepository;
use crate::text::contains_seq;
use vstd::prelude::*;

verus! {

/// A lease refusal: a driver error saying that an active lease already exists or that the
/// attempt is not dispatchable.
pub open spec fn lease_refused(e: KernelError) -> bool {
    e matches KernelError::Driver(m) && (contains_seq(m@, "active lease already exists"@) || contains_seq(m@, "not dispatchable"@))
}

/// Storage of attempts and leases that a scheduler dispatches from.
pub trait RuntimeRepository {
    /// The repository's invariant.
    spec fn repo_wf(&self) -> bool;

    /// Id of the attempt handed out first at `now`, if any can be.
    spec fn first_dispatchable(&self, now_ms: i64) -> Option<Seq<char>>;

    /// Worker and expiry of the lease of an attempt, if it has one.
    spec fn lease_of(&self, attempt_id: Seq<char>) -> Option<(Seq<char>, i64)>;

    /// A heartbeat of `lease_id` is defined.
    spec fn can_heartbeat_lease(&self, lease_id: Seq<char>) -> bool;

    /// The repository answers listings (a repository backed by a database may not).
    spec fn lists(&self) -> bool;

    /// A lease on the attempt at `now_ms` is granted.
    spec fn grants(&self, attempt_id: Seq<char>, now_ms: i64) -> bool;

    /// The first `limit` attempts that can be handed out at `now_ms`, in dispatch order.
    fn list_dispatchable_attempts(&self, now_ms: i64, limit: usize) -> (r: Result<Vec<AttemptDispatchRecord>, KernelError>)
        requires
            self.repo_wf(),
        ensures
            r is Ok <==> self.lists(),
            r matches Ok(v) ==> v@.len() <= limit,
            r matches Ok(v) ==> (limit >= 1 ==> (v@.len() == 0 <==> self.first_dispatchable(now_ms) is None)),
            r matches Ok(v) ==> (limit >= 1 && v@.len() > 0 ==> self.first_dispatchable(now_ms) == Some(v@[0].attempt_id@)),
    ;

    /// Grants `worker_id` a lease on an attempt until `lease_expires_at_ms`.
    fn upsert_lease(&mut self, attempt_id: &str, worker_id: &str, lease_expires_at_ms: i64, now_ms: i64) -> (r: Result<
        LeaseRecord,
        KernelError,
    >)
        requires
            old(self).repo_wf(),
        ensures
            final(self).repo_wf(),
            r is Ok ==> old(self).grants(attempt_id@, now_ms),
            old(self).grants(attempt_id@, now_ms) && r is Err ==> lease_refused(r->Err_0),
            r matches Ok(l) ==> l.attempt_id@ == attempt_id@ && l.worker_id@ == worker_id@ && l.lease_expires_at_ms
                == lease_expires_at_ms,
            r is Ok ==> final(self).lease_of(attempt_id@) == Some((worker_id@, lease_expires_at_ms)),
    ;

    /// Renews a lease.
    fn heartbeat_lease(&mut self, lease_id: &str, heartbeat_at_ms: i64, lease_expires_at_ms: i64) -> (r: Result<
        (),
        KernelError,
    >)
        requires
            old(self).repo_wf(),
            old(self).can_heartbeat_lease(lease_id@),
        ensures
            final(self).repo_wf(),
    ;

    /// Drops expired leases and requeues their attempts; returns how many were dropped.
    fn expire_leases_and_requeue(&mut self, now_ms: i64) -> (r: Result<u64, KernelError>)
        requires
            old(self).repo_wf(),
        ensures
            final(self).repo_wf(),
    ;

    /// Ends attempts past their execution timeout; returns how many were ended.
    fn transition_timed_out_attempts(&mut self, now_ms: i64) -> (r: Result<u64, KernelError>)
        requires
            old(self).repo_wf(),
        ensures
            final(self).repo_wf(),
    ;

    /// Latest event sequence number recorded for a run.
    fn latest_seq_for_run(&self, run_id: &str) -> (r: Result<u64, KernelError>)
        requires
            self.repo_wf(),
    ;
}

impl RuntimeRepository for InMemoryRuntimeRepository {
    open spec fn repo_wf(&self) -> bool {
        self.wf()
    }

    open spec fn first_dispatchable(&self, now_ms: i64) -> Option<Seq<char>> {
        let p = first_dispatchable_pos(self.attempts(), self.leases(), now_ms);
        if p >= 0 { Some(self.attempts()[p].attempt_id@) } else { None }
    }

    open spec fn lease_of(&self, attempt_id: Seq<char>) -> Option<(Seq<char>, i64)> {
        let p = key_pos(self.leases(), attempt_id);
        if p >= 0 { Some((self.leases()[p].worker_id@, self.leases()[p].lease_expires_at_ms)) } else { None }
    }

    open spec fn can_heartbeat_lease(&self, lease_id: Seq<char>) -> bool {
        self.can_heartbeat(lease_id)
    }

    /// Listings are always answered.
    open spec fn lists(&self) -> bool {
        true
    }

    /// No active lease on the attempt, and the attempt exists in a status that can be leased.
    open spec fn grants(&self, attempt_id: Seq<char>, now_ms: i64) -> bool {
        let li = key_pos(self.leases(), attempt_id);
        let ai = self.attempt_pos(attempt_id);
        &&& !(li >= 0 && lease_active(self.leases()[li], now_ms))
        &&& ai >= 0
        &&& dispatchable_status(self.attempts()[ai].status)
    }

    /// The first `limit` attempts in dispatch order; never refused.
    fn list_dispatchable_attempts(&self, now_ms: i64, limit: usize) -> (r: Result<Vec<AttemptDispatchRecord>, KernelError>)
        ensures
            r matches Ok(v) && dispatch_selection(self.attempts(), self.leases(), now_ms, limit as int, self.positions(v@))
                && forall|k: int| 0 <= k < v@.len() ==> record_of(#[trigger] v@[k], self.attempts()[self.positions(v@)[k]]),
    {
        let r = InMemoryRuntimeRepository::list_dispatchable_attempts(self, now_ms, limit);
        proof {
            if limit >= 1 {
                let v = r->Ok_0;
                lemma_selection_first(self.attempts(), self.leases(), now_ms, limit as int, self.positions(v@));
                if v@.len() > 0 {
                    crate::runtime::store::keyed::lemma_key_pos_range(self.attempts(), v@[0].attempt_id@);
                }
            }
        }
        r
    }

    /// Refused while an active lease exists or when the attempt cannot be leased; otherwise
    /// the lease replaces any earlier one and the attempt becomes leased.
    fn upsert_lease(&mut self, attempt_id: &str, worker_id: &str, lease_expires_at_ms: i64, now_ms: i64) -> (r: Result<
        LeaseRecord,
        KernelError,
    >)
        ensures
            ({
                let li = key_pos(old(self).leases(), attempt_id@);
                let ai = old(self).attempt_pos(attempt_id@);
                let blocked = li >= 0 && lease_active(old(self).leases()[li], now_ms);
                &&& blocked ==> fails_with(r, "active lease already exists for attempt: "@ + attempt_id@)
                &&& !blocked && (ai < 0 || !dispatchable_status(old(self).attempts()[ai].status)) ==> fails_with(
                    r,
                    "attempt is not dispatchable for lease: "@ + attempt_id@,
                )
                &&& r is Err ==> final(self).attempts() == old(self).attempts() && final(self).leases() == old(self).leases()
                &&& r is Ok ==> !blocked && ai >= 0 && dispatchable_status(old(self).attempts()[ai].status)
                &&& r matches Ok(l) ==> {
                    let kept = if li >= 0 { old(self).leases().remove(li) } else { old(self).leases() };
                    let row = old(self).attempts()[ai];
                    &&& l.attempt_id@ == attempt_id@ && l.worker_id@ == worker_id@
                    &&& l.lease_expires_at_ms == lease_expires_at_ms && l.heartbeat_at_ms == now_ms && l.version == 1
                    &&& final(self).leases() == kept.push(l)
                    &&& final(self).attempts() == old(self).attempts().update(
                        ai,
                        AttemptRow {
                            status: AttemptExecutionStatus::Leased,
                            started_at_ms: if row.started_at_ms is Some { row.started_at_ms } else { Some(now_ms) },
                            ..row
                        },
                    )
                }
            }),
    {
        let r = InMemoryRuntimeRepository::upsert_lease(self, attempt_id, worker_id, lease_expires_at_ms, now_ms);
        proof {
            reveal_strlit("active lease already exists for attempt: ");
            reveal_strlit("active lease already exists");
            let m = "active lease already exists for attempt: "@ + attempt_id@;
            let pat = "active lease already exists"@;
            assert(m.subrange(0, 0 + pat.len() as int) =~= pat);
            assert(contains_seq(m, pat));
            if r is Ok {
                let l = r->Ok_0;
                let s = self.leases();
                assert(s.last() == l);
                crate::runtime::store::keyed::lemma_key_pos(s, s.len() - 1);
            }
        }
        r
    }

    /// Renews the lease `lease_id`; an unknown lease is refused.
    fn heartbeat_lease(&mut self, lease_id: &str, heartbeat_at_ms: i64, lease_expires_at_ms: i64) -> (r: Result<
        (),
        KernelError,
    >)
        ensures
            final(self).attempts() == old(self).attempts(),
            ({
                let i = old(self).lease_pos(lease_id@);
                &&& i < 0 ==> fails_with(r, "lease not found for heartbeat: "@ + lease_id@) && final(self).leases() == old(self).leases()
                &&& i >= 0 ==> r is Ok && final(self).leases() == old(self).leases().update(
                    i,
                    renewed(old(self).leases()[i], heartbeat_at_ms, lease_expires_at_ms),
                )
            }),
    {
        InMemoryRuntimeRepository::heartbeat_lease(self, lease_id, heartbeat_at_ms, lease_expires_at_ms)
    }

    /// Drops the leases expired at `now_ms`, requeues their attempts, and counts them.
    fn expire_leases_and_requeue(&mut self, now_ms: i64) -> (r: Result<u64, KernelError>)
        ensures
            r matches Ok(n) && n == expired_count(old(self).leases(), now_ms),
            final(self).leases() == unexpired(old(self).leases(), now_ms),
            final(self).attempts().len() == old(self).attempts().len(),
            forall|j: int|
                0 <= j < old(self).attempts().len() ==> #[trigger] final(self).attempts()[j] == if has_expired_lease(
                    old(self).leases(),
                    old(self).attempts()[j].attempt_id@,
                    now_ms,
                ) {
                    requeued(old(self).attempts()[j])
                } else {
                    old(self).attempts()[j]
                },
    {
        InMemoryRuntimeRepository::expire_leases_and_requeue(self, now_ms)
    }

    /// Ends the attempts past their timeout at `now_ms` with their timeout status, and
    /// counts them.
    fn transition_timed_out_attempts(&mut self, now_ms: i64) -> (r: Result<u64, KernelError>)
        ensures
            r matches Ok(n) && n == timed_out_count(old(self).attempts(), now_ms),
            final(self).attempts().len() == old(self).attempts().len(),
            forall|j: int|
                0 <= j < old(self).attempts().len() ==> #[trigger] final(self).attempts()[j] == if timed_out(
                    old(self).attempts()[j],
                    now_ms,
                ) {
                    ended_by_timeout(old(self).attempts()[j])
                } else {
                    old(self).attempts()[j]
                },
            final(self).leases() == leases_after_timeouts(old(self).leases(), old(self).attempts(), now_ms),
            forall|k: Seq<char>| #[trigger] timeout_dead_letter(old(self).attempts(), old(self).dead_letters(), final(self).dead_letters(), k, now_ms),
    {
        InMemoryRuntimeRepository::transition_timed_out_attempts(self, now_ms)
    }

    fn latest_seq_for_run(&self, run_id: &str) -> (r: Result<u64, KernelError>)
        ensures
            r == Ok::<u64, KernelError>(0),
    {
        Ok(0)
    }
}

} // verus!
