//! Leases: granting, heartbeats and expiry.
use crate::kernel::event::KernelError;
use crate::runtime::attempt::{is_terminal, AttemptExecutionStatus};
use crate::runtime::models::{AttemptRow, LeaseRecord};
use crate::runtime::store::attempts::{driver_err, opt_view};
use crate::runtime::store::keyed::{find_key, key_pos, lemma_key_push, lemma_key_remove, lemma_key_update, Keyed};
use crate::runtime::store::{fails_with, lease_ids_unique, InMemoryRuntimeRepository};
use crate::ids::random_uuid;
use crate::text::{concat, str_eq};
use vstd::prelude::*;

verus! {

/// A lease is active at `now` while it has not expired.
pub open spec fn lease_active(l: LeaseRecord, now_ms: i64) -> bool {
    l.lease_expires_at_ms >= now_ms
}

/// Number of leases of `worker` active at `now`.
pub open spec fn active_for_worker(s: Seq<LeaseRecord>, worker: Seq<char>, now_ms: i64) -> nat
    decreases s.len(),
{
    if s.len() == 0 {
        0
    } else {
        active_for_worker(s.drop_last(), worker, now_ms) + if s.last().worker_id@ == worker && lease_active(
            s.last(),
            now_ms,
        ) {
            1nat
        } else {
            0nat
        }
    }
}

/// The attempt of `l` belongs to `tenant`.
pub open spec fn lease_of_tenant(attempts: Seq<AttemptRow>, l: LeaseRecord, tenant: Seq<char>) -> bool {
    let i = key_pos(attempts, l.attempt_id@);
    i >= 0 && opt_view(attempts[i].tenant_id) == Some(tenant)
}

/// Number of active leases at `now` whose attempts belong to `tenant`.
pub open spec fn active_for_tenant(s: Seq<LeaseRecord>, attempts: Seq<AttemptRow>, tenant: Seq<char>, now_ms: i64) -> nat
    decreases s.len(),
{
    if s.len() == 0 {
        0
    } else {
        active_for_tenant(s.drop_last(), attempts, tenant, now_ms) + if lease_of_tenant(attempts, s.last(), tenant)
            && lease_active(s.last(), now_ms) {
            1nat
        } else {
            0nat
        }
    }
}

/// Leases not yet expired at `now` (expired ones are those with `lease_expires_at_ms < now`).
pub open spec fn unexpired(s: Seq<LeaseRecord>, now_ms: i64) -> Seq<LeaseRecord>
    decreases s.len(),
{
    if s.len() == 0 {
        s
    } else if lease_active(s.last(), now_ms) {
        unexpired(s.drop_last(), now_ms).push(s.last())
    } else {
        unexpired(s.drop_last(), now_ms)
    }
}

/// Number of leases expired at `now`.
pub open spec fn expired_count(s: Seq<LeaseRecord>, now_ms: i64) -> nat
    decreases s.len(),
{
    if s.len() == 0 {
        0
    } else {
        expired_count(s.drop_last(), now_ms) + if lease_active(s.last(), now_ms) { 0nat } else { 1nat }
    }
}

/// Some lease of `attempt_id` in `s` has expired at `now`.
pub open spec fn has_expired_lease(s: Seq<LeaseRecord>, attempt_id: Seq<char>, now_ms: i64) -> bool {
    exists|j: int| 0 <= j < s.len() && #[trigger] s[j].attempt_id@ == attempt_id && !lease_active(s[j], now_ms)
}

/// `row` after its expired lease is dropped: back to the queue unless it is terminal.
pub open spec fn requeued(row: AttemptRow) -> AttemptRow {
    if is_terminal(row.status) {
        row
    } else {
        AttemptRow { status: AttemptExecutionStatus::Queued, ..row }
    }
}

/// A lease can be granted for an attempt that is queued or waiting for a retry.
pub open spec fn dispatchable_status(s: AttemptExecutionStatus) -> bool {
    s == AttemptExecutionStatus::Queued || s == AttemptExecutionStatus::RetryBackoff
}

/// Position of the lease with id `lease_id`, or -1.
pub open spec fn lease_id_pos(s: Seq<LeaseRecord>, lease_id: Seq<char>) -> int {
    if exists|i: int| 0 <= i < s.len() && #[trigger] s[i].lease_id@ == lease_id {
        choose|i: int| 0 <= i < s.len() && #[trigger] s[i].lease_id@ == lease_id
    } else {
        -1
    }
}

proof fn lemma_lease_id_pos(s: Seq<LeaseRecord>, i: int)
    requires
        lease_ids_unique(s),
        0 <= i < s.len(),
    ensures
        lease_id_pos(s, s[i].lease_id@) == i,
{
    let k = s[i].lease_id@;
    let j = choose|j: int| 0 <= j < s.len() && #[trigger] s[j].lease_id@ == k;
    assert(s[j].lease_id@ == s[i].lease_id@);
}

/// A lease with its heartbeat and expiry renewed and its version bumped.
pub open spec fn renewed(l: LeaseRecord, heartbeat_at_ms: i64, lease_expires_at_ms: i64) -> LeaseRecord {
    LeaseRecord { heartbeat_at_ms, lease_expires_at_ms, version: (l.version + 1) as u64, ..l }
}

impl InMemoryRuntimeRepository {
    /// Position of the lease with id `lease_id`, or -1.
    pub open spec fn lease_pos(&self, lease_id: Seq<char>) -> int {
        lease_id_pos(self.leases(), lease_id)
    }

    /// A heartbeat of `lease_id` can bump the lease's version.
    pub open spec fn can_heartbeat(&self, lease_id: Seq<char>) -> bool {
        let i = self.lease_pos(lease_id);
        i >= 0 ==> self.leases()[i].version < u64::MAX
    }

    fn find_lease_id(&self, lease_id: &str) -> (r: Option<usize>)
        requires
            self.wf(),
        ensures
            match r {
                Some(i) => i < self.leases().len() && i as int == self.lease_pos(lease_id@),
                None => self.lease_pos(lease_id@) == -1,
            },
    {
        let mut i: usize = 0;
        while i < self.leases.len()
            invariant
                i <= self.leases@.len(),
                self.wf(),
                forall|a: int| 0 <= a < i ==> #[trigger] self.leases@[a].lease_id@ != lease_id@,
            decreases self.leases@.len() - i,
        {
            if str_eq(self.leases[i].lease_id.as_str(), lease_id) {
                proof {
                    lemma_lease_id_pos(self.leases@, i as int);
                }
                return Some(i);
            }
            i = i + 1;
        }
        None
    }

    /// The lease of an attempt, if any.
    pub fn get_lease_for_attempt(&self, attempt_id: &str) -> (r: Result<Option<LeaseRecord>, KernelError>)
        requires
            self.wf(),
        ensures
            r is Ok,
            ({
                let i = key_pos(self.leases(), attempt_id@);
                if i < 0 {
                    r matches Ok(None)
                } else {
                    r == Ok::<Option<LeaseRecord>, KernelError>(Some(self.leases()[i]))
                }
            }),
    {
        match find_key(&self.leases, attempt_id) {
            None => Ok(None),
            Some(i) => Ok(Some(self.leases[i].clone())),
        }
    }

    /// The lease with id `lease_id`, if any.
    pub fn get_lease_by_id(&self, lease_id: &str) -> (r: Result<Option<LeaseRecord>, KernelError>)
        requires
            self.wf(),
        ensures
            r is Ok,
            ({
                let i = self.lease_pos(lease_id@);
                if i < 0 {
                    r matches Ok(None)
                } else {
                    r == Ok::<Option<LeaseRecord>, KernelError>(Some(self.leases()[i]))
                }
            }),
    {
        match self.find_lease_id(lease_id) {
            None => Ok(None),
            Some(i) => Ok(Some(self.leases[i].clone())),
        }
    }

    /// Number of leases of `worker_id` active at `now_ms`.
    pub fn active_leases_for_worker(&self, worker_id: &str, now_ms: i64) -> (r: Result<usize, KernelError>)
        requires
            self.wf(),
        ensures
            r matches Ok(n) && n == active_for_worker(self.leases(), worker_id@, now_ms),
    {
        let mut n: usize = 0;
        let mut i: usize = 0;
        while i < self.leases.len()
            invariant
                i <= self.leases@.len(),
                n <= i,
                n == active_for_worker(self.leases@.take(i as int), worker_id@, now_ms),
            decreases self.leases@.len() - i,
        {
            proof {
                assert(self.leases@.take(i + 1).drop_last() =~= self.leases@.take(i as int));
            }
            if self.leases[i].lease_expires_at_ms >= now_ms && str_eq(self.leases[i].worker_id.as_str(), worker_id) {
                n = n + 1;
            }
            i = i + 1;
        }
        proof {
            assert(self.leases@.take(i as int) =~= self.leases@);
        }
        Ok(n)
    }

    /// Number of active leases at `now_ms` whose attempts belong to `tenant_id`.
    pub fn active_leases_for_tenant(&self, tenant_id: &str, now_ms: i64) -> (r: Result<usize, KernelError>)
        requires
            self.wf(),
        ensures
            r matches Ok(n) && n == active_for_tenant(self.leases(), self.attempts(), tenant_id@, now_ms),
    {
        let mut n: usize = 0;
        let mut i: usize = 0;
        while i < self.leases.len()
            invariant
                i <= self.leases@.len(),
                n <= i,
                self.wf(),
                n == active_for_tenant(self.leases@.take(i as int), self.attempts@, tenant_id@, now_ms),
            decreases self.leases@.len() - i,
        {
            proof {
                assert(self.leases@.take(i + 1).drop_last() =~= self.leases@.take(i as int));
            }
            if self.leases[i].lease_expires_at_ms >= now_ms {
                match find_key(&self.attempts, self.leases[i].attempt_id.as_str()) {
                    Some(a) => {
                        let same = match &self.attempts[a].tenant_id {
                            Some(t) => str_eq(t.as_str(), tenant_id),
                            None => false,
                        };
                        if same {
                            n = n + 1;
                        }
                    },
                    None => {},
                }
            }
            i = i + 1;
        }
        proof {
            assert(self.leases@.take(i as int) =~= self.leases@);
        }
        Ok(n)
    }

    /// Grants `worker_id` the lease `lease_id` on a queued or backoff attempt until
    /// `lease_expires_at_ms`.
    ///
    /// An expired lease of the attempt is dropped first. The grant fails, changing nothing,
    /// while another lease of the attempt is active, when the attempt is not dispatchable,
    /// or when the lease id is taken. The attempt becomes leased and keeps its first start time.
    pub fn upsert_lease_with_id(
        &mut self,
        attempt_id: &str,
        worker_id: &str,
        lease_expires_at_ms: i64,
        now_ms: i64,
        lease_id: String,
    ) -> (r: Result<LeaseRecord, KernelError>)
        requires
            old(self).wf(),
        ensures
            final(self).same_records(old(self)),
            final(self).wf(),
            ({
                let li = key_pos(old(self).leases(), attempt_id@);
                let ai = old(self).attempt_pos(attempt_id@);
                let blocked = li >= 0 && lease_active(old(self).leases()[li], now_ms);
                let grantable = !blocked && ai >= 0 && dispatchable_status(old(self).attempts()[ai].status);
                &&& blocked ==> fails_with(r, "active lease already exists for attempt: "@ + attempt_id@)
                &&& grantable && old(self).lease_pos(lease_id@) >= 0 ==> fails_with(r, "active lease already exists for attempt: "@ + attempt_id@)
                &&& r is Ok <==> grantable && old(self).lease_pos(lease_id@) < 0
                &&& !blocked && (ai < 0 || !dispatchable_status(old(self).attempts()[ai].status)) ==> fails_with(
                    r,
                    "attempt is not dispatchable for lease: "@ + attempt_id@,
                )
                &&& r is Err ==> final(self).attempts() == old(self).attempts() && final(self).leases() == old(self).leases()
                &&& r is Ok ==> !blocked && ai >= 0 && dispatchable_status(old(self).attempts()[ai].status)
                &&& r matches Ok(l) ==> {
                    let kept = if li >= 0 { old(self).leases().remove(li) } else { old(self).leases() };
                    let row = old(self).attempts()[ai];
                    &&& l.lease_id@ == lease_id@ && l.attempt_id@ == attempt_id@ && l.worker_id@ == worker_id@
                    &&& l.lease_expires_at_ms == lease_expires_at_ms && l.heartbeat_at_ms == now_ms && l.version == 1
                    &&& final(self).leases() == kept.push(l)
                    &&& final(self).attempts() == old(self).attempts().update(
                        ai,
                        AttemptRow {
                            status: AttemptExecutionStatus::Leased,
                            started_at_ms: if row.started_at_ms is Some { row.started_at_ms } else { Some(now_ms) },
                            ..row
                        },
                    )
                }
            }),
            final(self).retry_history() == old(self).retry_history(),
            final(self).dead_letters() == old(self).dead_letters(),
            final(self).replay_effects() == old(self).replay_effects(),
            final(self).step_reports() == old(self).step_reports(),
    {
        let existing = find_key(&self.leases, attempt_id);
        let expired_at: Option<usize> = match existing {
            Some(li) => {
                if self.leases[li].lease_expires_at_ms >= now_ms {
                    return Err(driver_err("active lease already exists for attempt: ", attempt_id));
                }
                Some(li)
            },
            None => None,
        };
        let ai = match find_key(&self.attempts, attempt_id) {
            Some(ai) => ai,
            None => {
                return Err(driver_err("attempt is not dispatchable for lease: ", attempt_id));
            },
        };
        match self.attempts[ai].status {
            AttemptExecutionStatus::Queued | AttemptExecutionStatus::RetryBackoff => {},
            _ => {
                return Err(driver_err("attempt is not dispatchable for lease: ", attempt_id));
            },
        }
        // a lease id already in use collides like an existing lease of the attempt
        if self.find_lease_id(lease_id.as_str()).is_some() {
            return Err(driver_err("active lease already exists for attempt: ", attempt_id));
        }
        let ghost old_leases = self.leases@;
        match expired_at {
            Some(li) => {
                proof {
                    lemma_key_remove(self.leases@, li as int);
                }
                self.leases.remove(li);
            },
            None => {},
        }
        let lease = LeaseRecord {
            lease_id,
            attempt_id: attempt_id.to_owned(),
            worker_id: worker_id.to_owned(),
            lease_expires_at_ms,
            heartbeat_at_ms: now_ms,
            version: 1,
        };
        let out = lease.clone();
        proof {
            lemma_key_push(self.leases@, lease);
            assert forall|a: int, b: int|
                0 <= a < self.leases@.push(lease).len() && 0 <= b < self.leases@.push(lease).len()
                    && #[trigger] self.leases@.push(lease)[a].lease_id@ == #[trigger] self.leases@.push(lease)[b].lease_id@ implies a == b by {
                let t = self.leases@.push(lease);
                if a < self.leases@.len() && b < self.leases@.len() {
                    let oa = if expired_at is Some && a >= expired_at->0 { a + 1 } else { a };
                    let ob = if expired_at is Some && b >= expired_at->0 { b + 1 } else { b };
                    assert(old_leases[oa] == t[a]);
                    assert(old_leases[ob] == t[b]);
                } else if a < self.leases@.len() {
                    let oa = if expired_at is Some && a >= expired_at->0 { a + 1 } else { a };
                    assert(old_leases[oa] == t[a]);
                } else if b < self.leases@.len() {
                    let ob = if expired_at is Some && b >= expired_at->0 { b + 1 } else { b };
                    assert(old_leases[ob] == t[b]);
                }
            }
        }
        self.leases.push(lease);
        let started = match self.attempts[ai].started_at_ms {
            Some(s) => Some(s),
            None => Some(now_ms),
        };
        proof {
            let row = AttemptRow { status: AttemptExecutionStatus::Leased, started_at_ms: started, ..self.attempts@[ai as int] };
            lemma_key_update(self.attempts@, ai as int, row);
        }
        self.attempts[ai].status = AttemptExecutionStatus::Leased;
        self.attempts[ai].started_at_ms = started;
        Ok(out)
    }

    /// Grants `worker_id` a lease on a queued or backoff attempt until `lease_expires_at_ms`,
    /// under a fresh random lease id `lease-<uuid>` (see [Self::upsert_lease_with_id]).
    pub fn upsert_lease(&mut self, attempt_id: &str, worker_id: &str, lease_expires_at_ms: i64, now_ms: i64) -> (r:
        Result<LeaseRecord, KernelError>)
        requires
            old(self).wf(),
        ensures
            final(self).same_records(old(self)),
            final(self).wf(),
            ({
                let li = key_pos(old(self).leases(), attempt_id@);
                let ai = old(self).attempt_pos(attempt_id@);
                let blocked = li >= 0 && lease_active(old(self).leases()[li], now_ms);
                &&& blocked ==> fails_with(r, "active lease already exists for attempt: "@ + attempt_id@)
                &&& !blocked && (ai < 0 || !dispatchable_status(old(self).attempts()[ai].status)) ==> fails_with(
                    r,
                    "attempt is not dispatchable for lease: "@ + attempt_id@,
                )
                &&& r is Err ==> final(self).attempts() == old(self).attempts() && final(self).leases() == old(self).leases()
                &&& r is Ok ==> !blocked && ai >= 0 && dispatchable_status(old(self).attempts()[ai].status)
                &&& !blocked && ai >= 0 && dispatchable_status(old(self).attempts()[ai].status) && r is Err ==> fails_with(
                    r,
                    "active lease already exists for attempt: "@ + attempt_id@,
                )
                &&& r matches Ok(l) ==> {
                    let kept = if li >= 0 { old(self).leases().remove(li) } else { old(self).leases() };
                    let row = old(self).attempts()[ai];
                    &&& l.attempt_id@ == attempt_id@ && l.worker_id@ == worker_id@
                    &&& l.lease_expires_at_ms == lease_expires_at_ms && l.heartbeat_at_ms == now_ms && l.version == 1
                    &&& final(self).leases() == kept.push(l)
                    &&& final(self).attempts() == old(self).attempts().update(
                        ai,
                        AttemptRow {
                            status: AttemptExecutionStatus::Leased,
                            started_at_ms: if row.started_at_ms is Some { row.started_at_ms } else { Some(now_ms) },
                            ..row
                        },
                    )
                }
            }),
            final(self).retry_history() == old(self).retry_history(),
            final(self).dead_letters() == old(self).dead_letters(),
            final(self).replay_effects() == old(self).replay_effects(),
            final(self).step_reports() == old(self).step_reports(),
    {
        let id_suffix = random_uuid();
        let lease_id = concat("lease-", id_suffix.as_str());
        self.upsert_lease_with_id(attempt_id, worker_id, lease_expires_at_ms, now_ms, lease_id)
    }

    /// Renews a lease: new heartbeat and expiry, version bumped.
    pub fn heartbeat_lease(&mut self, lease_id: &str, heartbeat_at_ms: i64, lease_expires_at_ms: i64) -> (r: Result<
        (),
        KernelError,
    >)
        requires
            old(self).wf(),
            old(self).can_heartbeat(lease_id@),
        ensures
            final(self).same_records(old(self)),
            final(self).wf(),
            final(self).attempts() == old(self).attempts(),
            final(self).same_but_leases(old(self)),
            ({
                let i = old(self).lease_pos(lease_id@);
                &&& i < 0 ==> fails_with(r, "lease not found for heartbeat: "@ + lease_id@) && final(self).leases() == old(self).leases()
                &&& i >= 0 ==> r is Ok && final(self).leases() == old(self).leases().update(
                    i,
                    renewed(old(self).leases()[i], heartbeat_at_ms, lease_expires_at_ms),
                )
            }),
    {
        match self.find_lease_id(lease_id) {
            None => Err(driver_err("lease not found for heartbeat: ", lease_id)),
            Some(i) => {
                self.renew(i, heartbeat_at_ms, lease_expires_at_ms);
                Ok(())
            },
        }
    }

    fn renew(&mut self, i: usize, heartbeat_at_ms: i64, lease_expires_at_ms: i64)
        requires
            old(self).wf(),
            i < old(self).leases().len(),
            old(self).leases()[i as int].version < u64::MAX,
        ensures
            final(self).same_records(old(self)),
            final(self).wf(),
            final(self).attempts() == old(self).attempts(),
            final(self).same_but_leases(old(self)),
            final(self).leases() == old(self).leases().update(
                i as int,
                renewed(old(self).leases()[i as int], heartbeat_at_ms, lease_expires_at_ms),
            ),
    {
        let ghost before = self.leases@;
        proof {
            let n = renewed(self.leases@[i as int], heartbeat_at_ms, lease_expires_at_ms);
            lemma_key_update(self.leases@, i as int, n);
            assert forall|a: int| 0 <= a < before.len() implies #[trigger] before.update(i as int, n)[a].lease_id@ == before[a].lease_id@ by {}
        }
        let v = self.leases[i].version;
        self.leases[i].heartbeat_at_ms = heartbeat_at_ms;
        self.leases[i].lease_expires_at_ms = lease_expires_at_ms;
        self.leases[i].version = v + 1;
        proof {
            assert(self.leases@ =~= before.update(i as int, renewed(before[i as int], heartbeat_at_ms, lease_expires_at_ms)));
            assert forall|a: int, b: int|
                0 <= a < self.leases@.len() && 0 <= b < self.leases@.len() && #[trigger] self.leases@[a].lease_id@
                    == #[trigger] self.leases@[b].lease_id@ implies a == b by {
                assert(self.leases@[a].lease_id@ == before[a].lease_id@);
                assert(self.leases@[b].lease_id@ == before[b].lease_id@);
            }
        }
    }

    /// Renews a lease only for its owner and at the version the owner last saw.
    pub fn heartbeat_lease_with_version(
        &mut self,
        lease_id: &str,
        worker_id: &str,
        expected_version: u64,
        heartbeat_at_ms: i64,
        lease_expires_at_ms: i64,
    ) -> (r: Result<(), KernelError>)
        requires
            old(self).wf(),
            old(self).can_heartbeat(lease_id@),
        ensures
            final(self).same_records(old(self)),
            final(self).wf(),
            final(self).attempts() == old(self).attempts(),
            final(self).same_but_leases(old(self)),
            ({
                let i = old(self).lease_pos(lease_id@);
                let ok = i >= 0 && old(self).leases()[i].worker_id@ == worker_id@ && old(self).leases()[i].version
                    == expected_version;
                &&& !ok ==> fails_with(r, "lease heartbeat version conflict for lease: "@ + lease_id@) && final(self).leases()
                    == old(self).leases()
                &&& ok ==> r is Ok && final(self).leases() == old(self).leases().update(
                    i,
                    renewed(old(self).leases()[i], heartbeat_at_ms, lease_expires_at_ms),
                )
            }),
    {
        match self.find_lease_id(lease_id) {
            Some(i) => {
                if str_eq(self.leases[i].worker_id.as_str(), worker_id) && self.leases[i].version == expected_version {
                    self.renew(i, heartbeat_at_ms, lease_expires_at_ms);
                    return Ok(());
                }
            },
            None => {},
        }
        Err(driver_err("lease heartbeat version conflict for lease: ", lease_id))
    }

    /// Only the leases differ between `self` and `o`, apart from the attempts.
    pub open spec fn same_but_leases(&self, o: &Self) -> bool {
        &&& self.retry_history() == o.retry_history()
        &&& self.dead_letters() == o.dead_letters()
        &&& self.replay_effects() == o.replay_effects()
        &&& self.step_reports() == o.step_reports()
    }
}

} // verus!
