//! Expired leases and timed-out attempts.
use crate::kernel::event::KernelError;
use crate::runtime::attempt::AttemptExecutionStatus;
use crate::runtime::models::{AttemptRow, DeadLetterRow, LeaseRecord};
use crate::runtime::store::acks::{dead_letter_written, dl_at, lemma_dead_letter_upsert_others, leases_without};
use crate::runtime::store::keyed::{find_key, has_key, key_pos, keys_unique, lemma_key_pos, lemma_key_update, Keyed};
use crate::runtime::store::leases::{expired_count, has_expired_lease, lease_active, requeued, unexpired};
use crate::runtime::store::{lease_ids_unique, InMemoryRuntimeRepository};

use vstd::prelude::*;

verus! {

/// `row` has run past its execution timeout at `now`.
pub open spec fn timed_out(row: AttemptRow, now_ms: i64) -> bool {
    &&& row.started_at_ms is Some
    &&& row.timeout is Some
    &&& (row.status == AttemptExecutionStatus::Leased || row.status == AttemptExecutionStatus::Running)
    &&& row.started_at_ms->0 + row.timeout->0.timeout_ms <= now_ms
}

/// `row` after its timeout: the policy's terminal status, with no retry or start time.
pub open spec fn ended_by_timeout(row: AttemptRow) -> AttemptRow {
    AttemptRow { status: row.timeout->0.on_timeout_status, retry_at_ms: None, started_at_ms: None, ..row }
}

/// Number of rows of `s` timed out at `now`.
pub open spec fn timed_out_count(s: Seq<AttemptRow>, now_ms: i64) -> nat
    decreases s.len(),
{
    if s.len() == 0 {
        0
    } else {
        timed_out_count(s.drop_last(), now_ms) + if timed_out(s.last(), now_ms) { 1nat } else { 0nat }
    }
}

/// Leases left once the attempts of `rows` that timed out lose theirs.
pub open spec fn leases_after_timeouts(leases: Seq<LeaseRecord>, rows: Seq<AttemptRow>, now_ms: i64) -> Seq<LeaseRecord>
    decreases rows.len(),
{
    if rows.len() == 0 {
        leases
    } else {
        let before = leases_after_timeouts(leases, rows.drop_last(), now_ms);
        if timed_out(rows.last(), now_ms) {
            leases_without(before, rows.last().attempt_id@)
        } else {
            before
        }
    }
}

/// No lease kept so far shares an attempt or a lease id with the leases from `from` on.
spec fn apart(kept: Seq<LeaseRecord>, s: Seq<LeaseRecord>, from: int) -> bool {
    forall|a: int, c: int|
        0 <= a < kept.len() && from <= c < s.len() ==> #[trigger] kept[a].attempt_id@ != #[trigger] s[c].attempt_id@
            && kept[a].lease_id@ != s[c].lease_id@
}

proof fn lemma_requeued_idem(row: AttemptRow)
    ensures
        requeued(requeued(row)) == requeued(row),
{
}

proof fn lemma_unexpired_step(s: Seq<LeaseRecord>, i: int, now_ms: i64)
    requires
        0 <= i < s.len(),
    ensures
        unexpired(s.take(i + 1), now_ms) == if lease_active(s[i], now_ms) {
            unexpired(s.take(i), now_ms).push(s[i])
        } else {
            unexpired(s.take(i), now_ms)
        },
        expired_count(s.take(i + 1), now_ms) == expired_count(s.take(i), now_ms) + if lease_active(s[i], now_ms) {
            0nat
        } else {
            1nat
        },
{
    assert(s.take(i + 1).drop_last() =~= s.take(i));
}

impl InMemoryRuntimeRepository {
    /// Drops every lease expired at `now_ms` and puts each affected attempt back in the
    /// queue unless it is terminal. Returns the number of leases dropped.
    #[verifier::spinoff_prover]
    #[verifier::rlimit(30)]
    pub fn expire_leases_and_requeue(&mut self, now_ms: i64) -> (r: Result<u64, KernelError>)
        requires
            old(self).wf(),
        ensures
            final(self).same_records(old(self)),
            final(self).wf(),
            r matches Ok(n) && n == expired_count(old(self).leases(), now_ms),
            final(self).leases() == unexpired(old(self).leases(), now_ms),
            final(self).attempts().len() == old(self).attempts().len(),
            forall|j: int|
                0 <= j < old(self).attempts().len() ==> #[trigger] final(self).attempts()[j] == if has_expired_lease(
                    old(self).leases(),
                    old(self).attempts()[j].attempt_id@,
                    now_ms,
                ) {
                    requeued(old(self).attempts()[j])
                } else {
                    old(self).attempts()[j]
                },
            final(self).retry_history() == old(self).retry_history(),
            final(self).dead_letters() == old(self).dead_letters(),
            final(self).replay_effects() == old(self).replay_effects(),
            final(self).step_reports() == old(self).step_reports(),
    {
        let ghost old_attempts = self.attempts@;
        let ghost s = self.leases@;
        let ghost rh = self.retry_history@;
        let ghost dl = self.dead_letters@;
        let ghost re = self.replay_effects@;
        let ghost sr = self.step_reports@;
        let ghost rec = (self.jobs@, self.interrupts@, self.api_keys@, self.audit_logs@);
        let mut kept: Vec<LeaseRecord> = Vec::new();
        let mut count: u64 = 0;
        let mut i: usize = 0;
        while i < self.leases.len()
            invariant
                self.leases@ == s,
                self.retry_history@ == rh,
                self.dead_letters@ == dl,
                self.replay_effects@ == re,
                self.step_reports@ == sr,
                rec == (self.jobs@, self.interrupts@, self.api_keys@, self.audit_logs@),
                keys_unique(rec.0),
                keys_unique(rec.1),
                keys_unique(rec.2),
                crate::runtime::store::records::audit_ids_sequential(rec.3),
                keys_unique(self.attempts@),
                keys_unique(dl),
                keys_unique(re),
                crate::runtime::store::report_tokens_unique(sr),
                keys_unique(s),
                lease_ids_unique(s),
                keys_unique(old_attempts),
                i <= s.len(),
                count <= i,
                count == expired_count(s.take(i as int), now_ms),
                kept@ == unexpired(s.take(i as int), now_ms),
                apart(kept@, s, i as int),
                keys_unique(kept@),
                lease_ids_unique(kept@),
                self.attempts@.len() == old_attempts.len(),
                forall|j: int|
                    0 <= j < old_attempts.len() ==> #[trigger] self.attempts@[j] == if has_expired_lease(
                        s.take(i as int),
                        old_attempts[j].attempt_id@,
                        now_ms,
                    ) {
                        requeued(old_attempts[j])
                    } else {
                        old_attempts[j]
                    },
            decreases s.len() - i,
        {
            proof {
                lemma_unexpired_step(s, i as int, now_ms);
                assert forall|id: Seq<char>| #[trigger] has_expired_lease(s.take(i + 1), id, now_ms) == (has_expired_lease(
                    s.take(i as int),
                    id,
                    now_ms,
                ) || (s[i as int].attempt_id@ == id && !lease_active(s[i as int], now_ms))) by {
                    if has_expired_lease(s.take(i + 1), id, now_ms) {
                        let j = choose|j: int| 0 <= j < s.take(i + 1).len() && #[trigger] s.take(i + 1)[j].attempt_id@ == id
                            && !lease_active(s.take(i + 1)[j], now_ms);
                        if j < i {
                            assert(s.take(i as int)[j] == s[j]);
                        }
                    }
                    if has_expired_lease(s.take(i as int), id, now_ms) {
                        let j = choose|j: int| 0 <= j < s.take(i as int).len() && #[trigger] s.take(i as int)[j].attempt_id@ == id
                            && !lease_active(s.take(i as int)[j], now_ms);
                        assert(s.take(i + 1)[j] == s[j]);
                    }
                    if s[i as int].attempt_id@ == id && !lease_active(s[i as int], now_ms) {
                        assert(s.take(i + 1)[i as int] == s[i as int]);
                    }
                }
            }
            if self.leases[i].lease_expires_at_ms >= now_ms {
                let l = self.leases[i].clone();
                proof {
                    assert(i < s.len());
                    assert forall|a: int| 0 <= a < kept@.len() implies #[trigger] kept@[a].lease_id@ != s[i as int].lease_id@ by {
                        assert(kept@[a].attempt_id@ != s[i as int].attempt_id@);
                    }
                    let t = kept@.push(l);
                    assert forall|a: int, b: int|
                        0 <= a < t.len() && 0 <= b < t.len() && #[trigger] t[a].key() == #[trigger] t[b].key() implies a == b by {
                        if a < kept@.len() && b == kept@.len() {
                            assert(kept@[a].attempt_id@ != s[i as int].attempt_id@);
                        }
                        if b < kept@.len() && a == kept@.len() {
                            assert(kept@[b].attempt_id@ != s[i as int].attempt_id@);
                        }
                    }
                    assert forall|a: int, b: int|
                        0 <= a < t.len() && 0 <= b < t.len() && #[trigger] t[a].lease_id@ == #[trigger] t[b].lease_id@ implies a == b by {
                        if a < kept@.len() && b == kept@.len() {
                            assert(kept@[a].attempt_id@ != s[i as int].attempt_id@ && kept@[a].lease_id@ != s[i as int].lease_id@);
                        }
                        if b < kept@.len() && a == kept@.len() {
                            assert(kept@[b].attempt_id@ != s[i as int].attempt_id@ && kept@[b].lease_id@ != s[i as int].lease_id@);
                        }
                    }
                    assert forall|a: int, c: int|
                        0 <= a < t.len() && i + 1 <= c < s.len() implies #[trigger] t[a].attempt_id@ != #[trigger] s[c].attempt_id@
                            && t[a].lease_id@ != s[c].lease_id@ by {
                        if a == kept@.len() {
                            assert(s[i as int].key() != s[c].key());
                        }
                    }
                }
                kept.push(l);
            } else {
                count = count + 1;
                match find_key(&self.attempts, self.leases[i].attempt_id.as_str()) {
                    Some(k) => {
                        let terminal = match self.attempts[k].status {
                            AttemptExecutionStatus::Completed | AttemptExecutionStatus::Failed
                            | AttemptExecutionStatus::Cancelled => true,
                            _ => false,
                        };
                        if !terminal {
                            proof {
                                lemma_key_update(
                                    self.attempts@,
                                    k as int,
                                    AttemptRow { status: AttemptExecutionStatus::Queued, ..self.attempts@[k as int] },
                                );
                            }
                            self.attempts[k].status = AttemptExecutionStatus::Queued;
                        }
                        proof {
                            assert forall|j: int| 0 <= j < old_attempts.len() implies #[trigger] self.attempts@[j] == if has_expired_lease(
                                s.take(i + 1),
                                old_attempts[j].attempt_id@,
                                now_ms,
                            ) {
                                requeued(old_attempts[j])
                            } else {
                                old_attempts[j]
                            } by {
                                if j == k {
                                    lemma_requeued_idem(old_attempts[j]);
                                } else {
                                    assert(old_attempts[j].key() != old_attempts[k as int].key());
                                }
                            }
                        }
                    },
                    None => {
                        proof {
                            assert forall|j: int| 0 <= j < old_attempts.len() implies old_attempts[j].attempt_id@
                                != s[i as int].attempt_id@ by {
                                assert(old_attempts[j].key() == self.attempts@[j].key());
                            }
                        }
                    },
                }
                proof {
                    assert forall|a: int, c: int|
                        0 <= a < kept@.len() && i + 1 <= c < s.len() implies #[trigger] kept@[a].attempt_id@ != #[trigger] s[c].attempt_id@
                            && kept@[a].lease_id@ != s[c].lease_id@ by {}
                }
            }
            proof {
                assert forall|a: int, c: int|
                    0 <= a < kept@.len() && i + 1 <= c < s.len() implies #[trigger] kept@[a].attempt_id@ != #[trigger] s[c].attempt_id@
                        && kept@[a].lease_id@ != s[c].lease_id@ by {
                    assert(kept@[a] == unexpired(s.take(i + 1), now_ms)[a]);
                }
                assert(apart(kept@, s, i + 1));
            }
            i = i + 1;
        }
        proof {
            assert(s.take(i as int) =~= s);
        }
        self.leases = kept;
        Ok(count)
    }

    /// Ends every attempt that ran past its execution timeout at `now_ms`: its lease is
    /// dropped and it takes the policy's terminal status; an attempt that so fails is
    /// dead-lettered with reason `execution_timeout`. Returns the number of attempts ended.
    pub fn transition_timed_out_attempts(&mut self, now_ms: i64) -> (r: Result<u64, KernelError>)
        requires
            old(self).wf(),
        ensures
            final(self).same_records(old(self)),
            final(self).wf(),
            r matches Ok(n) && n == timed_out_count(old(self).attempts(), now_ms),
            final(self).attempts().len() == old(self).attempts().len(),
            forall|j: int|
                0 <= j < old(self).attempts().len() ==> #[trigger] final(self).attempts()[j] == if timed_out(
                    old(self).attempts()[j],
                    now_ms,
                ) {
                    ended_by_timeout(old(self).attempts()[j])
                } else {
                    old(self).attempts()[j]
                },
            final(self).leases() == leases_after_timeouts(old(self).leases(), old(self).attempts(), now_ms),
            forall|k: Seq<char>| #[trigger] timeout_dead_letter(old(self).attempts(), old(self).dead_letters(), final(self).dead_letters(), k, now_ms),
            final(self).retry_history() == old(self).retry_history(),
            final(self).replay_effects() == old(self).replay_effects(),
            final(self).step_reports() == old(self).step_reports(),
    {
        let ghost old_attempts = self.attempts@;
        let ghost old_leases = self.leases@;
        let ghost old_dls = self.dead_letters@;
        let ghost rh = self.retry_history@;
        let ghost re = self.replay_effects@;
        let ghost sr = self.step_reports@;
        let ghost rec = (self.jobs@, self.interrupts@, self.api_keys@, self.audit_logs@);
        let mut count: u64 = 0;
        let mut i: usize = 0;
        proof {
            assert(old_attempts.take(0) =~= Seq::<AttemptRow>::empty());
        }
        while i < self.attempts.len()
            invariant
                self.wf(),
                keys_unique(old_attempts),
                keys_unique(old_dls),
                self.retry_history@ == rh,
                self.replay_effects@ == re,
                self.step_reports@ == sr,
                rec == (self.jobs@, self.interrupts@, self.api_keys@, self.audit_logs@),
                i <= old_attempts.len(),
                self.attempts@.len() == old_attempts.len(),
                count <= i,
                count == timed_out_count(old_attempts.take(i as int), now_ms),
                forall|j: int|
                    0 <= j < old_attempts.len() ==> #[trigger] self.attempts@[j] == if j < i && timed_out(old_attempts[j], now_ms) {
                        ended_by_timeout(old_attempts[j])
                    } else {
                        old_attempts[j]
                    },
                self.leases@ == leases_after_timeouts(old_leases, old_attempts.take(i as int), now_ms),
                forall|k: Seq<char>| #[trigger] timeout_dead_letter(old_attempts.take(i as int), old_dls, self.dead_letters@, k, now_ms),
            decreases old_attempts.len() - i,
        {
            proof {
                assert(old_attempts.take(i + 1).drop_last() =~= old_attempts.take(i as int));
                assert(self.attempts@[i as int] == old_attempts[i as int]);
            }
            let row_timed_out = match (self.attempts[i].started_at_ms, self.attempts[i].timeout) {
                (Some(started), Some(t)) => {
                    let running = match self.attempts[i].status {
                        AttemptExecutionStatus::Leased | AttemptExecutionStatus::Running => true,
                        _ => false,
                    };
                    running && (started as i128) + (t.timeout_ms as i128) <= (now_ms as i128)
                },
                _ => false,
            };
            let ghost dls_before = self.dead_letters@;
            proof {
                lemma_take_pos(old_attempts, i as int);
                assert(row_timed_out == timed_out(old_attempts[i as int], now_ms));
            }
            if row_timed_out {
                let t = match self.attempts[i].timeout {
                    Some(t) => t,
                    None => {
                        return Ok(count);
                    },
                };
                let attempt_id = self.attempts[i].attempt_id.clone();
                let run_id = self.attempts[i].run_id.clone();
                let attempt_no = self.attempts[i].attempt_no;
                count = count + 1;
                self.drop_lease_of(attempt_id.as_str());
                proof {
                    lemma_key_update(self.attempts@, i as int, ended_by_timeout(self.attempts@[i as int]));
                }
                self.attempts[i].status = t.on_timeout_status;
                self.attempts[i].retry_at_ms = None;
                self.attempts[i].started_at_ms = None;
                let failed = match t.on_timeout_status {
                    AttemptExecutionStatus::Failed => true,
                    _ => false,
                };
                proof {
                    assert(keys_unique(self.attempts@));
                    assert(timed_out_failing(old_attempts.take(i + 1), old_attempts[i as int].attempt_id@, now_ms) == failed);
                }
                if failed {
                    self.upsert_dead_letter(attempt_id.as_str(), run_id.as_str(), attempt_no, "execution_timeout", now_ms);
                    proof {
                        lemma_dead_letter_upsert_others(
                            dls_before,
                            self.dead_letters@,
                            attempt_id@,
                            run_id@,
                            attempt_no,
                            "execution_timeout"@,
                            now_ms,
                        );
                    }
                }
                proof {
                    assert forall|k: Seq<char>| #[trigger] timeout_dead_letter(old_attempts.take(i + 1), old_dls, self.dead_letters@, k, now_ms) by {
                        lemma_timeout_dead_letter_step(old_attempts, i as int, old_dls, dls_before, self.dead_letters@, k, now_ms);
                    }
                }
            } else {
                proof {
                    assert forall|k: Seq<char>| #[trigger] timeout_dead_letter(old_attempts.take(i + 1), old_dls, self.dead_letters@, k, now_ms) by {
                        lemma_timeout_dead_letter_step(old_attempts, i as int, old_dls, dls_before, self.dead_letters@, k, now_ms);
                    }
                }
            }
            i = i + 1;
        }
        proof {
            assert(old_attempts.take(i as int) =~= old_attempts);
        }
        Ok(count)
    }
}

/// The attempt of `rows` with id `k` timed out at `now` and fails for it.
pub open spec fn timed_out_failing(rows: Seq<AttemptRow>, k: Seq<char>, now_ms: i64) -> bool {
    let j = key_pos(rows, k);
    j >= 0 && timed_out(rows[j], now_ms) && rows[j].timeout->0.on_timeout_status == AttemptExecutionStatus::Failed
}

/// The dead letter of `k` after the timeouts of `rows`: written for a timed-out failure,
/// untouched otherwise.
pub open spec fn timeout_dead_letter(
    rows: Seq<AttemptRow>,
    before: Seq<DeadLetterRow>,
    after: Seq<DeadLetterRow>,
    k: Seq<char>,
    now_ms: i64,
) -> bool {
    if timed_out_failing(rows, k, now_ms) {
        let row = rows[key_pos(rows, k)];
        dl_at(after, k) matches Some(d) && dead_letter_written(
            d,
            dl_at(before, k),
            k,
            row.run_id@,
            row.attempt_no,
            "execution_timeout"@,
            now_ms,
        )
    } else {
        dl_at(after, k) == dl_at(before, k)
    }
}

proof fn lemma_take_pos(rows: Seq<AttemptRow>, i: int)
    requires
        keys_unique(rows),
        0 <= i < rows.len(),
    ensures
        keys_unique(rows.take(i + 1)),
        keys_unique(rows.take(i)),
        rows.take(i + 1)[i] == rows[i],
        key_pos(rows.take(i + 1), rows[i].attempt_id@) == i,
{
    let b = rows.take(i + 1);
    assert(keys_unique(b));
    assert(keys_unique(rows.take(i)));
    assert(b[i] == rows[i]);
    lemma_key_pos(b, i);
}

proof fn lemma_timeout_dead_letter_step(
    rows: Seq<AttemptRow>,
    i: int,
    old_dls: Seq<DeadLetterRow>,
    mid: Seq<DeadLetterRow>,
    after: Seq<DeadLetterRow>,
    k: Seq<char>,
    now_ms: i64,
)
    requires
        keys_unique(rows),
        0 <= i < rows.len(),
        timeout_dead_letter(rows.take(i), old_dls, mid, k, now_ms),
        timed_out_failing(rows.take(i + 1), rows[i].attempt_id@, now_ms) ==> (dl_at(after, rows[i].attempt_id@) matches Some(d)
            && dead_letter_written(d, dl_at(mid, rows[i].attempt_id@), rows[i].attempt_id@, rows[i].run_id@, rows[i].attempt_no, "execution_timeout"@, now_ms)),
        !timed_out_failing(rows.take(i + 1), rows[i].attempt_id@, now_ms) ==> after == mid,
        forall|k2: Seq<char>| k2 != rows[i].attempt_id@ ==> #[trigger] dl_at(after, k2) == dl_at(mid, k2),
    ensures
        timeout_dead_letter(rows.take(i + 1), old_dls, after, k, now_ms),
{
    let a = rows.take(i);
    let b = rows.take(i + 1);
    assert(keys_unique(a));
    assert(keys_unique(b));
    assert(b[i] == rows[i]);
    lemma_key_pos(b, i);
    if k == rows[i].attempt_id@ {
        if has_key(a, k) {
            let j = key_pos(a, k);
            crate::runtime::store::keyed::lemma_key_pos_range(a, k);
            assert(a[j] == rows[j]);
            assert(rows[j].key() == rows[i].key());
        }
        crate::runtime::store::keyed::lemma_key_pos_range(a, k);
    } else {
        crate::runtime::store::keyed::lemma_key_pos_range(a, k);
        crate::runtime::store::keyed::lemma_key_pos_range(b, k);
        if has_key(a, k) {
            let j = key_pos(a, k);
            assert(a[j] == b[j]);
            lemma_key_pos(b, j);
            lemma_key_pos(a, j);
        } else if has_key(b, k) {
            let j = key_pos(b, k);
            assert(j != i);
            assert(a[j] == b[j]);
        }
    }
}

/// The attempts after the leases expired at `now_ms` were dropped: each attempt whose lease
/// expired is requeued.
pub open spec fn after_expiry(rows: Seq<AttemptRow>, leases: Seq<LeaseRecord>, now_ms: i64) -> Seq<AttemptRow> {
    Seq::new(
        rows.len(),
        |j: int|
            if has_expired_lease(leases, rows[j].attempt_id@, now_ms) {
                requeued(rows[j])
            } else {
                rows[j]
            },
    )
}

impl InMemoryRuntimeRepository {
    /// One lease-manager tick at `now_ms`: expired leases are dropped and their attempts
    /// requeued, then attempts past their timeout are ended. Returns both counts.
    pub fn lease_tick(&mut self, now_ms: i64) -> (r: Result<(u64, u64), KernelError>)
        requires
            old(self).wf(),
        ensures
            final(self).same_records(old(self)),
            final(self).wf(),
            r matches Ok((expired, _)) && expired == expired_count(old(self).leases(), now_ms),
            forall|i: int| 0 <= i < final(self).leases().len() ==> lease_active(#[trigger] final(self).leases()[i], now_ms),
            forall|j: int| 0 <= j < final(self).attempts().len() ==> !timed_out(#[trigger] final(self).attempts()[j], now_ms),
            final(self).retry_history() == old(self).retry_history(),
            final(self).replay_effects() == old(self).replay_effects(),
            final(self).step_reports() == old(self).step_reports(),
            ({
                let mid = after_expiry(old(self).attempts(), old(self).leases(), now_ms);
                &&& r == Ok::<(u64, u64), KernelError>(
                    (expired_count(old(self).leases(), now_ms) as u64, timed_out_count(mid, now_ms) as u64),
                )
                &&& final(self).leases() == leases_after_timeouts(unexpired(old(self).leases(), now_ms), mid, now_ms)
                &&& final(self).attempts().len() == old(self).attempts().len()
                &&& forall|j: int|
                    0 <= j < mid.len() ==> #[trigger] final(self).attempts()[j] == if timed_out(mid[j], now_ms) {
                        ended_by_timeout(mid[j])
                    } else {
                        mid[j]
                    }
                &&& forall|k: Seq<char>| #[trigger] timeout_dead_letter(mid, old(self).dead_letters(), final(self).dead_letters(), k, now_ms)
            }),
    {
        let expired = match self.expire_leases_and_requeue(now_ms) {
            Ok(n) => n,
            Err(e) => {
                return Err(e);
            },
        };
        let ghost mid = self.leases();
        proof {
            assert(mid == unexpired(old(self).leases(), now_ms));
            lemma_unexpired_active(old(self).leases(), now_ms);
        }
        let ghost mid_attempts = self.attempts();
        proof {
            assert(mid_attempts =~= after_expiry(old(self).attempts(), old(self).leases(), now_ms));
        }
        let ended = match self.transition_timed_out_attempts(now_ms) {
            Ok(n) => n,
            Err(e) => {
                return Err(e);
            },
        };
        proof {
            lemma_timeouts_keep_active(mid, mid_attempts, now_ms);
        }
        Ok((expired, ended))
    }
}

/// Every lease kept by [unexpired] is active.
pub proof fn lemma_unexpired_active(s: Seq<LeaseRecord>, now_ms: i64)
    ensures
        forall|i: int| 0 <= i < unexpired(s, now_ms).len() ==> lease_active(#[trigger] unexpired(s, now_ms)[i], now_ms),
    decreases s.len(),
{
    if s.len() > 0 {
        lemma_unexpired_active(s.drop_last(), now_ms);
        let u = unexpired(s.drop_last(), now_ms);
        if lease_active(s.last(), now_ms) {
            assert forall|i: int| 0 <= i < u.push(s.last()).len() implies lease_active(#[trigger] u.push(s.last())[i], now_ms) by {
                if i < u.len() {
                    assert(u.push(s.last())[i] == u[i]);
                }
            }
        }
    }
}

/// Dropping the leases of timed-out attempts keeps only leases that were there.
pub proof fn lemma_timeouts_keep_active(s: Seq<LeaseRecord>, rows: Seq<AttemptRow>, now_ms: i64)
    requires
        forall|i: int| 0 <= i < s.len() ==> lease_active(#[trigger] s[i], now_ms),
    ensures
        forall|i: int|
            0 <= i < leases_after_timeouts(s, rows, now_ms).len() ==> lease_active(
                #[trigger] leases_after_timeouts(s, rows, now_ms)[i],
                now_ms,
            ),
    decreases rows.len(),
{
    if rows.len() > 0 {
        lemma_timeouts_keep_active(s, rows.drop_last(), now_ms);
        let before = leases_after_timeouts(s, rows.drop_last(), now_ms);
        if timed_out(rows.last(), now_ms) {
            let p = key_pos(before, rows.last().attempt_id@);
            if p >= 0 {
                let t = before.remove(p);
                assert forall|i: int| 0 <= i < t.len() implies lease_active(#[trigger] t[i], now_ms) by {
                    if i < p {
                        assert(t[i] == before[i]);
                    } else {
                        assert(t[i] == before[i + 1]);
                    }
                }
            }
        }
    }
}

} // verus!
