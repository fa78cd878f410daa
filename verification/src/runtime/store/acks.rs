//! Acknowledging attempts: retries with backoff, terminal statuses and the dead-letter queue.
use crate::kernel::event::KernelError;
use crate::runtime::attempt::{strategy_name, AttemptExecutionStatus};
use crate::runtime::models::{AttemptAckOutcome, AttemptRetryHistoryRow, AttemptRetryHistorySnapshot, AttemptRow, DeadLetterRow};
use crate::runtime::retry::{ack_plan, ack_plan_defined, counted_attempt_no, plan_ack, AckPlan, RetryPolicyConfig};
use crate::runtime::store::attempts::driver_err;
use crate::runtime::store::keyed::{find_key, key_pos, keys_unique, lemma_key_push, lemma_key_remove, lemma_key_update, Keyed};
use crate::runtime::store::{fails_with, InMemoryRuntimeRepository};
use crate::text::str_eq;
use vstd::prelude::*;

verus! {

/// `d` is the dead letter written for a terminal failure of `attempt_id`: the failure
/// details replace those of `prev`, if there was one, which keeps its replay count and
/// last replay time; the dead letter is pending replay again.
pub open spec fn dead_letter_written(
    d: DeadLetterRow,
    prev: Option<DeadLetterRow>,
    attempt_id: Seq<char>,
    run_id: Seq<char>,
    attempt_no: u32,
    reason: Seq<char>,
    now_ms: i64,
) -> bool {
    &&& d.attempt_id@ == attempt_id
    &&& d.run_id@ == run_id
    &&& d.attempt_no == attempt_no
    &&& d.terminal_status@ == "failed"@
    &&& d.reason matches Some(r) && r@ == reason
    &&& d.dead_at_ms == now_ms
    &&& d.replay_status@ == "pending"@
    &&& d.replay_count == (match prev { Some(p) => p.replay_count, None => 0 })
    &&& d.last_replayed_at_ms == (match prev { Some(p) => p.last_replayed_at_ms, None => None })
}

/// `after` is `before` with the dead letter of `attempt_id` written (see [dead_letter_written]).
pub open spec fn dead_letter_upserted(
    before: Seq<DeadLetterRow>,
    after: Seq<DeadLetterRow>,
    attempt_id: Seq<char>,
    run_id: Seq<char>,
    attempt_no: u32,
    reason: Seq<char>,
    now_ms: i64,
) -> bool {
    let p = key_pos(before, attempt_id);
    if p >= 0 {
        &&& after == before.update(p, after[p])
        &&& dead_letter_written(after[p], Some(before[p]), attempt_id, run_id, attempt_no, reason, now_ms)
    } else {
        &&& after == before.push(after.last())
        &&& dead_letter_written(after.last(), None, attempt_id, run_id, attempt_no, reason, now_ms)
    }
}

/// The dead letter with key `attempt_id` in `s`, if any.
pub open spec fn dl_at(s: Seq<DeadLetterRow>, attempt_id: Seq<char>) -> Option<DeadLetterRow> {
    let p = key_pos(s, attempt_id);
    if p >= 0 { Some(s[p]) } else { None }
}

/// Upserting a dead letter leaves the dead letters of other attempts as they were.
pub proof fn lemma_dead_letter_upsert_others(
    before: Seq<DeadLetterRow>,
    after: Seq<DeadLetterRow>,
    attempt_id: Seq<char>,
    run_id: Seq<char>,
    attempt_no: u32,
    reason: Seq<char>,
    now_ms: i64,
)
    requires
        keys_unique(before),
        dead_letter_upserted(before, after, attempt_id, run_id, attempt_no, reason, now_ms),
    ensures
        keys_unique(after),
        dl_at(after, attempt_id) matches Some(d) && dead_letter_written(d, dl_at(before, attempt_id), attempt_id, run_id, attempt_no, reason, now_ms),
        forall|k: Seq<char>| k != attempt_id ==> #[trigger] dl_at(after, k) == dl_at(before, k),
{
    let p = key_pos(before, attempt_id);
    crate::runtime::store::keyed::lemma_key_pos_range(before, attempt_id);
    if p >= 0 {
        lemma_key_update(before, p, after[p]);
    } else {
        lemma_key_push(before, after.last());
        assert(after.last() == after[before.len() as int]);
    }
}

/// `h` records the retry of `attempt_id` as attempt `attempt_no` after `backoff_ms`.
pub open spec fn retry_recorded(
    h: AttemptRetryHistoryRow,
    attempt_id: Seq<char>,
    attempt_no: u32,
    policy: RetryPolicyConfig,
    backoff_ms: i64,
    scheduled_at_ms: i64,
) -> bool {
    &&& h.attempt_id@ == attempt_id
    &&& h.attempt_no == attempt_no
    &&& h.strategy@ == strategy_name(policy.strategy)
    &&& h.backoff_ms == backoff_ms
    &&& h.max_retries == policy.max_retries
    &&& h.scheduled_at_ms == scheduled_at_ms
}

/// The retry policy in force for an attempt: the one given, else the one stored.
pub open spec fn effective_policy(given: Option<RetryPolicyConfig>, row: AttemptRow) -> Option<RetryPolicyConfig> {
    if given is Some {
        given
    } else {
        row.retry_policy
    }
}

/// Leases without the lease of `attempt_id`.
pub open spec fn leases_without<T: Keyed>(s: Seq<T>, attempt_id: Seq<char>) -> Seq<T> {
    let p = key_pos(s, attempt_id);
    if p >= 0 { s.remove(p) } else { s }
}

impl InMemoryRuntimeRepository {
    /// Acknowledging `attempt_id` with these inputs is defined (see [ack_plan_defined]).
    pub open spec fn ack_defined(
        &self,
        attempt_id: Seq<char>,
        status: AttemptExecutionStatus,
        retry_policy: Option<RetryPolicyConfig>,
        exponential_raw_ms: i64,
        now_ms: i64,
    ) -> bool {
        let i = self.attempt_pos(attempt_id);
        i >= 0 ==> ack_plan_defined(
            status,
            self.attempts()[i].attempt_no,
            effective_policy(retry_policy, self.attempts()[i]),
            exponential_raw_ms,
            now_ms,
        )
    }

    /// The dead letter of an attempt, if any.
    pub open spec fn dead_letter_of(&self, attempt_id: Seq<char>) -> Option<DeadLetterRow> {
        dl_at(self.dead_letters(), attempt_id)
    }

    /// What the caller needs to compute exponential growth before acknowledging:
    /// the attempt number counted for retries and the stored retry policy.
    pub fn ack_inputs(&self, attempt_id: &str) -> (r: Option<(u32, Option<RetryPolicyConfig>)>)
        requires
            self.wf(),
        ensures
            ({
                let i = self.attempt_pos(attempt_id@);
                if i < 0 {
                    r is None
                } else {
                    r == Some((counted_attempt_no(self.attempts()[i].attempt_no), self.attempts()[i].retry_policy))
                }
            }),
    {
        match find_key(&self.attempts, attempt_id) {
            None => None,
            Some(i) => {
                let n = self.attempts[i].attempt_no;
                Some((if n < 1 { 1 } else { n }, self.attempts[i].retry_policy))
            },
        }
    }

    pub(crate) fn drop_lease_of(&mut self, attempt_id: &str)
        requires
            old(self).wf(),
        ensures
            final(self).same_records(old(self)),
            final(self).wf(),
            final(self).attempts() == old(self).attempts(),
            final(self).leases() == leases_without(old(self).leases(), attempt_id@),
            final(self).retry_history() == old(self).retry_history(),
            final(self).dead_letters() == old(self).dead_letters(),
            final(self).replay_effects() == old(self).replay_effects(),
            final(self).step_reports() == old(self).step_reports(),
    {
        match find_key(&self.leases, attempt_id) {
            None => {},
            Some(li) => {
                let ghost before = self.leases@;
                proof {
                    lemma_key_remove(self.leases@, li as int);
                }
                self.leases.remove(li);
                proof {
                    assert forall|a: int, b: int|
                        0 <= a < self.leases@.len() && 0 <= b < self.leases@.len() && #[trigger] self.leases@[a].lease_id@
                            == #[trigger] self.leases@[b].lease_id@ implies a == b by {
                        let oa = if a < li { a } else { a + 1 };
                        let ob = if b < li { b } else { b + 1 };
                        assert(before[oa] == self.leases@[a]);
                        assert(before[ob] == self.leases@[b]);
                    }
                }
            },
        }
    }

    /// Writes the dead letter of a terminal failure (see [dead_letter_upserted]).
    pub(crate) fn upsert_dead_letter(&mut self, attempt_id: &str, run_id: &str, attempt_no: u32, reason: &str, now_ms: i64)
        requires
            old(self).wf(),
        ensures
            final(self).same_records(old(self)),
            final(self).wf(),
            final(self).attempts() == old(self).attempts(),
            final(self).leases() == old(self).leases(),
            final(self).retry_history() == old(self).retry_history(),
            final(self).replay_effects() == old(self).replay_effects(),
            final(self).step_reports() == old(self).step_reports(),
            dead_letter_upserted(old(self).dead_letters(), final(self).dead_letters(), attempt_id@, run_id@, attempt_no, reason@, now_ms),
    {
        match find_key(&self.dead_letters, attempt_id) {
            Some(p) => {
                let prev = self.dead_letters[p].clone();
                let row = DeadLetterRow {
                    attempt_id: prev.attempt_id,
                    run_id: run_id.to_owned(),
                    attempt_no,
                    terminal_status: "failed".to_owned(),
                    reason: Some(reason.to_owned()),
                    dead_at_ms: now_ms,
                    replay_status: "pending".to_owned(),
                    replay_count: prev.replay_count,
                    last_replayed_at_ms: prev.last_replayed_at_ms,
                };
                proof {
                    lemma_key_update(self.dead_letters@, p as int, row);
                }
                self.dead_letters.set(p, row);
            },
            None => {
                let row = DeadLetterRow {
                    attempt_id: attempt_id.to_owned(),
                    run_id: run_id.to_owned(),
                    attempt_no,
                    terminal_status: "failed".to_owned(),
                    reason: Some(reason.to_owned()),
                    dead_at_ms: now_ms,
                    replay_status: "pending".to_owned(),
                    replay_count: 0,
                    last_replayed_at_ms: None,
                };
                proof {
                    lemma_key_push(self.dead_letters@, row);
                }
                self.dead_letters.push(row);
            },
        }
    }

    /// Acknowledges an attempt with `status`, with the retry policy given (which is stored)
    /// or else the one stored. The attempt's lease is dropped. What follows is [ack_plan]:
    /// a retry puts the attempt back in backoff under its next number and records the retry;
    /// a terminal status is stored, and a terminal failure is dead-lettered with reason
    /// `terminal_failed`. `exponential_raw_ms` is the exponential growth computed by the
    /// caller for the attempt's current number (see [Self::ack_inputs]); only exponential
    /// policies use it.
    pub fn ack_attempt(
        &mut self,
        attempt_id: &str,
        status: AttemptExecutionStatus,
        retry_policy: Option<RetryPolicyConfig>,
        exponential_raw_ms: i64,
        now_ms: i64,
    ) -> (r: Result<AttemptAckOutcome, KernelError>)
        requires
            old(self).wf(),
            old(self).ack_defined(attempt_id@, status, retry_policy, exponential_raw_ms, now_ms),
        ensures
            final(self).same_records(old(self)),
            final(self).wf(),
            final(self).replay_effects() == old(self).replay_effects(),
            final(self).step_reports() == old(self).step_reports(),
            ({
                let i = old(self).attempt_pos(attempt_id@);
                if i < 0 {
                    &&& fails_with(r, "attempt not found for ack: "@ + attempt_id@)
                    &&& final(self).same_scheduling(old(self))
                } else {
                    let row = old(self).attempts()[i];
                    let eff = effective_policy(retry_policy, row);
                    &&& final(self).leases() == leases_without(old(self).leases(), attempt_id@)
                    &&& match ack_plan(status, row.attempt_no, eff, exponential_raw_ms, now_ms) {
                        AckPlan::Retry { next_attempt_no, backoff_ms, retry_at_ms } => {
                            &&& r == Ok::<AttemptAckOutcome, KernelError>(AttemptAckOutcome {
                                status: AttemptExecutionStatus::RetryBackoff,
                                next_retry_at_ms: Some(retry_at_ms),
                                next_attempt_no,
                            })
                            &&& final(self).attempts() == old(self).attempts().update(
                                i,
                                AttemptRow {
                                    attempt_no: next_attempt_no,
                                    status: AttemptExecutionStatus::RetryBackoff,
                                    retry_at_ms: Some(retry_at_ms),
                                    started_at_ms: None,
                                    retry_policy: eff,
                                    ..row
                                },
                            )
                            &&& final(self).retry_history() == old(self).retry_history().push(final(self).retry_history().last())
                            &&& retry_recorded(final(self).retry_history().last(), attempt_id@, next_attempt_no, eff->0, backoff_ms, retry_at_ms)
                            &&& final(self).dead_letters() == old(self).dead_letters()
                        },
                        AckPlan::Terminal { attempt_no, dead_letter } => {
                            &&& r == Ok::<AttemptAckOutcome, KernelError>(AttemptAckOutcome { status, next_retry_at_ms: None, next_attempt_no: attempt_no })
                            &&& final(self).attempts() == old(self).attempts().update(
                                i,
                                AttemptRow { status, retry_at_ms: None, started_at_ms: None, retry_policy: eff, ..row },
                            )
                            &&& final(self).retry_history() == old(self).retry_history()
                            &&& dead_letter ==> dead_letter_upserted(
                                old(self).dead_letters(),
                                final(self).dead_letters(),
                                attempt_id@,
                                row.run_id@,
                                row.attempt_no,
                                "terminal_failed"@,
                                now_ms,
                            )
                            &&& !dead_letter ==> final(self).dead_letters() == old(self).dead_letters()
                        },
                    }
                }
            }),
    {
        let i = match find_key(&self.attempts, attempt_id) {
            None => {
                return Err(driver_err("attempt not found for ack: ", attempt_id));
            },
            Some(i) => i,
        };
        let stored_no = self.attempts[i].attempt_no;
        let run_id = self.attempts[i].run_id.clone();
        let eff = match retry_policy {
            Some(p) => Some(p),
            None => self.attempts[i].retry_policy,
        };
        let plan = plan_ack(status, stored_no, eff, exponential_raw_ms, now_ms);
        self.drop_lease_of(attempt_id);
        let ghost mid = self.attempts@;
        match plan {
            AckPlan::Retry { next_attempt_no, backoff_ms, retry_at_ms } => {
                let p = match eff {
                    Some(p) => p,
                    None => {
                        return Err(driver_err("attempt not found for ack: ", attempt_id));
                    },
                };
                proof {
                    let row = AttemptRow {
                        attempt_no: next_attempt_no,
                        status: AttemptExecutionStatus::RetryBackoff,
                        retry_at_ms: Some(retry_at_ms),
                        started_at_ms: None,
                        retry_policy: eff,
                        ..self.attempts@[i as int]
                    };
                    lemma_key_update(self.attempts@, i as int, row);
                }
                self.attempts[i].retry_policy = eff;
                self.attempts[i].attempt_no = next_attempt_no;
                self.attempts[i].status = AttemptExecutionStatus::RetryBackoff;
                self.attempts[i].retry_at_ms = Some(retry_at_ms);
                self.attempts[i].started_at_ms = None;
                let h = AttemptRetryHistoryRow {
                    attempt_id: attempt_id.to_owned(),
                    attempt_no: next_attempt_no,
                    strategy: p.strategy.as_str().to_owned(),
                    backoff_ms,
                    max_retries: p.max_retries,
                    scheduled_at_ms: retry_at_ms,
                };
                self.retry_history.push(h);
                Ok(AttemptAckOutcome {
                    status: AttemptExecutionStatus::RetryBackoff,
                    next_retry_at_ms: Some(retry_at_ms),
                    next_attempt_no,
                })
            },
            AckPlan::Terminal { attempt_no, dead_letter } => {
                proof {
                    let row = AttemptRow {
                        status,
                        retry_at_ms: None,
                        started_at_ms: None,
                        retry_policy: eff,
                        ..self.attempts@[i as int]
                    };
                    lemma_key_update(self.attempts@, i as int, row);
                }
                self.attempts[i].retry_policy = eff;
                self.attempts[i].status = status;
                self.attempts[i].retry_at_ms = None;
                self.attempts[i].started_at_ms = None;
                if dead_letter {
                    self.upsert_dead_letter(attempt_id, run_id.as_str(), stored_no, "terminal_failed", now_ms);
                }
                Ok(AttemptAckOutcome { status, next_retry_at_ms: None, next_attempt_no: attempt_no })
            },
        }
    }

    /// Retry state of an attempt: its number counted for retries, its status, and its
    /// scheduled retries oldest first.
    pub fn get_attempt_retry_history(&self, attempt_id: &str) -> (r: Result<Option<AttemptRetryHistorySnapshot>, KernelError>)
        requires
            self.wf(),
        ensures
            r is Ok,
            ({
                let i = self.attempt_pos(attempt_id@);
                if i < 0 {
                    r matches Ok(None)
                } else {
                    r matches Ok(Some(snap)) && snap.attempt_id@ == attempt_id@
                        && snap.current_attempt_no == counted_attempt_no(self.attempts()[i].attempt_no)
                        && snap.current_status == self.attempts()[i].status
                        && snap.history@ == self.retry_history().filter(|h: AttemptRetryHistoryRow| h.attempt_id@ == attempt_id@)
                }
            }),
    {
        let i = match find_key(&self.attempts, attempt_id) {
            None => {
                return Ok(None);
            },
            Some(i) => i,
        };
        let mut history: Vec<AttemptRetryHistoryRow> = Vec::new();
        let mut k: usize = 0;
        let ghost pred = |h: AttemptRetryHistoryRow| h.attempt_id@ == attempt_id@;
        while k < self.retry_history.len()
            invariant
                k <= self.retry_history@.len(),
                history@ == self.retry_history@.take(k as int).filter(pred),
                pred == (|h: AttemptRetryHistoryRow| h.attempt_id@ == attempt_id@),
            decreases self.retry_history@.len() - k,
        {
            proof {
                assert(self.retry_history@.take(k + 1).drop_last() =~= self.retry_history@.take(k as int));
                reveal(Seq::filter);
            }
            if str_eq(self.retry_history[k].attempt_id.as_str(), attempt_id) {
                let h = &self.retry_history[k];
                let copy = AttemptRetryHistoryRow {
                    attempt_id: h.attempt_id.clone(),
                    attempt_no: h.attempt_no,
                    strategy: h.strategy.clone(),
                    backoff_ms: h.backoff_ms,
                    max_retries: h.max_retries,
                    scheduled_at_ms: h.scheduled_at_ms,
                };
                history.push(copy);
            }
            k = k + 1;
        }
        proof {
            assert(self.retry_history@.take(k as int) =~= self.retry_history@);
        }
        let n = self.attempts[i].attempt_no;
        Ok(
            Some(
                AttemptRetryHistorySnapshot {
                    attempt_id: attempt_id.to_owned(),
                    current_attempt_no: if n < 1 { 1 } else { n },
                    current_status: self.attempts[i].status,
                    history,
                },
            ),
        )
    }

    /// The dead letter of an attempt, if any.
    pub fn get_dead_letter(&self, attempt_id: &str) -> (r: Result<Option<DeadLetterRow>, KernelError>)
        requires
            self.wf(),
        ensures
            r == Ok::<Option<DeadLetterRow>, KernelError>(self.dead_letter_of(attempt_id@)),
    {
        match find_key(&self.dead_letters, attempt_id) {
            None => Ok(None),
            Some(p) => Ok(Some(self.dead_letters[p].clone())),
        }
    }

    /// Replays a pending dead letter: the attempt's lease is dropped, the attempt is queued
    /// again, and the dead letter is marked replayed with its count bumped. Returns the
    /// updated dead letter.
    pub fn replay_dead_letter(&mut self, attempt_id: &str, now_ms: i64) -> (r: Result<DeadLetterRow, KernelError>)
        requires
            old(self).wf(),
            old(self).dead_letter_of(attempt_id@) matches Some(d) ==> d.replay_count < u32::MAX,
        ensures
            final(self).same_records(old(self)),
            final(self).wf(),
            final(self).retry_history() == old(self).retry_history(),
            final(self).replay_effects() == old(self).replay_effects(),
            final(self).step_reports() == old(self).step_reports(),
            ({
                let d = old(self).dead_letter_of(attempt_id@);
                let i = old(self).attempt_pos(attempt_id@);
                &&& d is None ==> fails_with(r, "dead letter not found for attempt: "@ + attempt_id@)
                &&& d is Some && d->0.replay_status@ != "pending"@ ==> fails_with(
                    r,
                    "dead letter already replayed for attempt: "@ + attempt_id@,
                )
                &&& d is Some && d->0.replay_status@ == "pending"@ && i < 0 ==> fails_with(
                    r,
                    "attempt not found for dead letter replay: "@ + attempt_id@,
                )
                &&& r is Err ==> final(self).same_scheduling(old(self))
                &&& r is Ok <==> (d is Some && d->0.replay_status@ == "pending"@ && i >= 0)
                &&& r matches Ok(n) ==> {
                    let x = d->0;
                    let p = key_pos(old(self).dead_letters(), attempt_id@);
                    &&& n == DeadLetterRow { replay_status: n.replay_status, replay_count: (x.replay_count + 1) as u32, last_replayed_at_ms: Some(now_ms), ..x }
                    &&& n.replay_status@ == "replayed"@
                    &&& final(self).dead_letters() == old(self).dead_letters().update(p, n)
                    &&& final(self).leases() == leases_without(old(self).leases(), attempt_id@)
                    &&& final(self).attempts() == old(self).attempts().update(
                        i,
                        AttemptRow { status: AttemptExecutionStatus::Queued, retry_at_ms: None, started_at_ms: None, ..old(self).attempts()[i] },
                    )
                }
            }),
    {
        let p = match find_key(&self.dead_letters, attempt_id) {
            None => {
                return Err(driver_err("dead letter not found for attempt: ", attempt_id));
            },
            Some(p) => p,
        };
        if !str_eq(self.dead_letters[p].replay_status.as_str(), "pending") {
            return Err(driver_err("dead letter already replayed for attempt: ", attempt_id));
        }
        let i = match find_key(&self.attempts, attempt_id) {
            None => {
                return Err(driver_err("attempt not found for dead letter replay: ", attempt_id));
            },
            Some(i) => i,
        };
        self.drop_lease_of(attempt_id);
        proof {
            let row = AttemptRow {
                status: AttemptExecutionStatus::Queued,
                retry_at_ms: None,
                started_at_ms: None,
                ..self.attempts@[i as int]
            };
            lemma_key_update(self.attempts@, i as int, row);
        }
        self.attempts[i].status = AttemptExecutionStatus::Queued;
        self.attempts[i].retry_at_ms = None;
        self.attempts[i].started_at_ms = None;
        let mut row = self.dead_letters[p].clone();
        row.replay_status = "replayed".to_owned();
        row.replay_count = row.replay_count + 1;
        row.last_replayed_at_ms = Some(now_ms);
        let out = row.clone();
        proof {
            lemma_key_update(self.dead_letters@, p as int, row);
        }
        self.dead_letters.set(p, row);
        Ok(out)
    }
}

} // verus!
