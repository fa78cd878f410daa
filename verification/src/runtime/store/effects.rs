//! Replay side effects claimed once per fingerprint, and deduplicated step reports.
use crate::kernel::event::KernelError;
use crate::runtime::models::{ReplayEffectClaim, ReplayEffectLogRow, StepReportRow, StepReportWriteResult};
use crate::runtime::store::attempts::{driver_err, opt_view};
use crate::runtime::store::keyed::{find_key, key_pos, lemma_key_push, lemma_key_remove, lemma_key_update, Keyed};
use crate::runtime::store::{fails_with, InMemoryRuntimeRepository};
use crate::text::{concat, str_eq};
use vstd::prelude::*;

verus! {

/// `e` is the effect recorded when a replay of `thread_id` claims `fingerprint` first.
pub open spec fn claimed_effect(e: ReplayEffectLogRow, thread_id: Seq<char>, replay_target: Seq<char>, fingerprint: Seq<char>, now_ms: i64) -> bool {
    &&& e.fingerprint@ == fingerprint
    &&& e.thread_id@ == thread_id
    &&& e.replay_target@ == replay_target
    &&& e.effect_type@ == "job_replay"@
    &&& e.status@ == "in_progress"@
    &&& e.execution_count == 1
    &&& e.created_at_ms == now_ms
    &&& e.completed_at_ms is None
    &&& e.response_json is None
}

/// Position of the report of `attempt_id` with `dedupe_token`, or -1.
pub open spec fn report_pos(s: Seq<StepReportRow>, attempt_id: Seq<char>, dedupe_token: Seq<char>) -> int {
    if exists|i: int| 0 <= i < s.len() && #[trigger] s[i].attempt_id@ == attempt_id && s[i].dedupe_token@ == dedupe_token {
        choose|i: int| 0 <= i < s.len() && #[trigger] s[i].attempt_id@ == attempt_id && s[i].dedupe_token@ == dedupe_token
    } else {
        -1
    }
}

/// Message of a dedupe token reused with another payload.
pub open spec fn token_conflict_message(dedupe_token: Seq<char>, attempt_id: Seq<char>) -> Seq<char> {
    "dedupe_token '"@ + dedupe_token + "' already used with different payload for attempt '"@ + attempt_id + "'"@
}

impl InMemoryRuntimeRepository {
    /// The replay effect with `fingerprint`, if any.
    pub open spec fn effect_of(&self, fingerprint: Seq<char>) -> Option<ReplayEffectLogRow> {
        let p = key_pos(self.replay_effects(), fingerprint);
        if p >= 0 { Some(self.replay_effects()[p]) } else { None }
    }

    /// Claims the side effect `fingerprint` for a replay of `thread_id`: a new fingerprint is
    /// recorded in progress and acquired; one in progress is reported so; a completed one
    /// hands back its stored response.
    pub fn claim_replay_effect(&mut self, thread_id: &str, replay_target: &str, fingerprint: &str, now_ms: i64) -> (r:
        Result<ReplayEffectClaim, KernelError>)
        requires
            old(self).wf(),
        ensures
            final(self).same_records(old(self)),
            final(self).wf(),
            final(self).same_scheduling(old(self)),
            final(self).step_reports() == old(self).step_reports(),
            match old(self).effect_of(fingerprint@) {
                None => r == Ok::<ReplayEffectClaim, KernelError>(ReplayEffectClaim::Acquired)
                    && final(self).replay_effects() == old(self).replay_effects().push(final(self).replay_effects().last())
                    && claimed_effect(final(self).replay_effects().last(), thread_id@, replay_target@, fingerprint@, now_ms),
                Some(e) => {
                    &&& final(self).replay_effects() == old(self).replay_effects()
                    &&& e.status@ == "completed"@ && e.response_json is Some ==> r == Ok::<ReplayEffectClaim, KernelError>(
                        ReplayEffectClaim::Completed(e.response_json->0),
                    )
                    &&& e.status@ == "completed"@ && e.response_json is None ==> fails_with(r, "missing stored replay response"@)
                    &&& e.status@ != "completed"@ ==> r == Ok::<ReplayEffectClaim, KernelError>(ReplayEffectClaim::InProgress)
                },
            },
    {
        match find_key(&self.replay_effects, fingerprint) {
            Some(p) => {
                if str_eq(self.replay_effects[p].status.as_str(), "completed") {
                    match &self.replay_effects[p].response_json {
                        Some(s) => Ok(ReplayEffectClaim::Completed(s.clone())),
                        None => Err(KernelError::Driver("missing stored replay response".to_owned())),
                    }
                } else {
                    Ok(ReplayEffectClaim::InProgress)
                }
            },
            None => {
                let row = ReplayEffectLogRow {
                    fingerprint: fingerprint.to_owned(),
                    thread_id: thread_id.to_owned(),
                    replay_target: replay_target.to_owned(),
                    effect_type: "job_replay".to_owned(),
                    status: "in_progress".to_owned(),
                    execution_count: 1,
                    created_at_ms: now_ms,
                    completed_at_ms: None,
                    response_json: None,
                };
                proof {
                    lemma_key_push(self.replay_effects@, row);
                }
                self.replay_effects.push(row);
                Ok(ReplayEffectClaim::Acquired)
            },
        }
    }

    /// Completes a side effect in progress, storing its response.
    pub fn complete_replay_effect(&mut self, fingerprint: &str, response_json: &str, now_ms: i64) -> (r: Result<
        (),
        KernelError,
    >)
        requires
            old(self).wf(),
        ensures
            final(self).same_records(old(self)),
            final(self).wf(),
            final(self).same_scheduling(old(self)),
            final(self).step_reports() == old(self).step_reports(),
            ({
                let p = key_pos(old(self).replay_effects(), fingerprint@);
                let claimable = p >= 0 && old(self).replay_effects()[p].status@ == "in_progress"@;
                &&& !claimable ==> fails_with(r, "replay effect not claimable for completion: "@ + fingerprint@)
                    && final(self).replay_effects() == old(self).replay_effects()
                &&& claimable ==> r is Ok && final(self).replay_effects() == old(self).replay_effects().update(
                    p,
                    final(self).replay_effects()[p],
                ) && final(self).replay_effects()[p] == (ReplayEffectLogRow {
                    status: final(self).replay_effects()[p].status,
                    completed_at_ms: Some(now_ms),
                    response_json: final(self).replay_effects()[p].response_json,
                    ..old(self).replay_effects()[p]
                }) && final(self).replay_effects()[p].status@ == "completed"@ && opt_view(final(self).replay_effects()[p].response_json)
                    == Some(response_json@)
            }),
    {
        match find_key(&self.replay_effects, fingerprint) {
            Some(p) => {
                if str_eq(self.replay_effects[p].status.as_str(), "in_progress") {
                    let ghost before = self.replay_effects@;
                    let status = "completed".to_owned();
                    let resp = Some(response_json.to_owned());
                    proof {
                        let n = ReplayEffectLogRow {
                            status,
                            completed_at_ms: Some(now_ms),
                            response_json: resp,
                            ..self.replay_effects@[p as int]
                        };
                        lemma_key_update(self.replay_effects@, p as int, n);
                    }
                    self.replay_effects[p].status = status;
                    self.replay_effects[p].completed_at_ms = Some(now_ms);
                    self.replay_effects[p].response_json = resp;
                    return Ok(());
                }
            },
            None => {},
        }
        Err(driver_err("replay effect not claimable for completion: ", fingerprint))
    }

    /// Drops a side effect still in progress, so that a later replay can claim it again.
    pub fn abandon_replay_effect(&mut self, fingerprint: &str) -> (r: Result<(), KernelError>)
        requires
            old(self).wf(),
        ensures
            final(self).same_records(old(self)),
            final(self).wf(),
            r is Ok,
            final(self).same_scheduling(old(self)),
            final(self).step_reports() == old(self).step_reports(),
            ({
                let p = key_pos(old(self).replay_effects(), fingerprint@);
                if p >= 0 && old(self).replay_effects()[p].status@ == "in_progress"@ {
                    final(self).replay_effects() == old(self).replay_effects().remove(p)
                } else {
                    final(self).replay_effects() == old(self).replay_effects()
                }
            }),
    {
        match find_key(&self.replay_effects, fingerprint) {
            Some(p) => {
                if str_eq(self.replay_effects[p].status.as_str(), "in_progress") {
                    proof {
                        lemma_key_remove(self.replay_effects@, p as int);
                    }
                    self.replay_effects.remove(p);
                }
            },
            None => {},
        }
        Ok(())
    }

    fn find_report(&self, attempt_id: &str, dedupe_token: &str) -> (r: Option<usize>)
        requires
            self.wf(),
        ensures
            match r {
                Some(i) => i < self.step_reports().len() && i as int == report_pos(self.step_reports(), attempt_id@, dedupe_token@),
                None => report_pos(self.step_reports(), attempt_id@, dedupe_token@) == -1,
            },
    {
        let mut i: usize = 0;
        while i < self.step_reports.len()
            invariant
                i <= self.step_reports@.len(),
                self.wf(),
                forall|a: int| 0 <= a < i ==> !(#[trigger] self.step_reports@[a].attempt_id@ == attempt_id@
                    && self.step_reports@[a].dedupe_token@ == dedupe_token@),
            decreases self.step_reports@.len() - i,
        {
            if str_eq(self.step_reports[i].attempt_id.as_str(), attempt_id) && str_eq(
                self.step_reports[i].dedupe_token.as_str(),
                dedupe_token,
            ) {
                proof {
                    let s = self.step_reports@;
                    let j = choose|j: int| 0 <= j < s.len() && #[trigger] s[j].attempt_id@ == attempt_id@ && s[j].dedupe_token@ == dedupe_token@;
                    assert(s[j].attempt_id@ == s[i as int].attempt_id@);
                }
                return Some(i);
            }
            i = i + 1;
        }
        None
    }

    /// Records a worker's step report once per attempt and dedupe token: a repeat with the
    /// same action and status is a duplicate; a repeat with another payload is refused.
    pub fn record_step_report(
        &mut self,
        worker_id: &str,
        attempt_id: &str,
        action_id: &str,
        status: &str,
        dedupe_token: &str,
        now_ms: i64,
    ) -> (r: Result<StepReportWriteResult, KernelError>)
        requires
            old(self).wf(),
        ensures
            final(self).same_records(old(self)),
            final(self).wf(),
            final(self).same_scheduling(old(self)),
            final(self).replay_effects() == old(self).replay_effects(),
            ({
                let p = report_pos(old(self).step_reports(), attempt_id@, dedupe_token@);
                if p < 0 {
                    &&& r == Ok::<StepReportWriteResult, KernelError>(StepReportWriteResult::Inserted)
                    &&& final(self).step_reports() == old(self).step_reports().push(final(self).step_reports().last())
                    &&& final(self).step_reports().last().worker_id@ == worker_id@
                    &&& final(self).step_reports().last().attempt_id@ == attempt_id@
                    &&& final(self).step_reports().last().action_id@ == action_id@
                    &&& final(self).step_reports().last().status@ == status@
                    &&& final(self).step_reports().last().dedupe_token@ == dedupe_token@
                    &&& final(self).step_reports().last().created_at_ms == now_ms
                } else {
                    let e = old(self).step_reports()[p];
                    &&& final(self).step_reports() == old(self).step_reports()
                    &&& e.action_id@ == action_id@ && e.status@ == status@ ==> r == Ok::<StepReportWriteResult, KernelError>(
                        StepReportWriteResult::Duplicate,
                    )
                    &&& !(e.action_id@ == action_id@ && e.status@ == status@) ==> fails_with(
                        r,
                        token_conflict_message(dedupe_token@, attempt_id@),
                    )
                }
            }),
    {
        match self.find_report(attempt_id, dedupe_token) {
            Some(p) => {
                if str_eq(self.step_reports[p].action_id.as_str(), action_id) && str_eq(
                    self.step_reports[p].status.as_str(),
                    status,
                ) {
                    Ok(StepReportWriteResult::Duplicate)
                } else {
                    let m1 = concat("dedupe_token '", dedupe_token);
                    let m2 = concat(m1.as_str(), "' already used with different payload for attempt '");
                    let m3 = concat(m2.as_str(), attempt_id);
                    let m4 = concat(m3.as_str(), "'");
                    Err(KernelError::Driver(m4))
                }
            },
            None => {
                let row = StepReportRow {
                    worker_id: worker_id.to_owned(),
                    attempt_id: attempt_id.to_owned(),
                    action_id: action_id.to_owned(),
                    status: status.to_owned(),
                    dedupe_token: dedupe_token.to_owned(),
                    created_at_ms: now_ms,
                };
                proof {
                    let s = self.step_reports@;
                    let t = s.push(row);
                    assert forall|a: int, b: int|
                        0 <= a < t.len() && 0 <= b < t.len() && #[trigger] t[a].attempt_id@ == #[trigger] t[b].attempt_id@
                            && t[a].dedupe_token@ == t[b].dedupe_token@ implies a == b by {
                        if a < s.len() && b == s.len() {
                            assert(!(s[a].attempt_id@ == attempt_id@ && s[a].dedupe_token@ == dedupe_token@));
                        }
                        if b < s.len() && a == s.len() {
                            assert(!(s[b].attempt_id@ == attempt_id@ && s[b].dedupe_token@ == dedupe_token@));
                        }
                    }
                }
                self.step_reports.push(row);
                Ok(StepReportWriteResult::Inserted)
            },
        }
    }
}

/// Where a row created at `t` goes among rows ordered by creation: after every row created
/// no later than `t`.
pub open spec fn insert_pos(s: Seq<ReplayEffectLogRow>, t: i64) -> nat
    decreases s.len(),
{
    if s.len() == 0 {
        0
    } else if s[0].created_at_ms > t {
        0
    } else {
        1 + insert_pos(s.drop_first(), t)
    }
}

/// Rows ordered by creation time, rows created at the same time in table order.
pub open spec fn by_creation(s: Seq<ReplayEffectLogRow>) -> Seq<ReplayEffectLogRow>
    decreases s.len(),
{
    if s.len() == 0 {
        s
    } else {
        let r = by_creation(s.drop_last());
        r.insert(insert_pos(r, s.last().created_at_ms) as int, s.last())
    }
}

/// Replay effects of a thread, in table order.
pub open spec fn effects_of_thread(s: Seq<ReplayEffectLogRow>, thread_id: Seq<char>) -> Seq<ReplayEffectLogRow> {
    s.filter(|e: ReplayEffectLogRow| e.thread_id@ == thread_id)
}

proof fn lemma_insert_pos_le(s: Seq<ReplayEffectLogRow>, t: i64)
    ensures
        insert_pos(s, t) <= s.len(),
    decreases s.len(),
{
    if s.len() > 0 && s[0].created_at_ms <= t {
        lemma_insert_pos_le(s.drop_first(), t);
    }
}

fn find_insert_pos(v: &Vec<ReplayEffectLogRow>, t: i64) -> (r: usize)
    ensures
        r as int == insert_pos(v@, t),
{
    let n = v.len();
    let mut j: usize = 0;
    proof {
        assert(v@.subrange(0, n as int) =~= v@);
    }
    while j < n && v[j].created_at_ms <= t
        invariant
            n == v@.len(),
            j <= n,
            insert_pos(v@, t) == j + insert_pos(v@.subrange(j as int, n as int), t),
        decreases n - j,
    {
        proof {
            assert(v@.subrange(j as int, n as int).drop_first() =~= v@.subrange(j + 1, n as int));
        }
        j = j + 1;
    }
    j
}

impl InMemoryRuntimeRepository {
    /// Replay effects of a thread, ordered by creation time (see [by_creation]).
    pub fn list_replay_effects_for_thread(&self, thread_id: &str) -> (r: Result<Vec<ReplayEffectLogRow>, KernelError>)
        requires
            self.wf(),
        ensures
            r matches Ok(v) && v@ == by_creation(effects_of_thread(self.replay_effects(), thread_id@)),
    {
        let mut out: Vec<ReplayEffectLogRow> = Vec::new();
        let mut i: usize = 0;
        let ghost pred = |e: ReplayEffectLogRow| e.thread_id@ == thread_id@;
        while i < self.replay_effects.len()
            invariant
                i <= self.replay_effects@.len(),
                pred == (|e: ReplayEffectLogRow| e.thread_id@ == thread_id@),
                out@ == by_creation(self.replay_effects@.take(i as int).filter(pred)),
            decreases self.replay_effects@.len() - i,
        {
            proof {
                assert(self.replay_effects@.take(i + 1).drop_last() =~= self.replay_effects@.take(i as int));
                reveal(Seq::filter);
            }
            if crate::text::str_eq(self.replay_effects[i].thread_id.as_str(), thread_id) {
                let row = self.replay_effects[i].clone();
                let p = find_insert_pos(&out, row.created_at_ms);
                proof {
                    lemma_insert_pos_le(out@, row.created_at_ms);
                    let f = self.replay_effects@.take(i as int).filter(pred);
                    assert(self.replay_effects@.take(i + 1).filter(pred) == f.push(row));
                    assert(f.push(row).drop_last() =~= f);
                }
                out.insert(p, row);
            }
            i = i + 1;
        }
        proof {
            assert(self.replay_effects@.take(i as int) =~= self.replay_effects@);
        }
        Ok(out)
    }
}

} // verus!
