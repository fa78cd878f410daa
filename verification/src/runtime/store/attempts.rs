//! Attempts: enqueueing, per-attempt settings, status and trace context.
use crate::kernel::event::KernelError;
use crate::runtime::attempt::{is_terminal, AttemptExecutionStatus, TimeoutPolicyConfig};
use crate::runtime::models::{AttemptRow, AttemptTraceContextRow};
use crate::runtime::store::keyed::{find_key, has_key, key_pos, keys_unique, lemma_key_push, lemma_key_update, Keyed};
use crate::runtime::store::{driver_error, fails_with, InMemoryRuntimeRepository};
use crate::text::{concat, seq_lt, trim, trimmed};
use vstd::prelude::*;

verus! {

/// `row` is a freshly enqueued attempt: number 1, queued, with no settings.
pub open spec fn fresh_attempt(row: AttemptRow, attempt_id: Seq<char>, run_id: Seq<char>) -> bool {
    &&& row.attempt_id@ == attempt_id
    &&& row.run_id@ == run_id
    &&& row.attempt_no == 1
    &&& row.status == AttemptExecutionStatus::Queued
    &&& row.retry_at_ms is None
    &&& row.started_at_ms is None
    &&& row.priority == 0
    &&& row.tenant_id is None
    &&& row.timeout is None
    &&& row.retry_policy is None
    &&& row.trace is None
}

/// The tenant id stored for `tenant_id`: trimmed, and none when empty.
pub open spec fn normalized_tenant(tenant_id: Option<Seq<char>>) -> Option<Seq<char>> {
    match tenant_id {
        Some(t) => if trimmed(t).len() > 0 { Some(trimmed(t)) } else { None },
        None => None,
    }
}

/// Views of an optional string.
pub open spec fn opt_view(s: Option<String>) -> Option<Seq<char>> {
    match s {
        Some(v) => Some(v@),
        None => None,
    }
}

/// Views of an optional string slice.
pub open spec fn opt_str_view(s: Option<&str>) -> Option<Seq<char>> {
    match s {
        Some(v) => Some(v@),
        None => None,
    }
}

/// `row` after `mark_attempt_status(status)`: terminal statuses clear the retry time, and
/// terminal, queued and backoff statuses clear the start time.
pub open spec fn marked(row: AttemptRow, status: AttemptExecutionStatus) -> AttemptRow {
    AttemptRow {
        status,
        retry_at_ms: if is_terminal(status) { None } else { row.retry_at_ms },
        started_at_ms: if is_terminal(status) || status == AttemptExecutionStatus::Queued || status
            == AttemptExecutionStatus::RetryBackoff {
            None
        } else {
            row.started_at_ms
        },
        ..row
    }
}

/// Driver error with message `prefix` followed by `id`.
pub fn driver_err(prefix: &str, id: &str) -> (r: KernelError)
    ensures
        driver_error(r, prefix@ + id@),
{
    KernelError::Driver(concat(prefix, id))
}

impl InMemoryRuntimeRepository {
    /// Position of the attempt, or -1.
    pub open spec fn attempt_pos(&self, attempt_id: Seq<char>) -> int {
        key_pos(self.attempts(), attempt_id)
    }

    /// Adds a queued attempt numbered 1, unless the attempt already exists.
    pub fn enqueue_attempt(&mut self, attempt_id: &str, run_id: &str) -> (r: Result<(), KernelError>)
        requires
            old(self).wf(),
        ensures
            final(self).same_records(old(self)),
            final(self).wf(),
            r is Ok,
            final(self).same_but_attempts(old(self)),
            has_key(old(self).attempts(), attempt_id@) ==> final(self).attempts() == old(self).attempts(),
            !has_key(old(self).attempts(), attempt_id@) ==> final(self).attempts() == old(self).attempts().push(
                final(self).attempts().last(),
            ) && fresh_attempt(final(self).attempts().last(), attempt_id@, run_id@),
    {
        match find_key(&self.attempts, attempt_id) {
            Some(_) => {},
            None => {
                let row = AttemptRow {
                    attempt_id: attempt_id.to_owned(),
                    run_id: run_id.to_owned(),
                    attempt_no: 1,
                    status: AttemptExecutionStatus::Queued,
                    retry_at_ms: None,
                    started_at_ms: None,
                    priority: 0,
                    tenant_id: None,
                    timeout: None,
                    retry_policy: None,
                    trace: None,
                };
                proof {
                    lemma_key_push(self.attempts@, row);
                }
                self.attempts.push(row);
            },
        }
        Ok(())
    }

    /// Sets the execution timeout policy of an attempt, after checking the policy.
    pub fn set_attempt_timeout_policy(&mut self, attempt_id: &str, policy: &TimeoutPolicyConfig) -> (r: Result<
        (),
        KernelError,
    >)
        requires
            old(self).wf(),
        ensures
            final(self).same_records(old(self)),
            final(self).wf(),
            final(self).same_but_attempts(old(self)),
            policy.timeout_ms <= 0 ==> fails_with(r, "timeout policy timeout_ms must be > 0"@),
            policy.timeout_ms > 0 && !is_terminal_timeout(policy.on_timeout_status) ==> fails_with(r, "timeout policy terminal status must be failed or cancelled"@),
            policy.timeout_ms > 0 && is_terminal_timeout(policy.on_timeout_status) && old(self).attempt_pos(attempt_id@)
                < 0 ==> fails_with(r, "attempt not found for timeout policy: "@ + attempt_id@),
            r is Err ==> final(self).attempts() == old(self).attempts(),
            r is Ok <==> policy.timeout_ms > 0 && is_terminal_timeout(policy.on_timeout_status) && old(self).attempt_pos(
                attempt_id@,
            ) >= 0,
            r is Ok ==> ({
                let i = old(self).attempt_pos(attempt_id@);
                final(self).attempts() == old(self).attempts().update(
                    i,
                    AttemptRow { timeout: Some(*policy), ..old(self).attempts()[i] },
                )
            }),
    {
        if policy.timeout_ms <= 0 {
            return Err(KernelError::Driver("timeout policy timeout_ms must be > 0".to_owned()));
        }
        match policy.on_timeout_status {
            AttemptExecutionStatus::Failed | AttemptExecutionStatus::Cancelled => {},
            _ => {
                return Err(
                    KernelError::Driver("timeout policy terminal status must be failed or cancelled".to_owned()),
                );
            },
        }
        match find_key(&self.attempts, attempt_id) {
            None => Err(driver_err("attempt not found for timeout policy: ", attempt_id)),
            Some(i) => {
                proof {
                    let row = AttemptRow { timeout: Some(*policy), ..self.attempts@[i as int] };
                    lemma_key_update(self.attempts@, i as int, row);
                }
                self.attempts[i].timeout = Some(*policy);
                Ok(())
            },
        }
    }

    /// Sets the dispatch priority of an attempt.
    pub fn set_attempt_priority(&mut self, attempt_id: &str, priority: i32) -> (r: Result<(), KernelError>)
        requires
            old(self).wf(),
        ensures
            final(self).same_records(old(self)),
            final(self).wf(),
            final(self).same_but_attempts(old(self)),
            r is Ok <==> old(self).attempt_pos(attempt_id@) >= 0,
            r is Err ==> final(self).attempts() == old(self).attempts() && fails_with(r, "attempt not found for priority update: "@ + attempt_id@,
            ),
            r is Ok ==> ({
                let i = old(self).attempt_pos(attempt_id@);
                final(self).attempts() == old(self).attempts().update(
                    i,
                    AttemptRow { priority, ..old(self).attempts()[i] },
                )
            }),
    {
        match find_key(&self.attempts, attempt_id) {
            None => Err(driver_err("attempt not found for priority update: ", attempt_id)),
            Some(i) => {
                proof {
                    let row = AttemptRow { priority, ..self.attempts@[i as int] };
                    lemma_key_update(self.attempts@, i as int, row);
                }
                self.attempts[i].priority = priority;
                Ok(())
            },
        }
    }

    /// Sets the tenant of an attempt: trimmed, and none when empty.
    pub fn set_attempt_tenant_id(&mut self, attempt_id: &str, tenant_id: Option<&str>) -> (r: Result<
        (),
        KernelError,
    >)
        requires
            old(self).wf(),
        ensures
            final(self).same_records(old(self)),
            final(self).wf(),
            final(self).same_but_attempts(old(self)),
            r is Ok <==> old(self).attempt_pos(attempt_id@) >= 0,
            r is Err ==> final(self).attempts() == old(self).attempts() && fails_with(r, "attempt not found for tenant update: "@ + attempt_id@,
            ),
            r is Ok ==> ({
                let i = old(self).attempt_pos(attempt_id@);
                &&& final(self).attempts().len() == old(self).attempts().len()
                &&& forall|j: int| 0 <= j < old(self).attempts().len() && j != i ==> #[trigger] final(self).attempts()[j] == old(self).attempts()[j]
                &&& final(self).attempts()[i] == AttemptRow { tenant_id: final(self).attempts()[i].tenant_id, ..old(self).attempts()[i] }
                &&& opt_view(final(self).attempts()[i].tenant_id) == normalized_tenant(opt_str_view(tenant_id))
            }),
    {
        let normalized: Option<String> = match tenant_id {
            Some(t) => {
                let v = trim(t);
                if v.unicode_len() > 0 {
                    Some(v.to_owned())
                } else {
                    None
                }
            },
            None => None,
        };
        match find_key(&self.attempts, attempt_id) {
            None => Err(driver_err("attempt not found for tenant update: ", attempt_id)),
            Some(i) => {
                proof {
                    let row = AttemptRow { tenant_id: normalized, ..self.attempts@[i as int] };
                    lemma_key_update(self.attempts@, i as int, row);
                }
                self.attempts[i].tenant_id = normalized;
                Ok(())
            },
        }
    }

    /// Number and status of an attempt, if it exists.
    pub fn get_attempt_status(&self, attempt_id: &str) -> (r: Result<Option<(u32, AttemptExecutionStatus)>, KernelError>)
        requires
            self.wf(),
        ensures
            r is Ok,
            self.attempt_pos(attempt_id@) < 0 ==> r == Ok::<Option<(u32, AttemptExecutionStatus)>, KernelError>(None),
            self.attempt_pos(attempt_id@) >= 0 ==> r == Ok::<Option<(u32, AttemptExecutionStatus)>, KernelError>(Some(
                (self.attempts()[self.attempt_pos(attempt_id@)].attempt_no,
                self.attempts()[self.attempt_pos(attempt_id@)].status),
            )),
    {
        match find_key(&self.attempts, attempt_id) {
            None => Ok(None),
            Some(i) => Ok(Some((self.attempts[i].attempt_no, self.attempts[i].status))),
        }
    }

    /// Sets the trace context of an attempt.
    pub fn set_attempt_trace_context(
        &mut self,
        attempt_id: &str,
        trace_id: &str,
        parent_span_id: Option<&str>,
        span_id: &str,
        trace_flags: &str,
    ) -> (r: Result<(), KernelError>)
        requires
            old(self).wf(),
        ensures
            final(self).same_records(old(self)),
            final(self).wf(),
            final(self).same_but_attempts(old(self)),
            r is Ok <==> old(self).attempt_pos(attempt_id@) >= 0,
            r is Err ==> final(self).attempts() == old(self).attempts() && fails_with(r, "attempt not found for trace update: "@ + attempt_id@,
            ),
            r is Ok ==> ({
                let i = old(self).attempt_pos(attempt_id@);
                let t = final(self).attempts()[i].trace;
                &&& final(self).attempts().len() == old(self).attempts().len()
                &&& forall|j: int| 0 <= j < old(self).attempts().len() && j != i ==> #[trigger] final(self).attempts()[j] == old(self).attempts()[j]
                &&& final(self).attempts()[i] == AttemptRow { trace: t, ..old(self).attempts()[i] }
                &&& t matches Some(c) && c.trace_id@ == trace_id@ && opt_view(c.parent_span_id) == opt_str_view(parent_span_id)
                    && c.span_id@ == span_id@ && c.trace_flags@ == trace_flags@
            }),
    {
        let parent: Option<String> = match parent_span_id {
            Some(p) => Some(p.to_owned()),
            None => None,
        };
        let ctx = AttemptTraceContextRow {
            trace_id: trace_id.to_owned(),
            parent_span_id: parent,
            span_id: span_id.to_owned(),
            trace_flags: trace_flags.to_owned(),
        };
        match find_key(&self.attempts, attempt_id) {
            None => Err(driver_err("attempt not found for trace update: ", attempt_id)),
            Some(i) => {
                proof {
                    let row = AttemptRow { trace: Some(ctx), ..self.attempts@[i as int] };
                    lemma_key_update(self.attempts@, i as int, row);
                }
                self.attempts[i].trace = Some(ctx);
                Ok(())
            },
        }
    }

    /// Trace context of an attempt, if the attempt exists and has one.
    pub fn get_attempt_trace_context(&self, attempt_id: &str) -> (r: Result<Option<AttemptTraceContextRow>, KernelError>)
        requires
            self.wf(),
        ensures
            r is Ok,
            self.attempt_pos(attempt_id@) < 0 ==> r matches Ok(None),
            self.attempt_pos(attempt_id@) >= 0 ==> r == Ok::<Option<AttemptTraceContextRow>, KernelError>(
                self.attempts()[self.attempt_pos(attempt_id@)].trace,
            ),
    {
        match find_key(&self.attempts, attempt_id) {
            None => Ok(None),
            Some(i) => match &self.attempts[i].trace {
                Some(t) => Ok(Some(t.clone())),
                None => Ok(None),
            },
        }
    }

    /// Moves an attempt's trace one span forward: the current span becomes the parent of
    /// `next_span_id`. Nothing changes when the attempt has no trace context.
    pub fn advance_attempt_trace(&mut self, attempt_id: &str, next_span_id: &str) -> (r: Result<
        Option<AttemptTraceContextRow>,
        KernelError,
    >)
        requires
            old(self).wf(),
        ensures
            final(self).same_records(old(self)),
            final(self).wf(),
            final(self).same_but_attempts(old(self)),
            r is Ok,
            ({
                let i = old(self).attempt_pos(attempt_id@);
                if i < 0 || old(self).attempts()[i].trace is None {
                    r matches Ok(None) && final(self).attempts() == old(self).attempts()
                } else {
                    let c = old(self).attempts()[i].trace->0;
                    r matches Ok(Some(n)) && n.trace_id@ == c.trace_id@ && n.parent_span_id == Some(c.span_id)
                        && n.span_id@ == next_span_id@ && n.trace_flags@ == c.trace_flags@
                        && final(self).attempts() == old(self).attempts().update(i, AttemptRow { trace: Some(n), ..old(self).attempts()[i] })
                }
            }),
    {
        match find_key(&self.attempts, attempt_id) {
            None => Ok(None),
            Some(i) => {
                let next = match &self.attempts[i].trace {
                    None => {
                        return Ok(None);
                    },
                    Some(c) => AttemptTraceContextRow {
                        trace_id: c.trace_id.clone(),
                        parent_span_id: Some(c.span_id.clone()),
                        span_id: next_span_id.to_owned(),
                        trace_flags: c.trace_flags.clone(),
                    },
                };
                let stored = next.clone();
                proof {
                    let row = AttemptRow { trace: Some(stored), ..self.attempts@[i as int] };
                    lemma_key_update(self.attempts@, i as int, row);
                }
                self.attempts[i].trace = Some(stored);
                Ok(Some(next))
            },
        }
    }

    /// Sets or clears the start time of an attempt.
    pub fn set_attempt_started_at(&mut self, attempt_id: &str, started_at_ms: Option<i64>) -> (r: Result<
        (),
        KernelError,
    >)
        requires
            old(self).wf(),
        ensures
            final(self).same_records(old(self)),
            final(self).wf(),
            final(self).same_but_attempts(old(self)),
            r is Ok <==> old(self).attempt_pos(attempt_id@) >= 0,
            r is Err ==> final(self).attempts() == old(self).attempts() && fails_with(r, "attempt not found for started_at update: "@ + attempt_id@,
            ),
            r is Ok ==> ({
                let i = old(self).attempt_pos(attempt_id@);
                final(self).attempts() == old(self).attempts().update(i, AttemptRow { started_at_ms, ..old(self).attempts()[i] })
            }),
    {
        match find_key(&self.attempts, attempt_id) {
            None => Err(driver_err("attempt not found for started_at update: ", attempt_id)),
            Some(i) => {
                proof {
                    let row = AttemptRow { started_at_ms, ..self.attempts@[i as int] };
                    lemma_key_update(self.attempts@, i as int, row);
                }
                self.attempts[i].started_at_ms = started_at_ms;
                Ok(())
            },
        }
    }

    /// Sets the status of an attempt (see [marked]); an unknown attempt is left alone.
    pub fn mark_attempt_status(&mut self, attempt_id: &str, status: AttemptExecutionStatus) -> (r: Result<(), KernelError>)
        requires
            old(self).wf(),
        ensures
            final(self).same_records(old(self)),
            final(self).wf(),
            final(self).same_but_attempts(old(self)),
            r is Ok,
            ({
                let i = old(self).attempt_pos(attempt_id@);
                if i < 0 {
                    final(self).attempts() == old(self).attempts()
                } else {
                    final(self).attempts() == old(self).attempts().update(i, marked(old(self).attempts()[i], status))
                }
            }),
    {
        match find_key(&self.attempts, attempt_id) {
            None => {},
            Some(i) => {
                let terminal = match status {
                    AttemptExecutionStatus::Completed | AttemptExecutionStatus::Failed
                    | AttemptExecutionStatus::Cancelled => true,
                    _ => false,
                };
                let clears_start = terminal || match status {
                    AttemptExecutionStatus::Queued | AttemptExecutionStatus::RetryBackoff => true,
                    _ => false,
                };
                proof {
                    lemma_key_update(self.attempts@, i as int, marked(self.attempts@[i as int], status));
                }
                self.attempts[i].status = status;
                if terminal {
                    self.attempts[i].retry_at_ms = None;
                }
                if clears_start {
                    self.attempts[i].started_at_ms = None;
                }
            },
        }
        Ok(())
    }
}

/// Timeout policies may only end an attempt as failed or cancelled.
pub open spec fn is_terminal_timeout(status: AttemptExecutionStatus) -> bool {
    status == AttemptExecutionStatus::Failed || status == AttemptExecutionStatus::Cancelled
}

/// `a` comes after `b` in the order (attempt number, attempt id).
pub open spec fn later_attempt(a: AttemptRow, b: AttemptRow) -> bool {
    a.attempt_no > b.attempt_no || (a.attempt_no == b.attempt_no && seq_lt(b.attempt_id@, a.attempt_id@))
}

/// `row` belongs to `run_id` and carries a trace context.
pub open spec fn traced_in_run(row: AttemptRow, run_id: Seq<char>) -> bool {
    row.run_id@ == run_id && row.trace is Some
}

impl InMemoryRuntimeRepository {
    /// Trace context of the run's latest traced attempt: the one with the highest attempt
    /// number, then the highest attempt id.
    pub fn latest_attempt_trace_for_run(&self, run_id: &str) -> (r: Result<Option<AttemptTraceContextRow>, KernelError>)
        requires
            self.wf(),
        ensures
            r is Ok,
            (r matches Ok(None) ==> forall|j: int| 0 <= j < self.attempts().len() ==> !traced_in_run(#[trigger] self.attempts()[j], run_id@)),
            (r matches Ok(Some(t)) ==> exists|j: int|
                0 <= j < self.attempts().len() && traced_in_run(#[trigger] self.attempts()[j], run_id@) && self.attempts()[j].trace
                    == Some(t) && forall|k: int|
                    0 <= k < self.attempts().len() && traced_in_run(#[trigger] self.attempts()[k], run_id@) && k != j
                        ==> later_attempt(self.attempts()[j], self.attempts()[k])),
    {
        let n = self.attempts.len();
        let mut best: Option<usize> = None;
        let mut i: usize = 0;
        while i < n
            invariant
                n == self.attempts@.len(),
                i <= n,
                keys_unique(self.attempts@),
                best is None ==> forall|j: int| 0 <= j < i ==> !traced_in_run(#[trigger] self.attempts@[j], run_id@),
                best matches Some(b) ==> b < i && traced_in_run(self.attempts@[b as int], run_id@) && forall|k: int|
                    0 <= k < i && traced_in_run(#[trigger] self.attempts@[k], run_id@) && k != b ==> later_attempt(
                        self.attempts@[b as int],
                        self.attempts@[k],
                    ),
            decreases n - i,
        {
            let row = &self.attempts[i];
            let traced = crate::text::str_eq(row.run_id.as_str(), run_id) && row.trace.is_some();
            if traced {
                match best {
                    None => {
                        best = Some(i);
                    },
                    Some(b) => {
                        let cur = &self.attempts[b];
                        let newer = row.attempt_no > cur.attempt_no || (row.attempt_no == cur.attempt_no && crate::text::str_lt(
                            cur.attempt_id.as_str(),
                            row.attempt_id.as_str(),
                        ));
                        if newer {
                            proof {
                                let ri = self.attempts@[i as int];
                                assert forall|k: int|
                                    0 <= k < i + 1 && traced_in_run(#[trigger] self.attempts@[k], run_id@) && k != i implies later_attempt(
                                        ri,
                                        self.attempts@[k],
                                    ) by {
                                    let bk = self.attempts@[k];
                                    let bb = self.attempts@[b as int];
                                    if k != b {
                                        assert(later_attempt(bb, bk));
                                        if ri.attempt_no == bb.attempt_no && bb.attempt_no == bk.attempt_no {
                                            crate::text::lemma_seq_lt_transitive(bk.attempt_id@, bb.attempt_id@, ri.attempt_id@);
                                        }
                                    }
                                }
                            }
                            best = Some(i);
                        } else {
                            proof {
                                let ri = self.attempts@[i as int];
                                let bb = self.attempts@[b as int];
                                assert(ri.key() != bb.key());
                                if ri.attempt_no == bb.attempt_no {
                                    crate::text::lemma_seq_lt_total(ri.attempt_id@, bb.attempt_id@);
                                }
                                assert(later_attempt(bb, ri));
                            }
                        }
                    },
                }
            }
            i = i + 1;
        }
        match best {
            None => Ok(None),
            Some(b) => match &self.attempts[b].trace {
                Some(t) => Ok(Some(t.clone())),
                None => Ok(None),
            },
        }
    }
}

} // verus!
