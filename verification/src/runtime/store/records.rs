//! Jobs, interrupts, API keys and the audit log, with the listings the API pages through.
use crate::kernel::event::KernelError;
use crate::runtime::models::{ApiKeyRow, AuditLogEntry, AuditLogRow, DeadLetterRow, InterruptRow, JobRow};
use crate::runtime::store::attempts::{driver_err, opt_str_view, opt_view};
use crate::runtime::store::keyed::{find_key, key_pos, lemma_key_push, lemma_key_update, Keyed};
use crate::runtime::store::ranked::{newest_selection, page_of, select_newest, select_page};
use crate::runtime::store::{fails_with, InMemoryRuntimeRepository};
use crate::runtime::models::clone_opt_string;
use crate::text::str_eq;
use vstd::prelude::*;

verus! {

/// A filter on a text column: none lets every value through.
pub open spec fn text_matches(filter: Option<Seq<char>>, value: Seq<char>) -> bool {
    match filter {
        Some(f) => value == f,
        None => true,
    }
}

/// Times at which jobs were last updated.
pub open spec fn job_keys(jobs: Seq<JobRow>) -> Seq<i64> {
    jobs.map_values(|j: JobRow| j.updated_at_ms)
}

/// Jobs whose status passes the filter.
pub open spec fn job_wanted(jobs: Seq<JobRow>, status: Option<Seq<char>>) -> Seq<bool> {
    jobs.map_values(|j: JobRow| text_matches(status, j.status@))
}

/// Times at which interrupts were raised.
pub open spec fn interrupt_keys(rows: Seq<InterruptRow>) -> Seq<i64> {
    rows.map_values(|r: InterruptRow| r.created_at_ms)
}

/// Interrupts whose status and run pass the filters.
pub open spec fn interrupt_wanted(rows: Seq<InterruptRow>, status: Option<Seq<char>>, run_id: Option<Seq<char>>) -> Seq<bool> {
    rows.map_values(|r: InterruptRow| text_matches(status, r.status@) && text_matches(run_id, r.run_id@))
}

/// Times at which dead letters were written.
pub open spec fn dead_letter_keys(rows: Seq<DeadLetterRow>) -> Seq<i64> {
    rows.map_values(|r: DeadLetterRow| r.dead_at_ms)
}

/// Dead letters whose replay status passes the filter.
pub open spec fn dead_letter_wanted(rows: Seq<DeadLetterRow>, status: Option<Seq<char>>) -> Seq<bool> {
    rows.map_values(|r: DeadLetterRow| text_matches(status, r.replay_status@))
}

/// Audit ids of the audit log.
pub open spec fn audit_keys(rows: Seq<AuditLogRow>) -> Seq<i64> {
    rows.map_values(|r: AuditLogRow| r.audit_id)
}

/// Audit entries that pass the filters: request id, action, and a time window (both ends
/// included).
pub open spec fn audit_passes(
    r: AuditLogRow,
    request_id: Option<Seq<char>>,
    action: Option<Seq<char>>,
    from_ms: Option<i64>,
    to_ms: Option<i64>,
) -> bool {
    &&& text_matches(request_id, r.request_id@)
    &&& text_matches(action, r.action@)
    &&& (from_ms matches Some(f) ==> r.created_at_ms >= f)
    &&& (to_ms matches Some(t) ==> r.created_at_ms <= t)
}

/// Audit entries that pass the filters (see [audit_passes]).
pub open spec fn audit_wanted(
    rows: Seq<AuditLogRow>,
    request_id: Option<Seq<char>>,
    action: Option<Seq<char>>,
    from_ms: Option<i64>,
    to_ms: Option<i64>,
) -> Seq<bool> {
    rows.map_values(|r: AuditLogRow| audit_passes(r, request_id, action, from_ms, to_ms))
}

/// Audit ids count the entries: the `i`-th entry has id `i + 1`.
pub open spec fn audit_ids_sequential(rows: Seq<AuditLogRow>) -> bool {
    forall|i: int| 0 <= i < rows.len() ==> #[trigger] rows[i].audit_id == i + 1
}

/// `job` as a listing answers it: thread, status and time of the last update.
pub open spec fn run_item(item: (String, String, i64), job: JobRow) -> bool {
    item.0@ == job.thread_id@ && item.1@ == job.status@ && item.2 == job.updated_at_ms
}

/// The interrupt recorded as pending by [InMemoryRuntimeRepository::insert_interrupt].
pub open spec fn pending_interrupt(
    row: InterruptRow,
    interrupt_id: Seq<char>,
    thread_id: Seq<char>,
    run_id: Seq<char>,
    attempt_id: Seq<char>,
    value_json: Seq<char>,
    now_ms: i64,
) -> bool {
    &&& row.interrupt_id@ == interrupt_id
    &&& row.thread_id@ == thread_id
    &&& row.run_id@ == run_id
    &&& row.attempt_id@ == attempt_id
    &&& row.value_json@ == value_json
    &&& row.status@ == "pending"@
    &&& row.created_at_ms == now_ms
    &&& row.resume_payload_hash is None
    &&& row.resume_response_json is None
}

/// The interrupt of `rows` with this id, if any.
pub open spec fn interrupt_in(rows: Seq<InterruptRow>, interrupt_id: Seq<char>) -> Option<InterruptRow> {
    let p = key_pos(rows, interrupt_id);
    if p >= 0 { Some(rows[p]) } else { None }
}

/// `s` and `t` agree but at position `p`.
pub open spec fn same_but_at<T>(s: Seq<T>, t: Seq<T>, p: int) -> bool {
    &&& s.len() == t.len()
    &&& forall|q: int| 0 <= q < s.len() && q != p ==> #[trigger] t[q] == s[q]
}

fn bool_vec_push(v: &mut Vec<bool>, b: bool)
    ensures
        final(v)@ == old(v)@.push(b),
{
    v.push(b);
}

fn matches_filter(filter: Option<&str>, value: &str) -> (r: bool)
    ensures
        r == text_matches(opt_str_view(filter), value@),
{
    match filter {
        Some(f) => str_eq(value, f),
        None => true,
    }
}

impl InMemoryRuntimeRepository {
    /// The job of a thread, if any.
    pub open spec fn job_of(&self, thread_id: Seq<char>) -> Option<JobRow> {
        let p = key_pos(self.jobs(), thread_id);
        if p >= 0 { Some(self.jobs()[p]) } else { None }
    }

    /// The interrupt with this id, if any.
    pub open spec fn interrupt_of(&self, interrupt_id: Seq<char>) -> Option<InterruptRow> {
        interrupt_in(self.interrupts(), interrupt_id)
    }

    /// The API key with this id, if any.
    pub open spec fn api_key_of(&self, key_id: Seq<char>) -> Option<ApiKeyRow> {
        let p = key_pos(self.api_keys(), key_id);
        if p >= 0 { Some(self.api_keys()[p]) } else { None }
    }

    /// Everything but the jobs is the same in `self` and `o`.
    pub open spec fn same_but_jobs(&self, o: &Self) -> bool {
        &&& self.same_scheduling(o)
        &&& self.replay_effects() == o.replay_effects()
        &&& self.step_reports() == o.step_reports()
        &&& self.interrupts() == o.interrupts()
        &&& self.api_keys() == o.api_keys()
        &&& self.audit_logs() == o.audit_logs()
    }

    /// Everything but the interrupts is the same in `self` and `o`.
    pub open spec fn same_but_interrupts(&self, o: &Self) -> bool {
        &&& self.same_scheduling(o)
        &&& self.replay_effects() == o.replay_effects()
        &&& self.step_reports() == o.step_reports()
        &&& self.jobs() == o.jobs()
        &&& self.api_keys() == o.api_keys()
        &&& self.audit_logs() == o.audit_logs()
    }

    /// Everything but the API keys is the same in `self` and `o`.
    pub open spec fn same_but_api_keys(&self, o: &Self) -> bool {
        &&& self.same_scheduling(o)
        &&& self.replay_effects() == o.replay_effects()
        &&& self.step_reports() == o.step_reports()
        &&& self.jobs() == o.jobs()
        &&& self.interrupts() == o.interrupts()
        &&& self.audit_logs() == o.audit_logs()
    }

    /// Records the status of a thread's job at `now_ms`: a new job is created then, an
    /// existing one keeps its creation time.
    pub fn upsert_job(&mut self, thread_id: &str, status: &str, now_ms: i64) -> (r: Result<(), KernelError>)
        requires
            old(self).wf(),
        ensures
            final(self).wf(),
            r is Ok,
            final(self).same_but_jobs(old(self)),
            ({
                let p = key_pos(old(self).jobs(), thread_id@);
                let j = final(self).job_of(thread_id@)->0;
                &&& final(self).job_of(thread_id@) is Some
                &&& j.status@ == status@
                &&& j.updated_at_ms == now_ms
                &&& j.created_at_ms == if p >= 0 { old(self).jobs()[p].created_at_ms } else { now_ms }
                &&& p >= 0 ==> same_but_at(old(self).jobs(), final(self).jobs(), p)
                &&& p < 0 ==> final(self).jobs().len() == old(self).jobs().len() + 1 && final(self).jobs().drop_last()
                    == old(self).jobs()
            }),
    {
        match find_key(&self.jobs, thread_id) {
            Some(p) => {
                let row = JobRow {
                    thread_id: self.jobs[p].thread_id.clone(),
                    status: status.to_owned(),
                    created_at_ms: self.jobs[p].created_at_ms,
                    updated_at_ms: now_ms,
                };
                proof {
                    lemma_key_update(self.jobs@, p as int, row);
                }
                self.jobs.set(p, row);
            },
            None => {
                let row = JobRow {
                    thread_id: thread_id.to_owned(),
                    status: status.to_owned(),
                    created_at_ms: now_ms,
                    updated_at_ms: now_ms,
                };
                proof {
                    lemma_key_push(self.jobs@, row);
                }
                self.jobs.push(row);
                proof {
                    assert(self.jobs@.drop_last() =~= old(self).jobs@);
                }
            },
        }
        Ok(())
    }

    fn job_columns(&self, status_filter: Option<&str>) -> (r: (Vec<i64>, Vec<bool>))
        ensures
            r.0@ == job_keys(self.jobs()),
            r.1@ == job_wanted(self.jobs(), opt_str_view(status_filter)),
    {
        let mut keys: Vec<i64> = Vec::new();
        let mut wanted: Vec<bool> = Vec::new();
        let mut i: usize = 0;
        while i < self.jobs.len()
            invariant
                i <= self.jobs@.len(),
                keys@ == job_keys(self.jobs@).take(i as int),
                wanted@ == job_wanted(self.jobs@, opt_str_view(status_filter)).take(i as int),
            decreases self.jobs@.len() - i,
        {
            keys.push(self.jobs[i].updated_at_ms);
            let w = matches_filter(status_filter, self.jobs[i].status.as_str());
            bool_vec_push(&mut wanted, w);
            proof {
                assert(keys@ =~= job_keys(self.jobs@).take(i + 1));
                assert(wanted@ =~= job_wanted(self.jobs@, opt_str_view(status_filter)).take(i + 1));
            }
            i = i + 1;
        }
        proof {
            assert(keys@ =~= job_keys(self.jobs@));
            assert(wanted@ =~= job_wanted(self.jobs@, opt_str_view(status_filter)));
        }
        (keys, wanted)
    }

    /// One page of jobs, most recently updated first: `limit` jobs after the first `offset`,
    /// only those with the given status when one is given.
    pub fn list_runs(&self, limit: usize, offset: usize, status_filter: Option<&str>) -> (r: Result<
        Vec<(String, String, i64)>,
        KernelError,
    >)
        ensures
            r matches Ok(v) && exists|idx: Seq<int>|
                {
                    &&& newest_selection(
                        job_keys(self.jobs()),
                        job_wanted(self.jobs(), opt_str_view(status_filter)),
                        offset + limit,
                        idx,
                    )
                    &&& #[trigger] page_of(idx, offset as int).len() == v@.len()
                    &&& forall|k: int| 0 <= k < v@.len() ==> run_item(#[trigger] v@[k], self.jobs()[page_of(idx, offset as int)[k]])
                },
    {
        let (keys, wanted) = self.job_columns(status_filter);
        let page = select_page(&keys, &wanted, offset, limit);
        let ghost idx = choose|idx: Seq<int>|
            newest_selection(keys@, wanted@, offset + limit, idx) && #[trigger] page_of(idx, offset as int) == page@.map_values(
                |v: usize| v as int,
            );
        let mut out: Vec<(String, String, i64)> = Vec::new();
        let mut k: usize = 0;
        while k < page.len()
            invariant
                k <= page@.len(),
                out@.len() == k,
                newest_selection(keys@, wanted@, offset + limit, idx),
                page_of(idx, offset as int) == page@.map_values(|v: usize| v as int),
                keys@ == job_keys(self.jobs()),
                wanted@ == job_wanted(self.jobs(), opt_str_view(status_filter)),
                forall|a: int| 0 <= a < k ==> run_item(#[trigger] out@[a], self.jobs()[page_of(idx, offset as int)[a]]),
            decreases page@.len() - k,
        {
            let p = page[k];
            proof {
                assert(page_of(idx, offset as int)[k as int] == p as int);
                assert(page_of(idx, offset as int).contains(p as int));
                assert(0 <= p < keys@.len());
            }
            let j = &self.jobs[p];
            out.push((j.thread_id.clone(), j.status.clone(), j.updated_at_ms));
            k = k + 1;
        }
        proof {
            assert(page_of(idx, offset as int).len() == out@.len());
        }
        Ok(out)
    }

    /// Records a pending interrupt raised at `now_ms`; an interrupt id is used once.
    pub fn insert_interrupt(
        &mut self,
        interrupt_id: &str,
        thread_id: &str,
        run_id: &str,
        attempt_id: &str,
        value_json: &str,
        now_ms: i64,
    ) -> (r: Result<(), KernelError>)
        requires
            old(self).wf(),
        ensures
            final(self).wf(),
            final(self).same_but_interrupts(old(self)),
            old(self).interrupt_of(interrupt_id@) is Some ==> fails_with(
                r,
                "insert interrupt: interrupt already exists: "@ + interrupt_id@,
            ) && final(self).interrupts() == old(self).interrupts(),
            old(self).interrupt_of(interrupt_id@) is None ==> r is Ok && final(self).interrupts().len() == old(
                self,
            ).interrupts().len() + 1 && final(self).interrupts().drop_last() == old(self).interrupts() && pending_interrupt(
                final(self).interrupts().last(),
                interrupt_id@,
                thread_id@,
                run_id@,
                attempt_id@,
                value_json@,
                now_ms,
            ),
    {
        match find_key(&self.interrupts, interrupt_id) {
            Some(_) => Err(driver_err("insert interrupt: interrupt already exists: ", interrupt_id)),
            None => {
                let row = InterruptRow {
                    interrupt_id: interrupt_id.to_owned(),
                    thread_id: thread_id.to_owned(),
                    run_id: run_id.to_owned(),
                    attempt_id: attempt_id.to_owned(),
                    value_json: value_json.to_owned(),
                    status: "pending".to_owned(),
                    created_at_ms: now_ms,
                    resume_payload_hash: None,
                    resume_response_json: None,
                };
                proof {
                    reveal_strlit("pending");
                    lemma_key_push(self.interrupts@, row);
                }
                self.interrupts.push(row);
                proof {
                    assert(self.interrupts@.drop_last() =~= old(self).interrupts@);
                }
                Ok(())
            },
        }
    }

    /// Interrupts, most recently raised first: at most `limit`, only those with the given
    /// status and run when given.
    pub fn list_interrupts(&self, status_filter: Option<&str>, run_id_filter: Option<&str>, limit: usize) -> (r: Result<
        Vec<InterruptRow>,
        KernelError,
    >)
        ensures
            r matches Ok(v) && exists|idx: Seq<int>|
                {
                    &&& newest_selection(
                        interrupt_keys(self.interrupts()),
                        interrupt_wanted(self.interrupts(), opt_str_view(status_filter), opt_str_view(run_id_filter)),
                        limit as int,
                        idx,
                    )
                    &&& #[trigger] idx.len() == v@.len()
                    &&& forall|k: int| 0 <= k < v@.len() ==> #[trigger] v@[k] == self.interrupts()[idx[k]]
                },
    {
        let mut keys: Vec<i64> = Vec::new();
        let mut wanted: Vec<bool> = Vec::new();
        let ghost rows = self.interrupts@;
        let ghost fs = opt_str_view(status_filter);
        let ghost fr = opt_str_view(run_id_filter);
        let mut i: usize = 0;
        while i < self.interrupts.len()
            invariant
                rows == self.interrupts@,
                fs == opt_str_view(status_filter),
                fr == opt_str_view(run_id_filter),
                i <= rows.len(),
                keys@ == interrupt_keys(rows).take(i as int),
                wanted@ == interrupt_wanted(rows, fs, fr).take(i as int),
            decreases rows.len() - i,
        {
            keys.push(self.interrupts[i].created_at_ms);
            let w = matches_filter(status_filter, self.interrupts[i].status.as_str()) && matches_filter(
                run_id_filter,
                self.interrupts[i].run_id.as_str(),
            );
            bool_vec_push(&mut wanted, w);
            proof {
                assert(keys@ =~= interrupt_keys(rows).take(i + 1));
                assert(wanted@ =~= interrupt_wanted(rows, fs, fr).take(i + 1));
            }
            i = i + 1;
        }
        proof {
            assert(keys@ =~= interrupt_keys(rows));
            assert(wanted@ =~= interrupt_wanted(rows, fs, fr));
        }
        let sel = select_newest(&keys, &wanted, 0, limit);
        let ghost idx = sel@.map_values(|v: usize| v as int);
        let mut out: Vec<InterruptRow> = Vec::new();
        let mut k: usize = 0;
        while k < sel.len()
            invariant
                rows == self.interrupts@,
                keys@ == interrupt_keys(rows),
                k <= sel@.len(),
                out@.len() == k,
                idx == sel@.map_values(|v: usize| v as int),
                newest_selection(keys@, wanted@, 0 + limit, idx),
                forall|a: int| 0 <= a < k ==> #[trigger] out@[a] == rows[idx[a]],
            decreases sel@.len() - k,
        {
            let p = sel[k];
            proof {
                assert(idx[k as int] == p as int);
            }
            out.push(self.interrupts[p].clone());
            k = k + 1;
        }
        Ok(out)
    }

    /// The interrupt with this id, if any.
    pub fn get_interrupt(&self, interrupt_id: &str) -> (r: Result<Option<InterruptRow>, KernelError>)
        requires
            self.wf(),
        ensures
            r == Ok::<Option<InterruptRow>, KernelError>(self.interrupt_of(interrupt_id@)),
    {
        match find_key(&self.interrupts, interrupt_id) {
            Some(p) => Ok(Some(self.interrupts[p].clone())),
            None => Ok(None),
        }
    }

    /// Sets the status of an interrupt.
    pub fn update_interrupt_status(&mut self, interrupt_id: &str, status: &str) -> (r: Result<(), KernelError>)
        requires
            old(self).wf(),
        ensures
            final(self).wf(),
            final(self).same_but_interrupts(old(self)),
            ({
                let p = key_pos(old(self).interrupts(), interrupt_id@);
                &&& p < 0 ==> fails_with(r, "interrupt not found: "@ + interrupt_id@) && final(self).interrupts()
                    == old(self).interrupts()
                &&& p >= 0 ==> r is Ok && same_but_at(old(self).interrupts(), final(self).interrupts(), p)
                    && final(self).interrupts()[p].status@ == status@ && final(self).interrupts()[p] == (InterruptRow {
                    status: final(self).interrupts()[p].status,
                    ..old(self).interrupts()[p]
                })
            }),
    {
        match find_key(&self.interrupts, interrupt_id) {
            Some(p) => {
                let old_row = self.interrupts[p].clone();
                let row = InterruptRow { status: status.to_owned(), ..old_row };
                proof {
                    lemma_key_update(self.interrupts@, p as int, row);
                }
                self.interrupts.set(p, row);
                Ok(())
            },
            None => Err(driver_err("interrupt not found: ", interrupt_id)),
        }
    }

    /// Records that an interrupt was resumed with the payload hashed `resume_payload_hash`
    /// and answered `resume_response_json`; a first resume's hash and answer are kept, and a
    /// resume with another payload is refused.
    pub fn persist_interrupt_resume_result(
        &mut self,
        interrupt_id: &str,
        resume_payload_hash: &str,
        resume_response_json: &str,
    ) -> (r: Result<(), KernelError>)
        requires
            old(self).wf(),
        ensures
            final(self).wf(),
            final(self).same_but_interrupts(old(self)),
            ({
                let p = key_pos(old(self).interrupts(), interrupt_id@);
                let row = old(self).interrupts()[p];
                let conflict = p >= 0 && row.resume_payload_hash is Some && row.resume_payload_hash->0@
                    != resume_payload_hash@;
                &&& p < 0 ==> fails_with(r, "interrupt not found: "@ + interrupt_id@)
                &&& conflict ==> fails_with(
                    r,
                    "interrupt "@ + interrupt_id@ + " already resumed with a different payload"@,
                )
                &&& r is Err ==> final(self).interrupts() == old(self).interrupts()
                &&& r is Ok <==> p >= 0 && !conflict
                &&& r is Ok ==> {
                    let n = final(self).interrupts()[p];
                    &&& same_but_at(old(self).interrupts(), final(self).interrupts(), p)
                    &&& n.status@ == "resumed"@
                    &&& opt_view(n.resume_payload_hash) == Some(
                        if row.resume_payload_hash is Some { row.resume_payload_hash->0@ } else { resume_payload_hash@ },
                    )
                    &&& opt_view(n.resume_response_json) == Some(
                        if row.resume_response_json is Some { row.resume_response_json->0@ } else { resume_response_json@ },
                    )
                    &&& n.interrupt_id == row.interrupt_id && n.thread_id == row.thread_id && n.run_id == row.run_id
                    &&& n.attempt_id == row.attempt_id && n.value_json == row.value_json && n.created_at_ms == row.created_at_ms
                }
            }),
    {
        let p = match find_key(&self.interrupts, interrupt_id) {
            Some(p) => p,
            None => {
                return Err(driver_err("interrupt not found: ", interrupt_id));
            },
        };
        let old_row = self.interrupts[p].clone();
        match &old_row.resume_payload_hash {
            Some(h) => {
                if !str_eq(h.as_str(), resume_payload_hash) {
                    let a = crate::text::concat("interrupt ", interrupt_id);
                    return Err(KernelError::Driver(crate::text::concat(a.as_str(), " already resumed with a different payload")));
                }
            },
            None => {},
        }
        let hash = match &old_row.resume_payload_hash {
            Some(h) => h.clone(),
            None => resume_payload_hash.to_owned(),
        };
        let response = match &old_row.resume_response_json {
            Some(s) => s.clone(),
            None => resume_response_json.to_owned(),
        };
        let row = InterruptRow {
            status: "resumed".to_owned(),
            resume_payload_hash: Some(hash),
            resume_response_json: Some(response),
            ..old_row
        };
        proof {
            lemma_key_update(self.interrupts@, p as int, row);
        }
        self.interrupts.set(p, row);
        Ok(())
    }

    /// Records an API key at `now_ms`: a new key is created then, an existing one keeps its
    /// creation time and takes the new secret hash, role and status.
    pub fn upsert_api_key_record(&mut self, key_id: &str, secret_hash: &str, active: bool, role: &str, now_ms: i64) -> (r:
        Result<(), KernelError>)
        requires
            old(self).wf(),
        ensures
            final(self).wf(),
            r is Ok,
            final(self).same_but_api_keys(old(self)),
            ({
                let p = key_pos(old(self).api_keys(), key_id@);
                let k = final(self).api_key_of(key_id@)->0;
                &&& final(self).api_key_of(key_id@) is Some
                &&& k.secret_hash@ == secret_hash@ && k.role@ == role@ && k.active == active
                &&& k.updated_at_ms == now_ms
                &&& k.created_at_ms == if p >= 0 { old(self).api_keys()[p].created_at_ms } else { now_ms }
                &&& p >= 0 ==> same_but_at(old(self).api_keys(), final(self).api_keys(), p)
                &&& p < 0 ==> final(self).api_keys().len() == old(self).api_keys().len() + 1
                    && final(self).api_keys().drop_last() == old(self).api_keys()
            }),
    {
        match find_key(&self.api_keys, key_id) {
            Some(p) => {
                let row = ApiKeyRow {
                    key_id: self.api_keys[p].key_id.clone(),
                    secret_hash: secret_hash.to_owned(),
                    role: role.to_owned(),
                    active,
                    created_at_ms: self.api_keys[p].created_at_ms,
                    updated_at_ms: now_ms,
                };
                proof {
                    lemma_key_update(self.api_keys@, p as int, row);
                }
                self.api_keys.set(p, row);
            },
            None => {
                let row = ApiKeyRow {
                    key_id: key_id.to_owned(),
                    secret_hash: secret_hash.to_owned(),
                    role: role.to_owned(),
                    active,
                    created_at_ms: now_ms,
                    updated_at_ms: now_ms,
                };
                proof {
                    lemma_key_push(self.api_keys@, row);
                }
                self.api_keys.push(row);
                proof {
                    assert(self.api_keys@.drop_last() =~= old(self).api_keys@);
                }
            },
        }
        Ok(())
    }

    /// The API key with this id, if any.
    pub fn get_api_key_record(&self, key_id: &str) -> (r: Result<Option<ApiKeyRow>, KernelError>)
        requires
            self.wf(),
        ensures
            r == Ok::<Option<ApiKeyRow>, KernelError>(self.api_key_of(key_id@)),
    {
        match find_key(&self.api_keys, key_id) {
            Some(p) => Ok(Some(self.api_keys[p].clone())),
            None => Ok(None),
        }
    }

    /// Activates or disables an API key at `now_ms`.
    pub fn set_api_key_status(&mut self, key_id: &str, active: bool, now_ms: i64) -> (r: Result<(), KernelError>)
        requires
            old(self).wf(),
        ensures
            final(self).wf(),
            final(self).same_but_api_keys(old(self)),
            ({
                let p = key_pos(old(self).api_keys(), key_id@);
                &&& p < 0 ==> fails_with(r, "api key not found: "@ + key_id@) && final(self).api_keys() == old(self).api_keys()
                &&& p >= 0 ==> r is Ok && same_but_at(old(self).api_keys(), final(self).api_keys(), p) && final(self).api_keys()[p]
                    == (ApiKeyRow { active, updated_at_ms: now_ms, ..old(self).api_keys()[p] })
            }),
    {
        match find_key(&self.api_keys, key_id) {
            Some(p) => {
                let old_row = self.api_keys[p].clone();
                let row = ApiKeyRow { active, updated_at_ms: now_ms, ..old_row };
                proof {
                    lemma_key_update(self.api_keys@, p as int, row);
                }
                self.api_keys.set(p, row);
                Ok(())
            },
            None => Err(driver_err("api key not found: ", key_id)),
        }
    }

    /// Whether any API key is recorded.
    pub fn has_any_api_keys(&self) -> (r: Result<bool, KernelError>)
        ensures
            r == Ok::<bool, KernelError>(self.api_keys().len() > 0),
    {
        Ok(self.api_keys.len() > 0)
    }

    /// Appends an audit entry at `now_ms` under the next audit id.
    pub fn append_audit_log(&mut self, entry: &AuditLogEntry, now_ms: i64) -> (r: Result<(), KernelError>)
        requires
            old(self).wf(),
        ensures
            final(self).wf(),
            final(self).same_scheduling(old(self)),
            final(self).replay_effects() == old(self).replay_effects(),
            final(self).step_reports() == old(self).step_reports(),
            final(self).jobs() == old(self).jobs(),
            final(self).interrupts() == old(self).interrupts(),
            final(self).api_keys() == old(self).api_keys(),
            old(self).audit_logs().len() < i64::MAX ==> r is Ok,
            r is Err ==> final(self).audit_logs() == old(self).audit_logs(),
            r is Ok ==> {
                let a = final(self).audit_logs().last();
                &&& final(self).audit_logs().len() == old(self).audit_logs().len() + 1
                &&& final(self).audit_logs().drop_last() == old(self).audit_logs()
                &&& a.audit_id == old(self).audit_logs().len() + 1
                &&& a.actor_type == entry.actor_type && a.actor_id == entry.actor_id && a.actor_role == entry.actor_role
                &&& a.action == entry.action && a.resource_type == entry.resource_type && a.resource_id == entry.resource_id
                &&& a.result == entry.result && a.request_id == entry.request_id && a.details_json == entry.details_json
                &&& a.created_at_ms == now_ms
            },
    {
        let n = self.audit_logs.len();
        if n as u64 >= 9_223_372_036_854_775_807u64 {
            return Err(KernelError::Driver("append audit log: audit ids exhausted".to_owned()));
        }
        let row = AuditLogRow {
            audit_id: (n as i64) + 1,
            actor_type: entry.actor_type.clone(),
            actor_id: clone_opt_string(&entry.actor_id),
            actor_role: clone_opt_string(&entry.actor_role),
            action: entry.action.clone(),
            resource_type: entry.resource_type.clone(),
            resource_id: clone_opt_string(&entry.resource_id),
            result: entry.result.clone(),
            request_id: entry.request_id.clone(),
            details_json: clone_opt_string(&entry.details_json),
            created_at_ms: now_ms,
        };
        self.audit_logs.push(row);
        proof {
            assert(self.audit_logs@.drop_last() =~= old(self).audit_logs@);
            assert forall|i: int| 0 <= i < self.audit_logs@.len() implies #[trigger] self.audit_logs@[i].audit_id == i + 1 by {
                if i < n {
                    assert(self.audit_logs@[i] == old(self).audit_logs@[i]);
                }
            }
        }
        Ok(())
    }

    /// Audit entries, newest first: at most `limit`, only those that pass the filters (see
    /// [audit_passes]).
    pub fn list_audit_logs_filtered(
        &self,
        request_id: Option<&str>,
        action: Option<&str>,
        from_ms: Option<i64>,
        to_ms: Option<i64>,
        limit: usize,
    ) -> (r: Result<Vec<AuditLogRow>, KernelError>)
        ensures
            r matches Ok(v) && exists|idx: Seq<int>|
                {
                    &&& newest_selection(
                        audit_keys(self.audit_logs()),
                        audit_wanted(self.audit_logs(), opt_str_view(request_id), opt_str_view(action), from_ms, to_ms),
                        limit as int,
                        idx,
                    )
                    &&& #[trigger] idx.len() == v@.len()
                    &&& forall|k: int| 0 <= k < v@.len() ==> #[trigger] v@[k] == self.audit_logs()[idx[k]]
                },
    {
        let mut keys: Vec<i64> = Vec::new();
        let mut wanted: Vec<bool> = Vec::new();
        let ghost rows = self.audit_logs@;
        let ghost fq = opt_str_view(request_id);
        let ghost fa = opt_str_view(action);
        let mut i: usize = 0;
        while i < self.audit_logs.len()
            invariant
                rows == self.audit_logs@,
                fq == opt_str_view(request_id),
                fa == opt_str_view(action),
                i <= rows.len(),
                keys@ == audit_keys(rows).take(i as int),
                wanted@ == audit_wanted(rows, fq, fa, from_ms, to_ms).take(i as int),
            decreases rows.len() - i,
        {
            let row = &self.audit_logs[i];
            keys.push(row.audit_id);
            let after_from = match from_ms {
                Some(f) => row.created_at_ms >= f,
                None => true,
            };
            let before_to = match to_ms {
                Some(t) => row.created_at_ms <= t,
                None => true,
            };
            let w = matches_filter(request_id, row.request_id.as_str()) && matches_filter(action, row.action.as_str())
                && after_from && before_to;
            bool_vec_push(&mut wanted, w);
            proof {
                assert(keys@ =~= audit_keys(rows).take(i + 1));
                assert(wanted@ =~= audit_wanted(rows, fq, fa, from_ms, to_ms).take(i + 1));
            }
            i = i + 1;
        }
        proof {
            assert(keys@ =~= audit_keys(rows));
            assert(wanted@ =~= audit_wanted(rows, fq, fa, from_ms, to_ms));
        }
        let sel = select_newest(&keys, &wanted, 0, limit);
        let ghost idx = sel@.map_values(|v: usize| v as int);
        let mut out: Vec<AuditLogRow> = Vec::new();
        let mut k: usize = 0;
        while k < sel.len()
            invariant
                rows == self.audit_logs@,
                keys@ == audit_keys(rows),
                k <= sel@.len(),
                out@.len() == k,
                idx == sel@.map_values(|v: usize| v as int),
                newest_selection(keys@, wanted@, 0 + limit, idx),
                forall|a: int| 0 <= a < k ==> #[trigger] out@[a] == rows[idx[a]],
            decreases sel@.len() - k,
        {
            let p = sel[k];
            proof {
                assert(idx[k as int] == p as int);
            }
            out.push(self.audit_logs[p].clone());
            k = k + 1;
        }
        Ok(out)
    }

    /// The newest `limit` audit entries (see [Self::list_audit_logs_filtered]).
    pub fn list_audit_logs(&self, limit: usize) -> (r: Result<Vec<AuditLogRow>, KernelError>)
        ensures
            r matches Ok(v) && exists|idx: Seq<int>|
                {
                    &&& newest_selection(
                        audit_keys(self.audit_logs()),
                        audit_wanted(self.audit_logs(), None, None, None, None),
                        limit as int,
                        idx,
                    )
                    &&& #[trigger] idx.len() == v@.len()
                    &&& forall|k: int| 0 <= k < v@.len() ==> #[trigger] v@[k] == self.audit_logs()[idx[k]]
                },
    {
        self.list_audit_logs_filtered(None, None, None, None, limit)
    }

    /// Dead letters, most recently written first: at most `limit`, only those with the
    /// given replay status when one is given.
    pub fn list_dead_letters(&self, status_filter: Option<&str>, limit: usize) -> (r: Result<Vec<DeadLetterRow>, KernelError>)
        ensures
            r matches Ok(v) && exists|idx: Seq<int>|
                {
                    &&& newest_selection(
                        dead_letter_keys(self.dead_letters()),
                        dead_letter_wanted(self.dead_letters(), opt_str_view(status_filter)),
                        limit as int,
                        idx,
                    )
                    &&& #[trigger] idx.len() == v@.len()
                    &&& forall|k: int| 0 <= k < v@.len() ==> #[trigger] v@[k] == self.dead_letters()[idx[k]]
                },
    {
        let mut keys: Vec<i64> = Vec::new();
        let mut wanted: Vec<bool> = Vec::new();
        let ghost rows = self.dead_letters();
        let ghost fs = opt_str_view(status_filter);
        let mut i: usize = 0;
        while i < self.dead_letters.len()
            invariant
                rows == self.dead_letters(),
                rows == self.dead_letters@,
                fs == opt_str_view(status_filter),
                i <= rows.len(),
                keys@ == dead_letter_keys(rows).take(i as int),
                wanted@ == dead_letter_wanted(rows, fs).take(i as int),
            decreases rows.len() - i,
        {
            keys.push(self.dead_letters[i].dead_at_ms);
            let w = matches_filter(status_filter, self.dead_letters[i].replay_status.as_str());
            bool_vec_push(&mut wanted, w);
            proof {
                assert(keys@ =~= dead_letter_keys(rows).take(i + 1));
                assert(wanted@ =~= dead_letter_wanted(rows, fs).take(i + 1));
            }
            i = i + 1;
        }
        proof {
            assert(keys@ =~= dead_letter_keys(rows));
            assert(wanted@ =~= dead_letter_wanted(rows, fs));
        }
        let sel = select_newest(&keys, &wanted, 0, limit);
        let ghost idx = sel@.map_values(|v: usize| v as int);
        let mut out: Vec<DeadLetterRow> = Vec::new();
        let mut k: usize = 0;
        while k < sel.len()
            invariant
                rows == self.dead_letters@,
                keys@ == dead_letter_keys(rows),
                k <= sel@.len(),
                out@.len() == k,
                idx == sel@.map_values(|v: usize| v as int),
                newest_selection(keys@, wanted@, 0 + limit, idx),
                forall|a: int| 0 <= a < k ==> #[trigger] out@[a] == rows[idx[a]],
            decreases sel@.len() - k,
        {
            let p = sel[k];
            proof {
                assert(idx[k as int] == p as int);
            }
            out.push(self.dead_letters[p].clone());
            k = k + 1;
        }
        Ok(out)
    }
}

} // verus!
