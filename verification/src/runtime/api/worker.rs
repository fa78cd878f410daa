//! Decisions of the worker endpoints: poll, heartbeat, step report and acknowledgement.

use crate::runtime::api::errors::{api_error_for, api_error_is, ApiError, ApiErrorKind};
use crate::runtime::api::validate::{ack_response_status, ack_status_name, parse_retry_policy, parse_terminal_status, report_response_status, retry_policy_check, terminal_status_of, validate_step_report, validate_worker_id, RetryPolicyInput};
use crate::runtime::store::acks::effective_policy;
use crate::runtime::store::effects::{report_pos, token_conflict_message};
use crate::runtime::store::leases::renewed;
use crate::text::{contains_seq, trimmed};

use crate::runtime::models::{AttemptTraceContextRow, DispatchableAttemptContext, LeaseRecord};

use crate::runtime::store::dispatch::{context_of, dispatch_selection, dispatchable};
use crate::runtime::store::keyed::{key_pos, lemma_key_pos, lemma_key_pos_range};
use crate::runtime::store::leases::{active_for_tenant, active_for_worker, dispatchable_status, lease_active};
use crate::runtime::store::InMemoryRuntimeRepository;
use crate::text::str_contains;
use vstd::prelude::*;

verus! {

/// Lease length granted to a polling worker, in milliseconds.
pub const POLL_LEASE_MS: i64 = 30_000;

/// Smallest number of candidates a poll looks at.
pub const MIN_POLL_SCAN: usize = 16;

/// Limits of one poll, each at least 1.
#[derive(Clone, Copy, Debug, PartialEq, Eq, Structural)]
pub struct PollLimits {
    pub poll_limit: usize,
    pub max_active: usize,
    pub tenant_max: usize,
}

/// `value`, or `default` when absent; at least 1.
pub open spec fn limit_or(value: Option<usize>, default: usize) -> usize {
    let v = match value {
        Some(v) => v,
        None => default,
    };
    if v < 1 { 1 } else { v }
}

fn limit_or_exec(value: Option<usize>, default: usize) -> (r: usize)
    ensures
        r == limit_or(value, default),
{
    let v = match value {
        Some(v) => v,
        None => default,
    };
    if v < 1 { 1 } else { v }
}

/// The limits of a poll: requested values, else the server's defaults; each at least 1.
pub fn resolve_poll_limits(
    limit: Option<usize>,
    default_limit: usize,
    max_active: Option<usize>,
    default_max_active: usize,
    tenant_max: Option<usize>,
    default_tenant_max: usize,
) -> (r: PollLimits)
    ensures
        r.poll_limit == limit_or(limit, default_limit),
        r.max_active == limit_or(max_active, default_max_active),
        r.tenant_max == limit_or(tenant_max, default_tenant_max),
{
    PollLimits {
        poll_limit: limit_or_exec(limit, default_limit),
        max_active: limit_or_exec(max_active, default_max_active),
        tenant_max: limit_or_exec(tenant_max, default_tenant_max),
    }
}

/// Number of candidates a poll looks at: the poll limit, at least [MIN_POLL_SCAN].
pub open spec fn scan_limit(poll_limit: usize) -> usize {
    if poll_limit < MIN_POLL_SCAN { MIN_POLL_SCAN } else { poll_limit }
}

/// What a poll decided.
#[derive(Debug)]
pub enum PollDecision {
    /// The worker already holds `limit` or more active leases.
    WorkerBackpressure { active: usize, limit: usize },
    /// Every candidate belongs to a tenant at its limit; the last one seen is reported.
    TenantBackpressure { tenant_id: String, tenant_active: usize, tenant_limit: usize, active: usize, limit: usize },
    /// The worker got a lease on an attempt; `recovered` when the attempt had started before.
    Dispatched {
        attempt_id: String,
        lease: LeaseRecord,
        tenant_id: Option<String>,
        recovered: bool,
        trace: Option<AttemptTraceContextRow>,
        active: usize,
        limit: usize,
    },
    /// Nothing to hand out.
    Noop { active: usize, limit: usize, tenant_limit: usize },
}

/// The candidate's tenant is at its limit of active leases.
pub open spec fn tenant_blocked(repo: InMemoryRuntimeRepository, c: DispatchableAttemptContext, now_ms: i64, tenant_max: usize) -> bool {
    c.tenant_id is Some && active_for_tenant(repo.leases(), repo.attempts(), c.tenant_id->0@, now_ms) >= tenant_max
}

/// A lease under `lease_id` can be granted on the attempt.
pub open spec fn grantable(repo: InMemoryRuntimeRepository, attempt_id: Seq<char>, now_ms: i64, lease_id: Seq<char>) -> bool {
    let li = key_pos(repo.leases(), attempt_id);
    let ai = repo.attempt_pos(attempt_id);
    &&& !(li >= 0 && lease_active(repo.leases()[li], now_ms))
    &&& ai >= 0
    &&& dispatchable_status(repo.attempts()[ai].status)
    &&& repo.lease_pos(lease_id) < 0
}

/// The poll hands out the candidate: its tenant is below its limit and the lease can be granted.
pub open spec fn takes(repo: InMemoryRuntimeRepository, c: DispatchableAttemptContext, now_ms: i64, tenant_max: usize, lease_id: Seq<char>) -> bool {
    !tenant_blocked(repo, c, now_ms, tenant_max) && grantable(repo, c.attempt_id@, now_ms, lease_id)
}

/// Position of the last tenant-blocked candidate, or -1.
pub open spec fn last_blocked(repo: InMemoryRuntimeRepository, cands: Seq<DispatchableAttemptContext>, now_ms: i64, tenant_max: usize) -> int
    decreases cands.len(),
{
    if cands.len() == 0 {
        -1
    } else if tenant_blocked(repo, cands.last(), now_ms, tenant_max) {
        cands.len() - 1
    } else {
        last_blocked(repo, cands.drop_last(), now_ms, tenant_max)
    }
}

proof fn lemma_last_blocked_range(repo: InMemoryRuntimeRepository, cands: Seq<DispatchableAttemptContext>, now_ms: i64, tenant_max: usize)
    ensures
        -1 <= last_blocked(repo, cands, now_ms, tenant_max) < cands.len(),
        last_blocked(repo, cands, now_ms, tenant_max) >= 0 ==> tenant_blocked(
            repo,
            cands[last_blocked(repo, cands, now_ms, tenant_max)],
            now_ms,
            tenant_max,
        ),
        last_blocked(repo, cands, now_ms, tenant_max) < 0 ==> forall|k: int|
            0 <= k < cands.len() ==> !tenant_blocked(repo, #[trigger] cands[k], now_ms, tenant_max),
    decreases cands.len(),
{
    if cands.len() > 0 {
        lemma_last_blocked_range(repo, cands.drop_last(), now_ms, tenant_max);
        if !tenant_blocked(repo, cands.last(), now_ms, tenant_max) {
            assert forall|k: int| 0 <= k < cands.drop_last().len() implies cands.drop_last()[k] == cands[k] by {}
        }
    }
}

/// The poll's outcome over candidates `cands`, tried in order: the first one it takes is
/// dispatched; with none taken, the last tenant-blocked one is reported, else nothing.
pub open spec fn poll_outcome(
    repo: InMemoryRuntimeRepository,
    cands: Seq<DispatchableAttemptContext>,
    now_ms: i64,
    tenant_max: usize,
    lease_id: Seq<char>,
    r: (int, int),
) -> bool {
    let (taken, blocked) = r;
    &&& -1 <= taken < cands.len()
    &&& taken >= 0 ==> takes(repo, cands[taken], now_ms, tenant_max, lease_id)
    &&& forall|k: int| 0 <= k < cands.len() && (taken < 0 || k < taken) ==> !takes(repo, #[trigger] cands[k], now_ms, tenant_max, lease_id)
    &&& taken < 0 ==> blocked == last_blocked(repo, cands, now_ms, tenant_max)
}

/// Tries the candidates in order (see [poll_outcome]) and grants `worker_id` the lease
/// `lease_id` on the first one taken, for [POLL_LEASE_MS], then moves its trace one span
/// forward to `span_id`. Answers the position taken (or -1) and the position of the last
/// tenant-blocked candidate (or -1 when one was taken).
pub fn poll_candidates(
    repo: &mut InMemoryRuntimeRepository,
    worker_id: &str,
    cands: &Vec<DispatchableAttemptContext>,
    tenant_max: usize,
    now_ms: i64,
    lease_id: &str,
    span_id: &str,
) -> (r: (Option<(usize, LeaseRecord, Option<AttemptTraceContextRow>)>, Option<(usize, usize)>))
    requires
        old(repo).wf(),
        now_ms <= i64::MAX - POLL_LEASE_MS,
    ensures
        final(repo).wf(),
        ({
            let taken: int = match r.0 {
                Some((k, _, _)) => k as int,
                None => -1,
            };
            let blocked: int = match r.1 {
                Some((k, _)) => k as int,
                None => -1,
            };
            &&& poll_outcome(*old(repo), cands@, now_ms, tenant_max, lease_id@, (taken, blocked))
            &&& r.0 is None ==> final(repo).attempts() == old(repo).attempts() && final(repo).leases() == old(repo).leases()
            &&& (r.1 matches Some((k, _)) ==> k < cands@.len() && tenant_blocked(*old(repo), cands@[k as int], now_ms, tenant_max))
            &&& (r.1 matches Some((k, n)) ==> n == active_for_tenant(
                old(repo).leases(),
                old(repo).attempts(),
                cands@[k as int].tenant_id->0@,
                now_ms,
            ))
            &&& (r.0 matches Some((k, l, _)) ==> l.lease_id@ == lease_id@ && l.attempt_id@ == cands@[k as int].attempt_id@
                && l.worker_id@ == worker_id@ && l.lease_expires_at_ms == now_ms + POLL_LEASE_MS
                && final(repo).lease_of_attempt(l.attempt_id@) == Some(l))
        }),
{
    let ghost start = *repo;
    let mut blocked: Option<(usize, usize)> = None;
    let mut k: usize = 0;
    while k < cands.len()
        invariant
            repo.wf(),
            repo.attempts() == start.attempts(),
            repo.leases() == start.leases(),
            start == *old(repo),
            start.wf(),
            k <= cands@.len(),
            now_ms <= i64::MAX - POLL_LEASE_MS,
            forall|k2: int| 0 <= k2 < k ==> !takes(start, #[trigger] cands@[k2], now_ms, tenant_max, lease_id@),
            (match blocked {
                Some((b, _)) => b as int,
                None => -1int,
            }) == last_blocked(start, cands@.take(k as int), now_ms, tenant_max),
            blocked matches Some((b, n)) ==> b < cands@.len() && cands@[b as int].tenant_id is Some && n >= tenant_max && n == active_for_tenant(
                start.leases(),
                start.attempts(),
                cands@[b as int].tenant_id->0@,
                now_ms,
            ),
        decreases cands@.len() - k,
    {
        proof {
            assert(cands@.take(k + 1).drop_last() =~= cands@.take(k as int));
            assert(cands@.take(k + 1).last() == cands@[k as int]);
        }
        let c = &cands[k];
        let is_blocked = match &c.tenant_id {
            Some(t) => {
                let n = match repo.active_leases_for_tenant(t.as_str(), now_ms) {
                    Ok(n) => n,
                    Err(_) => 0,
                };
                if n >= tenant_max {
                    blocked = Some((k, n));
                    true
                } else {
                    false
                }
            },
            None => false,
        };
        if !is_blocked {
            let attempt_id = c.attempt_id.as_str();
            match repo.upsert_lease_with_id(attempt_id, worker_id, now_ms + POLL_LEASE_MS, now_ms, lease_id.to_owned()) {
                Ok(lease) => {
                    proof {
                        let s = repo.leases();
                        assert(s.last() == lease);
                        lemma_key_pos(s, s.len() - 1);
                    }
                    let ghost after_lease = *repo;
                    let trace = match repo.advance_attempt_trace(attempt_id, span_id) {
                        Ok(t) => t,
                        Err(_) => None,
                    };
                    proof {
                        assert(repo.leases() == after_lease.leases());
                        assert(!tenant_blocked(start, cands@[k as int], now_ms, tenant_max));
                        assert(grantable(start, cands@[k as int].attempt_id@, now_ms, lease_id@));
                        assert(takes(start, cands@[k as int], now_ms, tenant_max, lease_id@));
                        assert(repo.lease_of_attempt(lease.attempt_id@) == Some(lease));
                    }
                    return (Some((k, lease, trace)), None);
                },
                Err(_) => {
                    // a refused lease moves on to the next candidate
                },
            }
        }
        k = k + 1;
    }
    proof {
        assert(cands@.take(k as int) =~= cands@);
    }
    (None, blocked)
}

impl InMemoryRuntimeRepository {
    /// The lease of an attempt, if any.
    pub open spec fn lease_of_attempt(&self, attempt_id: Seq<char>) -> Option<LeaseRecord> {
        let p = key_pos(self.leases(), attempt_id);
        if p >= 0 { Some(self.leases()[p]) } else { None }
    }
}

/// `cands` are the contexts of the first `scan` attempts of `repo` in dispatch order at
/// `now_ms`: those a poll tries.
pub open spec fn poll_window(repo: InMemoryRuntimeRepository, now_ms: i64, scan: usize, cands: Seq<DispatchableAttemptContext>) -> bool {
    &&& dispatch_selection(
        repo.attempts(),
        repo.leases(),
        now_ms,
        scan as int,
        cands.map_values(|c: DispatchableAttemptContext| key_pos(repo.attempts(), c.attempt_id@)),
    )
    &&& forall|k: int| 0 <= k < cands.len() ==> context_of(#[trigger] cands[k], repo.attempts()[key_pos(repo.attempts(), cands[k].attempt_id@)])
}

/// Handles a worker's poll at `now_ms` (after the lease tick): a worker holding
/// `max_active` active leases or more is told to back off; otherwise the first
/// `max(poll_limit, 16)` attempts in dispatch order are tried (see [poll_candidates]).
pub fn worker_poll(
    repo: &mut InMemoryRuntimeRepository,
    worker_id: &str,
    limits: PollLimits,
    now_ms: i64,
    lease_id: &str,
    span_id: &str,
) -> (r: PollDecision)
    requires
        old(repo).wf(),
        now_ms <= i64::MAX - POLL_LEASE_MS,
    ensures
        final(repo).wf(),
        ({
            let active = active_for_worker(old(repo).leases(), worker_id@, now_ms);
            &&& (active >= limits.max_active <==> r is WorkerBackpressure)
            &&& (r matches PollDecision::WorkerBackpressure { active: a, limit } ==> a == active && limit == limits.max_active
                && final(repo).leases() == old(repo).leases() && final(repo).attempts() == old(repo).attempts())
            &&& (r matches PollDecision::Dispatched { attempt_id, lease, active: a, limit, .. } ==> {
                let i = old(repo).attempt_pos(attempt_id@);
                &&& a == active && limit == limits.max_active
                &&& i >= 0 && dispatchable(old(repo).attempts()[i], old(repo).leases(), now_ms)
                &&& (old(repo).attempts()[i].tenant_id is Some ==> active_for_tenant(
                    old(repo).leases(),
                    old(repo).attempts(),
                    old(repo).attempts()[i].tenant_id->0@,
                    now_ms,
                ) < limits.tenant_max)
                &&& grantable(*old(repo), attempt_id@, now_ms, lease_id@)
                &&& lease.lease_id@ == lease_id@ && lease.attempt_id@ == attempt_id@ && lease.worker_id@ == worker_id@
                &&& lease.lease_expires_at_ms == now_ms + POLL_LEASE_MS
                &&& final(repo).lease_of_attempt(attempt_id@) == Some(lease)
            })
            &&& (r matches PollDecision::TenantBackpressure { tenant_id, tenant_active, tenant_limit, active: a, limit } ==> a == active
                && limit == limits.max_active && tenant_limit == limits.tenant_max && tenant_active >= tenant_limit
                && tenant_active == active_for_tenant(old(repo).leases(), old(repo).attempts(), tenant_id@, now_ms)
                && final(repo).leases() == old(repo).leases() && final(repo).attempts() == old(repo).attempts())
            &&& (r matches PollDecision::Noop { active: a, limit, tenant_limit } ==> a == active && limit == limits.max_active
                && tenant_limit == limits.tenant_max && final(repo).leases() == old(repo).leases()
                && final(repo).attempts() == old(repo).attempts())
        }),
        !(r is WorkerBackpressure) ==> exists|cands: Seq<DispatchableAttemptContext>, taken: int, blocked: int|
            #![trigger poll_outcome(*old(repo), cands, now_ms, limits.tenant_max, lease_id@, (taken, blocked))]
            {
                &&& poll_window(*old(repo), now_ms, scan_limit(limits.poll_limit), cands)
                &&& poll_outcome(*old(repo), cands, now_ms, limits.tenant_max, lease_id@, (taken, blocked))
                &&& (r is Dispatched <==> taken >= 0)
                &&& (r matches PollDecision::Dispatched { attempt_id, .. } ==> attempt_id@ == cands[taken].attempt_id@)
                &&& (r is TenantBackpressure <==> taken < 0 && blocked >= 0)
                &&& (r matches PollDecision::TenantBackpressure { tenant_id, .. } ==> (cands[blocked].tenant_id matches Some(t)
                    && t@ == tenant_id@))
            },
{
    let active = match repo.active_leases_for_worker(worker_id, now_ms) {
        Ok(n) => n,
        Err(_) => 0,
    };
    if active >= limits.max_active {
        return PollDecision::WorkerBackpressure { active, limit: limits.max_active };
    }
    let scan = if limits.poll_limit < MIN_POLL_SCAN { MIN_POLL_SCAN } else { limits.poll_limit };
    let cands = match repo.list_dispatchable_attempt_contexts(now_ms, scan) {
        Ok(v) => v,
        Err(_) => Vec::new(),
    };
    let ghost start = *repo;
    let (taken, blocked) = poll_candidates(repo, worker_id, &cands, limits.tenant_max, now_ms, lease_id, span_id);
    let ghost cs = cands@;
    let ghost tk: int = match taken {
        Some((k, _, _)) => k as int,
        None => -1,
    };
    let ghost bl: int = match blocked {
        Some((k, _)) => k as int,
        None => -1,
    };
    proof {
        assert(poll_window(start, now_ms, scan_limit(limits.poll_limit), cs));
        assert(poll_outcome(start, cs, now_ms, limits.tenant_max, lease_id@, (tk, bl)));
    }
    match taken {
        Some((k, lease, trace)) => {
            proof {
                let sel = cands@.map_values(|c: DispatchableAttemptContext| key_pos(start.attempts(), c.attempt_id@));
                assert(sel[k as int] == key_pos(start.attempts(), cands@[k as int].attempt_id@));
                lemma_key_pos_range(start.attempts(), cands@[k as int].attempt_id@);
            }
            let c = &cands[k];
            PollDecision::Dispatched {
                attempt_id: c.attempt_id.clone(),
                lease,
                tenant_id: crate::runtime::models::clone_opt_string(&c.tenant_id),
                recovered: c.started_at_ms.is_some(),
                trace,
                active,
                limit: limits.max_active,
            }
        },
        None => match blocked {
            Some((b, n)) => {
                let t = match &cands[b].tenant_id {
                    Some(t) => t.clone(),
                    None => String::new(),
                };
                PollDecision::TenantBackpressure {
                    tenant_id: t,
                    tenant_active: n,
                    tenant_limit: limits.tenant_max,
                    active,
                    limit: limits.max_active,
                }
            },
            None => PollDecision::Noop { active, limit: limits.max_active, tenant_limit: limits.tenant_max },
        },
    }
}

/// Lease length of a heartbeat: the requested seconds, 30 by default, at least 1; in milliseconds.
pub open spec fn heartbeat_ttl_ms(lease_ttl_seconds: Option<i64>) -> int {
    let t = match lease_ttl_seconds {
        Some(t) => t,
        None => 30,
    };
    (if t < 1 { 1 } else { t }) * 1000
}

/// Lease length law: a heartbeat asking for `t` seconds, `t` at least 1, renews the lease for
/// exactly `t` seconds, however long; without a request it is 30 seconds, and a request below
/// 1 second gives 1 second.
pub proof fn lemma_heartbeat_ttl(t: i64)
    ensures
        t >= 1 ==> heartbeat_ttl_ms(Some(t)) == t * 1000,
        t < 1 ==> heartbeat_ttl_ms(Some(t)) == 1000,
        heartbeat_ttl_ms(None) == 30_000,
{
}

/// The details of a lease ownership conflict: the lease's worker, then the asking one.
pub open spec fn ownership_details(e: ApiError, expected: Seq<char>, actual: Seq<char>) -> bool {
    &&& e.details@.len() == 2
    &&& e.details@[0].0@ == "expected_worker_id"@ && e.details@[0].1@ == expected
    &&& e.details@[1].0@ == "actual_worker_id"@ && e.details@[1].1@ == actual
}

/// A worker renews its lease `lease_id` at `now_ms`: the lease must exist and be the
/// worker's own; it then expires after the requested time and the attempt's trace moves one
/// span forward. Answers the new expiry and the trace.
pub fn worker_heartbeat(
    repo: &mut InMemoryRuntimeRepository,
    worker_id: &str,
    lease_id: &str,
    lease_ttl_seconds: Option<i64>,
    now_ms: i64,
    span_id: &str,
) -> (r: Result<(i64, Option<AttemptTraceContextRow>), ApiError>)
    requires
        old(repo).wf(),
        old(repo).can_heartbeat(lease_id@),
        heartbeat_ttl_ms(lease_ttl_seconds) <= i64::MAX,
        now_ms + heartbeat_ttl_ms(lease_ttl_seconds) <= i64::MAX,
    ensures
        final(repo).wf(),
        ({
            let i = old(repo).lease_pos(lease_id@);
            let expires = now_ms + heartbeat_ttl_ms(lease_ttl_seconds);
            &&& trimmed(worker_id@).len() == 0 ==> api_error_is(r, ApiErrorKind::BadRequest, "worker_id must not be empty"@)
            &&& trimmed(worker_id@).len() > 0 && i < 0 ==> api_error_is(r, ApiErrorKind::NotFound, "lease not found"@)
            &&& trimmed(worker_id@).len() > 0 && i >= 0 && old(repo).leases()[i].worker_id@ != worker_id@ ==> api_error_is(
                r,
                ApiErrorKind::Conflict,
                "lease ownership mismatch"@,
            ) && ownership_details(r->Err_0, old(repo).leases()[i].worker_id@, worker_id@)
            &&& r is Err ==> final(repo).leases() == old(repo).leases() && final(repo).attempts() == old(repo).attempts()
            &&& r is Ok <==> trimmed(worker_id@).len() > 0 && i >= 0 && old(repo).leases()[i].worker_id@ == worker_id@
            &&& (r matches Ok((e, _)) ==> e == expires && final(repo).leases() == old(repo).leases().update(
                i,
                renewed(old(repo).leases()[i], now_ms, e),
            ))
        }),
{
    validate_worker_id(worker_id)?;
    let lease = match repo.get_lease_by_id(lease_id) {
        Ok(Some(l)) => l,
        _ => {
            return Err(ApiError::not_found("lease not found"));
        },
    };
    if !crate::text::str_eq(lease.worker_id.as_str(), worker_id) {
        return Err(
            ApiError::conflict("lease ownership mismatch").with_detail("expected_worker_id", lease.worker_id.as_str()).with_detail(
                "actual_worker_id",
                worker_id,
            ),
        );
    }
    let ttl = match lease_ttl_seconds {
        Some(t) => t,
        None => 30,
    };
    let ttl = if ttl < 1 { 1 } else { ttl };
    let expires = now_ms + ttl * 1000;
    match repo.heartbeat_lease_with_version(lease_id, worker_id, lease.version, now_ms, expires) {
        Ok(()) => {},
        Err(e) => {
            return Err(ApiError::internal(e.message().as_str()));
        },
    }
    let ghost renewed_leases = repo.leases();
    let trace = match repo.advance_attempt_trace(lease.attempt_id.as_str(), span_id) {
        Ok(t) => t,
        Err(_) => None,
    };
    Ok((expires, trace))
}

/// A worker reports a step of an attempt at `now_ms` (see
/// [InMemoryRuntimeRepository::record_step_report]); the attempt's trace then moves one span
/// forward. Answers `reported` or `reported_idempotent`, and the trace; a dedupe token reused
/// with another payload is a conflict.
pub fn worker_report_step(
    repo: &mut InMemoryRuntimeRepository,
    worker_id: &str,
    attempt_id: &str,
    action_id: &str,
    status: &str,
    dedupe_token: &str,
    now_ms: i64,
    span_id: &str,
) -> (r: Result<(&'static str, Option<AttemptTraceContextRow>), ApiError>)
    requires
        old(repo).wf(),
    ensures
        final(repo).wf(),
        ({
            let fields_ok = trimmed(worker_id@).len() > 0 && trimmed(attempt_id@).len() > 0 && trimmed(action_id@).len() > 0
                && trimmed(status@).len() > 0 && trimmed(dedupe_token@).len() > 0;
            let p = report_pos(old(repo).step_reports(), attempt_id@, dedupe_token@);
            let dup = p >= 0 && old(repo).step_reports()[p].action_id@ == action_id@ && old(repo).step_reports()[p].status@ == status@;
            &&& trimmed(worker_id@).len() == 0 ==> api_error_is(r, ApiErrorKind::BadRequest, "worker_id must not be empty"@)
            &&& !fields_ok ==> (r matches Err(e) && e.kind == ApiErrorKind::BadRequest)
            &&& fields_ok && p < 0 ==> (r matches Ok((s, _)) && s@ == "reported"@) && final(repo).step_reports().len() == old(
                repo,
            ).step_reports().len() + 1 && final(repo).step_reports().drop_last() == old(repo).step_reports() && ({
                let row = final(repo).step_reports().last();
                &&& row.worker_id@ == worker_id@ && row.attempt_id@ == attempt_id@ && row.action_id@ == action_id@
                &&& row.status@ == status@ && row.dedupe_token@ == dedupe_token@ && row.created_at_ms == now_ms
            })
            &&& !(fields_ok && p < 0) ==> final(repo).step_reports() == old(repo).step_reports()
            &&& final(repo).leases() == old(repo).leases()
            &&& fields_ok && dup ==> (r matches Ok((s, _)) && s@ == "reported_idempotent"@)
            &&& fields_ok && p >= 0 && !dup ==> api_error_is(
                r,
                ApiErrorKind::Conflict,
                "driver error: "@ + token_conflict_message(dedupe_token@, attempt_id@),
            )
        }),
{
    validate_worker_id(worker_id)?;
    validate_step_report(attempt_id, action_id, status, dedupe_token)?;
    match repo.record_step_report(worker_id, attempt_id, action_id, status, dedupe_token, now_ms) {
        Ok(outcome) => {
            let trace = match repo.advance_attempt_trace(attempt_id, span_id) {
                Ok(t) => t,
                Err(_) => None,
            };
            Ok((report_response_status(outcome), trace))
        },
        Err(e) => {
            let msg = e.message();
            proof {
                reveal_strlit("dedupe_token");
                reveal_strlit("driver error: ");
                reveal_strlit("dedupe_token '");
                let m = msg@;
                let pat = "dedupe_token"@;
                assert(m.subrange(14, 14 + pat.len() as int) =~= pat);
                assert(contains_seq(m, pat));
            }
            if str_contains(msg.as_str(), "dedupe_token") {
                Err(ApiError::conflict(msg.as_str()))
            } else {
                Err(ApiError::internal(msg.as_str()))
            }
        },
    }
}

/// Acknowledging with these request fields is defined (see [InMemoryRuntimeRepository::ack_defined]).
pub open spec fn ack_request_defined(
    repo: InMemoryRuntimeRepository,
    attempt_id: Seq<char>,
    terminal_status: Seq<char>,
    retry_policy: Option<RetryPolicyInput>,
    exponential_raw_ms: i64,
    now_ms: i64,
) -> bool {
    let policy = match retry_policy {
        Some(p) => match retry_policy_check(p) {
            Ok(c) => Some(Some(c)),
            Err(_) => None,
        },
        None => Some(None),
    };
    match (terminal_status_of(terminal_status), policy) {
        (Some(s), Some(p)) => repo.ack_defined(attempt_id, s, p, exponential_raw_ms, now_ms),
        _ => true,
    }
}

/// What acknowledging answers: the status name, when a retry is due, and the attempt number.
#[derive(Debug)]
pub struct WorkerAckOutcome {
    pub status: &'static str,
    pub next_retry_at_ms: Option<i64>,
    pub next_attempt_no: u32,
    pub trace: Option<AttemptTraceContextRow>,
}

/// A worker acknowledges an attempt at `now_ms` with a terminal status and maybe a retry
/// policy (see [InMemoryRuntimeRepository::ack_attempt]); the attempt's trace then moves one
/// span forward. An error answers request `rid`.
pub fn worker_ack(
    repo: &mut InMemoryRuntimeRepository,
    worker_id: &str,
    attempt_id: &str,
    terminal_status: &str,
    retry_policy: Option<&RetryPolicyInput>,
    exponential_raw_ms: i64,
    now_ms: i64,
    span_id: &str,
    rid: &str,
) -> (r: Result<WorkerAckOutcome, ApiError>)
    requires
        old(repo).wf(),
        ack_request_defined(*old(repo), attempt_id@, terminal_status@, match retry_policy {
            Some(p) => Some(*p),
            None => None,
        }, exponential_raw_ms, now_ms),
    ensures
        final(repo).wf(),
        trimmed(worker_id@).len() == 0 ==> api_error_for(r, ApiErrorKind::BadRequest, "worker_id must not be empty"@, rid@),
        trimmed(worker_id@).len() > 0 && trimmed(attempt_id@).len() == 0 ==> api_error_for(
            r,
            ApiErrorKind::BadRequest,
            "attempt_id must not be empty"@,
            rid@,
        ),
        trimmed(worker_id@).len() > 0 && trimmed(attempt_id@).len() > 0 && (match retry_policy {
            Some(p) => retry_policy_check(*p) is Ok,
            None => true,
        }) && terminal_status_of(terminal_status@) is None ==> api_error_for(
            r,
            ApiErrorKind::BadRequest,
            "terminal_status must be one of: completed|failed|cancelled"@,
            rid@,
        ),
        trimmed(worker_id@).len() > 0 && trimmed(attempt_id@).len() > 0 ==> (retry_policy matches Some(p) && retry_policy_check(
            *p,
        ) is Err ==> api_error_for(r, ApiErrorKind::BadRequest, retry_policy_check(*retry_policy->0)->Err_0, rid@)),
        ({
            let valid = trimmed(worker_id@).len() > 0 && trimmed(attempt_id@).len() > 0 && (match retry_policy {
                Some(p) => retry_policy_check(*p) is Ok,
                None => true,
            }) && terminal_status_of(terminal_status@) is Some;
            let i = old(repo).attempt_pos(attempt_id@);
            &&& valid && i < 0 ==> api_error_for(
                r,
                ApiErrorKind::Internal,
                "driver error: "@ + ("attempt not found for ack: "@ + attempt_id@),
                rid@,
            )
            &&& r is Ok <==> valid && i >= 0
            &&& r is Ok ==> final(repo).leases() == crate::runtime::store::acks::leases_without(old(repo).leases(), attempt_id@)
            &&& r is Err ==> final(repo).leases() == old(repo).leases() && final(repo).attempts() == old(repo).attempts()
        }),
        (r matches Ok(o) ==> {
            let i = old(repo).attempt_pos(attempt_id@);
            let s = terminal_status_of(terminal_status@)->0;
            let p = match retry_policy {
                Some(p) => Some(retry_policy_check(*p)->Ok_0),
                None => None,
            };
            &&& i >= 0
            &&& terminal_status_of(terminal_status@) is Some
            &&& match crate::runtime::retry::ack_plan(s, old(repo).attempts()[i].attempt_no, effective_policy(p, old(repo).attempts()[i]), exponential_raw_ms, now_ms) {
                crate::runtime::retry::AckPlan::Retry { next_attempt_no, retry_at_ms, .. } => o.status@ == "retry_scheduled"@
                    && o.next_retry_at_ms == Some(retry_at_ms) && o.next_attempt_no == next_attempt_no,
                crate::runtime::retry::AckPlan::Terminal { attempt_no, .. } => o.status@ == ack_status_name(s) && o.next_retry_at_ms is None
                    && o.next_attempt_no == attempt_no,
            }
        }),
{
    match validate_worker_id(worker_id) {
        Ok(()) => {},
        Err(e) => {
            return Err(e.with_request_id(rid));
        },
    }
    if trimmed_is_empty(attempt_id) {
        return Err(ApiError::bad_request("attempt_id must not be empty").with_request_id(rid));
    }
    let policy = parse_retry_policy(retry_policy, rid)?;
    let status = match parse_terminal_status(terminal_status) {
        Ok(s) => s,
        Err(e) => {
            return Err(e.with_request_id(rid));
        },
    };
    let outcome = match repo.ack_attempt(attempt_id, status, policy, exponential_raw_ms, now_ms) {
        Ok(o) => o,
        Err(e) => {
            return Err(ApiError::internal(e.message().as_str()).with_request_id(rid));
        },
    };
    let trace = match repo.advance_attempt_trace(attempt_id, span_id) {
        Ok(t) => t,
        Err(_) => None,
    };
    Ok(
        WorkerAckOutcome {
            status: ack_response_status(outcome.status),
            next_retry_at_ms: outcome.next_retry_at_ms,
            next_attempt_no: outcome.next_attempt_no,
            trace,
        },
    )
}

fn trimmed_is_empty(s: &str) -> (r: bool)
    ensures
        r == (trimmed(s@).len() == 0),
{
    crate::text::trim(s).unicode_len() == 0
}

} // verus!
