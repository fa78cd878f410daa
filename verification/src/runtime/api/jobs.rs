//! Decisions of the job endpoints: admitting a run, idempotent repeats of a request, what a
//! finished run or resume records, replay guards, and a job's status and timeline. The
//! graph itself runs with the server, between these steps.
use crate::hashing::{sha256_hex, sha256_hex_of};
use crate::runtime::api::auth::opt_str;
use crate::runtime::api::errors::{api_error_for, api_error_is, ApiError, ApiErrorKind};
use crate::runtime::api::models::{JobHistoryItem, JobTimelineItem};
use crate::runtime::api::validate::{parse_priority, parse_tenant_id, tenant_check, validate_thread_id};
use crate::runtime::models::ReplayEffectClaim;
use crate::runtime::store::attempts::opt_view;
use crate::runtime::store::keyed::{find_key, key_pos, keys_unique, lemma_key_push, lemma_key_update, Keyed};
use crate::runtime::attempt::{AttemptExecutionStatus, TimeoutPolicyConfig};
use crate::runtime::api::trace::{TraceContextResponse, TraceContextState};
use crate::runtime::models::InterruptRow;
use crate::runtime::store::attempts::{is_terminal_timeout, normalized_tenant, opt_str_view};
use crate::runtime::store::keyed::lemma_key_pos;
use crate::runtime::store::records::{interrupt_in, interrupt_keys, interrupt_wanted, pending_interrupt};
use crate::runtime::store::ranked::newest_selection;
use crate::runtime::store::InMemoryRuntimeRepository;
use crate::spec::views;
use crate::text::{concat, contains_seq, str_contains, decimal, i64_to_string, lemma_decimal_injective, signed_decimal, str_eq, trimmed, u64_to_string};
use vstd::prelude::*;
use vstd::utf8::encode_utf8;

verus! {

/// Threads that were cancelled; runs, resumes and replays of them are refused.
pub struct CancelledThreads {
    threads: Vec<String>,
}

impl CancelledThreads {
    /// Whether `thread_id` was cancelled.
    pub closed spec fn has(&self, thread_id: Seq<char>) -> bool {
        views(self.threads@).contains(thread_id)
    }

    /// No thread cancelled.
    pub fn new() -> (r: Self)
        ensures
            forall|t: Seq<char>| !#[trigger] r.has(t),
    {
        CancelledThreads { threads: Vec::new() }
    }

    /// Whether `thread_id` was cancelled.
    pub fn contains(&self, thread_id: &str) -> (r: bool)
        ensures
            r == self.has(thread_id@),
    {
        let mut i: usize = 0;
        while i < self.threads.len()
            invariant
                i <= self.threads@.len(),
                forall|k: int| 0 <= k < i ==> #[trigger] views(self.threads@)[k] != thread_id@,
            decreases self.threads@.len() - i,
        {
            if str_eq(self.threads[i].as_str(), thread_id) {
                proof {
                    assert(views(self.threads@)[i as int] == thread_id@);
                }
                return true;
            }
            i = i + 1;
        }
        false
    }

    /// Marks `thread_id` cancelled.
    pub fn insert(&mut self, thread_id: &str)
        ensures
            forall|t: Seq<char>| #[trigger] final(self).has(t) <==> old(self).has(t) || t == thread_id@,
    {
        if !self.contains(thread_id) {
            self.threads.push(thread_id.to_owned());
            proof {
                let before = views(old(self).threads@);
                let after = views(self.threads@);
                assert(after =~= before.push(thread_id@));
                assert forall|t: Seq<char>| #[trigger] after.contains(t) <==> before.contains(t) || t == thread_id@ by {
                    if before.contains(t) {
                        let k = choose|k: int| 0 <= k < before.len() && before[k] == t;
                        assert(after[k] == t);
                    }
                    if t == thread_id@ {
                        assert(after[before.len() as int] == t);
                    }
                    if after.contains(t) {
                        let k = choose|k: int| 0 <= k < after.len() && after[k] == t;
                        if k < before.len() {
                            assert(before[k] == t);
                        }
                    }
                }
            }
        }
    }
}

/// Message of a refused request on a cancelled thread.
pub open spec fn cancelled_message(thread_id: Seq<char>) -> Seq<char> {
    "thread '"@ + thread_id + "' is cancelled"@
}

/// Refuses a cancelled thread with a conflict.
pub fn ensure_not_cancelled(cancelled: &CancelledThreads, thread_id: &str) -> (r: Result<(), ApiError>)
    ensures
        !cancelled.has(thread_id@) ==> r is Ok,
        cancelled.has(thread_id@) ==> api_error_is(r, ApiErrorKind::Conflict, cancelled_message(thread_id@)),
{
    if cancelled.contains(thread_id) {
        let a = concat("thread '", thread_id);
        let m = concat(a.as_str(), "' is cancelled");
        return Err(ApiError::conflict(m.as_str()));
    }
    Ok(())
}

/// Checks run request `rid` before the graph runs, in order: the thread id, that the thread is
/// not cancelled, the priority and the tenant. Hands back the priority and tenant to use; an
/// error answers `rid`.
pub fn admit_run(cancelled: &CancelledThreads, thread_id: &str, priority: Option<i32>, tenant_id: Option<&str>, rid: &str) -> (r: Result<
    (i32, Option<String>),
    ApiError,
>)
    ensures
        ({
            let p = match priority {
                Some(p) => p,
                None => 0i32,
            };
            let blank = trimmed(thread_id@).len() == 0;
            let refused = !blank && cancelled.has(thread_id@);
            let bad_priority = !blank && !refused && !(0 <= p <= 100);
            &&& blank ==> api_error_for(r, ApiErrorKind::BadRequest, "thread_id must not be empty"@, rid@)
            &&& refused ==> api_error_for(r, ApiErrorKind::Conflict, cancelled_message(thread_id@), rid@)
            &&& bad_priority ==> api_error_for(r, ApiErrorKind::BadRequest, "priority must be between 0 and 100"@, rid@)
            &&& !blank && !refused && !bad_priority ==> match tenant_check(opt_str(tenant_id)) {
                Ok(t) => r matches Ok((q, v)) && q == p && opt_view(v) == t,
                Err(m) => api_error_for(r, ApiErrorKind::BadRequest, m, rid@),
            }
        }),
{
    match validate_thread_id(thread_id) {
        Ok(()) => {},
        Err(e) => {
            return Err(e.with_request_id(rid));
        },
    }
    match ensure_not_cancelled(cancelled, thread_id) {
        Ok(()) => {},
        Err(e) => {
            return Err(e.with_request_id(rid));
        },
    }
    let p = parse_priority(priority, rid)?;
    let t = parse_tenant_id(tenant_id, rid)?;
    Ok((p, t))
}

/// Status of a run once the graph returned: `interrupted` when it raised interrupts.
pub fn run_status(interrupt_count: usize) -> (r: &'static str)
    ensures
        r@ == if interrupt_count == 0 { "completed"@ } else { "interrupted"@ },
{
    if interrupt_count == 0 {
        "completed"
    } else {
        "interrupted"
    }
}

/// The answer to a run, resume or replay of a thread.
pub struct RunJobResponse {
    pub thread_id: String,
    pub status: String,
    pub interrupts: Vec<serde_json::Value>,
    pub idempotency_key: Option<String>,
    pub idempotent_replay: bool,
    pub trace: Option<TraceContextResponse>,
}

/// The answer to a run of `thread_id` whose graph run raised `interrupts`, in order: status
/// `completed` without interrupts, else `interrupted`; the request's idempotency key and trace;
/// not a replay.
pub fn run_job_response(
    thread_id: &str,
    interrupts: Vec<serde_json::Value>,
    idempotency_key: Option<String>,
    trace: Option<TraceContextResponse>,
) -> (r: RunJobResponse)
    ensures
        r.thread_id@ == thread_id@,
        r.status@ == (if interrupts@.len() == 0 { "completed"@ } else { "interrupted"@ }),
        r.interrupts@ == interrupts@,
        r.idempotency_key == idempotency_key,
        !r.idempotent_replay,
        r.trace == trace,
{
    let status = run_status(interrupts.len());
    RunJobResponse {
        thread_id: thread_id.to_owned(),
        status: status.to_owned(),
        interrupts,
        idempotency_key,
        idempotent_replay: false,
        trace,
    }
}

/// A stored answer given again: the same answer, marked as a replay.
pub fn replayed_response(stored: RunJobResponse) -> (r: RunJobResponse)
    ensures
        r.idempotent_replay,
        r.thread_id == stored.thread_id,
        r.status == stored.status,
        r.interrupts == stored.interrupts,
        r.idempotency_key == stored.idempotency_key,
        r.trace == stored.trace,
{
    RunJobResponse { idempotent_replay: true, ..stored }
}

/// What identifies a run request for idempotency: thread, input, timeout policy (as JSON),
/// priority and tenant, separated by `|`.
pub open spec fn run_payload_text(
    thread_id: Seq<char>,
    input: Seq<char>,
    timeout_policy_json: Option<Seq<char>>,
    priority: i32,
    tenant_id: Option<Seq<char>>,
) -> Seq<char> {
    thread_id + "|"@ + input + "|"@ + (match timeout_policy_json {
        Some(j) => j,
        None => Seq::empty(),
    }) + "|"@ + signed_decimal(priority as int) + "|"@ + (match tenant_id {
        Some(t) => t,
        None => Seq::empty(),
    })
}

/// Fingerprint of a run request: SHA-256 of [run_payload_text] in lowercase hexadecimal.
pub fn payload_hash(
    thread_id: &str,
    input: &str,
    timeout_policy_json: Option<&str>,
    priority: i32,
    tenant_id: Option<&str>,
) -> (r: String)
    ensures
        r@ == sha256_hex_of(encode_utf8(run_payload_text(thread_id@, input@, opt_str(timeout_policy_json), priority, opt_str(tenant_id)))),
{
    let a = concat(thread_id, "|");
    let b = concat(a.as_str(), input);
    let c = concat(b.as_str(), "|");
    let d = match timeout_policy_json {
        Some(j) => concat(c.as_str(), j),
        None => c,
    };
    let e = concat(d.as_str(), "|");
    let digits = i64_to_string(priority as i64);
    let f = concat(e.as_str(), digits.as_str());
    let g = concat(f.as_str(), "|");
    let h = match tenant_id {
        Some(t) => concat(g.as_str(), t),
        None => g,
    };
    proof {
        reveal_strlit("|");
        assert(h@ =~= run_payload_text(thread_id@, input@, opt_str(timeout_policy_json), priority, opt_str(tenant_id)));
    }
    sha256_hex(h.as_str())
}

/// Fingerprint of a JSON value as sent: SHA-256 of its text in lowercase hexadecimal.
pub fn json_hash(json: &str) -> (r: String)
    ensures
        r@ == sha256_hex_of(encode_utf8(json@)),
{
    sha256_hex(json)
}

/// A stored answer to an idempotent request.
#[derive(Debug)]
pub struct IdempotencyRecord {
    pub operation: String,
    pub thread_id: String,
    pub payload_hash: String,
    pub response_json: String,
}

impl Clone for IdempotencyRecord {
    fn clone(&self) -> (r: Self)
        ensures
            r == *self,
    {
        IdempotencyRecord {
            operation: self.operation.clone(),
            thread_id: self.thread_id.clone(),
            payload_hash: self.payload_hash.clone(),
            response_json: self.response_json.clone(),
        }
    }
}

impl Keyed for (String, IdempotencyRecord) {
    open spec fn key(&self) -> Seq<char> {
        self.0@
    }

    fn key_str(&self) -> (r: &str) {
        self.0.as_str()
    }
}

/// Stored answers by idempotency key.
pub struct IdempotencyStore {
    entries: Vec<(String, IdempotencyRecord)>,
}

impl IdempotencyStore {
    /// The answer stored under `key`, if any.
    pub closed spec fn stored(&self, key: Seq<char>) -> Option<IdempotencyRecord> {
        let p = key_pos(self.entries@, key);
        if p >= 0 { Some(self.entries@[p].1) } else { None }
    }

    /// Keys are unique.
    pub closed spec fn wf(&self) -> bool {
        keys_unique(self.entries@)
    }

    /// No answer stored.
    pub fn new() -> (r: Self)
        ensures
            r.wf(),
            forall|k: Seq<char>| #[trigger] r.stored(k) is None,
    {
        IdempotencyStore { entries: Vec::new() }
    }

    /// The answer stored under `key`, if any.
    pub fn get(&self, key: &str) -> (r: Option<IdempotencyRecord>)
        requires
            self.wf(),
        ensures
            r == self.stored(key@),
    {
        match find_key(&self.entries, key) {
            Some(p) => Some(self.entries[p].1.clone()),
            None => None,
        }
    }

    /// Stores `record` under `key`, replacing an earlier answer; other keys are untouched.
    pub fn put(&mut self, key: &str, record: IdempotencyRecord)
        requires
            old(self).wf(),
        ensures
            final(self).wf(),
            final(self).stored(key@) == Some(record),
            forall|k: Seq<char>| k != key@ ==> #[trigger] final(self).stored(k) == old(self).stored(k),
    {
        let entry = (key.to_owned(), record);
        match find_key(&self.entries, key) {
            Some(p) => {
                proof {
                    lemma_key_update(self.entries@, p as int, entry);
                }
                self.entries.set(p, entry);
            },
            None => {
                proof {
                    lemma_key_push(self.entries@, entry);
                }
                self.entries.push(entry);
            },
        }
    }
}

/// What a request under a known idempotency key leads to.
#[derive(Clone, Debug, PartialEq, Eq)]
pub enum IdempotencyDecision {
    /// Nothing stored: run the request.
    Fresh,
    /// The same request ran before: answer its stored response again.
    Replay(String),
}

/// `r` is the conflict of an idempotency key reused for another request.
pub open spec fn idempotency_conflict(r: Result<IdempotencyDecision, ApiError>, key: Seq<char>, operation: Seq<char>) -> bool {
    &&& api_error_is(r, ApiErrorKind::Conflict, "idempotency_key already exists with different request payload"@)
    &&& r matches Err(e) && e.details@.len() == 2 && e.details@[0].0@ == "idempotency_key"@ && e.details@[0].1@ == key
        && e.details@[1].0@ == "operation"@ && e.details@[1].1@ == operation
}

/// Decides a run request that carries idempotency key `key`, given what is stored under it:
/// a blank key is refused; a stored run of the same thread and payload is answered again; a
/// stored answer to anything else is a conflict.
pub fn check_idempotency(key: &str, existing: Option<&IdempotencyRecord>, thread_id: &str, payload_hash: &str) -> (r: Result<
    IdempotencyDecision,
    ApiError,
>)
    ensures
        trimmed(key@).len() == 0 ==> api_error_is(r, ApiErrorKind::BadRequest, "idempotency_key must not be empty"@),
        trimmed(key@).len() > 0 && existing is None ==> r == Ok::<IdempotencyDecision, ApiError>(IdempotencyDecision::Fresh),
        trimmed(key@).len() > 0 && existing is Some ==> ({
            let rec = existing->0;
            if rec.operation@ == "run"@ && rec.thread_id@ == thread_id@ && rec.payload_hash@ == payload_hash@ {
                r matches Ok(IdempotencyDecision::Replay(s)) && s@ == rec.response_json@
            } else {
                idempotency_conflict(r, key@, rec.operation@)
            }
        }),
{
    if crate::text::trim(key).unicode_len() == 0 {
        return Err(ApiError::bad_request("idempotency_key must not be empty"));
    }
    match existing {
        None => Ok(IdempotencyDecision::Fresh),
        Some(rec) => {
            if str_eq(rec.operation.as_str(), "run") && str_eq(rec.thread_id.as_str(), thread_id) && str_eq(
                rec.payload_hash.as_str(),
                payload_hash,
            ) {
                Ok(IdempotencyDecision::Replay(rec.response_json.clone()))
            } else {
                let e0 = ApiError::conflict("idempotency_key already exists with different request payload");
                let e1 = e0.with_detail("idempotency_key", key);
                let e2 = e1.with_detail("operation", rec.operation.as_str());
                proof {
                    reveal_strlit("idempotency_key");
                    reveal_strlit("operation");
                    assert(e2.details@[0] == e1.details@[0]);
                }
                Err(e2)
            }
        },
    }
}

/// Scheduling options (a timeout policy, a priority other than 0, a tenant) need the runtime
/// repository.
pub fn check_scheduling_options(has_timeout_policy: bool, priority: i32, has_tenant: bool, repository_configured: bool) -> (r:
    Result<(), ApiError>)
    ensures
        (has_timeout_policy || priority != 0 || has_tenant) && !repository_configured ==> api_error_is(
            r,
            ApiErrorKind::Internal,
            "runtime scheduling options require runtime repository"@,
        ),
        !((has_timeout_policy || priority != 0 || has_tenant) && !repository_configured) ==> r is Ok,
{
    if (has_timeout_policy || priority != 0 || has_tenant) && !repository_configured {
        return Err(ApiError::internal("runtime scheduling options require runtime repository"));
    }
    Ok(())
}

/// Fingerprint of replaying `replay_target` of a thread.
pub open spec fn replay_fingerprint_text(thread_id: Seq<char>, replay_target: Seq<char>) -> Seq<char> {
    thread_id + "|"@ + replay_target + "|job_replay_effect"@
}

/// Fingerprint of a replay side effect: SHA-256 of [replay_fingerprint_text] in lowercase
/// hexadecimal.
pub fn replay_effect_fingerprint(thread_id: &str, replay_target: &str) -> (r: String)
    ensures
        r@ == sha256_hex_of(encode_utf8(replay_fingerprint_text(thread_id@, replay_target@))),
{
    let a = concat(thread_id, "|");
    let b = concat(a.as_str(), replay_target);
    let c = concat(b.as_str(), "|job_replay_effect");
    sha256_hex(c.as_str())
}

/// What a replay is guarded by: the checkpoint it starts from, else the thread's latest
/// state (the SHA-256 of its JSON), else nothing.
pub open spec fn replay_target_of(checkpoint_id: Option<Seq<char>>, latest_state_json: Option<Seq<char>>) -> Option<Seq<char>> {
    match checkpoint_id {
        Some(c) => Some("checkpoint:"@ + c),
        None => match latest_state_json {
            Some(j) => Some("latest_state:"@ + sha256_hex_of(encode_utf8(j))),
            None => None,
        },
    }
}

/// The target guarding a replay (see [replay_target_of]).
pub fn replay_target(checkpoint_id: Option<&str>, latest_state_json: Option<&str>) -> (r: Option<String>)
    ensures
        opt_view(r) == replay_target_of(opt_str(checkpoint_id), opt_str(latest_state_json)),
{
    match checkpoint_id {
        Some(c) => Some(concat("checkpoint:", c)),
        None => match latest_state_json {
            Some(j) => {
                let h = sha256_hex(j);
                Some(concat("latest_state:", h.as_str()))
            },
            None => None,
        },
    }
}

/// How a replay goes ahead.
#[derive(Clone, Debug, PartialEq, Eq)]
pub enum ReplayGuard {
    /// No target to guard: replay without a guard.
    Unguarded,
    /// This replay claimed the side effect with this fingerprint and must complete or abandon it.
    Claimed(String),
    /// The replay already ran: answer its stored response.
    Stored(String),
}

/// Claims the side effect of replaying `replay_target` of a thread at `now_ms` (see
/// [InMemoryRuntimeRepository::claim_replay_effect]); a replay in progress is a conflict.
pub fn begin_replay(repo: &mut InMemoryRuntimeRepository, thread_id: &str, replay_target: Option<&str>, now_ms: i64) -> (r:
    Result<ReplayGuard, ApiError>)
    requires
        old(repo).wf(),
    ensures
        final(repo).wf(),
        final(repo).same_records(old(repo)),
        final(repo).same_scheduling(old(repo)),
        final(repo).step_reports() == old(repo).step_reports(),
        replay_target is None ==> r == Ok::<ReplayGuard, ApiError>(ReplayGuard::Unguarded) && final(repo).replay_effects()
            == old(repo).replay_effects(),
        replay_target matches Some(t) ==> {
            let fp = sha256_hex_of(encode_utf8(replay_fingerprint_text(thread_id@, t@)));
            match old(repo).effect_of(fp) {
                None => (r matches Ok(ReplayGuard::Claimed(f)) && f@ == fp),
                Some(e) => {
                    &&& e.status@ == "completed"@ && e.response_json is Some ==> (r matches Ok(ReplayGuard::Stored(s))
                        && s@ == e.response_json->0@)
                    &&& e.status@ == "completed"@ && e.response_json is None ==> api_error_is(
                        r,
                        ApiErrorKind::Internal,
                        "replay effect guard failed: "@ + "driver error: "@ + "missing stored replay response"@,
                    )
                    &&& e.status@ != "completed"@ ==> api_error_is(
                        r,
                        ApiErrorKind::Conflict,
                        "replay already in progress for this target"@,
                    )
                },
            }
        },
{
    let target = match replay_target {
        Some(t) => t,
        None => {
            return Ok(ReplayGuard::Unguarded);
        },
    };
    let fingerprint = replay_effect_fingerprint(thread_id, target);
    match repo.claim_replay_effect(thread_id, target, fingerprint.as_str(), now_ms) {
        Ok(ReplayEffectClaim::Acquired) => Ok(ReplayGuard::Claimed(fingerprint)),
        Ok(ReplayEffectClaim::InProgress) => Err(ApiError::conflict("replay already in progress for this target")),
        Ok(ReplayEffectClaim::Completed(response_json)) => Ok(ReplayGuard::Stored(response_json)),
        Err(e) => {
            let msg = e.message();
            let m = concat("replay effect guard failed: ", msg.as_str());
            proof {
                match e {
                    crate::kernel::event::KernelError::Driver(x) => {
                        assert(m@ =~= "replay effect guard failed: "@ + "driver error: "@ + x@);
                    },
                    _ => {},
                }
            }
            Err(ApiError::internal(m.as_str()))
        },
    }
}

/// Status a job's detail reports: `cancelled` for a cancelled thread, else `running`.
pub fn job_status(cancelled: &CancelledThreads, thread_id: &str) -> (r: &'static str)
    ensures
        r@ == if cancelled.has(thread_id@) { "cancelled"@ } else { "running"@ },
{
    if cancelled.contains(thread_id) {
        "cancelled"
    } else {
        "running"
    }
}

/// A job's timeline from its checkpoint history (checkpoint id, creation time), oldest
/// first: one `checkpoint_saved` event per checkpoint, numbered from 1.
pub fn timeline_items(history: &Vec<(Option<String>, String)>) -> (r: Vec<JobTimelineItem>)
    requires
        history@.len() < u64::MAX,
    ensures
        r@.len() == history@.len(),
        forall|i: int|
            0 <= i < r@.len() ==> {
                &&& (#[trigger] r@[i]).seq == i + 1
                &&& r@[i].event_type@ == "checkpoint_saved"@
                &&& opt_view(r@[i].checkpoint_id) == opt_view(history@[i].0)
                &&& r@[i].created_at@ == history@[i].1@
            },
{
    let mut out: Vec<JobTimelineItem> = Vec::new();
    let mut i: usize = 0;
    while i < history.len()
        invariant
            i <= history@.len(),
            history@.len() < u64::MAX,
            out@.len() == i,
            forall|k: int|
                0 <= k < i ==> {
                    &&& (#[trigger] out@[k]).seq == k + 1
                    &&& out@[k].event_type@ == "checkpoint_saved"@
                    &&& opt_view(out@[k].checkpoint_id) == opt_view(history@[k].0)
                    &&& out@[k].created_at@ == history@[k].1@
                },
        decreases history@.len() - i,
    {
        let checkpoint_id = match &history[i].0 {
            Some(c) => Some(c.clone()),
            None => None,
        };
        out.push(
            JobTimelineItem {
                seq: (i as u64) + 1,
                event_type: "checkpoint_saved".to_owned(),
                checkpoint_id,
                created_at: history[i].1.clone(),
            },
        );
        i = i + 1;
    }
    out
}

/// Id of the `i`-th interrupt a run of a thread raised: `int-<thread>-<i>`.
pub open spec fn interrupt_id_of(thread_id: Seq<char>, i: int) -> Seq<char> {
    "int-"@ + thread_id + "-"@ + decimal(i as nat)
}

/// Attempt that interrupts raised by runs of a thread belong to: `attempt-<thread>-main`.
pub open spec fn main_attempt_of(thread_id: Seq<char>) -> Seq<char> {
    "attempt-"@ + thread_id + "-main"@
}

/// Attempt scheduled for a run of a thread: `attempt-<thread>-<suffix>`.
pub open spec fn run_attempt_of(thread_id: Seq<char>, suffix: Seq<char>) -> Seq<char> {
    "attempt-"@ + thread_id + "-"@ + suffix
}

/// Interrupt ids of one thread differ for different numbers.
pub proof fn lemma_interrupt_ids_distinct(thread_id: Seq<char>, i: int, j: int)
    requires
        0 <= i,
        0 <= j,
        interrupt_id_of(thread_id, i) == interrupt_id_of(thread_id, j),
    ensures
        i == j,
{
    let p = "int-"@ + thread_id + "-"@;
    let a = interrupt_id_of(thread_id, i);
    let b = interrupt_id_of(thread_id, j);
    assert(a.subrange(p.len() as int, a.len() as int) =~= decimal(i as nat));
    assert(b.subrange(p.len() as int, b.len() as int) =~= decimal(j as nat));
    lemma_decimal_injective(i as nat, j as nat);
}

/// `fin` holds what recording the interrupts `values` of a thread leaves from `start`: every
/// interrupt id is present, those that were new are pending with their value, and no other
/// interrupt changed.
pub open spec fn interrupts_recorded(
    start: Seq<InterruptRow>,
    fin: Seq<InterruptRow>,
    thread_id: Seq<char>,
    values: Seq<Seq<char>>,
    now_ms: i64,
) -> bool {
    &&& forall|i: int| 0 <= i < values.len() ==> #[trigger] interrupt_in(fin, interrupt_id_of(thread_id, i)) is Some
    &&& forall|i: int|
        0 <= i < values.len() && interrupt_in(start, interrupt_id_of(thread_id, i)) is None ==> pending_interrupt(
            #[trigger] interrupt_in(fin, interrupt_id_of(thread_id, i))->0,
            interrupt_id_of(thread_id, i),
            thread_id,
            thread_id,
            main_attempt_of(thread_id),
            values[i],
            now_ms,
        )
    &&& forall|k: Seq<char>| interrupt_in(start, k) is Some ==> #[trigger] interrupt_in(fin, k) == interrupt_in(start, k)
    &&& forall|k: Seq<char>|
        (forall|i: int| 0 <= i < values.len() ==> k != #[trigger] interrupt_id_of(thread_id, i)) ==> #[trigger] interrupt_in(
            fin,
            k,
        ) == interrupt_in(start, k)
}

/// Records the interrupts a run of a thread raised at `now_ms`, each as pending interrupt
/// `int-<thread>-<i>` of run `<thread>` and attempt `attempt-<thread>-main`; an id already
/// recorded is left as it is.
pub fn record_interrupts(repo: &mut InMemoryRuntimeRepository, thread_id: &str, values: &Vec<String>, now_ms: i64)
    requires
        old(repo).wf(),
    ensures
        final(repo).wf(),
        final(repo).same_but_interrupts(old(repo)),
        interrupts_recorded(old(repo).interrupts(), final(repo).interrupts(), thread_id@, views(values@), now_ms),
{
    let ghost start = *repo;
    let attempt_id = concat(concat("attempt-", thread_id).as_str(), "-main");
    let prefix = concat(concat("int-", thread_id).as_str(), "-");
    proof {
        assert(attempt_id@ =~= main_attempt_of(thread_id@));
    }
    let mut i: usize = 0;
    while i < values.len()
        invariant
            repo.wf(),
            repo.same_but_interrupts(&start),
            start.wf(),
            attempt_id@ == main_attempt_of(thread_id@),
            prefix@ == "int-"@ + thread_id@ + "-"@,
            i <= values@.len(),
            interrupts_recorded(start.interrupts(), repo.interrupts(), thread_id@, views(values@).take(i as int), now_ms),
        decreases values@.len() - i,
    {
        let digits = u64_to_string(i as u64);
        let id = concat(prefix.as_str(), digits.as_str());
        let ghost before = *repo;
        let ghost vs = views(values@);
        proof {
            assert(id@ =~= interrupt_id_of(thread_id@, i as int));
        }
        let _ = repo.insert_interrupt(id.as_str(), thread_id, thread_id, attempt_id.as_str(), values[i].as_str(), now_ms);
        proof {
            let ghost after = *repo;
            let vi = vs.take(i as int);
            let vn = vs.take(i + 1);
            assert forall|k: Seq<char>| k != id@ implies #[trigger] interrupt_in(after.interrupts(), k) == interrupt_in(before.interrupts(), k) by {
                if interrupt_in(before.interrupts(), id@) is None {
                    lemma_key_push(before.interrupts(), after.interrupts().last());
                    assert(after.interrupts() =~= before.interrupts().push(after.interrupts().last()));
                }
            }
            if interrupt_in(before.interrupts(), id@) is None {
                lemma_key_push(before.interrupts(), after.interrupts().last());
                assert(after.interrupts() =~= before.interrupts().push(after.interrupts().last()));
            }
            assert forall|j: int| 0 <= j < vn.len() implies #[trigger] interrupt_in(after.interrupts(), interrupt_id_of(thread_id@, j)) is Some by {
                if j < i {
                    assert(vi.len() == i);
                    assert(interrupt_in(before.interrupts(), interrupt_id_of(thread_id@, j)) is Some);
                }
            }
            assert forall|j: int|
                0 <= j < vn.len() && interrupt_in(start.interrupts(), interrupt_id_of(thread_id@, j)) is None implies pending_interrupt(
                #[trigger] interrupt_in(after.interrupts(), interrupt_id_of(thread_id@, j))->0,
                interrupt_id_of(thread_id@, j),
                thread_id@,
                thread_id@,
                main_attempt_of(thread_id@),
                vn[j],
                now_ms,
            ) by {
                if j < i {
                    assert(vi[j] == vn[j]);
                    if interrupt_id_of(thread_id@, j) == id@ {
                        lemma_interrupt_ids_distinct(thread_id@, j, i as int);
                    }
                } else {
                    assert forall|m: int| 0 <= m < vi.len() implies id@ != #[trigger] interrupt_id_of(thread_id@, m) by {
                        if id@ == interrupt_id_of(thread_id@, m) {
                            lemma_interrupt_ids_distinct(thread_id@, m, i as int);
                        }
                    }
                    assert(interrupt_in(before.interrupts(), id@) == interrupt_in(start.interrupts(), id@));
                    assert(vn[j] == values@[j as int]@);
                }
            }
            assert forall|k: Seq<char>| interrupt_in(start.interrupts(), k) is Some implies #[trigger] interrupt_in(after.interrupts(), k) == interrupt_in(start.interrupts(), k) by {
                assert(interrupt_in(before.interrupts(), k) == interrupt_in(start.interrupts(), k));
            }
            assert forall|k: Seq<char>|
                (forall|m: int| 0 <= m < vn.len() ==> k != #[trigger] interrupt_id_of(thread_id@, m)) implies #[trigger] interrupt_in(after.interrupts(), k)
                == interrupt_in(start.interrupts(), k) by {
                assert(k != interrupt_id_of(thread_id@, i as int));
                assert forall|m: int| 0 <= m < vi.len() implies k != #[trigger] interrupt_id_of(thread_id@, m) by {
                    assert(k != interrupt_id_of(thread_id@, m));
                }
            }
        }
        i = i + 1;
    }
    proof {
        assert(views(values@).take(values@.len() as int) =~= views(values@));
    }
}

/// `row` is the attempt a run scheduled: queued, numbered 1, of the run's thread, with the
/// run's priority, tenant (trimmed), trace context, and timeout policy when it is valid.
pub open spec fn scheduled_attempt(
    row: crate::runtime::models::AttemptRow,
    attempt_id: Seq<char>,
    run_id: Seq<char>,
    priority: i32,
    tenant_id: Option<Seq<char>>,
    trace: TraceContextState,
    timeout: Option<TimeoutPolicyConfig>,
) -> bool {
    &&& row.attempt_id@ == attempt_id
    &&& row.run_id@ == run_id
    &&& row.attempt_no == 1
    &&& row.status == AttemptExecutionStatus::Queued
    &&& row.retry_at_ms is None
    &&& row.started_at_ms is None
    &&& row.retry_policy is None
    &&& row.priority == priority
    &&& opt_view(row.tenant_id) == normalized_tenant(tenant_id)
    &&& row.trace matches Some(c) && c.trace_id@ == trace.trace_id@ && opt_view(c.parent_span_id) == opt_view(trace.parent_span_id)
        && c.span_id@ == trace.span_id@ && c.trace_flags@ == trace.trace_flags@
    &&& row.timeout == match timeout {
        Some(p) => if p.timeout_ms > 0 && is_terminal_timeout(p.on_timeout_status) {
            Some(p)
        } else {
            None
        },
        None => None,
    }
}

/// `row` is `base` with the run's priority, tenant (trimmed), trace context, and timeout
/// policy when it is valid; its other fields are those of `base`.
pub open spec fn configured_attempt(
    row: crate::runtime::models::AttemptRow,
    base: crate::runtime::models::AttemptRow,
    priority: i32,
    tenant_id: Option<Seq<char>>,
    trace: TraceContextState,
    timeout: Option<TimeoutPolicyConfig>,
) -> bool {
    &&& row == (crate::runtime::models::AttemptRow {
        priority,
        tenant_id: row.tenant_id,
        trace: row.trace,
        timeout: row.timeout,
        ..base
    })
    &&& opt_view(row.tenant_id) == normalized_tenant(tenant_id)
    &&& row.trace matches Some(c) && c.trace_id@ == trace.trace_id@ && opt_view(c.parent_span_id) == opt_view(trace.parent_span_id)
        && c.span_id@ == trace.span_id@ && c.trace_flags@ == trace.trace_flags@
    &&& row.timeout == match timeout {
        Some(p) => if p.timeout_ms > 0 && is_terminal_timeout(p.on_timeout_status) {
            Some(p)
        } else {
            base.timeout
        },
        None => base.timeout,
    }
}

/// What a finished run records at `now_ms`: the job's status; a queued attempt
/// `attempt-<thread>-<attempt_suffix>` with the run's priority, tenant, trace context and
/// timeout policy (see [scheduled_attempt]); and the interrupts the run raised (see
/// [record_interrupts]). Steps the repository refuses are skipped, as the server does.
pub fn record_run(
    repo: &mut InMemoryRuntimeRepository,
    thread_id: &str,
    status: &str,
    interrupt_values: &Vec<String>,
    priority: i32,
    tenant_id: Option<&str>,
    trace: &TraceContextState,
    timeout_policy: Option<&TimeoutPolicyConfig>,
    attempt_suffix: &str,
    now_ms: i64,
) -> (attempt_id: String)
    requires
        old(repo).wf(),
    ensures
        final(repo).wf(),
        attempt_id@ == run_attempt_of(thread_id@, attempt_suffix@),
        final(repo).job_of(thread_id@) matches Some(j) && j.status@ == status@ && j.updated_at_ms == now_ms,
        final(repo).attempt_pos(attempt_id@) >= 0,
        old(repo).attempt_pos(attempt_id@) < 0 ==> scheduled_attempt(
            final(repo).attempts()[final(repo).attempt_pos(attempt_id@)],
            attempt_id@,
            thread_id@,
            priority,
            opt_str_view(tenant_id),
            *trace,
            match timeout_policy {
                Some(p) => Some(*p),
                None => None,
            },
        ),
        ({
            let p = old(repo).attempt_pos(attempt_id@);
            &&& p >= 0 ==> final(repo).attempt_pos(attempt_id@) == p && configured_attempt(
                final(repo).attempts()[p],
                old(repo).attempts()[p],
                priority,
                opt_str_view(tenant_id),
                *trace,
                match timeout_policy {
                    Some(t) => Some(*t),
                    None => None,
                },
            )
            &&& final(repo).attempts().len() == old(repo).attempts().len() + if p < 0 { 1int } else { 0int }
            &&& forall|j: int| 0 <= j < old(repo).attempts().len() && j != p ==> #[trigger] final(repo).attempts()[j] == old(repo).attempts()[j]
        }),
        old(repo).job_of(thread_id@) matches Some(o) ==> final(repo).job_of(thread_id@)->0.created_at_ms == o.created_at_ms,
        old(repo).job_of(thread_id@) is None ==> final(repo).job_of(thread_id@)->0.created_at_ms == now_ms,
        forall|t: Seq<char>| t != thread_id@ ==> #[trigger] final(repo).job_of(t) == old(repo).job_of(t),
        interrupts_recorded(old(repo).interrupts(), final(repo).interrupts(), thread_id@, views(interrupt_values@), now_ms),
        final(repo).leases() == old(repo).leases(),
        final(repo).retry_history() == old(repo).retry_history(),
        final(repo).dead_letters() == old(repo).dead_letters(),
        final(repo).replay_effects() == old(repo).replay_effects(),
        final(repo).step_reports() == old(repo).step_reports(),
        final(repo).api_keys() == old(repo).api_keys(),
        final(repo).audit_logs() == old(repo).audit_logs(),
{
    let ghost s0 = *repo;
    let _ = repo.upsert_job(thread_id, status, now_ms);
    let ghost s1 = *repo;
    proof {
        let jp = key_pos(s0.jobs(), thread_id@);
        if jp >= 0 {
            lemma_key_update(s0.jobs(), jp, s1.jobs()[jp]);
            assert(s1.jobs() =~= s0.jobs().update(jp, s1.jobs()[jp]));
        } else {
            lemma_key_push(s0.jobs(), s1.jobs().last());
            assert(s1.jobs() =~= s0.jobs().push(s1.jobs().last()));
        }
        assert forall|t: Seq<char>| t != thread_id@ implies #[trigger] s1.job_of(t) == s0.job_of(t) by {}
    }
    let a = concat("attempt-", thread_id);
    let b = concat(a.as_str(), "-");
    let attempt_id = concat(b.as_str(), attempt_suffix);
    let _ = repo.enqueue_attempt(attempt_id.as_str(), thread_id);
    let ghost s2 = *repo;
    let ghost i = s2.attempt_pos(attempt_id@);
    let ghost fresh = s0.attempt_pos(attempt_id@) < 0;
    proof {
        if fresh {
            lemma_key_pos(s2.attempts(), s1.attempts().len() as int);
        } else {
            lemma_key_pos(s1.attempts(), s0.attempt_pos(attempt_id@));
        }
        assert(0 <= i < s2.attempts().len());
    }
    let _ = repo.set_attempt_priority(attempt_id.as_str(), priority);
    let ghost s3 = *repo;
    proof {
        lemma_key_update(s2.attempts(), i, s3.attempts()[i]);
    }
    let _ = repo.set_attempt_tenant_id(attempt_id.as_str(), tenant_id);
    let ghost s4 = *repo;
    proof {
        assert(s4.attempts() =~= s3.attempts().update(i, s4.attempts()[i]));
        lemma_key_update(s3.attempts(), i, s4.attempts()[i]);
    }
    let parent = match &trace.parent_span_id {
        Some(p) => Some(p.as_str()),
        None => None,
    };
    let _ = repo.set_attempt_trace_context(
        attempt_id.as_str(),
        trace.trace_id.as_str(),
        parent,
        trace.span_id.as_str(),
        trace.trace_flags.as_str(),
    );
    let ghost s5 = *repo;
    proof {
        assert(s5.attempts() =~= s4.attempts().update(i, s5.attempts()[i]));
        lemma_key_update(s4.attempts(), i, s5.attempts()[i]);
    }
    match timeout_policy {
        Some(p) => {
            let _ = repo.set_attempt_timeout_policy(attempt_id.as_str(), p);
        },
        None => {},
    }
    let ghost s6 = *repo;
    proof {
        if s6.attempts() != s5.attempts() {
            assert(s6.attempts() =~= s5.attempts().update(i, s6.attempts()[i]));
            lemma_key_update(s5.attempts(), i, s6.attempts()[i]);
        }
        assert(s6.attempt_pos(attempt_id@) == i);
        assert(s6.interrupts() == s0.interrupts());
    }
    record_interrupts(repo, thread_id, interrupt_values, now_ms);
    proof {
        assert forall|k: Seq<char>| #[trigger] s6.interrupt_of(k) == s0.interrupt_of(k) by {}
    }
    attempt_id
}

/// `fin` is `start` with the interrupts at positions `idx` marked `resumed`.
pub open spec fn marked_resumed(start: Seq<InterruptRow>, fin: Seq<InterruptRow>, idx: Seq<int>) -> bool {
    &&& fin.len() == start.len()
    &&& forall|p: int| 0 <= p < start.len() && !idx.contains(p) ==> #[trigger] fin[p] == start[p]
    &&& forall|p: int|
        0 <= p < start.len() && idx.contains(p) ==> (#[trigger] fin[p]).status@ == "resumed"@ && fin[p] == (InterruptRow {
            status: fin[p].status,
            ..start[p]
        })
}

/// What a finished resume records at `now_ms`: the job's status; the thread's pending
/// interrupts (the 100 most recent) become `resumed`; then the interrupts the resumed run
/// raised are recorded (see [record_interrupts]). Steps the repository refuses are skipped.
pub fn record_resume(repo: &mut InMemoryRuntimeRepository, thread_id: &str, status: &str, interrupt_values: &Vec<String>, now_ms: i64)
    requires
        old(repo).wf(),
    ensures
        final(repo).wf(),
        final(repo).job_of(thread_id@) matches Some(j) && j.status@ == status@ && j.updated_at_ms == now_ms,
        exists|idx: Seq<int>, mid: Seq<InterruptRow>|
            {
                &&& newest_selection(
                    interrupt_keys(old(repo).interrupts()),
                    interrupt_wanted(old(repo).interrupts(), Some("pending"@), Some(thread_id@)),
                    100,
                    idx,
                )
                &&& #[trigger] marked_resumed(old(repo).interrupts(), mid, idx)
                &&& interrupts_recorded(mid, final(repo).interrupts(), thread_id@, views(interrupt_values@), now_ms)
            },
        final(repo).same_scheduling(old(repo)),
        final(repo).replay_effects() == old(repo).replay_effects(),
        final(repo).step_reports() == old(repo).step_reports(),
        final(repo).api_keys() == old(repo).api_keys(),
        final(repo).audit_logs() == old(repo).audit_logs(),
{
    let ghost s0 = *repo;
    let _ = repo.upsert_job(thread_id, status, now_ms);
    let ghost rows = repo.interrupts();
    let pending = match repo.list_interrupts(Some("pending"), Some(thread_id), 100) {
        Ok(v) => v,
        Err(_) => Vec::new(),
    };
    let ghost idx = choose|idx: Seq<int>|
        {
            &&& newest_selection(
                interrupt_keys(rows),
                interrupt_wanted(rows, opt_str_view(Some("pending")), opt_str_view(Some(thread_id))),
                100,
                idx,
            )
            &&& #[trigger] idx.len() == pending@.len()
            &&& forall|k: int| 0 <= k < pending@.len() ==> #[trigger] pending@[k] == rows[idx[k]]
        };
    proof {
        assert(rows == s0.interrupts());
        assert(idx.take(0) =~= Seq::<int>::empty());
    }
    let mut k: usize = 0;
    while k < pending.len()
        invariant
            repo.wf(),
            rows == s0.interrupts(),
            k <= pending@.len(),
            idx.len() == pending@.len(),
            newest_selection(
                interrupt_keys(rows),
                interrupt_wanted(rows, opt_str_view(Some("pending")), opt_str_view(Some(thread_id))),
                100,
                idx,
            ),
            forall|a: int| 0 <= a < pending@.len() ==> #[trigger] pending@[a] == rows[idx[a]],
            marked_resumed(rows, repo.interrupts(), idx.take(k as int)),
            repo.job_of(thread_id@) matches Some(j) && j.status@ == status@ && j.updated_at_ms == now_ms,
            repo.same_scheduling(&s0),
            repo.replay_effects() == s0.replay_effects(),
            repo.step_reports() == s0.step_reports(),
            repo.api_keys() == s0.api_keys(),
            repo.audit_logs() == s0.audit_logs(),
        decreases pending@.len() - k,
    {
        let ghost cur = repo.interrupts();
        let ghost p = idx[k as int];
        proof {
            assert(0 <= p < rows.len());
            assert(!idx.take(k as int).contains(p)) by {
                if idx.take(k as int).contains(p) {
                    let m = choose|m: int| 0 <= m < k && idx.take(k as int)[m] == p;
                    assert(idx[m] == idx[k as int]);
                }
            }
            assert(cur[p] == rows[p]);
            lemma_key_pos(cur, p);
        }
        let _ = repo.update_interrupt_status(pending[k].interrupt_id.as_str(), "resumed");
        proof {
            let nxt = repo.interrupts();
            let t = idx.take(k + 1);
            assert forall|q: int| 0 <= q < rows.len() && !t.contains(q) implies #[trigger] nxt[q] == rows[q] by {
                assert(!idx.take(k as int).contains(q)) by {
                    if idx.take(k as int).contains(q) {
                        let m = choose|m: int| 0 <= m < k && idx.take(k as int)[m] == q;
                        assert(t[m] == q);
                    }
                }
                assert(q != p) by {
                    if q == p {
                        assert(t[k as int] == q);
                    }
                }
            }
            assert forall|q: int| 0 <= q < rows.len() && t.contains(q) implies (#[trigger] nxt[q]).status@ == "resumed"@
                && nxt[q] == (InterruptRow { status: nxt[q].status, ..rows[q] }) by {
                let m = choose|m: int| 0 <= m < k + 1 && t[m] == q;
                if m < k {
                    assert(idx.take(k as int)[m] == q);
                    assert(q != p) by {
                        if q == p {
                            assert(idx[m] == idx[k as int]);
                        }
                    }
                }
            }
        }
        k = k + 1;
    }
    let ghost mid = repo.interrupts();
    proof {
        assert(idx.take(pending@.len() as int) =~= idx);
    }
    record_interrupts(repo, thread_id, interrupt_values, now_ms);
    proof {
        reveal_strlit("pending");
        assert(opt_str_view(Some("pending")) == Some("pending"@));
        assert(marked_resumed(s0.interrupts(), mid, idx));
    }
}

/// A job's checkpoint history as answered: checkpoint id and creation time of each
/// checkpoint, oldest first.
pub fn history_items(history: &Vec<(Option<String>, String)>) -> (r: Vec<JobHistoryItem>)
    ensures
        r@.len() == history@.len(),
        forall|i: int|
            0 <= i < r@.len() ==> opt_view((#[trigger] r@[i]).checkpoint_id) == opt_view(history@[i].0)
                && r@[i].created_at@ == history@[i].1@,
{
    let mut out: Vec<JobHistoryItem> = Vec::new();
    let mut i: usize = 0;
    while i < history.len()
        invariant
            i <= history@.len(),
            out@.len() == i,
            forall|k: int|
                0 <= k < i ==> opt_view((#[trigger] out@[k]).checkpoint_id) == opt_view(history@[k].0)
                    && out@[k].created_at@ == history@[k].1@,
        decreases history@.len() - i,
    {
        let checkpoint_id = match &history[i].0 {
            Some(c) => Some(c.clone()),
            None => None,
        };
        out.push(JobHistoryItem { checkpoint_id, created_at: history[i].1.clone() });
        i = i + 1;
    }
    out
}

/// A job's timeline for export (see [timeline_items]); a thread without checkpoints has
/// none.
pub fn timeline_of(thread_id: &str, history: &Vec<(Option<String>, String)>) -> (r: Result<Vec<JobTimelineItem>, ApiError>)
    requires
        history@.len() < u64::MAX,
    ensures
        history@.len() == 0 ==> api_error_is(r, ApiErrorKind::NotFound, "No timeline found for thread: "@ + thread_id@),
        history@.len() > 0 ==> (r matches Ok(v) && v@.len() == history@.len() && forall|i: int|
            0 <= i < v@.len() ==> {
                &&& (#[trigger] v@[i]).seq == i + 1
                &&& v@[i].event_type@ == "checkpoint_saved"@
                &&& opt_view(v@[i].checkpoint_id) == opt_view(history@[i].0)
                &&& v@[i].created_at@ == history@[i].1@
            }),
{
    if history.len() == 0 {
        let m = concat("No timeline found for thread: ", thread_id);
        return Err(ApiError::not_found(m.as_str()));
    }
    Ok(timeline_items(history))
}

/// A checkpoint id must not be blank.
pub fn validate_checkpoint_id(checkpoint_id: &str) -> (r: Result<(), ApiError>)
    ensures
        trimmed(checkpoint_id@).len() > 0 ==> r is Ok,
        trimmed(checkpoint_id@).len() == 0 ==> api_error_is(r, ApiErrorKind::BadRequest, "checkpoint_id must not be empty"@),
{
    crate::runtime::api::validate::require_non_empty(checkpoint_id, "checkpoint_id must not be empty")
}

/// `graph_message` says that no state or checkpoint was found (the latter only counts when
/// a checkpoint was asked for).
pub open spec fn missing_state(graph_message: Seq<char>, checkpoint_lookup: bool) -> bool {
    contains_seq(graph_message, "No state found"@) || (checkpoint_lookup && contains_seq(graph_message, "Checkpoint not found"@))
}

/// The error answered when reading a job's state from the graph failed with
/// `graph_message`: not found when the state or checkpoint is missing (see
/// [missing_state]), else an internal error prefixed with `failure_prefix`.
pub fn graph_read_error(graph_message: &str, failure_prefix: &str, checkpoint_lookup: bool) -> (r: ApiError)
    ensures
        missing_state(graph_message@, checkpoint_lookup) ==> r.kind == ApiErrorKind::NotFound && r.message@ == graph_message@,
        !missing_state(graph_message@, checkpoint_lookup) ==> r.kind == ApiErrorKind::Internal && r.message@ == failure_prefix@
            + graph_message@,
{
    if str_contains(graph_message, "No state found") || (checkpoint_lookup && str_contains(graph_message, "Checkpoint not found")) {
        ApiError::not_found(graph_message)
    } else {
        let m = concat(failure_prefix, graph_message);
        ApiError::internal(m.as_str())
    }
}

} // verus!
