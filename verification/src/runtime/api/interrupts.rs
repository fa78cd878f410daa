//! Decisions of the interrupt endpoints: resuming an interrupt once per payload, and
//! rejecting one, which cancels its thread.
use crate::runtime::api::errors::{api_error_is, ApiError, ApiErrorKind};
use crate::runtime::api::jobs::{cancelled_message, CancelledThreads};
use crate::runtime::api::validate::validate_thread_id;
use crate::runtime::models::InterruptRow;
use crate::runtime::store::attempts::opt_view;
use crate::runtime::store::keyed::key_pos;
use crate::runtime::store::records::same_but_at;
use crate::runtime::store::InMemoryRuntimeRepository;
use crate::text::{concat, contains_seq, str_contains, str_eq, trimmed};
use vstd::prelude::*;

verus! {

/// How resuming an interrupt goes ahead.
#[derive(Clone, Debug, PartialEq, Eq)]
pub enum InterruptResume {
    /// The interrupt was resumed before with the same payload: answer the stored response.
    Stored(String),
    /// Resume the interrupt's thread; the interrupt is now `resuming`.
    Resume { thread_id: String },
}

/// Message of an interrupt that is no longer pending.
pub open spec fn settled_message(status: Seq<char>) -> Seq<char> {
    "interrupt already "@ + status
}

/// What resuming an already resumed interrupt with the payload hashed `resume_hash`
/// answers: its stored response (`Ok`) when the payload is the same, else the refusal's
/// kind and message.
pub open spec fn repeat_resume_answer(row: InterruptRow, resume_hash: Seq<char>) -> Result<Seq<char>, (ApiErrorKind, Seq<char>)> {
    if opt_view(row.resume_payload_hash) != Some(resume_hash) {
        Err((ApiErrorKind::Conflict, "interrupt already resumed with different payload"@))
    } else if row.resume_response_json is None {
        Err((ApiErrorKind::Internal, "missing stored resume response"@))
    } else {
        Ok(row.resume_response_json->0@)
    }
}

/// A resume's result, once stored, is what every later resume with the same payload
/// answers, and a resume with another payload is refused as a conflict: `stored` is the
/// interrupt as [InMemoryRuntimeRepository::persist_interrupt_resume_result] leaves `row`
/// after storing payload hash `h` and response `response`.
pub proof fn lemma_resume_result_is_kept(row: InterruptRow, stored: InterruptRow, h: Seq<char>, response: Seq<char>, other: Seq<char>)
    requires
        row.resume_payload_hash is None || row.resume_payload_hash->0@ == h,
        stored.status@ == "resumed"@,
        opt_view(stored.resume_payload_hash) == Some(if row.resume_payload_hash is Some { row.resume_payload_hash->0@ } else { h }),
        opt_view(stored.resume_response_json) == Some(
            if row.resume_response_json is Some { row.resume_response_json->0@ } else { response },
        ),
        other != h,
    ensures
        repeat_resume_answer(stored, h) == Ok::<Seq<char>, (ApiErrorKind, Seq<char>)>(
            if row.resume_response_json is Some { row.resume_response_json->0@ } else { response },
        ),
        repeat_resume_answer(stored, other) == Err::<Seq<char>, (ApiErrorKind, Seq<char>)>(
            (ApiErrorKind::Conflict, "interrupt already resumed with different payload"@),
        ),
{
}

/// Checks that an interrupt can be resumed with the payload hashed `resume_hash`, in order:
/// it exists; if resumed before, with the same payload (then its stored response is
/// answered); it is pending; its thread is not cancelled. It is then marked `resuming`.
pub fn begin_interrupt_resume(
    repo: &mut InMemoryRuntimeRepository,
    cancelled: &CancelledThreads,
    interrupt_id: &str,
    resume_hash: &str,
) -> (r: Result<InterruptResume, ApiError>)
    requires
        old(repo).wf(),
    ensures
        final(repo).wf(),
        final(repo).same_but_interrupts(old(repo)),
        !(r matches Ok(InterruptResume::Resume { .. })) ==> final(repo).interrupts() == old(repo).interrupts(),
        match old(repo).interrupt_of(interrupt_id@) {
            None => api_error_is(r, ApiErrorKind::NotFound, "interrupt not found"@),
            Some(row) => if row.status@ == "resumed"@ {
                match repeat_resume_answer(row, resume_hash@) {
                    Ok(stored) => r matches Ok(InterruptResume::Stored(s)) && s@ == stored,
                    Err((kind, m)) => api_error_is(r, kind, m),
                }
            } else if row.status@ != "pending"@ {
                api_error_is(r, ApiErrorKind::Conflict, settled_message(row.status@))
            } else if cancelled.has(row.thread_id@) {
                api_error_is(r, ApiErrorKind::Conflict, cancelled_message(row.thread_id@))
            } else {
                let p = key_pos(old(repo).interrupts(), interrupt_id@);
                &&& r matches Ok(InterruptResume::Resume { thread_id }) && thread_id@ == row.thread_id@
                &&& same_but_at(old(repo).interrupts(), final(repo).interrupts(), p)
                &&& final(repo).interrupts()[p].status@ == "resuming"@
                &&& final(repo).interrupts()[p] == (InterruptRow { status: final(repo).interrupts()[p].status, ..row })
            },
        },
{
    let row = match repo.get_interrupt(interrupt_id) {
        Ok(Some(row)) => row,
        _ => {
            return Err(ApiError::not_found("interrupt not found"));
        },
    };
    if str_eq(row.status.as_str(), "resumed") {
        let same = match &row.resume_payload_hash {
            Some(h) => str_eq(h.as_str(), resume_hash),
            None => false,
        };
        if !same {
            return Err(ApiError::conflict("interrupt already resumed with different payload"));
        }
        return match row.resume_response_json {
            Some(s) => Ok(InterruptResume::Stored(s)),
            None => Err(ApiError::internal("missing stored resume response")),
        };
    }
    if !str_eq(row.status.as_str(), "pending") {
        let m = concat("interrupt already ", row.status.as_str());
        return Err(ApiError::conflict(m.as_str()));
    }
    if cancelled.contains(row.thread_id.as_str()) {
        let a = concat("thread '", row.thread_id.as_str());
        let m = concat(a.as_str(), "' is cancelled");
        return Err(ApiError::conflict(m.as_str()));
    }
    let _ = repo.update_interrupt_status(interrupt_id, "resuming");
    Ok(InterruptResume::Resume { thread_id: row.thread_id })
}

/// `r` is the error answered when storing a resume's result failed with `m`: a conflict
/// when `m` speaks of a different payload, else an internal error.
pub open spec fn resume_store_error(r: Result<(), ApiError>, m: Seq<char>) -> bool {
    if contains_seq(m, "different payload"@) {
        api_error_is(r, ApiErrorKind::Conflict, m)
    } else {
        api_error_is(r, ApiErrorKind::Internal, m)
    }
}

/// Stores the result of resuming an interrupt (see
/// [InMemoryRuntimeRepository::persist_interrupt_resume_result]); a refusal is answered as
/// [resume_store_error] says.
pub fn finish_interrupt_resume(
    repo: &mut InMemoryRuntimeRepository,
    interrupt_id: &str,
    resume_hash: &str,
    response_json: &str,
) -> (r: Result<(), ApiError>)
    requires
        old(repo).wf(),
    ensures
        final(repo).wf(),
        final(repo).same_but_interrupts(old(repo)),
        ({
            let p = key_pos(old(repo).interrupts(), interrupt_id@);
            let row = old(repo).interrupts()[p];
            let conflict = p >= 0 && row.resume_payload_hash is Some && row.resume_payload_hash->0@ != resume_hash@;
            &&& p < 0 ==> resume_store_error(r, "driver error: "@ + ("interrupt not found: "@ + interrupt_id@))
            &&& conflict ==> resume_store_error(
                r,
                "driver error: "@ + ("interrupt "@ + interrupt_id@ + " already resumed with a different payload"@),
            )
            &&& r is Ok <==> p >= 0 && !conflict
            &&& r is Err ==> final(repo).interrupts() == old(repo).interrupts()
            &&& r is Ok ==> final(repo).interrupts()[p].status@ == "resumed"@ && same_but_at(
                old(repo).interrupts(),
                final(repo).interrupts(),
                p,
            )
        }),
{
    match repo.persist_interrupt_resume_result(interrupt_id, resume_hash, response_json) {
        Ok(()) => Ok(()),
        Err(e) => {
            let msg = e.message();
            if str_contains(msg.as_str(), "different payload") {
                Err(ApiError::conflict(msg.as_str()))
            } else {
                Err(ApiError::internal(msg.as_str()))
            }
        },
    }
}

/// Rejects a pending interrupt at `now_ms`: it becomes `rejected`, its thread is cancelled
/// and its job marked `cancelled`. Hands back the thread.
pub fn reject_interrupt(
    repo: &mut InMemoryRuntimeRepository,
    cancelled: &mut CancelledThreads,
    interrupt_id: &str,
    now_ms: i64,
) -> (r: Result<String, ApiError>)
    requires
        old(repo).wf(),
    ensures
        final(repo).wf(),
        final(repo).same_scheduling(old(repo)),
        final(repo).replay_effects() == old(repo).replay_effects(),
        final(repo).step_reports() == old(repo).step_reports(),
        final(repo).api_keys() == old(repo).api_keys(),
        final(repo).audit_logs() == old(repo).audit_logs(),
        r is Err ==> *final(repo) == *old(repo) && forall|t: Seq<char>| #[trigger] final(cancelled).has(t) == old(cancelled).has(t),
        match old(repo).interrupt_of(interrupt_id@) {
            None => api_error_is(r, ApiErrorKind::NotFound, "interrupt not found"@),
            Some(row) => if row.status@ != "pending"@ {
                api_error_is(r, ApiErrorKind::Conflict, settled_message(row.status@))
            } else {
                let p = key_pos(old(repo).interrupts(), interrupt_id@);
                &&& r matches Ok(t) && t@ == row.thread_id@
                &&& same_but_at(old(repo).interrupts(), final(repo).interrupts(), p)
                &&& final(repo).interrupts()[p].status@ == "rejected"@
                &&& final(repo).interrupts()[p] == (InterruptRow { status: final(repo).interrupts()[p].status, ..row })
                &&& forall|t: Seq<char>| #[trigger] final(cancelled).has(t) == (old(cancelled).has(t) || t == row.thread_id@)
                &&& final(repo).job_of(row.thread_id@) matches Some(j) && j.status@ == "cancelled"@ && j.updated_at_ms == now_ms
            },
        },
{
    let row = match repo.get_interrupt(interrupt_id) {
        Ok(Some(row)) => row,
        _ => {
            return Err(ApiError::not_found("interrupt not found"));
        },
    };
    if !str_eq(row.status.as_str(), "pending") {
        let m = concat("interrupt already ", row.status.as_str());
        return Err(ApiError::conflict(m.as_str()));
    }
    let _ = repo.update_interrupt_status(interrupt_id, "rejected");
    cancelled.insert(row.thread_id.as_str());
    let _ = repo.upsert_job(row.thread_id.as_str(), "cancelled", now_ms);
    Ok(row.thread_id)
}

/// Cancels a job: its thread's runs, resumes and replays are refused from now on.
pub fn cancel_job(cancelled: &mut CancelledThreads, thread_id: &str) -> (r: Result<(), ApiError>)
    ensures
        trimmed(thread_id@).len() == 0 ==> api_error_is(r, ApiErrorKind::BadRequest, "thread_id must not be empty"@) && forall|
            t: Seq<char>,
        | #[trigger] final(cancelled).has(t) == old(cancelled).has(t),
        trimmed(thread_id@).len() > 0 ==> r is Ok && forall|t: Seq<char>| #[trigger] final(cancelled).has(t) == (old(
            cancelled,
        ).has(t) || t == thread_id@),
{
    validate_thread_id(thread_id)?;
    cancelled.insert(thread_id);
    Ok(())
}

} // verus!
