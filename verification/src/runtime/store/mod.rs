//! The runtime repository held in memory: attempts, leases, retries, dead letters,
//! replay effects, step reports, jobs, interrupts, API keys and the audit log, with the
//! rules each operation applies to them.
pub mod acks;
pub mod attempts;
pub mod dispatch;
pub mod effects;
pub mod expiry;
pub mod keyed;
pub mod leases;
pub mod ranked;
pub mod records;

use crate::kernel::event::KernelError;
use crate::runtime::models::{ApiKeyRow, AttemptRetryHistoryRow, AttemptRow, AuditLogRow, DeadLetterRow, InterruptRow, JobRow, LeaseRecord, ReplayEffectLogRow, StepReportRow};
use crate::runtime::store::keyed::{keys_unique, Keyed};
use vstd::prelude::*;

verus! {

impl Keyed for AttemptRow {
    open spec fn key(&self) -> Seq<char> {
        self.attempt_id@
    }

    fn key_str(&self) -> (r: &str) {
        self.attempt_id.as_str()
    }
}

impl Keyed for LeaseRecord {
    open spec fn key(&self) -> Seq<char> {
        self.attempt_id@
    }

    fn key_str(&self) -> (r: &str) {
        self.attempt_id.as_str()
    }
}

impl Keyed for DeadLetterRow {
    open spec fn key(&self) -> Seq<char> {
        self.attempt_id@
    }

    fn key_str(&self) -> (r: &str) {
        self.attempt_id.as_str()
    }
}

impl Keyed for ReplayEffectLogRow {
    open spec fn key(&self) -> Seq<char> {
        self.fingerprint@
    }

    fn key_str(&self) -> (r: &str) {
        self.fingerprint.as_str()
    }
}

impl Keyed for JobRow {
    open spec fn key(&self) -> Seq<char> {
        self.thread_id@
    }

    fn key_str(&self) -> (r: &str) {
        self.thread_id.as_str()
    }
}

impl Keyed for InterruptRow {
    open spec fn key(&self) -> Seq<char> {
        self.interrupt_id@
    }

    fn key_str(&self) -> (r: &str) {
        self.interrupt_id.as_str()
    }
}

impl Keyed for ApiKeyRow {
    open spec fn key(&self) -> Seq<char> {
        self.key_id@
    }

    fn key_str(&self) -> (r: &str) {
        self.key_id.as_str()
    }
}

/// `e` is a driver error with message `m`.
pub open spec fn driver_error(e: KernelError, m: Seq<char>) -> bool {
    e matches KernelError::Driver(x) && x@ == m
}

/// `r` is a driver error with message `m`.
pub open spec fn fails_with<T>(r: Result<T, KernelError>, m: Seq<char>) -> bool {
    r matches Err(e) && driver_error(e, m)
}

/// No two leases share a lease id.
pub open spec fn lease_ids_unique(s: Seq<LeaseRecord>) -> bool {
    forall|i: int, j: int|
        0 <= i < s.len() && 0 <= j < s.len() && #[trigger] s[i].lease_id@ == #[trigger] s[j].lease_id@ ==> i == j
}

/// No two step reports of an attempt share a dedupe token.
pub open spec fn report_tokens_unique(s: Seq<StepReportRow>) -> bool {
    forall|i: int, j: int|
        0 <= i < s.len() && 0 <= j < s.len() && #[trigger] s[i].attempt_id@ == #[trigger] s[j].attempt_id@
            && s[i].dedupe_token@ == s[j].dedupe_token@ ==> i == j
}

/// Runtime repository kept in memory.
pub struct InMemoryRuntimeRepository {
    attempts: Vec<AttemptRow>,
    leases: Vec<LeaseRecord>,
    retry_history: Vec<AttemptRetryHistoryRow>,
    dead_letters: Vec<DeadLetterRow>,
    replay_effects: Vec<ReplayEffectLogRow>,
    step_reports: Vec<StepReportRow>,
    jobs: Vec<JobRow>,
    interrupts: Vec<InterruptRow>,
    api_keys: Vec<ApiKeyRow>,
    audit_logs: Vec<AuditLogRow>,
}

impl InMemoryRuntimeRepository {
    /// Attempts, one per attempt id.
    pub closed spec fn attempts(&self) -> Seq<AttemptRow> {
        self.attempts@
    }

    /// Leases, at most one per attempt.
    pub closed spec fn leases(&self) -> Seq<LeaseRecord> {
        self.leases@
    }

    /// Scheduled retries, oldest first.
    pub closed spec fn retry_history(&self) -> Seq<AttemptRetryHistoryRow> {
        self.retry_history@
    }

    /// Dead letters, one per attempt.
    pub closed spec fn dead_letters(&self) -> Seq<DeadLetterRow> {
        self.dead_letters@
    }

    /// Replay effects, one per fingerprint.
    pub closed spec fn replay_effects(&self) -> Seq<ReplayEffectLogRow> {
        self.replay_effects@
    }

    /// Step reports, oldest first.
    pub closed spec fn step_reports(&self) -> Seq<StepReportRow> {
        self.step_reports@
    }

    /// Jobs, one per thread, in the order they were first seen.
    pub closed spec fn jobs(&self) -> Seq<JobRow> {
        self.jobs@
    }

    /// Interrupts, one per interrupt id, in the order they were raised.
    pub closed spec fn interrupts(&self) -> Seq<InterruptRow> {
        self.interrupts@
    }

    /// API keys, one per key id.
    pub closed spec fn api_keys(&self) -> Seq<ApiKeyRow> {
        self.api_keys@
    }

    /// Audit log, oldest first.
    pub closed spec fn audit_logs(&self) -> Seq<AuditLogRow> {
        self.audit_logs@
    }

    /// Jobs, interrupts, API keys and the audit log are the same in `self` and `o`.
    pub open spec fn same_records(&self, o: &Self) -> bool {
        &&& self.jobs() == o.jobs()
        &&& self.interrupts() == o.interrupts()
        &&& self.api_keys() == o.api_keys()
        &&& self.audit_logs() == o.audit_logs()
    }

    /// Keys are unique in every table.
    pub open spec fn wf(&self) -> bool {
        &&& keys_unique(self.attempts())
        &&& keys_unique(self.leases())
        &&& lease_ids_unique(self.leases())
        &&& keys_unique(self.dead_letters())
        &&& keys_unique(self.replay_effects())
        &&& report_tokens_unique(self.step_reports())
        &&& keys_unique(self.jobs())
        &&& keys_unique(self.interrupts())
        &&& keys_unique(self.api_keys())
        &&& crate::runtime::store::records::audit_ids_sequential(self.audit_logs())
    }

    /// Only the attempts differ between `self` and `o`.
    pub open spec fn same_but_attempts(&self, o: &Self) -> bool {
        &&& self.leases() == o.leases()
        &&& self.retry_history() == o.retry_history()
        &&& self.dead_letters() == o.dead_letters()
        &&& self.replay_effects() == o.replay_effects()
        &&& self.step_reports() == o.step_reports()
    }

    /// Attempts, leases, retries and dead letters are unchanged between `self` and `o`.
    pub open spec fn same_scheduling(&self, o: &Self) -> bool {
        &&& self.attempts() == o.attempts()
        &&& self.leases() == o.leases()
        &&& self.retry_history() == o.retry_history()
        &&& self.dead_letters() == o.dead_letters()
    }

    /// An empty repository.
    pub fn new() -> (r: Self)
        ensures
            r.wf(),
            r.attempts().len() == 0,
            r.leases().len() == 0,
            r.retry_history().len() == 0,
            r.dead_letters().len() == 0,
            r.replay_effects().len() == 0,
            r.step_reports().len() == 0,
            r.jobs().len() == 0,
            r.interrupts().len() == 0,
            r.api_keys().len() == 0,
            r.audit_logs().len() == 0,
    {
        InMemoryRuntimeRepository {
            attempts: Vec::new(),
            leases: Vec::new(),
            retry_history: Vec::new(),
            dead_letters: Vec::new(),
            replay_effects: Vec::new(),
            step_reports: Vec::new(),
            jobs: Vec::new(),
            interrupts: Vec::new(),
            api_keys: Vec::new(),
            audit_logs: Vec::new(),
        }
    }
}

} // verus!
