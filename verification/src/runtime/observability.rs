//! Backpressure reasons and kernel telemetry records.
//!
//! [RejectionReason] says why a dispatch or API request was rejected, for
//! safe backpressure and clear API responses. [KernelObservability] carries
//! optional telemetry (reasoning timeline, lease graph, replay cost,
//! interrupt latency) that a runtime fills for metrics and tracing.
use vstd::prelude::*;

verus! {

/// Reason for rejecting a dispatch or API request.
#[derive(Clone, Debug, Eq, PartialEq)]
pub enum RejectionReason {
    /// Tenant-level limit exceeded; optional description of the limit.
    TenantLimit(Option<String>),
    /// Worker or capacity limit.
    CapacityLimit(Option<String>),
    /// Other rejections (policy, invalid request, ...).
    Other(String),
}

impl RejectionReason {
    /// A tenant-limit rejection carrying `description`.
    pub fn tenant_limit(description: &str) -> (r: Self)
        ensures
            r matches RejectionReason::TenantLimit(Some(d)) && d@ == description@,
    {
        RejectionReason::TenantLimit(Some(description.to_owned()))
    }

    /// A capacity-limit rejection carrying `description`.
    pub fn capacity_limit(description: &str) -> (r: Self)
        ensures
            r matches RejectionReason::CapacityLimit(Some(d)) && d@ == description@,
    {
        RejectionReason::CapacityLimit(Some(description.to_owned()))
    }
}

/// Telemetry record; every field is optional and starts empty.
#[derive(Clone, Debug)]
pub struct KernelObservability {
    /// Reasoning or decision timeline (e.g. scheduler steps).
    pub reasoning_timeline: Option<Vec<String>>,
    /// Lease/ownership snapshot (attempt -> worker).
    pub lease_graph: Option<Vec<(String, String)>>,
    /// Replay cost hint (e.g. event count or duration).
    pub replay_cost: Option<u64>,
    /// Interrupt handling latency in milliseconds.
    pub interrupt_latency_ms: Option<u64>,
}

impl KernelObservability {
    /// All fields empty.
    pub open spec fn is_empty(&self) -> bool {
        &&& self.reasoning_timeline is None
        &&& self.lease_graph is None
        &&& self.replay_cost is None
        &&& self.interrupt_latency_ms is None
    }

    /// An empty record.
    pub fn new() -> (r: Self)
        ensures
            r.is_empty(),
    {
        KernelObservability {
            reasoning_timeline: None,
            lease_graph: None,
            replay_cost: None,
            interrupt_latency_ms: None,
        }
    }

    /// Sets the reasoning timeline; other fields are kept.
    pub fn with_reasoning_timeline(self, entries: Vec<String>) -> (r: Self)
        ensures
            r.reasoning_timeline == Some(entries),
            r.lease_graph == self.lease_graph,
            r.replay_cost == self.replay_cost,
            r.interrupt_latency_ms == self.interrupt_latency_ms,
    {
        KernelObservability { reasoning_timeline: Some(entries), ..self }
    }

    /// Sets the lease graph; other fields are kept.
    pub fn with_lease_graph(self, edges: Vec<(String, String)>) -> (r: Self)
        ensures
            r.lease_graph == Some(edges),
            r.reasoning_timeline == self.reasoning_timeline,
            r.replay_cost == self.replay_cost,
            r.interrupt_latency_ms == self.interrupt_latency_ms,
    {
        KernelObservability { lease_graph: Some(edges), ..self }
    }

    /// Sets the replay cost; other fields are kept.
    pub fn with_replay_cost(self, cost: u64) -> (r: Self)
        ensures
            r.replay_cost == Some(cost),
            r.reasoning_timeline == self.reasoning_timeline,
            r.lease_graph == self.lease_graph,
            r.interrupt_latency_ms == self.interrupt_latency_ms,
    {
        KernelObservability { replay_cost: Some(cost), ..self }
    }

    /// Sets the interrupt latency; other fields are kept.
    pub fn with_interrupt_latency_ms(self, ms: u64) -> (r: Self)
        ensures
            r.interrupt_latency_ms == Some(ms),
            r.reasoning_timeline == self.reasoning_timeline,
            r.lease_graph == self.lease_graph,
            r.replay_cost == self.replay_cost,
    {
        KernelObservability { interrupt_latency_ms: Some(ms), ..self }
    }
}

impl Default for KernelObservability {
    fn default() -> (r: Self)
        ensures
            r.is_empty(),
    {
        KernelObservability::new()
    }
}

} // verus!
