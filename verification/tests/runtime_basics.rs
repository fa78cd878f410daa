use oris_runtime::runtime::observability::{KernelObservability, RejectionReason};
use oris_runtime::runtime::recovery::{CrashRecoveryPipeline, RecoveryStep};

#[test]
fn rejection_reason_tenant_limit() {
    let r = RejectionReason::tenant_limit("max concurrent runs");
    assert!(matches!(r, RejectionReason::TenantLimit(Some(ref s)) if s == "max concurrent runs"));
}

#[test]
fn kernel_observability_builder() {
    let o = KernelObservability::new()
        .with_reasoning_timeline(vec!["step1".into()])
        .with_replay_cost(42)
        .with_interrupt_latency_ms(10);
    assert_eq!(o.reasoning_timeline, Some(vec!["step1".into()]));
    assert_eq!(o.replay_cost, Some(42));
    assert_eq!(o.interrupt_latency_ms, Some(10));
}

#[test]
fn recovery_step_pipeline_order() {
    let steps = RecoveryStep::pipeline();
    assert_eq!(steps.len(), 4);
    assert_eq!(steps[0], RecoveryStep::LeaseExpired);
    assert_eq!(steps[1], RecoveryStep::CheckpointReload);
    assert_eq!(steps[2], RecoveryStep::Replay);
    assert_eq!(steps[3], RecoveryStep::ReadyForDispatch);
}

#[test]
fn crash_recovery_pipeline_replay_context() {
    let p = CrashRecoveryPipeline::new("attempt-1", "run-1");
    let ctx = p.replay_context();
    assert_eq!(ctx.attempt_id, "attempt-1");
    assert_eq!(ctx.run_id, "run-1");
}

#[test]
fn capacity_limit_carries_description() {
    let r = RejectionReason::capacity_limit("worker full");
    assert!(matches!(r, RejectionReason::CapacityLimit(Some(ref s)) if s == "worker full"));
}

#[test]
fn kernel_observability_lease_graph() {
    let o = KernelObservability::new().with_lease_graph(vec![("attempt-1".into(), "worker-1".into())]);
    assert_eq!(o.lease_graph, Some(vec![("attempt-1".to_string(), "worker-1".to_string())]));
    assert_eq!(o.replay_cost, None);
}
