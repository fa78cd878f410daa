use oris_runtime::kernel::event::KernelError;
use oris_runtime::runtime::models::LeaseRecord;
use oris_runtime::runtime::scheduler::{decide_dispatch, SchedulerDecision};

fn lease() -> LeaseRecord {
    LeaseRecord {
        lease_id: "lease-1".to_string(),
        attempt_id: "attempt-1".to_string(),
        worker_id: "worker-1".to_string(),
        lease_expires_at_ms: 31_000,
        heartbeat_at_ms: 1_000,
        version: 1,
    }
}

#[test]
fn a_granted_lease_dispatches_the_attempt() {
    match decide_dispatch("attempt-1".to_string(), "worker-1", Ok(lease())) {
        Ok(SchedulerDecision::Dispatched { attempt_id, worker_id }) => {
            assert_eq!(attempt_id, "attempt-1");
            assert_eq!(worker_id, "worker-1");
        }
        other => panic!("unexpected: {:?}", other),
    }
}

#[test]
fn lease_refusals_dispatch_nothing() {
    let busy = KernelError::Driver("active lease already exists for attempt: attempt-1".to_string());
    assert!(matches!(decide_dispatch("attempt-1".to_string(), "w", Err(busy)), Ok(SchedulerDecision::Noop)));
    let done = KernelError::Driver("attempt is not dispatchable: attempt-1".to_string());
    assert!(matches!(decide_dispatch("attempt-1".to_string(), "w", Err(done)), Ok(SchedulerDecision::Noop)));
}

#[test]
fn other_lease_errors_are_passed_on() {
    let other = KernelError::Driver("disk full".to_string());
    match decide_dispatch("attempt-1".to_string(), "w", Err(other)) {
        Err(KernelError::Driver(m)) => assert_eq!(m, "disk full"),
        r => panic!("unexpected: {:?}", r),
    }
    let store = KernelError::EventStore("active lease already exists".to_string());
    assert!(matches!(decide_dispatch("attempt-1".to_string(), "w", Err(store)), Err(KernelError::EventStore(_))));
}
