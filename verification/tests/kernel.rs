use std::cell::Cell;

use oris_runtime::kernel::driver::{action_id, retry_step, Kernel, RetryStep, RunStatus, Signal};
use oris_runtime::kernel::event::{Action, ActionResult, Event, KernelError};
use oris_runtime::kernel::event_store::{EventStore, InMemoryEventStore};
use oris_runtime::kernel::policy::RetryDecision;
use oris_runtime::kernel::reducer::StateUpdatedOnlyReducer;
use oris_runtime::kernel::snapshot::{InMemorySnapshotStore, Snapshot, SnapshotStore};
use oris_runtime::kernel::state::KernelState;
use oris_runtime::kernel::step::{ActionExecutor, InterruptInfo, Next, StepFn};
use oris_runtime::kernel::stubs::{AllowAllPolicy, NoDelay, NoopActionExecutor, NoopStepFn};
use oris_runtime::kernel::timeline_fork::TimelineForker;

#[derive(Clone, Copy, Debug, Default, PartialEq, Eq)]
struct TestState(u32);

impl KernelState for TestState {
    fn version(&self) -> u32 {
        1
    }
}

type TestKernel<St, X> = Kernel<InMemoryEventStore<TestState>, InMemorySnapshotStore<TestState>, StateUpdatedOnlyReducer, X, St, AllowAllPolicy, NoDelay>;

fn kernel<St, X>(events: InMemoryEventStore<TestState>, executor: X, step: St) -> TestKernel<St, X> {
    Kernel {
        events,
        snaps: None,
        reducer: StateUpdatedOnlyReducer,
        executor,
        step,
        policy: AllowAllPolicy,
        delay: NoDelay,
    }
}

struct CountingActionExecutor {
    calls: Cell<usize>,
}

impl ActionExecutor<TestState> for CountingActionExecutor {
    fn execute(&self, _run_id: &str, _action: &Action<TestState>) -> Result<ActionResult<TestState>, KernelError> {
        self.calls.set(self.calls.get() + 1);
        Err(KernelError::Driver("mock".into()))
    }
}

struct InterruptOnceStep(bool);

impl StepFn<TestState, TestState> for InterruptOnceStep {
    fn next(&self, _state: &TestState) -> Result<Next<TestState>, KernelError> {
        if !self.0 {
            Ok(Next::Interrupt(InterruptInfo { value: TestState(7) }))
        } else {
            Ok(Next::Complete)
        }
    }
}

struct DoOnceStep;

impl StepFn<TestState, TestState> for DoOnceStep {
    fn next(&self, _state: &TestState) -> Result<Next<TestState>, KernelError> {
        Ok(Next::Do(Action::CallTool { tool: "dummy".into(), input: TestState(0) }))
    }
}

fn updated(step: &str, value: u32) -> Event<TestState> {
    Event::StateUpdated { step_id: Some(step.into()), payload: TestState(value) }
}

fn log_of(store: &InMemoryEventStore<TestState>, run_id: &str) -> Vec<Event<TestState>> {
    let head = store.head(run_id).unwrap();
    (0..head).map(|i| store.get(run_id, i).unwrap().event.clone()).collect()
}

#[test]
fn run_until_blocked_complete() {
    let mut k = kernel(InMemoryEventStore::new(), NoopActionExecutor, NoopStepFn);
    let status = k.run_until_blocked::<TestState, TestState>("run-complete", TestState(0)).unwrap();
    assert!(matches!(status, RunStatus::Completed));
}

#[test]
fn run_until_blocked_then_resume() {
    let run_id = "run-interrupt-resume";
    let mut k = kernel(InMemoryEventStore::new(), NoopActionExecutor, InterruptOnceStep(false));
    let status = k.run_until_blocked::<TestState, TestState>(run_id, TestState(0)).unwrap();
    assert!(matches!(status, RunStatus::Blocked(_)));

    let mut k2 = kernel(k.events, NoopActionExecutor, InterruptOnceStep(true));
    let status2 = k2.resume(run_id, TestState(0), Signal::Resume(TestState(1))).unwrap();
    assert!(matches!(status2, RunStatus::Completed));
}

#[test]
fn replay_no_side_effects() {
    let run_id = "replay-no-effects";
    let mut store = InMemoryEventStore::new();
    store.append(run_id, vec![updated("n1", 42), Event::Completed]).unwrap();
    let k = kernel(store, CountingActionExecutor { calls: Cell::new(0) }, NoopStepFn);
    let _ = k.replay::<TestState, TestState>(run_id, TestState(0)).unwrap();
    assert_eq!(k.executor.calls.get(), 0, "replay must not call executor");
}

#[test]
fn replay_state_equivalence() {
    let run_id = "replay-equiv";
    let mut store = InMemoryEventStore::new();
    store.append(run_id, vec![updated("a", 10), updated("b", 20), Event::Completed]).unwrap();
    let k = kernel(store, NoopActionExecutor, NoopStepFn);
    let initial = TestState(0);
    let s1 = k.replay::<TestState, TestState>(run_id, initial).unwrap();
    let s2 = k.replay::<TestState, TestState>(run_id, initial).unwrap();
    assert_eq!(s1, s2, "same log and initial state must yield equal state");
    assert_eq!(s1.0, 20);
}

#[test]
fn run_until_blocked_failure_recovery() {
    let run_id = "run-fail";
    let mut k = kernel(InMemoryEventStore::new(), CountingActionExecutor { calls: Cell::new(0) }, DoOnceStep);
    let status = k.run_until_blocked::<TestState, TestState>(run_id, TestState(0)).unwrap();
    assert!(
        matches!(status, RunStatus::Failed { recoverable } if !recoverable),
        "default policy says Fail so recoverable should be false"
    );
    let events = log_of(&k.events, run_id);
    let has_requested = events.iter().any(|e| matches!(e, Event::ActionRequested { .. }));
    let has_failed = events.iter().any(|e| matches!(e, Event::ActionFailed { .. }));
    assert!(has_requested && has_failed, "event log must contain ActionRequested and ActionFailed for the same action");
}

#[test]
fn a_policy_that_never_retries_asks_the_executor_once() {
    let run_id = "run-fail-once";
    let mut k = kernel(InMemoryEventStore::new(), CountingActionExecutor { calls: Cell::new(0) }, DoOnceStep);
    let status = k.run_until_blocked::<TestState, TestState>(run_id, TestState(0)).unwrap();
    assert!(matches!(status, RunStatus::Failed { recoverable: false }));
    assert_eq!(k.executor.calls.get(), 1);
    let events = log_of(&k.events, run_id);
    assert_eq!(events.len(), 2);
    assert!(matches!(&events[0], Event::ActionRequested { action_id, .. } if action_id == "run-fail-once-1"));
    assert!(matches!(&events[1], Event::ActionFailed { action_id, .. } if action_id == "run-fail-once-1"));
}

#[test]
fn replay_from_snapshot_applies_tail_only() {
    let run_id = "replay-snap";
    let mut store = InMemoryEventStore::new();
    store.append(run_id, vec![updated("a", 10), updated("b", 20), updated("c", 30), Event::Completed]).unwrap();
    let mut snaps = InMemorySnapshotStore::new();
    snaps.save(Snapshot { run_id: run_id.to_string(), at_seq: 2, state: TestState(20) }).unwrap();
    let mut k = kernel(store, NoopActionExecutor, NoopStepFn);
    k.snaps = Some(snaps);
    let state = k.replay_from_snapshot::<TestState, TestState>(run_id, TestState(0)).unwrap();
    assert_eq!(state.0, 30, "only events after at_seq=2 (seq 3) applied");
}

#[test]
fn fork_injects_alternate_event() {
    let mut events = InMemoryEventStore::new();
    let run_id = "source";
    events.append(run_id, vec![updated("a", 1), updated("b", 2), updated("c", 3)]).unwrap();
    let forker = TimelineForker { events, reducer: StateUpdatedOnlyReducer };
    let result = forker.fork(run_id, "branch-1".into(), 1, updated("alt-b", 99), TestState(0)).unwrap();
    assert_eq!(result.fork.source_run_id, "source");
    assert_eq!(result.fork.branch_id, "branch-1");
    assert_eq!(result.fork.fork_point_seq, 1);
    assert!(result.fork.alternate_event.is_some());
    assert_eq!(result.final_state, TestState(3));
}

#[test]
fn replay_up_to_stops_at_the_fork_point() {
    let mut events = InMemoryEventStore::new();
    let run_id = "source3";
    events.append(run_id, vec![updated("a", 5), updated("b", 6), updated("c", 7)]).unwrap();
    let forker = TimelineForker { events, reducer: StateUpdatedOnlyReducer };
    let (state, seq) = forker.replay_up_to::<TestState, TestState>(run_id, 2, TestState(0)).unwrap();
    assert_eq!((state, seq), (TestState(6), 2));
    let (all, past_end) = forker.replay_up_to::<TestState, TestState>(run_id, 10, TestState(0)).unwrap();
    assert_eq!((all, past_end), (TestState(7), 10));
    let (none, zero) = forker.replay_up_to::<TestState, TestState>(run_id, 0, TestState(1)).unwrap();
    assert_eq!((none, zero), (TestState(1), 0));
}

#[test]
fn clone_timeline_replays_entire_run() {
    let mut events = InMemoryEventStore::new();
    let run_id = "source2";
    events.append(run_id, vec![updated("x", 10), Event::Completed]).unwrap();
    let forker = TimelineForker { events, reducer: StateUpdatedOnlyReducer };
    let result = forker.clone_timeline::<TestState, TestState>(run_id, "clone".into(), TestState(0)).unwrap();
    assert_eq!(result.fork.source_run_id, "source2");
    assert_eq!(result.fork.branch_id, "clone");
    assert_eq!(result.final_state, TestState(10));
}

#[test]
fn appended_events_are_numbered_from_one_per_run() {
    let mut store: InMemoryEventStore<TestState> = InMemoryEventStore::new();
    assert_eq!(store.append("a", vec![updated("x", 1), updated("y", 2)]).unwrap(), 2);
    assert_eq!(store.append("b", vec![Event::Completed]).unwrap(), 1);
    assert_eq!(store.append("a", vec![Event::Completed]).unwrap(), 3);
    assert_eq!(store.get("a", 2).unwrap().seq, 3);
    assert_eq!(store.get("b", 0).unwrap().seq, 1);
    assert!(store.get("b", 1).is_none());
}

#[test]
fn run_steps_with_budget_reports_running() {
    struct EmitStep;
    impl StepFn<TestState, TestState> for EmitStep {
        fn next(&self, state: &TestState) -> Result<Next<TestState>, KernelError> {
            Ok(Next::Emit(vec![Event::StateUpdated { step_id: None, payload: TestState(state.0 + 1) }]))
        }
    }
    let mut k = kernel(InMemoryEventStore::new(), NoopActionExecutor, EmitStep);
    let status = k.run_steps::<TestState, TestState>("budget", TestState(0), 3).unwrap();
    assert!(matches!(status, RunStatus::Running));
    assert_eq!(k.replay::<TestState, TestState>("budget", TestState(0)).unwrap(), TestState(3));
}

#[test]
fn interrupt_is_logged_and_blocks() {
    let mut k = kernel(InMemoryEventStore::new(), NoopActionExecutor, InterruptOnceStep(false));
    let status = k.run_until_blocked::<TestState, TestState>("int", TestState(0)).unwrap();
    match status {
        RunStatus::Blocked(info) => assert_eq!(info.interrupt.unwrap().value, TestState(7)),
        _ => panic!("expected blocked"),
    }
    let log = log_of(&k.events, "int");
    assert!(matches!(log.last(), Some(Event::Interrupted { value }) if *value == TestState(7)));
}

#[test]
fn action_ids_name_run_and_sequence() {
    assert_eq!(action_id("run-1", 4), "run-1-4");
}

#[test]
fn retry_steps_follow_policy() {
    assert_eq!(retry_step(RetryDecision::Fail, 0), RetryStep::GiveUp);
    assert_eq!(retry_step(RetryDecision::RetryAfterMs(0), 0), RetryStep::RetryNow);
    assert_eq!(retry_step(RetryDecision::RetryAfterMs(25), 3), RetryStep::WaitThenRetry(25));
    assert_eq!(retry_step(RetryDecision::RetryAfterMs(25), 10), RetryStep::Exhausted);
}

struct RetryAlwaysPolicy;

impl oris_runtime::kernel::policy::Policy<TestState> for RetryAlwaysPolicy {
    fn authorize(
        &self,
        _run_id: &str,
        _action: &Action<TestState>,
        _ctx: &oris_runtime::kernel::policy::PolicyCtx,
    ) -> Result<(), KernelError> {
        Ok(())
    }

    fn retry_strategy(&self, _err: &KernelError, _action: &Action<TestState>) -> RetryDecision {
        RetryDecision::Retry
    }
}

#[test]
fn retries_run_out_after_max_retries_and_fail_recoverably() {
    let mut k = Kernel {
        events: InMemoryEventStore::new(),
        snaps: None::<InMemorySnapshotStore<TestState>>,
        reducer: StateUpdatedOnlyReducer,
        executor: CountingActionExecutor { calls: Cell::new(0) },
        step: DoOnceStep,
        policy: RetryAlwaysPolicy,
        delay: NoDelay,
    };
    let status = k.run_until_blocked::<TestState, TestState>("run-retry", TestState(0)).unwrap();
    assert!(matches!(status, RunStatus::Failed { recoverable: true }));
    assert_eq!(k.executor.calls.get(), 11);
    let log = log_of(&k.events, "run-retry");
    assert_eq!(log.len(), 2);
    assert!(matches!(&log[0], Event::ActionRequested { action_id, .. } if action_id == "run-retry-1"));
    assert!(
        matches!(&log[1], Event::ActionFailed { action_id, error } if action_id == "run-retry-1" && error == "driver error: mock")
    );
}

#[test]
fn an_interrupt_appends_exactly_one_event() {
    let mut k = kernel(InMemoryEventStore::new(), NoopActionExecutor, InterruptOnceStep(false));
    let status = k.run_until_blocked::<TestState, TestState>("run-int", TestState(0)).unwrap();
    match status {
        RunStatus::Blocked(b) => {
            assert_eq!(b.interrupt.map(|i| i.value), Some(TestState(7)));
            assert_eq!(b.wait_signal, None);
        }
        other => panic!("unexpected: {:?}", other),
    }
    let log = log_of(&k.events, "run-int");
    assert_eq!(log.len(), 1);
    assert!(matches!(&log[0], Event::Interrupted { value } if *value == TestState(7)));
}
