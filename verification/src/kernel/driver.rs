//! Kernel driver: run until blocked, resume, replay.
use crate::kernel::event::{Action, ActionResult, Event, KernelError, SequencedEvent, number_from};
use crate::kernel::event_store::EventStore;
use crate::kernel::policy::{Policy, PolicyCtx, RetryDecision};
use crate::kernel::reducer::{Reducer, fold_events, lemma_fold_concat, replay_range};
use crate::kernel::snapshot::{Snapshot, SnapshotStore};
use crate::kernel::step::{ActionExecutor, InterruptInfo, Next, RetryDelay, StepFn};
use crate::text::{concat, decimal, u64_to_string};
use vstd::prelude::*;

verus! {

/// Retries of a failing action after the first failure.
pub const MAX_RETRIES: u32 = 10;

/// Status of a run after [Kernel::run_until_blocked] or [Kernel::resume].
#[derive(Clone, Debug)]
pub enum RunStatus<V> {
    /// The run completed.
    Completed,
    /// The run is blocked (interrupt or wait signal) and can be resumed.
    Blocked(BlockedInfo<V>),
    /// The run is still advancing (its step budget ran out).
    Running,
    /// The run failed; `recoverable` says whether a retry may succeed.
    Failed { recoverable: bool },
}

/// Why a run is blocked.
#[derive(Clone, Debug)]
pub struct BlockedInfo<V> {
    pub interrupt: Option<InterruptInfo<V>>,
    pub wait_signal: Option<String>,
}

/// Signal that resumes a blocked run.
#[derive(Clone, Debug)]
pub enum Signal<V> {
    Resume(V),
    Signal { name: String, value: V },
}

/// How the retry loop proceeds after a policy decision at a given attempt.
#[derive(Clone, Copy, Debug, PartialEq, Eq)]
pub enum RetryStep {
    /// Record the failure; the run fails unrecoverably.
    GiveUp,
    /// Retry at once.
    RetryNow,
    /// Wait this many milliseconds, then retry.
    WaitThenRetry(u64),
    /// The retry budget is spent: record the failure; the run fails recoverably.
    Exhausted,
}

pub open spec fn spec_retry_step(decision: RetryDecision, attempt: u32) -> RetryStep {
    match decision {
        RetryDecision::Fail => RetryStep::GiveUp,
        _ => if attempt >= MAX_RETRIES {
            RetryStep::Exhausted
        } else {
            match decision {
                RetryDecision::RetryAfterMs(ms) => if ms == 0 {
                    RetryStep::RetryNow
                } else {
                    RetryStep::WaitThenRetry(ms)
                },
                _ => RetryStep::RetryNow,
            }
        },
    }
}

/// The retry rule: `Fail` gives up; otherwise retry (after the requested wait)
/// until [MAX_RETRIES] retries have been made.
pub fn retry_step(decision: RetryDecision, attempt: u32) -> (r: RetryStep)
    ensures
        r == spec_retry_step(decision, attempt),
{
    match decision {
        RetryDecision::Fail => RetryStep::GiveUp,
        _ => {
            if attempt >= MAX_RETRIES {
                RetryStep::Exhausted
            } else {
                match decision {
                    RetryDecision::RetryAfterMs(ms) => if ms == 0 {
                        RetryStep::RetryNow
                    } else {
                        RetryStep::WaitThenRetry(ms)
                    },
                    _ => RetryStep::RetryNow,
                }
            }
        },
    }
}

/// The id of the action requested as event number `seq` of a run: `"<run_id>-<seq>"`.
pub open spec fn spec_action_id(run_id: Seq<char>, seq: nat) -> Seq<char> {
    run_id + "-"@ + decimal(seq)
}

pub fn action_id(run_id: &str, seq: u64) -> (r: String)
    ensures
        r@ == spec_action_id(run_id@, seq as nat),
{
    let a = concat(run_id, "-");
    let n = u64_to_string(seq);
    concat(a.as_str(), n.as_str())
}

/// `new` extends `old`.
pub open spec fn extends<V>(old: Seq<SequencedEvent<V>>, new: Seq<SequencedEvent<V>>) -> bool {
    &&& old.len() <= new.len()
    &&& forall|i: int| 0 <= i < old.len() ==> #[trigger] new[i] == old[i]
}

/// The last event of a run's log is the one its status reports.
pub open spec fn status_matches_log<V: Clone>(status: RunStatus<V>, log: Seq<SequencedEvent<V>>) -> bool {
    match status {
        RunStatus::Completed => log.len() > 0 && log.last().event is Completed,
        RunStatus::Blocked(b) => {
            &&& b.wait_signal is None
            &&& b.interrupt is Some
            &&& log.len() > 0
            &&& log.last().event matches Event::Interrupted { value } && cloned(
                b.interrupt->0.value,
                value,
            )
        },
        RunStatus::Failed { .. } => log.len() > 0 && log.last().event is ActionFailed,
        RunStatus::Running => true,
    }
}

/// What executing an action came to, before it is recorded.
pub enum ActionOutcome<V> {
    /// The executor answered success with this output.
    Succeeded(V),
    /// The executor answered a failure with this error.
    Failed(String),
    /// The executor answered errors and the policy gave up; the last error's message.
    GaveUp(String),
    /// The executor answered errors until the retry budget was spent; the last error's message.
    Exhausted(String),
}

/// Whether the retry loop goes on after a step: it retries, at once or after a wait.
pub open spec fn retrying(s: RetryStep) -> bool {
    s is RetryNow || s is WaitThenRetry
}

/// The executor answered `act` with the errors `errs`, in order (at most [MAX_RETRIES] retries),
/// the policy took `decisions[k]` on `errs[k]` at retry `k`, and each of the first `m` decisions
/// let the action be retried.
pub open spec fn errors_retried<V, X: ActionExecutor<V>, P: Policy<V>>(
    exec: X,
    pol: P,
    run_id: Seq<char>,
    act: Action<V>,
    errs: Seq<KernelError>,
    decisions: Seq<RetryDecision>,
    m: int,
) -> bool {
    &&& errs.len() <= MAX_RETRIES + 1
    &&& decisions.len() == errs.len()
    &&& forall|k: int|
        0 <= k < errs.len() ==> exec.answers(run_id, act, Err(#[trigger] errs[k])) && pol.decides(
            errs[k],
            act,
            k as u32,
            decisions[k],
        )
    &&& forall|k: int| 0 <= k < m ==> retrying(spec_retry_step(#[trigger] decisions[k], k as u32))
}

/// Every error the executor answered for `act` was retried as the policy decided.
pub open spec fn all_retried<V, X: ActionExecutor<V>, P: Policy<V>>(
    exec: X,
    pol: P,
    run_id: Seq<char>,
    act: Action<V>,
    errs: Seq<KernelError>,
    decisions: Seq<RetryDecision>,
) -> bool {
    errors_retried(exec, pol, run_id, act, errs, decisions, errs.len() as int)
}

/// The retry step the last of `decisions` came to.
pub open spec fn last_step(decisions: Seq<RetryDecision>) -> RetryStep {
    spec_retry_step(decisions.last(), (decisions.len() - 1) as u32)
}

/// The executor's errors `errs` for `act`, with the policy's `decisions` on them, ended the
/// retries: every decision but the last retried, and the last gave up or found the retry
/// budget spent.
pub open spec fn retries_ended<V, X: ActionExecutor<V>, P: Policy<V>>(
    exec: X,
    pol: P,
    run_id: Seq<char>,
    act: Action<V>,
    errs: Seq<KernelError>,
    decisions: Seq<RetryDecision>,
) -> bool {
    &&& errs.len() >= 1
    &&& errors_retried(exec, pol, run_id, act, errs, decisions, errs.len() - 1)
    &&& (last_step(decisions) is GiveUp || last_step(decisions) is Exhausted)
}

/// `r` is what executing `action` came to, `errs` being the executor's errors in order and
/// `decisions` the policy's decisions on them: a success or failure is the executor's answer
/// after every error was retried; giving up or running out of retries reports the last error.
pub open spec fn performed<V, X: ActionExecutor<V>, P: Policy<V>>(
    exec: X,
    pol: P,
    run_id: Seq<char>,
    action: Action<V>,
    r: ActionOutcome<V>,
    errs: Seq<KernelError>,
    decisions: Seq<RetryDecision>,
) -> bool {
    match r {
        ActionOutcome::Succeeded(out) => all_retried(exec, pol, run_id, action, errs, decisions)
            && exec.answers(run_id, action, Ok(ActionResult::Success(out))),
        ActionOutcome::Failed(e) => all_retried(exec, pol, run_id, action, errs, decisions)
            && exec.answers(run_id, action, Ok(ActionResult::Failure(e))),
        ActionOutcome::GaveUp(m) => retries_ended(exec, pol, run_id, action, errs, decisions)
            && last_step(decisions) is GiveUp && m@ == errs.last().rendered(),
        ActionOutcome::Exhausted(m) => retries_ended(exec, pol, run_id, action, errs, decisions)
            && last_step(decisions) is Exhausted && m@ == errs.last().rendered(),
    }
}

/// The events of a stretch of log.
pub open spec fn events_of<V>(log: Seq<SequencedEvent<V>>) -> Seq<Event<V>> {
    log.map_values(|e: SequencedEvent<V>| e.event)
}

/// `e` requests `act` as the event after position `pos`, under the id `"<run>-<pos+1>"`.
pub open spec fn requested<V>(e: Event<V>, run_id: Seq<char>, pos: int, act: Action<V>) -> bool {
    match e {
        Event::ActionRequested { action_id, action } => action_id@ == spec_action_id(run_id, (pos + 1) as nat) && action == act,
        _ => false,
    }
}

/// `e` records the outcome the executor answered for the action requested after `pos`.
pub open spec fn recorded_outcome<V, X: ActionExecutor<V>>(exec: X, run_id: Seq<char>, pos: int, act: Action<V>, e: Event<V>) -> bool {
    match e {
        Event::ActionSucceeded { action_id, output } => action_id@ == spec_action_id(run_id, (pos + 1) as nat) && exec.answers(
            run_id,
            act,
            Ok(ActionResult::Success(output)),
        ),
        Event::ActionFailed { action_id, error } => action_id@ == spec_action_id(run_id, (pos + 1) as nat) && exec.answers(
            run_id,
            act,
            Ok(ActionResult::Failure(error)),
        ),
        _ => false,
    }
}

/// `block`, appended at log position `pos`, is what a step answering `a` records when the run
/// goes on: the events of an `Emit`; or, once the policy authorized the action, its request and
/// the outcome the executor answered after every error it answered before was retried.
pub open spec fn goes_on<V, X: ActionExecutor<V>, P: Policy<V>>(
    exec: X,
    pol: P,
    run_id: Seq<char>,
    pos: int,
    a: Next<V>,
    block: Seq<Event<V>>,
) -> bool {
    match a {
        Next::Emit(evs) => block == evs@,
        Next::Do(act) => {
            &&& pol.permits(run_id, act)
            &&& block.len() == 2
            &&& requested(block[0], run_id, pos, act)
            &&& recorded_outcome(exec, run_id, pos, act, block[1])
            &&& exists|errs: Seq<KernelError>, decisions: Seq<RetryDecision>|
                #[trigger] all_retried(exec, pol, run_id, act, errs, decisions)
        },
        _ => false,
    }
}

/// `e` records the failure of the action requested after `pos` with `message`.
pub open spec fn failure_recorded<V>(e: Event<V>, run_id: Seq<char>, pos: int, message: Seq<char>) -> bool {
    match e {
        Event::ActionFailed { action_id, error } => action_id@ == spec_action_id(run_id, (pos + 1) as nat) && error@ == message,
        _ => false,
    }
}

/// `block`, appended at log position `pos`, is what a step answering `a` records when the run
/// stops with `status`: `Interrupted` with the interrupt's value and a blocked status; `Completed`;
/// or, once the policy authorized the action, its request and the failure the executor's errors
/// `errs` came to under the policy's `decisions` (see [retries_ended]): recoverable exactly when
/// the retry budget was spent.
pub open spec fn stops<V: Clone, X: ActionExecutor<V>, P: Policy<V>>(
    exec: X,
    pol: P,
    run_id: Seq<char>,
    pos: int,
    a: Next<V>,
    block: Seq<Event<V>>,
    status: RunStatus<V>,
    errs: Seq<KernelError>,
    decisions: Seq<RetryDecision>,
) -> bool {
    match a {
        Next::Interrupt(info) => block.len() == 1 && match block[0] {
            Event::Interrupted { value } => cloned(info.value, value) && status == RunStatus::Blocked(
                BlockedInfo { interrupt: Some(info), wait_signal: None },
            ),
            _ => false,
        },
        Next::Complete => block.len() == 1 && block[0] is Completed && status is Completed,
        Next::Do(act) => {
            &&& pol.permits(run_id, act)
            &&& block.len() == 2
            &&& requested(block[0], run_id, pos, act)
            &&& retries_ended(exec, pol, run_id, act, errs, decisions)
            &&& failure_recorded(block[1], run_id, pos, errs.last().rendered())
            &&& match status {
                RunStatus::Failed { recoverable } => (recoverable <==> last_step(decisions) is Exhausted)
                    && (recoverable ==> errs.len() == MAX_RETRIES + 1),
                _ => false,
            }
        },
        Next::Emit(_) => false,
    }
}

/// A run stopped by a failing action under a policy that never retries that action: the
/// executor was asked once, and the failure is not recoverable.
pub proof fn lemma_never_retried_fails_at_once<V: Clone, X: ActionExecutor<V>, P: Policy<V>>(
    exec: X,
    pol: P,
    run_id: Seq<char>,
    pos: int,
    act: Action<V>,
    block: Seq<Event<V>>,
    status: RunStatus<V>,
    errs: Seq<KernelError>,
    decisions: Seq<RetryDecision>,
)
    requires
        forall|e: KernelError, k: u32, d: RetryDecision| #[trigger] pol.decides(e, act, k, d) ==> d == RetryDecision::Fail,
        stops(exec, pol, run_id, pos, Next::Do(act), block, status, errs, decisions),
    ensures
        errs.len() == 1,
        status == (RunStatus::<V>::Failed { recoverable: false }),
{
    assert(pol.decides(errs[0], act, 0int as u32, decisions[0]));
    if errs.len() > 1 {
        assert(retrying(spec_retry_step(decisions[0], 0int as u32)));
    }
}

/// A run stopped by a failing action under a policy that always retries that action: the
/// executor was asked [MAX_RETRIES] + 1 times, and the failure is recoverable.
pub proof fn lemma_always_retried_runs_out<V: Clone, X: ActionExecutor<V>, P: Policy<V>>(
    exec: X,
    pol: P,
    run_id: Seq<char>,
    pos: int,
    act: Action<V>,
    block: Seq<Event<V>>,
    status: RunStatus<V>,
    errs: Seq<KernelError>,
    decisions: Seq<RetryDecision>,
)
    requires
        forall|e: KernelError, k: u32, d: RetryDecision| #[trigger] pol.decides(e, act, k, d) ==> d != RetryDecision::Fail,
        stops(exec, pol, run_id, pos, Next::Do(act), block, status, errs, decisions),
    ensures
        errs.len() == MAX_RETRIES + 1,
        status == (RunStatus::<V>::Failed { recoverable: true }),
{
    let last = errs.len() - 1;
    assert(pol.decides(errs[last], act, last as u32, decisions[last]));
    assert(decisions.last() == decisions[last]);
}

/// The step at log position `pos` was handed `state`, the fold of the log up to there, and
/// answered `a`.
pub open spec fn step_at<S, V, R: Reducer<S, V>, St: StepFn<S, V>>(
    red: R,
    st: St,
    initial: S,
    log: Seq<SequencedEvent<V>>,
    pos: int,
    state: S,
    a: Next<V>,
) -> bool {
    fold_events(red, initial, log.take(pos)) == Some(state) && st.answers(state, Ok(a))
}

/// Step `i`, cut at `cuts`, went on.
pub open spec fn step_ok<S, V, R: Reducer<S, V>, St: StepFn<S, V>, X: ActionExecutor<V>, P: Policy<V>>(
    red: R,
    st: St,
    exec: X,
    pol: P,
    run_id: Seq<char>,
    initial: S,
    log: Seq<SequencedEvent<V>>,
    start: int,
    cuts: Seq<int>,
    states: Seq<S>,
    answers: Seq<Next<V>>,
    i: int,
) -> bool {
    &&& start <= cuts[i] <= cuts[i + 1] <= log.len()
    &&& step_at(red, st, initial, log, cuts[i], states[i], answers[i])
    &&& goes_on(exec, pol, run_id, cuts[i], answers[i], events_of(log.subrange(cuts[i], cuts[i + 1])))
}

/// The first `m` steps, cut at `cuts`, each went on.
pub open spec fn steps_go_on<S, V, R: Reducer<S, V>, St: StepFn<S, V>, X: ActionExecutor<V>, P: Policy<V>>(
    red: R,
    st: St,
    exec: X,
    pol: P,
    run_id: Seq<char>,
    initial: S,
    log: Seq<SequencedEvent<V>>,
    start: int,
    cuts: Seq<int>,
    states: Seq<S>,
    answers: Seq<Next<V>>,
    m: int,
) -> bool {
    forall|i: int| 0 <= i < m ==> #[trigger] step_ok(red, st, exec, pol, run_id, initial, log, start, cuts, states, answers, i)
}

/// Every step so far went on, and the log ends where the last one stopped.
pub open spec fn going_on<S, V, R: Reducer<S, V>, St: StepFn<S, V>, X: ActionExecutor<V>, P: Policy<V>>(
    red: R,
    st: St,
    exec: X,
    pol: P,
    run_id: Seq<char>,
    initial: S,
    log: Seq<SequencedEvent<V>>,
    start: int,
    cuts: Seq<int>,
    states: Seq<S>,
    answers: Seq<Next<V>>,
) -> bool {
    let n = answers.len() as int;
    &&& cuts.len() == n + 1 && states.len() == n
    &&& cuts[0] == start && cuts[n] == log.len()
    &&& steps_go_on(red, st, exec, pol, run_id, initial, log, start, cuts, states, answers, n)
}

/// The run from log position `start` took the steps `answers`, cut at `cuts` and handed
/// `states`: with status `Running`, `max_steps` steps that all went on; otherwise steps that
/// went on, then one that stopped with `status` (see [stops]).
pub open spec fn run_shape<S, V: Clone, R: Reducer<S, V>, St: StepFn<S, V>, X: ActionExecutor<V>, P: Policy<V>>(
    red: R,
    st: St,
    exec: X,
    pol: P,
    run_id: Seq<char>,
    initial: S,
    log: Seq<SequencedEvent<V>>,
    start: int,
    cuts: Seq<int>,
    states: Seq<S>,
    answers: Seq<Next<V>>,
    errs: Seq<KernelError>,
    decisions: Seq<RetryDecision>,
    status: RunStatus<V>,
    max_steps: nat,
) -> bool {
    let n = answers.len() as int;
    if status is Running {
        going_on(red, st, exec, pol, run_id, initial, log, start, cuts, states, answers) && n == max_steps
    } else {
        &&& 1 <= n <= max_steps
        &&& cuts.len() == n + 1 && states.len() == n
        &&& cuts[0] == start && cuts[n] == log.len()
        &&& start <= cuts[n - 1] <= cuts[n]
        &&& steps_go_on(red, st, exec, pol, run_id, initial, log, start, cuts, states, answers, n - 1)
        &&& step_at(red, st, initial, log, cuts[n - 1], states[n - 1], answers[n - 1])
        &&& stops(exec, pol, run_id, cuts[n - 1], answers[n - 1], events_of(log.subrange(cuts[n - 1], cuts[n])), status, errs, decisions)
    }
}

/// Events appended to a log: the old log is kept and the new stretch holds the events.
proof fn lemma_block_appended<V>(log_i: Seq<SequencedEvent<V>>, log_n: Seq<SequencedEvent<V>>, evs: Seq<Event<V>>)
    requires
        (evs.len() == 0 && log_n == log_i) || log_n == log_i + number_from(evs, (log_i.len() + 1) as int),
    ensures
        log_n.len() == log_i.len() + evs.len(),
        log_n.take(log_i.len() as int) == log_i,
        events_of(log_n.subrange(log_i.len() as int, log_n.len() as int)) == evs,
{
    assert(log_n.take(log_i.len() as int) =~= log_i);
    assert(events_of(log_n.subrange(log_i.len() as int, log_n.len() as int)) =~= evs);
}

/// Two events appended one after the other.
proof fn lemma_two_appended<V>(
    log_i: Seq<SequencedEvent<V>>,
    log_r: Seq<SequencedEvent<V>>,
    log_n: Seq<SequencedEvent<V>>,
    e0: Event<V>,
    e1: Event<V>,
)
    requires
        log_r == log_i + number_from(seq![e0], (log_i.len() + 1) as int),
        log_n == log_r + number_from(seq![e1], (log_r.len() + 1) as int),
    ensures
        log_n.len() == log_i.len() + 2,
        log_n.take(log_i.len() as int) == log_i,
        events_of(log_n.subrange(log_i.len() as int, log_n.len() as int)) == seq![e0, e1],
{
    assert(log_n.take(log_i.len() as int) =~= log_i);
    assert(events_of(log_n.subrange(log_i.len() as int, log_n.len() as int)) =~= seq![e0, e1]);
}

/// Steps that went on over a log still went on once the log grew.
proof fn lemma_going_on_grows<S, V, R: Reducer<S, V>, St: StepFn<S, V>, X: ActionExecutor<V>, P: Policy<V>>(
    red: R,
    st: St,
    exec: X,
    pol: P,
    run_id: Seq<char>,
    initial: S,
    log_i: Seq<SequencedEvent<V>>,
    log_n: Seq<SequencedEvent<V>>,
    start: int,
    cuts: Seq<int>,
    states: Seq<S>,
    answers: Seq<Next<V>>,
)
    requires
        0 <= start,
        going_on(red, st, exec, pol, run_id, initial, log_i, start, cuts, states, answers),
        log_i.len() <= log_n.len(),
        log_n.take(log_i.len() as int) == log_i,
    ensures
        steps_go_on(red, st, exec, pol, run_id, initial, log_n, start, cuts, states, answers, answers.len() as int),
{
    let n = answers.len() as int;
    let len_i = log_i.len() as int;
    assert forall|k: int| 0 <= k < len_i implies #[trigger] log_n[k] == log_i[k] by {
        assert(log_n.take(len_i)[k] == log_n[k]);
    }
    assert forall|i: int| 0 <= i < n implies #[trigger] step_ok(red, st, exec, pol, run_id, initial, log_n, start, cuts, states, answers, i) by {
        assert(step_ok(red, st, exec, pol, run_id, initial, log_i, start, cuts, states, answers, i));
        assert(log_n.take(cuts[i]) =~= log_i.take(cuts[i]));
        assert(log_n.subrange(cuts[i], cuts[i + 1]) =~= log_i.subrange(cuts[i], cuts[i + 1]));
    }
}

/// A step that went on, added after the others.
proof fn lemma_going_on_step<S, V, R: Reducer<S, V>, St: StepFn<S, V>, X: ActionExecutor<V>, P: Policy<V>>(
    red: R,
    st: St,
    exec: X,
    pol: P,
    run_id: Seq<char>,
    initial: S,
    log: Seq<SequencedEvent<V>>,
    start: int,
    cuts: Seq<int>,
    states: Seq<S>,
    answers: Seq<Next<V>>,
    pos: int,
    state: S,
    a: Next<V>,
)
    requires
        cuts.len() == answers.len() + 1,
        states.len() == answers.len(),
        cuts[0] == start,
        cuts[answers.len() as int] == pos,
        0 <= start <= pos <= log.len(),
        steps_go_on(red, st, exec, pol, run_id, initial, log, start, cuts, states, answers, answers.len() as int),
        step_at(red, st, initial, log, pos, state, a),
        goes_on(exec, pol, run_id, pos, a, events_of(log.subrange(pos, log.len() as int))),
    ensures
        going_on(red, st, exec, pol, run_id, initial, log, start, cuts.push(log.len() as int), states.push(state), answers.push(a)),
{
    let n = answers.len() as int;
    let c2 = cuts.push(log.len() as int);
    let s2 = states.push(state);
    let a2 = answers.push(a);
    assert forall|i: int| 0 <= i < n + 1 implies #[trigger] step_ok(red, st, exec, pol, run_id, initial, log, start, c2, s2, a2, i) by {
        if i < n {
            assert(step_ok(red, st, exec, pol, run_id, initial, log, start, cuts, states, answers, i));
            assert(c2[i] == cuts[i] && c2[i + 1] == cuts[i + 1] && a2[i] == answers[i] && s2[i] == states[i]);
        } else {
            assert(c2[i] == pos && c2[i + 1] == log.len() && a2[i] == a && s2[i] == state);
        }
    }
    assert(steps_go_on(red, st, exec, pol, run_id, initial, log, start, c2, s2, a2, n + 1));
}

/// A step that stopped the run, added after the others.
proof fn lemma_shape_stop<S, V: Clone, R: Reducer<S, V>, St: StepFn<S, V>, X: ActionExecutor<V>, P: Policy<V>>(
    red: R,
    st: St,
    exec: X,
    pol: P,
    run_id: Seq<char>,
    initial: S,
    log: Seq<SequencedEvent<V>>,
    start: int,
    cuts: Seq<int>,
    states: Seq<S>,
    answers: Seq<Next<V>>,
    pos: int,
    state: S,
    a: Next<V>,
    errs: Seq<KernelError>,
    decisions: Seq<RetryDecision>,
    status: RunStatus<V>,
    max_steps: nat,
)
    requires
        cuts.len() == answers.len() + 1,
        states.len() == answers.len(),
        cuts[0] == start,
        cuts[answers.len() as int] == pos,
        0 <= start <= pos <= log.len(),
        answers.len() + 1 <= max_steps,
        !(status is Running),
        steps_go_on(red, st, exec, pol, run_id, initial, log, start, cuts, states, answers, answers.len() as int),
        step_at(red, st, initial, log, pos, state, a),
        stops(exec, pol, run_id, pos, a, events_of(log.subrange(pos, log.len() as int)), status, errs, decisions),
    ensures
        run_shape(red, st, exec, pol, run_id, initial, log, start, cuts.push(log.len() as int), states.push(state), answers.push(a), errs, decisions, status, max_steps),
{
    let n = answers.len() as int;
    let c2 = cuts.push(log.len() as int);
    let s2 = states.push(state);
    let a2 = answers.push(a);
    assert forall|i: int| 0 <= i < n implies #[trigger] step_ok(red, st, exec, pol, run_id, initial, log, start, c2, s2, a2, i) by {
        assert(step_ok(red, st, exec, pol, run_id, initial, log, start, cuts, states, answers, i));
        assert(c2[i] == cuts[i] && c2[i + 1] == cuts[i + 1] && a2[i] == answers[i] && s2[i] == states[i]);
    }
    assert(steps_go_on(red, st, exec, pol, run_id, initial, log, start, c2, s2, a2, n));
    assert(c2[n] == pos && c2[n + 1] == log.len());
    assert(a2[n] == a && s2[n] == state);
}

/// Event log, optional snapshot store, reducer, executor, step function,
/// policy and the wait used between retries.
pub struct Kernel<E, Sn, R, X, St, P, D> {
    pub events: E,
    pub snaps: Option<Sn>,
    pub reducer: R,
    pub executor: X,
    pub step: St,
    pub policy: P,
    pub delay: D,
}

impl<E, Sn, R, X, St, P, D> Kernel<E, Sn, R, X, St, P, D> {
    /// Appends `evs` to the run's log and applies them to `state`.
    fn emit<S, V>(&mut self, run_id: &str, state: S, evs: Vec<Event<V>>, Ghost(initial): Ghost<S>) -> (r: Result<S, KernelError>) where
        E: EventStore<V>,
        R: Reducer<S, V>,

        requires
            old(self).events.well_formed(),
            fold_events(old(self).reducer, initial, old(self).events.log(run_id@)) == Some(state),
        ensures
            final(self).events.well_formed(),
            final(self).reducer == old(self).reducer,
            final(self).step == old(self).step,
            final(self).executor == old(self).executor,
            final(self).policy == old(self).policy,
            extends(old(self).events.log(run_id@), final(self).events.log(run_id@)),
            forall|other: Seq<char>|
                other != run_id@ ==> #[trigger] final(self).events.log(other) == old(self).events.log(other),
            r matches Ok(t) ==> {
                &&& final(self).events.log(run_id@) == old(self).events.log(run_id@) + number_from(
                    evs@,
                    (old(self).events.log(run_id@).len() + 1) as int,
                )
                &&& fold_events(final(self).reducer, initial, final(self).events.log(run_id@)) == Some(t)
            },
            r is Ok <==> old(self).events.readable(run_id@) && old(self).events.accepts(run_id@, evs@.len())
                && fold_events(
                old(self).reducer,
                initial,
                old(self).events.log(run_id@) + number_from(evs@, (old(self).events.log(run_id@).len() + 1) as int),
            ) is Some,
    {
        let ghost log0 = self.events.log(run_id@);
        let ghost added = number_from(evs@, (log0.len() + 1) as int);
        let before = self.events.head(run_id)?;
        let head = self.events.append(run_id, evs)?;
        proof {
            let log1 = self.events.log(run_id@);
            assert(log1.subrange(0, log0.len() as int) =~= log0);
            assert(log1 =~= log0 + log1.subrange(before as int, head as int));
            lemma_fold_concat(self.reducer, initial, log0, log1.subrange(before as int, head as int));
            assert(log1.subrange(before as int, head as int) =~= added);
        }
        replay_range(&self.events, &self.reducer, run_id, state, before, head)
    }

    /// Executes `action` for the run, retrying errors as the policy decides and as
    /// [retry_step] allows; nothing is recorded. Answers what happened, the executor's
    /// errors in order and the policy's decisions on them.
    fn perform_action<V>(&self, run_id: &str, action: &Action<V>) -> (r: (ActionOutcome<V>, Ghost<(Seq<KernelError>, Seq<RetryDecision>)>)) where
        X: ActionExecutor<V>,
        P: Policy<V>,
        D: RetryDelay,

        ensures
            performed(self.executor, self.policy, run_id@, *action, r.0, r.1@.0, r.1@.1),
    {
        let mut attempt: u32 = 0;
        let ghost mut errs: Seq<KernelError> = Seq::empty();
        let ghost mut decisions: Seq<RetryDecision> = Seq::empty();
        let mut result = self.executor.execute(run_id, action);
        loop
            invariant
                attempt <= MAX_RETRIES,
                errs.len() == attempt,
                all_retried(self.executor, self.policy, run_id@, *action, errs, decisions),
                self.executor.answers(run_id@, *action, result),
            decreases MAX_RETRIES - attempt,
        {
            match result {
                Ok(ActionResult::Success(output)) => {
                    return (ActionOutcome::Succeeded(output), Ghost((errs, decisions)));
                },
                Ok(ActionResult::Failure(error)) => {
                    return (ActionOutcome::Failed(error), Ghost((errs, decisions)));
                },
                Err(err) => {
                    let decision = self.policy.retry_strategy_attempt(&err, action, attempt);
                    let ghost all = errs.push(err);
                    let ghost alld = decisions.push(decision);
                    let step = retry_step(decision, attempt);
                    proof {
                        assert forall|k: int| 0 <= k < all.len() implies self.executor.answers(run_id@, *action, Err(#[trigger] all[k]))
                            && self.policy.decides(all[k], *action, k as u32, alld[k]) by {
                            if k < errs.len() {
                                assert(all[k] == errs[k] && alld[k] == decisions[k]);
                            }
                        }
                        assert forall|k: int| 0 <= k < attempt implies retrying(spec_retry_step(#[trigger] alld[k], k as u32)) by {
                            assert(alld[k] == decisions[k]);
                        }
                        assert(errors_retried(self.executor, self.policy, run_id@, *action, all, alld, attempt as int));
                        assert(alld.last() == decision && all.last() == err);
                    }
                    match step {
                        RetryStep::GiveUp => {
                            return (ActionOutcome::GaveUp(err.message()), Ghost((all, alld)));
                        },
                        RetryStep::Exhausted => {
                            return (ActionOutcome::Exhausted(err.message()), Ghost((all, alld)));
                        },
                        RetryStep::WaitThenRetry(ms) => {
                            self.delay.wait_ms(ms);
                        },
                        RetryStep::RetryNow => {},
                    }
                    proof {
                        assert forall|k: int| 0 <= k < all.len() implies retrying(spec_retry_step(#[trigger] alld[k], k as u32)) by {
                            if k < attempt {
                                assert(alld[k] == decisions[k]);
                            }
                        }
                        errs = all;
                        decisions = alld;
                    }
                    attempt = attempt + 1;
                    result = self.executor.execute(run_id, action);
                },
            }
        }
    }

    /// Runs until the step completes, interrupts or fails, or until `max_steps`
    /// steps have been taken (then the status is [RunStatus::Running]).
    ///
    /// The state starts as the replay of the run's log from `initial_state`;
    /// every event the run appends is applied to it, and each step is handed the state the
    /// log so far gives. What each step records is [run_shape]: the events of an `Emit`;
    /// for `Do`, once the policy authorized the action, the request and the outcome the
    /// executor answered, each error retried as the policy decided and [retry_step] allows (a
    /// failure stops the run, recoverable exactly when the retries ran out); for `Interrupt`,
    /// `Interrupted` and a blocked status; for `Complete`, `Completed`. Errors of the store,
    /// reducer, step function, policy or executor are passed on.
    pub fn run_steps<S, V: Clone>(&mut self, run_id: &str, initial_state: S, max_steps: u64) -> (r: Result<RunStatus<V>, KernelError>) where
        E: EventStore<V>,
        R: Reducer<S, V>,
        X: ActionExecutor<V>,
        St: StepFn<S, V>,
        P: Policy<V>,
        D: RetryDelay,

        requires
            old(self).events.well_formed(),
        ensures
            final(self).events.well_formed(),
            extends(old(self).events.log(run_id@), final(self).events.log(run_id@)),
            forall|other: Seq<char>|
                other != run_id@ ==> #[trigger] final(self).events.log(other) == old(self).events.log(other),
            !old(self).events.readable(run_id@) || fold_events(old(self).reducer, initial_state, old(self).events.log(run_id@)) is None
                ==> r is Err && final(self).events.log(run_id@) == old(self).events.log(run_id@),
            r matches Ok(status) ==> {
                &&& fold_events(old(self).reducer, initial_state, final(self).events.log(run_id@)) is Some
                &&& status_matches_log(status, final(self).events.log(run_id@))
                &&& exists|cuts: Seq<int>, states: Seq<S>, answers: Seq<Next<V>>, errs: Seq<KernelError>, decisions: Seq<RetryDecision>|
                    #[trigger] run_shape(
                        old(self).reducer,
                        old(self).step,
                        old(self).executor,
                        old(self).policy,
                        run_id@,
                        initial_state,
                        final(self).events.log(run_id@),
                        old(self).events.log(run_id@).len() as int,
                        cuts,
                        states,
                        answers,
                        errs,
                        decisions,
                        status,
                        max_steps as nat,
                    )
            },
            max_steps == 0 ==> (r is Ok <==> old(self).events.readable(run_id@) && fold_events(
                old(self).reducer,
                initial_state,
                old(self).events.log(run_id@),
            ) is Some) && (r is Ok ==> (r matches Ok(RunStatus::Running) && final(self).events.log(run_id@) == old(
                self,
            ).events.log(run_id@))),
    {
        let ghost log0 = self.events.log(run_id@);
        let ghost red = self.reducer;
        let ghost stp = self.step;
        let ghost exe = self.executor;
        let ghost pl = self.policy;
        let ghost initial = initial_state;
        let head0 = self.events.head(run_id)?;
        proof {
            assert(log0.subrange(0, head0 as int) =~= log0);
        }
        let mut state = replay_range(&self.events, &self.reducer, run_id, initial_state, 0, head0)?;
        proof {
            assert(log0.subrange(0, log0.len() as int) =~= log0);
        }
        let ghost mut cuts: Seq<int> = seq![log0.len() as int];
        let ghost mut states: Seq<S> = Seq::empty();
        let ghost mut answers: Seq<Next<V>> = Seq::empty();
        let mut steps: u64 = 0;
        while steps < max_steps
            invariant
                max_steps == 0 ==> self.events.log(run_id@) == log0,
                self.events.well_formed(),
                self.reducer == red,
                self.step == stp,
                self.executor == exe,
                self.policy == pl,
                extends(log0, self.events.log(run_id@)),
                forall|other: Seq<char>|
                    other != run_id@ ==> #[trigger] self.events.log(other) == old(self).events.log(other),
                log0 == old(self).events.log(run_id@),
                red == old(self).reducer,
                stp == old(self).step,
                exe == old(self).executor,
                pl == old(self).policy,
                initial == initial_state,
                fold_events(red, initial, self.events.log(run_id@)) == Some(state),
                steps <= max_steps,
                old(self).events.readable(run_id@),
                fold_events(red, initial, log0) is Some,
                going_on(red, stp, exe, pl, run_id@, initial, self.events.log(run_id@), log0.len() as int, cuts, states, answers),
                answers.len() == steps,
            decreases max_steps - steps,
        {
            let ghost log_i = self.events.log(run_id@);
            let ghost state_i = state;
            let next = self.step.next(&state)?;
            let ghost answer = next;
            proof {
                assert(log_i.take(log_i.len() as int) =~= log_i);
            }
            match next {
                Next::Emit(evs) => {
                    let ghost evs_v = evs@;
                    if evs.len() > 0 {
                        state = self.emit(run_id, state, evs, Ghost(initial))?;
                    }
                    proof {
                        let log_n = self.events.log(run_id@);
                        lemma_block_appended(log_i, log_n, evs_v);
                        lemma_going_on_grows(red, stp, exe, pl, run_id@, initial, log_i, log_n, log0.len() as int, cuts, states, answers);
                        lemma_going_on_step(red, stp, exe, pl, run_id@, initial, log_n, log0.len() as int, cuts, states, answers, log_i.len() as int, state_i, answer);
                        cuts = cuts.push(log_n.len() as int);
                        states = states.push(state_i);
                        answers = answers.push(answer);
                    }
                },
                Next::Do(action) => {
                    let ctx = PolicyCtx::new();
                    let authorized = self.policy.authorize(run_id, &action, &ctx);
                    if let Err(e) = authorized {
                        return Err(e);
                    }
                    let before = self.events.head(run_id)?;
                    if before == u64::MAX {
                        return Err(KernelError::Driver("event log is full".to_owned()));
                    }
                    let id = action_id(run_id, before + 1);
                    let ghost act = action;
                    let mut requested: Vec<Event<V>> = Vec::new();
                    requested.push(Event::ActionRequested { action_id: id.clone(), action });
                    state = self.emit(run_id, state, requested, Ghost(initial))?;
                    let ghost log_r = self.events.log(run_id@);
                    proof {
                        assert(log_r[before as int] == number_from(seq![Event::ActionRequested { action_id: id, action: act }], (before + 1) as int)[0]);
                    }
                    let (outcome, Ghost(tried)) = match self.events.get(run_id, before) {
                        Some(se) => match &se.event {
                            Event::ActionRequested { action: requested_action, .. } => self.perform_action(run_id, requested_action),
                            _ => {
                                return Err(KernelError::Driver("requested action not found".to_owned()));
                            },
                        },
                        None => {
                            return Err(KernelError::Driver("requested action not found".to_owned()));
                        },
                    };
                    let ghost errs = tried.0;
                    let ghost decisions = tried.1;
                    let (done, stop): (Event<V>, Option<bool>) = match outcome {
                        ActionOutcome::Succeeded(output) => (Event::ActionSucceeded { action_id: id, output }, None),
                        ActionOutcome::Failed(error) => (Event::ActionFailed { action_id: id, error }, None),
                        ActionOutcome::GaveUp(error) => (Event::ActionFailed { action_id: id, error }, Some(false)),
                        ActionOutcome::Exhausted(error) => (Event::ActionFailed { action_id: id, error }, Some(true)),
                    };
                    let ghost done_v = done;
                    let mut recorded: Vec<Event<V>> = Vec::new();
                    recorded.push(done);
                    state = self.emit(run_id, state, recorded, Ghost(initial))?;
                    proof {
                        let log_n = self.events.log(run_id@);
                        let block = seq![Event::ActionRequested { action_id: id, action: act }, done_v];
                        lemma_two_appended(log_i, log_r, log_n, block[0], done_v);
                        lemma_going_on_grows(red, stp, exe, pl, run_id@, initial, log_i, log_n, log0.len() as int, cuts, states, answers);
                    }
                    match stop {
                        Some(recoverable) => {
                            let status = RunStatus::Failed { recoverable };
                            proof {
                                let log_n = self.events.log(run_id@);
                                assert(log_n.last() == log_n[log_n.len() - 1]);
                                lemma_shape_stop(red, stp, exe, pl, run_id@, initial, log_n, log0.len() as int, cuts, states, answers, log_i.len() as int, state_i, answer, errs, decisions, status, max_steps as nat);
                            }
                            return Ok(status);
                        },
                        None => {
                            proof {
                                let log_n = self.events.log(run_id@);
                                assert(all_retried(exe, pl, run_id@, act, errs, decisions));
                                lemma_going_on_step(red, stp, exe, pl, run_id@, initial, log_n, log0.len() as int, cuts, states, answers, log_i.len() as int, state_i, answer);
                                cuts = cuts.push(log_n.len() as int);
                                states = states.push(state_i);
                                answers = answers.push(answer);
                            }
                        },
                    }
                },
                Next::Interrupt(info) => {
                    let mut evs: Vec<Event<V>> = Vec::new();
                    evs.push(Event::Interrupted { value: info.value.clone() });
                    let ghost evs_v = evs@;
                    state = self.emit(run_id, state, evs, Ghost(initial))?;
                    let status = RunStatus::Blocked(BlockedInfo { interrupt: Some(info), wait_signal: None });
                    proof {
                        let log_n = self.events.log(run_id@);
                        assert(log_n.last() == log_n[log_n.len() - 1]);
                        lemma_block_appended(log_i, log_n, evs_v);
                        lemma_going_on_grows(red, stp, exe, pl, run_id@, initial, log_i, log_n, log0.len() as int, cuts, states, answers);
                        lemma_shape_stop(red, stp, exe, pl, run_id@, initial, log_n, log0.len() as int, cuts, states, answers, log_i.len() as int, state_i, answer, Seq::empty(), Seq::empty(), status, max_steps as nat);
                    }
                    return Ok(status);
                },
                Next::Complete => {
                    let mut evs: Vec<Event<V>> = Vec::new();
                    evs.push(Event::Completed);
                    let ghost evs_v = evs@;
                    state = self.emit(run_id, state, evs, Ghost(initial))?;
                    proof {
                        let log_n = self.events.log(run_id@);
                        lemma_block_appended(log_i, log_n, evs_v);
                        lemma_going_on_grows(red, stp, exe, pl, run_id@, initial, log_i, log_n, log0.len() as int, cuts, states, answers);
                        lemma_shape_stop(red, stp, exe, pl, run_id@, initial, log_n, log0.len() as int, cuts, states, answers, log_i.len() as int, state_i, answer, Seq::empty(), Seq::empty(), RunStatus::Completed, max_steps as nat);
                    }
                    return Ok(RunStatus::Completed);
                },
            }
            steps = steps + 1;
        }
        proof {
            let log_n = self.events.log(run_id@);
            assert(run_shape(red, stp, exe, pl, run_id@, initial, log_n, log0.len() as int, cuts, states, answers, Seq::empty(), Seq::empty(), RunStatus::Running, max_steps as nat));
        }
        Ok(RunStatus::Running)
    }

    /// Runs until the step completes, interrupts or fails.
    pub fn run_until_blocked<S, V: Clone>(&mut self, run_id: &str, initial_state: S) -> (r: Result<RunStatus<V>, KernelError>) where
        E: EventStore<V>,
        R: Reducer<S, V>,
        X: ActionExecutor<V>,
        St: StepFn<S, V>,
        P: Policy<V>,
        D: RetryDelay,

        requires
            old(self).events.well_formed(),
        ensures
            final(self).events.well_formed(),
            extends(old(self).events.log(run_id@), final(self).events.log(run_id@)),
            forall|other: Seq<char>|
                other != run_id@ ==> #[trigger] final(self).events.log(other) == old(self).events.log(other),
            !old(self).events.readable(run_id@) || fold_events(old(self).reducer, initial_state, old(self).events.log(run_id@)) is None
                ==> r is Err && final(self).events.log(run_id@) == old(self).events.log(run_id@),
            r matches Ok(status) ==> {
                &&& fold_events(old(self).reducer, initial_state, final(self).events.log(run_id@)) is Some
                &&& status_matches_log(status, final(self).events.log(run_id@))
                &&& exists|cuts: Seq<int>, states: Seq<S>, answers: Seq<Next<V>>, errs: Seq<KernelError>, decisions: Seq<RetryDecision>|
                    #[trigger] run_shape(
                        old(self).reducer,
                        old(self).step,
                        old(self).executor,
                        old(self).policy,
                        run_id@,
                        initial_state,
                        final(self).events.log(run_id@),
                        old(self).events.log(run_id@).len() as int,
                        cuts,
                        states,
                        answers,
                        errs,
                        decisions,
                        status,
                        u64::MAX as nat,
                    )
            },
    {
        self.run_steps(run_id, initial_state, u64::MAX)
    }

    /// Resumes a blocked run: appends `Resumed` with the signal's value, then runs.
    pub fn resume<S, V: Clone>(&mut self, run_id: &str, initial_state: S, signal: Signal<V>) -> (r: Result<RunStatus<V>, KernelError>) where
        E: EventStore<V>,
        R: Reducer<S, V>,
        X: ActionExecutor<V>,
        St: StepFn<S, V>,
        P: Policy<V>,
        D: RetryDelay,

        requires
            old(self).events.well_formed(),
        ensures
            final(self).events.well_formed(),
            extends(old(self).events.log(run_id@), final(self).events.log(run_id@)),
            forall|other: Seq<char>|
                other != run_id@ ==> #[trigger] final(self).events.log(other) == old(self).events.log(other),
            r is Ok ==> {
                let log0 = old(self).events.log(run_id@);
                let log1 = final(self).events.log(run_id@);
                &&& log1.len() > log0.len()
                &&& log1[log0.len() as int].event == (Event::Resumed {
                    value: match signal {
                        Signal::Resume(v) => v,
                        Signal::Signal { value, .. } => value,
                    },
                })
            },
            r matches Ok(status) ==> status_matches_log(status, final(self).events.log(run_id@)),
            !old(self).events.accepts(run_id@, 1) ==> r is Err && final(self).events.log(run_id@) == old(self).events.log(run_id@),
            r matches Ok(status) ==> exists|cuts: Seq<int>, states: Seq<S>, answers: Seq<Next<V>>, errs: Seq<KernelError>, decisions: Seq<RetryDecision>|
                #[trigger] run_shape(
                    old(self).reducer,
                    old(self).step,
                    old(self).executor,
                    old(self).policy,
                    run_id@,
                    initial_state,
                    final(self).events.log(run_id@),
                    old(self).events.log(run_id@).len() + 1int,
                    cuts,
                    states,
                    answers,
                    errs,
                    decisions,
                    status,
                    u64::MAX as nat,
                ),
    {
        let value = match signal {
            Signal::Resume(v) => v,
            Signal::Signal { value, .. } => value,
        };
        let ghost log0 = self.events.log(run_id@);
        let mut evs: Vec<Event<V>> = Vec::new();
        evs.push(Event::Resumed { value });
        self.events.append(run_id, evs)?;
        let ghost log1 = self.events.log(run_id@);
        proof {
            assert(log1[log0.len() as int] == number_from(seq![Event::Resumed { value }], (log0.len() + 1) as int)[0]);
        }
        self.run_steps(run_id, initial_state, u64::MAX)
    }

    /// Replays the run's log from `initial_state` without executing any action.
    ///
    /// The result is the fold of the reducer over the whole log; a store
    /// error is passed on.
    pub fn replay<S, V>(&self, run_id: &str, initial_state: S) -> (r: Result<S, KernelError>) where
        E: EventStore<V>,
        R: Reducer<S, V>,

        requires
            self.events.well_formed(),
        ensures
            r matches Ok(s) ==> fold_events(self.reducer, initial_state, self.events.log(run_id@)) == Some(s),
            r is Ok <==> self.events.readable(run_id@) && fold_events(self.reducer, initial_state, self.events.log(run_id@)) is Some,
    {
        let h = self.events.head(run_id)?;
        proof {
            assert(self.events.log(run_id@).subrange(0, h as int) =~= self.events.log(run_id@));
        }
        replay_range(&self.events, &self.reducer, run_id, initial_state, 0, h)
    }

    /// Replays from `snapshot` when given (only the events after its sequence
    /// number are applied to its state), otherwise from `initial_state` over the whole log.
    pub fn replay_from<S, V>(&self, run_id: &str, initial_state: S, snapshot: Option<Snapshot<S>>) -> (r: Result<S, KernelError>) where
        E: EventStore<V>,
        R: Reducer<S, V>,

        requires
            self.events.well_formed(),
        ensures
            r matches Ok(s) ==> fold_events(self.reducer, start_state(initial_state, snapshot), log_after(self.events.log(run_id@), snapshot)) == Some(s),
            r is Ok <==> self.events.readable(run_id@) && fold_events(
                self.reducer,
                start_state(initial_state, snapshot),
                log_after(self.events.log(run_id@), snapshot),
            ) is Some,
    {
        let h = self.events.head(run_id)?;
        let ghost log = self.events.log(run_id@);
        match snapshot {
            Some(snap) => {
                let from = if snap.at_seq >= h { h } else { snap.at_seq };
                proof {
                    if snap.at_seq >= h {
                        assert(log.subrange(h as int, h as int) =~= Seq::<SequencedEvent<V>>::empty());
                    }
                }
                replay_range(&self.events, &self.reducer, run_id, snap.state, from, h)
            },
            None => {
                proof {
                    assert(log.subrange(0, h as int) =~= log);
                }
                replay_range(&self.events, &self.reducer, run_id, initial_state, 0, h)
            },
        }
    }

    /// Replays from the latest stored snapshot when one can be loaded,
    /// otherwise from `initial_state` over the whole log.
    pub fn replay_from_snapshot<S, V>(&self, run_id: &str, initial_state: S) -> (r: Result<S, KernelError>) where
        E: EventStore<V>,
        R: Reducer<S, V>,
        Sn: SnapshotStore<S>,

        requires
            self.events.well_formed(),
        ensures
            exists|loaded: Option<Snapshot<S>>|
                {
                    &&& #[trigger] snapshot_loaded(self.snaps, run_id@, loaded)
                    &&& (r is Ok <==> self.events.readable(run_id@) && fold_events(
                        self.reducer,
                        start_state(initial_state, loaded),
                        log_after(self.events.log(run_id@), loaded),
                    ) is Some)
                    &&& (r matches Ok(s) ==> fold_events(
                        self.reducer,
                        start_state(initial_state, loaded),
                        log_after(self.events.log(run_id@), loaded),
                    ) == Some(s))
                },
    {
        let loaded: Option<Snapshot<S>> = match &self.snaps {
            Some(store) => match store.load_latest(run_id) {
                Ok(found) => found,
                Err(_) => None,
            },
            None => None,
        };
        let r = self.replay_from(run_id, initial_state, loaded);
        proof {
            assert(snapshot_loaded(self.snaps, run_id@, loaded));
        }
        r
    }
}

/// `loaded` is what replay starts from: nothing without a snapshot store; otherwise the
/// snapshot the store answered, or nothing when it answered none or an error.
pub open spec fn snapshot_loaded<S, Sn: SnapshotStore<S>>(snaps: Option<Sn>, run_id: Seq<char>, loaded: Option<Snapshot<S>>) -> bool {
    match snaps {
        None => loaded is None,
        Some(store) => match loaded {
            Some(sn) => store.loads(run_id, Ok(Some(sn))),
            None => store.loads(run_id, Ok(None)) || exists|e: KernelError| #[trigger] store.loads(run_id, Err(e)),
        },
    }
}

/// The state replay starts from.
pub open spec fn start_state<S>(initial_state: S, snapshot: Option<Snapshot<S>>) -> S {
    match snapshot {
        Some(snap) => snap.state,
        None => initial_state,
    }
}

/// The events replayed on top of the start state: those after the snapshot's sequence number.
pub open spec fn log_after<S, V>(log: Seq<SequencedEvent<V>>, snapshot: Option<Snapshot<S>>) -> Seq<SequencedEvent<V>> {
    match snapshot {
        Some(snap) => if snap.at_seq >= log.len() {
            Seq::empty()
        } else {
            log.subrange(snap.at_seq as int, log.len() as int)
        },
        None => log,
    }
}

/// Replaying from a snapshot whose state is the replay of the log up to its
/// sequence number gives the same state as replaying the whole log.
pub proof fn lemma_snapshot_replay_agrees<S, V, R: Reducer<S, V>>(
    reducer: R,
    initial_state: S,
    log: Seq<SequencedEvent<V>>,
    snapshot: Snapshot<S>,
)
    requires
        snapshot.at_seq <= log.len(),
        fold_events(reducer, initial_state, log.subrange(0, snapshot.at_seq as int)) == Some(snapshot.state),
    ensures
        fold_events(reducer, start_state(initial_state, Some(snapshot)), log_after(log, Some(snapshot)))
            == fold_events(reducer, initial_state, log),
{
    let k = snapshot.at_seq as int;
    lemma_fold_concat(reducer, initial_state, log.subrange(0, k), log.subrange(k, log.len() as int));
    assert(log.subrange(0, k) + log.subrange(k, log.len() as int) =~= log);
    if k == log.len() {
        assert(log.subrange(k, log.len() as int) =~= Seq::<SequencedEvent<V>>::empty());
    }
}

} // verus!
