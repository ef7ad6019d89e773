//! What holds of every plugin-script execution.

use vstd::prelude::*;

use crate::plugin_script::execution::{
    ends_at, execution_event, execution_next, fresh_execution, time_between, whole_millis,
    ExecutionInput, ExecutionState, LifecycleView,
};
use crate::plugin_script::resolve::ResolvedView;

verus! {

/// The state of an execution after the inputs `inputs`.
pub open spec fn execution_run(
    state: ExecutionState,
    inputs: Seq<ExecutionInput>,
) -> ExecutionState
    decreases inputs.len(),
{
    if inputs.len() == 0 {
        state
    } else {
        execution_next(execution_run(state, inputs.drop_last()), inputs.last())
    }
}

/// All events that the inputs `inputs` make an execution report, in order.
pub open spec fn execution_reports(
    state: ExecutionState,
    inputs: Seq<ExecutionInput>,
) -> Seq<LifecycleView>
    decreases inputs.len(),
{
    if inputs.len() == 0 {
        Seq::empty()
    } else {
        let earlier = execution_reports(state, inputs.drop_last());
        match execution_event(execution_run(state, inputs.drop_last()), inputs.last()) {
            Some(event) => earlier.push(event),
            None => earlier,
        }
    }
}

/// An execution that has not been started.
pub open spec fn is_fresh(state: ExecutionState) -> bool {
    &&& !state.started
    &&& !state.terminal_emitted
    &&& !state.cancelled
    &&& state.event.status is Started
    &&& state.event.duration_ms is None
    &&& state.event.exit_code is None
}

/// Two events are of the same execution.
pub open spec fn same_execution(a: LifecycleView, b: LifecycleView) -> bool {
    &&& a.thread_id == b.thread_id
    &&& a.turn_id == b.turn_id
    &&& a.plugin_id == b.plugin_id
    &&& a.execution_id == b.execution_id
    &&& a.script_path == b.script_path
    &&& a.skill == b.skill
}

/// Whatever happens, an execution reports at most a start and one end after it.
/// The start has no duration and no exit code; the end has a duration and is of
/// the same execution.
pub proof fn start_then_one_end(state: ExecutionState, inputs: Seq<ExecutionInput>)
    requires
        is_fresh(state),
    ensures
        ({
            let reports = execution_reports(state, inputs);
            &&& reports.len() <= 2
            &&& reports.len() >= 1 ==> reports[0] == state.event
            &&& reports.len() == 2 ==> {
                &&& same_execution(reports[1], reports[0])
                &&& reports[1].status !is Started
                &&& reports[1].duration_ms is Some
            }
        }),
{
    lemma_reports_follow_state(state, inputs);
}

proof fn lemma_reports_follow_state(state: ExecutionState, inputs: Seq<ExecutionInput>)
    requires
        is_fresh(state),
    ensures
        ({
            let reports = execution_reports(state, inputs);
            let now = execution_run(state, inputs);
            &&& now.event == state.event
            &&& now.terminal_emitted ==> now.started
            &&& reports.len() == (if now.terminal_emitted {
                2nat
            } else if now.started {
                1
            } else {
                0
            })
            &&& now.started ==> reports[0] == state.event
            &&& now.terminal_emitted ==> {
                &&& same_execution(reports[1], state.event)
                &&& reports[1].status !is Started
                &&& reports[1].duration_ms is Some
            }
        }),
    decreases inputs.len(),
{
    if inputs.len() > 0 {
        lemma_reports_follow_state(state, inputs.drop_last());
    }
}

/// An execution that is never started reports nothing.
pub proof fn unstarted_reports_nothing(state: ExecutionState, inputs: Seq<ExecutionInput>)
    requires
        is_fresh(state),
        forall|i: int| 0 <= i < inputs.len() ==> !(#[trigger] inputs[i] is Started),
    ensures
        execution_reports(state, inputs) == Seq::<LifecycleView>::empty(),
        !execution_run(state, inputs).started,
    decreases inputs.len(),
{
    if inputs.len() > 0 {
        let fewer = inputs.drop_last();
        assert forall|i: int| 0 <= i < fewer.len() implies !(#[trigger] fewer[i] is Started) by {
            assert(fewer[i] == inputs[i]);
        }
        unstarted_reports_nothing(state, fewer);
        assert(!(inputs[inputs.len() - 1] is Started));
    }
}

/// Terminal calls are idempotent: once an execution has reported its end,
/// nothing makes it report more.
pub proof fn ended_reports_nothing(state: ExecutionState, inputs: Seq<ExecutionInput>)
    requires
        state.started,
        state.terminal_emitted,
    ensures
        execution_reports(state, inputs) == Seq::<LifecycleView>::empty(),
        execution_run(state, inputs).started,
        execution_run(state, inputs).terminal_emitted,
    decreases inputs.len(),
{
    if inputs.len() > 0 {
        ended_reports_nothing(state, inputs.drop_last());
    }
}

/// An execution that was cancelled before its end reports that it was
/// cancelled, whatever the exit code.
pub proof fn cancelled_reports_cancelled(
    state: ExecutionState,
    between: Seq<ExecutionInput>,
    exit_code: Option<i32>,
    failed: bool,
    elapsed_millis: u128,
)
    requires
        ({
            let now = execution_run(execution_next(state, ExecutionInput::Cancelled), between);
            now.started && !now.terminal_emitted
        }),
    ensures
        ({
            let now = execution_run(execution_next(state, ExecutionInput::Cancelled), between);
            let event = execution_event(
                now,
                ExecutionInput::Finished { exit_code, failed, elapsed_millis },
            );
            event is Some && event->0.status is Cancelled && event->0.exit_code == exit_code
        }),
{
    lemma_cancelled_stays(execution_next(state, ExecutionInput::Cancelled), between);
}

proof fn lemma_cancelled_stays(state: ExecutionState, inputs: Seq<ExecutionInput>)
    requires
        state.cancelled,
    ensures
        execution_run(state, inputs).cancelled,
    decreases inputs.len(),
{
    if inputs.len() > 0 {
        lemma_cancelled_stays(state, inputs.drop_last());
    }
}

/// The process was started by the inputs `inputs`.
pub open spec fn was_started(inputs: Seq<ExecutionInput>) -> bool {
    exists|i: int| 0 <= i < inputs.len() && #[trigger] inputs[i] is Started
}

/// The execution was cancelled by the inputs `inputs`.
pub open spec fn was_cancelled(inputs: Seq<ExecutionInput>) -> bool {
    exists|i: int| 0 <= i < inputs.len() && #[trigger] inputs[i] is Cancelled
}

/// The process ended, after it was started, by the inputs `inputs`.
pub open spec fn has_ended(inputs: Seq<ExecutionInput>) -> bool {
    exists|i: int, j: int|
        0 <= i < j < inputs.len() && #[trigger] inputs[i] is Started && #[trigger] inputs[j] is Finished
}

proof fn lemma_state_follows_inputs(state: ExecutionState, inputs: Seq<ExecutionInput>)
    requires
        is_fresh(state),
    ensures
        execution_run(state, inputs).started == was_started(inputs),
        execution_run(state, inputs).cancelled == was_cancelled(inputs),
        execution_run(state, inputs).terminal_emitted == has_ended(inputs),
        execution_run(state, inputs).event == state.event,
    decreases inputs.len(),
{
    if inputs.len() > 0 {
        let fewer = inputs.drop_last();
        let last = inputs.len() - 1;
        lemma_state_follows_inputs(state, fewer);
        assert(forall|i: int| 0 <= i < fewer.len() ==> #[trigger] fewer[i] == inputs[i]);
        if was_started(fewer) {
            let i = choose|i: int| 0 <= i < fewer.len() && #[trigger] fewer[i] is Started;
            assert(inputs[i] is Started);
            if inputs[last] is Finished {
                assert(has_ended(inputs));
            }
        }
        if was_cancelled(fewer) {
            let i = choose|i: int| 0 <= i < fewer.len() && #[trigger] fewer[i] is Cancelled;
            assert(inputs[i] is Cancelled);
        }
        if has_ended(fewer) {
            let (i, j) = choose|i: int, j: int|
                0 <= i < j < fewer.len() && #[trigger] fewer[i] is Started && #[trigger] fewer[j] is Finished;
            assert(inputs[i] is Started && inputs[j] is Finished);
        }
        if was_started(inputs) {
            let i = choose|i: int| 0 <= i < inputs.len() && #[trigger] inputs[i] is Started;
            assert(i < last ==> fewer[i] is Started);
        }
        if was_cancelled(inputs) {
            let i = choose|i: int| 0 <= i < inputs.len() && #[trigger] inputs[i] is Cancelled;
            assert(i < last ==> fewer[i] is Cancelled);
        }
        if has_ended(inputs) {
            let (i, j) = choose|i: int, j: int|
                0 <= i < j < inputs.len() && #[trigger] inputs[i] is Started && #[trigger] inputs[j] is Finished;
            assert(fewer[i] is Started);
            assert(j < last ==> fewer[j] is Finished);
        }
        assert(inputs[last] == inputs.last());
    }
}

/// The first start is reported, with neither a duration nor an exit code, and no
/// later one is.
pub proof fn first_start_is_reported(state: ExecutionState, inputs: Seq<ExecutionInput>)
    requires
        is_fresh(state),
    ensures
        ({
            let event = execution_event(execution_run(state, inputs), ExecutionInput::Started);
            &&& was_started(inputs) ==> event is None
            &&& !was_started(inputs) ==> {
                &&& event is Some
                &&& same_execution(event->0, state.event)
                &&& event->0.status is Started
                &&& event->0.duration_ms is None
                &&& event->0.exit_code is None
            }
        }),
{
    lemma_state_follows_inputs(state, inputs);
}

/// Cancelling is not reported.
pub proof fn cancelling_is_silent(state: ExecutionState)
    ensures
        execution_event(state, ExecutionInput::Cancelled) is None,
{
}

/// The first end of a process that was started is reported, whatever its exit
/// code, and no other end is. It is cancelled where the execution was cancelled
/// before, otherwise completed exactly where the process was not marked as
/// failed and its exit code was 0, and failed in all other cases. The exit code
/// is reported as it is, and the duration as long as it was, as far as that can
/// be said.
pub proof fn first_end_is_reported(
    state: ExecutionState,
    inputs: Seq<ExecutionInput>,
    exit_code: Option<i32>,
    failed: bool,
    elapsed_millis: u128,
)
    requires
        is_fresh(state),
    ensures
        ({
            let event = execution_event(
                execution_run(state, inputs),
                ExecutionInput::Finished { exit_code, failed, elapsed_millis },
            );
            &&& event is Some <==> was_started(inputs) && !has_ended(inputs)
            &&& event matches Some(end) ==> {
                &&& same_execution(end, state.event)
                &&& end.status is Cancelled <==> was_cancelled(inputs)
                &&& !was_cancelled(inputs) ==> (end.status is Completed <==> !failed && exit_code
                    == Some(0i32))
                &&& !was_cancelled(inputs) ==> (end.status is Failed <==> failed || exit_code
                    != Some(0i32))
                &&& end.exit_code == exit_code
                &&& end.duration_ms is Some
                &&& elapsed_millis <= u64::MAX ==> end.duration_ms->0 == elapsed_millis
                &&& elapsed_millis > u64::MAX ==> end.duration_ms->0 == u64::MAX
            }
        }),
{
    lemma_state_follows_inputs(state, inputs);
}

/// An execution that was resolved reports its thread and turn, the plugin, the
/// script and the skill that it was resolved to, and its own id.
pub proof fn resolved_executions_report_what_they_run(
    thread_id: Seq<char>,
    turn_id: Seq<char>,
    resolved: ResolvedView,
    execution_id: Seq<char>,
)
    ensures
        ({
            let state = fresh_execution(thread_id, turn_id, resolved, execution_id);
            &&& is_fresh(state)
            &&& state.event.thread_id == thread_id
            &&& state.event.turn_id == turn_id
            &&& state.event.execution_id == execution_id
            &&& state.event.plugin_id == resolved.plugin_id
            &&& state.event.script_path == resolved.script_path
            &&& state.event.skill == resolved.skill
        }),
{
}

/// An end that is noticed at some instant is reported with the whole
/// milliseconds from the start to that instant, as far as those can be said,
/// and as the exit code and the failure have it. It is reported once.
pub proof fn ends_are_measured_from_the_start(
    before: ExecutionState,
    started: std::time::Instant,
    now: std::time::Instant,
    exit_code: Option<i32>,
    failed: bool,
    after: ExecutionState,
    event: Option<LifecycleView>,
)
    requires
        ends_at(before, started, now, exit_code, failed, after, event),
    ensures
        ({
            let millis = whole_millis(time_between(started, now));
            &&& event is Some <==> before.started && !before.terminal_emitted
            &&& after.terminal_emitted <==> before.started || before.terminal_emitted
            &&& after.started == before.started
            &&& after.cancelled == before.cancelled
            &&& after.event == before.event
            &&& event matches Some(end) ==> {
                &&& same_execution(end, before.event)
                &&& end.duration_ms is Some
                &&& millis <= u64::MAX ==> end.duration_ms->0 == millis
                &&& millis > u64::MAX ==> end.duration_ms->0 == u64::MAX
                &&& end.exit_code == exit_code
                &&& end.status is Cancelled <==> before.cancelled
                &&& !before.cancelled ==> (end.status is Completed <==> !failed && exit_code
                    == Some(0i32))
                &&& !before.cancelled ==> (end.status is Failed <==> failed || exit_code
                    != Some(0i32))
            }
        }),
{
}

} // verus!
