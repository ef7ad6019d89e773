//! The lifecycle events of one plugin-script execution.

use vstd::prelude::*;

use crate::plugin_script::resolve::{
    PluginScriptSkill, ResolvedPluginScript, ResolvedView, ScriptSkillView,
};

verus! {

/// Where an execution is in its life.
#[derive(Debug, Clone, Copy, PartialEq, Eq, Structural)]
pub enum PluginScriptLifecycleStatus {
    Started,
    Completed,
    Failed,
    Cancelled,
}

/// What is reported of an execution.
pub struct CodexPluginScriptLifecycleEvent {
    pub thread_id: String,
    pub turn_id: String,
    pub plugin_id: String,
    pub execution_id: String,
    pub script_path: String,
    pub status: PluginScriptLifecycleStatus,
    pub duration_ms: Option<u64>,
    pub exit_code: Option<i32>,
    pub skill: Option<PluginScriptSkill>,
}

/// What a [`CodexPluginScriptLifecycleEvent`] holds.
pub struct LifecycleView {
    pub thread_id: Seq<char>,
    pub turn_id: Seq<char>,
    pub plugin_id: Seq<char>,
    pub execution_id: Seq<char>,
    pub script_path: Seq<char>,
    pub status: PluginScriptLifecycleStatus,
    pub duration_ms: Option<u64>,
    pub exit_code: Option<i32>,
    pub skill: Option<ScriptSkillView>,
}

impl DeepView for CodexPluginScriptLifecycleEvent {
    type V = LifecycleView;

    open spec fn deep_view(&self) -> LifecycleView {
        LifecycleView {
            thread_id: self.thread_id@,
            turn_id: self.turn_id@,
            plugin_id: self.plugin_id@,
            execution_id: self.execution_id@,
            script_path: self.script_path@,
            status: self.status,
            duration_ms: self.duration_ms,
            exit_code: self.exit_code,
            skill: self.skill.deep_view(),
        }
    }
}

impl Clone for CodexPluginScriptLifecycleEvent {
    fn clone(&self) -> (event: Self)
        ensures
            event.deep_view() == self.deep_view(),
    {
        CodexPluginScriptLifecycleEvent {
            thread_id: self.thread_id.clone(),
            turn_id: self.turn_id.clone(),
            plugin_id: self.plugin_id.clone(),
            execution_id: self.execution_id.clone(),
            script_path: self.script_path.clone(),
            status: self.status,
            duration_ms: self.duration_ms,
            exit_code: self.exit_code,
            skill: match &self.skill {
                Some(skill) => Some(skill.clone()),
                None => None,
            },
        }
    }
}

/// `std::time::Instant`: a point in time, of which nothing is said.
#[verifier::external_type_specification]
#[verifier::external_body]
pub struct ExInstant(std::time::Instant);

/// Calls `std::time::Instant::now`. Nothing is said of when that is.
#[verifier::external_body]
fn instant_now() -> std::time::Instant {
    std::time::Instant::now()
}

/// The time from one instant to another.
pub uninterp spec fn time_between(
    earlier: std::time::Instant,
    later: std::time::Instant,
) -> std::time::Duration;

/// Calls `std::time::Instant::duration_since`: the time from `earlier` to
/// `later`, with nothing said of how long that is.
#[verifier::external_body]
fn duration_between(earlier: &std::time::Instant, later: &std::time::Instant) -> (duration:
    std::time::Duration)
    ensures
        duration == time_between(*earlier, *later),
{
    later.duration_since(*earlier)
}

/// The whole milliseconds that a duration has.
pub uninterp spec fn whole_millis(duration: std::time::Duration) -> u128;

/// `std::time::Duration::as_millis` gives the whole milliseconds of a duration.
pub assume_specification[ std::time::Duration::as_millis ](duration: &std::time::Duration) -> (millis:
    u128)
    ensures
        millis == whole_millis(*duration),
;

/// The text is that of a random UUID: lower-case hexadecimal digits in groups
/// of eight, four, four, four and twelve, with the version and the variant in
/// their places.
pub open spec fn is_random_uuid(text: Seq<char>) -> bool {
    &&& text.len() == 36
    &&& forall|i: int|
        0 <= i < 36 ==> if i == 8 || i == 13 || i == 18 || i == 23 {
            #[trigger] text[i] == '-'
        } else {
            '0' <= text[i] <= '9' || 'a' <= text[i] <= 'f'
        }
    &&& text[14] == '4'
    &&& text[19] == '8' || text[19] == '9' || text[19] == 'a' || text[19] == 'b'
}

/// Calls `uuid::Uuid::new_v4` and writes the UUID as text. Which UUID it is is
/// left to chance.
#[verifier::external_body]
fn new_execution_id() -> (id: String)
    ensures
        is_random_uuid(id@),
{
    uuid::Uuid::new_v4().to_string()
}

/// Tracks one actual plugin-script process execution.
///
/// Resolution happens before process launch, but the first event is not emitted
/// until the process spawn callback runs. Terminal calls are idempotent because
/// unified exec can observe the same process through several paths.
pub struct PluginScriptExecution {
    event: CodexPluginScriptLifecycleEvent,
    started_at: Option<std::time::Instant>,
    terminal_emitted: bool,
    cancelled: bool,
}

/// The state of an execution.
pub struct ExecutionState {
    /// The event that reports the start.
    pub event: LifecycleView,
    pub started: bool,
    pub terminal_emitted: bool,
    pub cancelled: bool,
}

/// The turn that runs a command.
pub struct ExecutionContext {
    /// Whether lifecycle analytics are enabled.
    pub analytics_enabled: bool,
    pub thread_id: String,
    pub turn_id: String,
}

/// The state of an execution that was resolved but not started.
pub open spec fn fresh_execution(
    thread_id: Seq<char>,
    turn_id: Seq<char>,
    resolved: ResolvedView,
    execution_id: Seq<char>,
) -> ExecutionState {
    ExecutionState {
        event: LifecycleView {
            thread_id,
            turn_id,
            plugin_id: resolved.plugin_id,
            execution_id,
            script_path: resolved.script_path,
            status: PluginScriptLifecycleStatus::Started,
            duration_ms: None,
            exit_code: None,
            skill: resolved.skill,
        },
        started: false,
        terminal_emitted: false,
        cancelled: false,
    }
}

/// How an execution ended.
pub open spec fn terminal_status(
    cancelled: bool,
    exit_code: Option<i32>,
    failed: bool,
) -> PluginScriptLifecycleStatus {
    if cancelled {
        PluginScriptLifecycleStatus::Cancelled
    } else if !failed && exit_code == Some(0i32) {
        PluginScriptLifecycleStatus::Completed
    } else {
        PluginScriptLifecycleStatus::Failed
    }
}

/// A duration in milliseconds as it is reported: as long as can be said where
/// it is longer.
pub open spec fn reported_millis(elapsed_millis: u128) -> u64 {
    if elapsed_millis <= u64::MAX {
        elapsed_millis as u64
    } else {
        u64::MAX
    }
}

/// What can happen to an execution.
pub enum ExecutionInput {
    Started,
    Cancelled,
    /// The process ended, `elapsed_millis` after it was started.
    Finished { exit_code: Option<i32>, failed: bool, elapsed_millis: u128 },
}

/// The state of an execution after an input.
pub open spec fn execution_next(state: ExecutionState, input: ExecutionInput) -> ExecutionState {
    match input {
        ExecutionInput::Started => ExecutionState { started: true, ..state },
        ExecutionInput::Cancelled => ExecutionState { cancelled: true, ..state },
        ExecutionInput::Finished { .. } => ExecutionState {
            terminal_emitted: state.terminal_emitted || state.started,
            ..state
        },
    }
}

/// The event that an input makes an execution report: the first start reports
/// the start, and the first end after it reports the end.
pub open spec fn execution_event(state: ExecutionState, input: ExecutionInput) -> Option<
    LifecycleView,
> {
    match input {
        ExecutionInput::Started => if state.started {
            None
        } else {
            Some(state.event)
        },
        ExecutionInput::Cancelled => None,
        ExecutionInput::Finished { exit_code, failed, elapsed_millis } => {
            if state.started && !state.terminal_emitted {
                Some(
                    LifecycleView {
                        status: terminal_status(state.cancelled, exit_code, failed),
                        duration_ms: Some(reported_millis(elapsed_millis)),
                        exit_code,
                        ..state.event
                    },
                )
            } else {
                None
            }
        },
    }
}

/// An input takes an execution from one state to another and makes it report
/// `event`.
pub open spec fn ends_as(
    before: ExecutionState,
    input: ExecutionInput,
    after: ExecutionState,
    event: Option<LifecycleView>,
) -> bool {
    after == execution_next(before, input) && event == execution_event(before, input)
}

/// The end of a process, which was started at `started`, is noticed at `now`.
pub open spec fn ends_at(
    before: ExecutionState,
    started: std::time::Instant,
    now: std::time::Instant,
    exit_code: Option<i32>,
    failed: bool,
    after: ExecutionState,
    event: Option<LifecycleView>,
) -> bool {
    ends_as(
        before,
        ExecutionInput::Finished {
            exit_code,
            failed,
            elapsed_millis: whole_millis(time_between(started, now)),
        },
        after,
        event,
    )
}

impl PluginScriptExecution {
    /// The state that the execution is in.
    pub closed spec fn state(&self) -> ExecutionState {
        ExecutionState {
            event: self.event.deep_view(),
            started: self.started_at is Some,
            terminal_emitted: self.terminal_emitted,
            cancelled: self.cancelled,
        }
    }

    /// When the process was started, if it was.
    pub closed spec fn started_instant(&self) -> Option<std::time::Instant> {
        self.started_at
    }

    /// A process that was started was so at some instant, and no other has one.
    pub proof fn started_has_an_instant(&self)
        ensures
            self.state().started == self.started_instant() is Some,
    {
    }

    /// The execution of the script `resolved`, known by `execution_id`.
    pub fn with_id(
        context: &ExecutionContext,
        resolved: ResolvedPluginScript,
        execution_id: String,
    ) -> (execution: Self)
        ensures
            execution.state() == fresh_execution(
                context.thread_id@,
                context.turn_id@,
                resolved.deep_view(),
                execution_id@,
            ),
            execution.started_instant() is None,
    {
        PluginScriptExecution {
            event: CodexPluginScriptLifecycleEvent {
                thread_id: context.thread_id.clone(),
                turn_id: context.turn_id.clone(),
                plugin_id: resolved.plugin_id,
                execution_id,
                script_path: resolved.script_path,
                status: PluginScriptLifecycleStatus::Started,
                duration_ms: None,
                exit_code: None,
                skill: resolved.skill,
            },
            started_at: None,
            terminal_emitted: false,
            cancelled: false,
        }
    }

    /// The execution of the script that a command was resolved to, where
    /// lifecycle analytics are enabled and there is one. It gets an id of its
    /// own.
    pub fn resolve(
        context: &ExecutionContext,
        resolved: Option<ResolvedPluginScript>,
    ) -> (execution: Option<Self>)
        ensures
            execution is Some == (context.analytics_enabled && resolved is Some),
            execution matches Some(execution) ==> exists|id: Seq<char>| #[trigger]
                is_random_uuid(id) && execution.state() == fresh_execution(
                    context.thread_id@,
                    context.turn_id@,
                    resolved->0.deep_view(),
                    id,
                ),
    {
        if !context.analytics_enabled {
            return None;
        }
        match resolved {
            Some(resolved) => {
                let execution_id = new_execution_id();
                Some(Self::with_id(context, resolved, execution_id))
            },
            None => None,
        }
    }

    /// Marks the process as started, now. Returns the event to report, if there
    /// is one. A process that was started before keeps its instant.
    pub fn mark_started(&mut self) -> (event: Option<CodexPluginScriptLifecycleEvent>)
        ensures
            final(self).state() == execution_next(old(self).state(), ExecutionInput::Started),
            event.deep_view() == execution_event(old(self).state(), ExecutionInput::Started),
            final(self).started_instant() is Some,
            old(self).state().started ==> final(self).started_instant() == old(
                self,
            ).started_instant(),
    {
        if self.started_at.is_some() {
            return None;
        }
        self.started_at = Some(instant_now());
        Some(self.event.clone())
    }

    /// Marks the execution as cancelled.
    pub fn mark_cancelled(&mut self)
        ensures
            final(self).state() == execution_next(old(self).state(), ExecutionInput::Cancelled),
            final(self).started_instant() == old(self).started_instant(),
    {
        self.cancelled = true;
    }

    /// Marks the process as ended, `elapsed_millis` after it was started.
    /// Returns the event to report, if there is one.
    pub fn finish_after(
        &mut self,
        exit_code: Option<i32>,
        failed: bool,
        elapsed_millis: u128,
    ) -> (event: Option<CodexPluginScriptLifecycleEvent>)
        ensures
            ({
                let input = ExecutionInput::Finished { exit_code, failed, elapsed_millis };
                &&& final(self).state() == execution_next(old(self).state(), input)
                &&& event.deep_view() == execution_event(old(self).state(), input)
            }),
            final(self).started_instant() == old(self).started_instant(),
    {
        if self.started_at.is_none() {
            return None;
        }
        if self.terminal_emitted {
            return None;
        }
        self.terminal_emitted = true;
        let succeeded = match exit_code {
            Some(code) => code == 0,
            None => false,
        };
        let status = if self.cancelled {
            PluginScriptLifecycleStatus::Cancelled
        } else if !failed && succeeded {
            PluginScriptLifecycleStatus::Completed
        } else {
            PluginScriptLifecycleStatus::Failed
        };
        let duration_ms = if elapsed_millis <= u64::MAX as u128 {
            elapsed_millis as u64
        } else {
            u64::MAX
        };
        let mut event = self.event.clone();
        event.status = status;
        event.duration_ms = Some(duration_ms);
        event.exit_code = exit_code;
        Some(event)
    }

    /// Marks the process as ended, now. Returns the event to report, if there is
    /// one; the time that the process took is that from when it was started.
    pub fn finish(&mut self, exit_code: Option<i32>, failed: bool) -> (event: Option<
        CodexPluginScriptLifecycleEvent,
    >)
        ensures
            match old(self).started_instant() {
                Some(started) => exists|now: std::time::Instant| #[trigger]
                    ends_at(
                        old(self).state(),
                        started,
                        now,
                        exit_code,
                        failed,
                        final(self).state(),
                        event.deep_view(),
                    ),
                None => event is None && final(self).state() == old(self).state(),
            },
            final(self).started_instant() == old(self).started_instant(),
    {
        let started = match &self.started_at {
            Some(started) => started,
            None => {
                return None;
            },
        };
        let now = instant_now();
        let elapsed = duration_between(started, &now).as_millis();
        let event = self.finish_after(exit_code, failed, elapsed);
        assert(ends_at(
            old(self).state(),
            old(self).started_instant()->0,
            now,
            exit_code,
            failed,
            self.state(),
            event.deep_view(),
        ));
        event
    }
}

} // verus!
