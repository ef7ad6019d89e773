use codex_api::plugin_script::execution::{
    CodexPluginScriptLifecycleEvent, ExecutionContext, PluginScriptExecution,
    PluginScriptLifecycleStatus,
};
use codex_api::plugin_script::path::LexicalPath;
use codex_api::plugin_script::resolve::{PluginScriptSkill, ResolvedPluginScript};

fn context(analytics_enabled: bool) -> ExecutionContext {
    ExecutionContext {
        analytics_enabled,
        thread_id: "thread-1".to_string(),
        turn_id: "turn-1".to_string(),
    }
}

fn resolved() -> ResolvedPluginScript {
    ResolvedPluginScript {
        plugin_id: "lifecycle@openai-curated".to_string(),
        script_path: "scripts/run.sh".to_string(),
        skill: None,
    }
}

fn execution() -> PluginScriptExecution {
    PluginScriptExecution::resolve(&context(true), Some(resolved())).expect("execution")
}

fn is_of_fixture(event: &CodexPluginScriptLifecycleEvent) -> bool {
    event.thread_id == "thread-1"
        && event.turn_id == "turn-1"
        && event.plugin_id == "lifecycle@openai-curated"
        && event.script_path == "scripts/run.sh"
        && event.skill.is_none()
}

#[test]
fn plugin_script_emits_started_and_completed_lifecycle_analytics() {
    let mut execution = execution();
    let started = execution.mark_started().expect("started");
    let completed = execution.finish(Some(0), false).expect("completed");
    assert!(execution.mark_started().is_none());
    assert!(execution.finish(Some(0), false).is_none());

    assert_eq!(started.status, PluginScriptLifecycleStatus::Started);
    assert!(is_of_fixture(&started));
    assert!(started.duration_ms.is_none());
    assert!(started.exit_code.is_none());

    assert_eq!(completed.status, PluginScriptLifecycleStatus::Completed);
    assert!(is_of_fixture(&completed));
    assert_eq!(completed.execution_id, started.execution_id);
    assert!(completed.duration_ms.is_some());
    assert_eq!(completed.exit_code, Some(0));
}

#[test]
fn plugin_script_emits_failed_lifecycle_analytics() {
    let mut execution = execution();
    let started = execution.mark_started().expect("started");
    let failed = execution.finish(Some(7), false).expect("failed");
    assert!(execution.finish(Some(7), true).is_none());

    assert_eq!(failed.status, PluginScriptLifecycleStatus::Failed);
    assert_eq!(failed.execution_id, started.execution_id);
    assert_eq!(failed.exit_code, Some(7));
    assert!(failed.duration_ms.is_some());
}

#[test]
fn interrupted_plugin_script_emits_one_cancelled_lifecycle_event() {
    let mut execution = execution();
    let started = execution.mark_started().expect("started");
    execution.mark_cancelled();
    let cancelled = execution.finish(None, true).expect("cancelled");
    assert!(execution.finish(Some(0), false).is_none());

    assert_eq!(cancelled.status, PluginScriptLifecycleStatus::Cancelled);
    assert_eq!(cancelled.execution_id, started.execution_id);
    assert!(cancelled.duration_ms.is_some());
}

#[test]
fn executions_that_never_start_report_nothing() {
    let mut execution = execution();
    execution.mark_cancelled();
    assert!(execution.finish(Some(0), false).is_none());
    assert!(execution.finish_after(None, true, 5).is_none());
    assert!(execution.mark_started().is_some());
    let ended = execution.finish_after(Some(0), false, 5).expect("ended");
    assert_eq!(ended.status, PluginScriptLifecycleStatus::Cancelled);
    assert_eq!(ended.exit_code, Some(0));
}

#[test]
fn the_end_depends_on_the_exit_code_and_the_failure() {
    for (exit_code, failed, status) in [
        (Some(0), false, PluginScriptLifecycleStatus::Completed),
        (Some(0), true, PluginScriptLifecycleStatus::Failed),
        (Some(-1), false, PluginScriptLifecycleStatus::Failed),
        (None, false, PluginScriptLifecycleStatus::Failed),
        (None, true, PluginScriptLifecycleStatus::Failed),
    ] {
        let mut execution = execution();
        execution.mark_started();
        let event = execution.finish_after(exit_code, failed, 12).expect("end");
        assert_eq!(event.status, status);
        assert_eq!(event.exit_code, exit_code);
        assert_eq!(event.duration_ms, Some(12));
    }
}

#[test]
fn durations_are_reported_as_far_as_they_can_be() {
    for (elapsed, reported) in [
        (0u128, 0u64),
        (u64::MAX as u128, u64::MAX),
        (u64::MAX as u128 + 1, u64::MAX),
        (u128::MAX, u64::MAX),
    ] {
        let mut execution = execution();
        execution.mark_started();
        let event = execution.finish_after(Some(0), false, elapsed).expect("end");
        assert_eq!(event.duration_ms, Some(reported));
    }
}

#[test]
fn analytics_that_are_disabled_track_nothing() {
    assert!(PluginScriptExecution::resolve(&context(false), Some(resolved())).is_none());
    assert!(PluginScriptExecution::resolve(&context(true), None).is_none());
    assert!(PluginScriptExecution::resolve(&context(false), None).is_none());
}

#[test]
fn each_execution_has_a_random_uuid_of_its_own() {
    let first = execution().mark_started().expect("started").execution_id;
    let second = execution().mark_started().expect("started").execution_id;
    assert_ne!(first, second);
    let id = uuid::Uuid::parse_str(&first).expect("uuid");
    assert_eq!(id.get_version_num(), 4);
    assert_eq!(id.get_variant(), uuid::Variant::RFC4122);
    assert_eq!(id.hyphenated().to_string(), first);
    assert_eq!(first.len(), 36);
}

#[test]
fn events_carry_the_skill() {
    let mut script = resolved();
    script.skill = Some(PluginScriptSkill {
        skill_name: "demo".to_string(),
        skill_path: LexicalPath { components: Vec::new() },
    });
    let mut execution = PluginScriptExecution::with_id(&context(true), script, "id-1".to_string());
    let started = execution.mark_started().expect("started");
    let ended = execution.finish_after(Some(0), false, 1).expect("ended").clone();
    for event in [started, ended] {
        assert_eq!(event.execution_id, "id-1");
        assert_eq!(event.skill.expect("skill").skill_name, "demo");
    }
}

#[test]
fn the_duration_is_the_time_since_the_first_start() {
    let mut execution = execution();
    let before = std::time::Instant::now();
    execution.mark_started();
    let after = std::time::Instant::now();
    while after.elapsed().as_millis() < 30 {}
    assert!(execution.mark_started().is_none());
    let at_least = after.elapsed().as_millis() as u64;
    let event = execution.finish(Some(0), false).expect("end");
    let at_most = before.elapsed().as_millis() as u64;
    let reported = event.duration_ms.expect("duration");
    assert!(at_least <= reported && reported <= at_most, "{at_least} {reported} {at_most}");
}
