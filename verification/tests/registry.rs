use agentmon::proto::{AgentEvent, AgentStatus, HostContext, SessionId, TestRunStatus};
use agentmon::registry::Registry;

fn sample_event(status: AgentStatus) -> AgentEvent {
    AgentEvent {
        session_id: SessionId("session-1".to_string()),
        cwd: "/tmp/project".to_string(),
        host_context: HostContext::Terminal,
        pid: 123,
        status,
    }
}

#[test]
fn first_event_registers_a_new_agent() {
    let mut registry = Registry::new();

    let outcome = registry.upsert(sample_event(AgentStatus::Running));

    assert!(outcome.is_new);
    assert_eq!(outcome.previous_status, None);
    let snapshot = registry.snapshot();
    assert_eq!(snapshot.len(), 1);
    assert_eq!(snapshot[0].status, AgentStatus::Running);
}

#[test]
fn subsequent_event_updates_the_existing_agent_in_place() {
    let mut registry = Registry::new();
    registry.upsert(sample_event(AgentStatus::Running));

    let outcome = registry.upsert(sample_event(AgentStatus::Done));

    assert!(!outcome.is_new);
    assert_eq!(outcome.previous_status, Some(AgentStatus::Running));
    let snapshot = registry.snapshot();
    assert_eq!(snapshot.len(), 1, "must update in place, not duplicate");
    assert_eq!(snapshot[0].status, AgentStatus::Done);
}

#[test]
fn same_status_event_leaves_status_since_ms_unchanged() {
    let mut registry = Registry::new();
    registry.upsert_at(sample_event(AgentStatus::Running), 1_000);
    let status_since_ms = registry.snapshot()[0].status_since_ms;

    // A `PostToolUse` event during the same running turn reports the same
    // status - it must not look like a fresh transition.
    registry.upsert_at(sample_event(AgentStatus::Running), 1_010);

    let snapshot = registry.snapshot();
    assert_eq!(
        snapshot[0].status_since_ms, status_since_ms,
        "a same-status event must not reset status_since_ms"
    );
    assert!(
        snapshot[0].last_updated_ms > status_since_ms,
        "last_updated_ms must still advance even when status is unchanged"
    );
}

#[test]
fn status_transition_resets_status_since_ms() {
    let mut registry = Registry::new();
    registry.upsert_at(sample_event(AgentStatus::Running), 1_000);
    let running_status_since_ms = registry.snapshot()[0].status_since_ms;

    registry.upsert_at(sample_event(AgentStatus::Done), 1_010);

    let snapshot = registry.snapshot();
    assert!(
        snapshot[0].status_since_ms > running_status_since_ms,
        "a status transition must reset status_since_ms to the current time"
    );
}

#[test]
fn needs_input_event_is_dropped_when_session_already_done() {
    let mut registry = Registry::new();
    registry.upsert_at(sample_event(AgentStatus::Running), 1_000);
    registry.upsert_at(sample_event(AgentStatus::Done), 1_005);
    let done_snapshot = registry.snapshot();
    let done_last_updated_ms = done_snapshot[0].last_updated_ms;
    let done_status_since_ms = done_snapshot[0].status_since_ms;

    let outcome = registry.upsert_at(sample_event(AgentStatus::NeedsInput), 1_015);

    assert_eq!(outcome.agent.status, AgentStatus::Done);
    assert_eq!(outcome.previous_status, Some(AgentStatus::Done));
    let snapshot = registry.snapshot();
    assert_eq!(snapshot.len(), 1);
    assert_eq!(snapshot[0].status, AgentStatus::Done);
    assert_eq!(
        snapshot[0].last_updated_ms, done_last_updated_ms,
        "a dropped needs-input event must not update last_updated_ms"
    );
    assert_eq!(
        snapshot[0].status_since_ms, done_status_since_ms,
        "a dropped needs-input event must not update status_since_ms"
    );
}

#[test]
fn running_event_still_clears_a_done_session() {
    let mut registry = Registry::new();
    registry.upsert(sample_event(AgentStatus::Running));
    registry.upsert(sample_event(AgentStatus::Done));

    let outcome = registry.upsert(sample_event(AgentStatus::Running));

    assert_eq!(outcome.agent.status, AgentStatus::Running);
    assert_eq!(outcome.previous_status, Some(AgentStatus::Done));
    assert_eq!(registry.snapshot()[0].status, AgentStatus::Running);
}

#[test]
fn running_event_clears_a_needs_input_session() {
    let mut registry = Registry::new();
    registry.upsert(sample_event(AgentStatus::Running));
    registry.upsert(sample_event(AgentStatus::NeedsInput));

    let outcome = registry.upsert(sample_event(AgentStatus::Running));

    assert_eq!(outcome.agent.status, AgentStatus::Running);
    assert_eq!(outcome.previous_status, Some(AgentStatus::NeedsInput));
    assert_eq!(registry.snapshot()[0].status, AgentStatus::Running);
}

#[test]
fn running_event_clears_a_declined_session() {
    let mut registry = Registry::new();
    registry.upsert(sample_event(AgentStatus::Running));
    registry.upsert(sample_event(AgentStatus::Declined));

    let outcome = registry.upsert(sample_event(AgentStatus::Running));

    assert_eq!(outcome.agent.status, AgentStatus::Running);
    assert_eq!(outcome.previous_status, Some(AgentStatus::Declined));
    assert_eq!(registry.snapshot()[0].status, AgentStatus::Running);
}

#[test]
fn done_event_clears_a_declined_session() {
    let mut registry = Registry::new();
    registry.upsert(sample_event(AgentStatus::Running));
    registry.upsert(sample_event(AgentStatus::Declined));

    let outcome = registry.upsert(sample_event(AgentStatus::Done));

    assert_eq!(outcome.agent.status, AgentStatus::Done);
    assert_eq!(outcome.previous_status, Some(AgentStatus::Declined));
    assert_eq!(registry.snapshot()[0].status, AgentStatus::Done);
}

#[test]
fn running_event_clears_a_needs_input_session_via_post_tool_use() {
    let mut registry = Registry::new();
    registry.upsert(sample_event(AgentStatus::Running));
    registry.upsert(sample_event(AgentStatus::NeedsInput));

    // A `PostToolUse` event reports the same `Running` status as
    // `PreToolUse` - the registry only sees the status it maps to.
    let outcome = registry.upsert(sample_event(AgentStatus::Running));

    assert_eq!(outcome.agent.status, AgentStatus::Running);
    assert_eq!(outcome.previous_status, Some(AgentStatus::NeedsInput));
    assert_eq!(registry.snapshot()[0].status, AgentStatus::Running);
}

#[test]
fn mark_stale_transitions_a_known_agent() {
    let mut registry = Registry::new();
    registry.upsert_at(sample_event(AgentStatus::Running), 1_000);
    let running_status_since_ms = registry.snapshot()[0].status_since_ms;
    let session_id = SessionId("session-1".to_string());

    let updated = registry.mark_stale_at(&session_id, 1_010);

    assert_eq!(updated.map(|a| a.status), Some(AgentStatus::Stale));
    assert_eq!(registry.snapshot()[0].status, AgentStatus::Stale);
    assert!(
        registry.snapshot()[0].status_since_ms > running_status_since_ms,
        "marking an agent stale must reset its status_since_ms"
    );
}

#[test]
fn mark_stale_is_a_no_op_for_unknown_session() {
    let mut registry = Registry::new();

    let result = registry.mark_stale(&SessionId("unknown".to_string()));

    assert!(result.is_none());
}

#[test]
fn a_new_session_id_for_a_tracked_pid_replaces_the_old_entry() {
    let mut registry = Registry::new();
    registry.upsert(AgentEvent {
        session_id: SessionId("session-1".to_string()),
        pid: 123,
        ..sample_event(AgentStatus::Running)
    });

    let outcome = registry.upsert(AgentEvent {
        session_id: SessionId("session-2".to_string()),
        pid: 123,
        ..sample_event(AgentStatus::Running)
    });

    let snapshot = registry.snapshot();
    assert_eq!(
        snapshot.len(),
        1,
        "the old session-1 entry must be replaced, not left as a duplicate"
    );
    assert_eq!(snapshot[0].session_id, SessionId("session-2".to_string()));
    assert_eq!(outcome.retired_session_ids, vec![SessionId("session-1".to_string())]);
}

#[test]
fn unrelated_pids_are_unaffected_by_dedup() {
    let mut registry = Registry::new();
    registry.upsert(AgentEvent {
        session_id: SessionId("session-1".to_string()),
        pid: 123,
        ..sample_event(AgentStatus::Running)
    });

    registry.upsert(AgentEvent {
        session_id: SessionId("session-2".to_string()),
        pid: 456,
        ..sample_event(AgentStatus::Running)
    });

    let mut snapshot = registry.snapshot();
    snapshot.sort_by(|a, b| a.session_id.0.cmp(&b.session_id.0));
    assert_eq!(snapshot.len(), 2, "different pids must both be tracked");
    assert_eq!(snapshot[0].session_id, SessionId("session-1".to_string()));
    assert_eq!(snapshot[1].session_id, SessionId("session-2".to_string()));
}

#[test]
fn first_started_event_creates_a_test_run_entry() {
    let mut registry = Registry::new();

    let outcome = registry.upsert_test_run("/tmp/project".to_string(), 999, TestRunStatus::Started);

    assert_eq!(outcome.test_run.cwd, "/tmp/project".to_string());
    assert_eq!(outcome.test_run.pid, 999);
    assert_eq!(outcome.test_run.status, TestRunStatus::Started);
    assert!(!outcome.has_tracked_agent);
    assert_eq!(registry.snapshot_test_runs().len(), 1);
}

#[test]
fn a_later_event_for_the_same_key_updates_in_place() {
    let mut registry = Registry::new();
    registry.upsert_test_run("/tmp/project".to_string(), 999, TestRunStatus::Started);

    let outcome = registry.upsert_test_run("/tmp/project".to_string(), 999, TestRunStatus::Failed);

    assert_eq!(outcome.test_run.status, TestRunStatus::Failed);
    let snapshot = registry.snapshot_test_runs();
    assert_eq!(snapshot.len(), 1, "must update in place, not duplicate");
    assert_eq!(snapshot[0].status, TestRunStatus::Failed);
}

#[test]
fn different_pids_in_the_same_directory_collapse_to_one_entry() {
    let mut registry = Registry::new();
    registry.upsert_test_run("/tmp/project".to_string(), 1, TestRunStatus::Started);

    registry.upsert_test_run("/tmp/project".to_string(), 2, TestRunStatus::Started);

    assert_eq!(
        registry.snapshot_test_runs().len(),
        1,
        "a directory holds at most one test run, however many pids report to it"
    );
}

#[test]
fn a_later_test_run_from_a_different_pid_replaces_the_previous_one() {
    let mut registry = Registry::new();
    registry.upsert_test_run("/tmp/project".to_string(), 111, TestRunStatus::Started);

    let outcome = registry.upsert_test_run("/tmp/project".to_string(), 222, TestRunStatus::Failed);

    assert_eq!(
        outcome.test_run.pid, 222,
        "the surviving entry must reflect the newest report, not the first one"
    );
    let snapshot = registry.snapshot_test_runs();
    assert_eq!(snapshot.len(), 1, "sequential runs in one directory must never accumulate");
    assert_eq!(snapshot[0].pid, 222);
    assert_eq!(snapshot[0].status, TestRunStatus::Failed);
}

#[test]
fn different_directories_each_keep_their_own_test_run() {
    let mut registry = Registry::new();
    registry.upsert_test_run("/tmp/project-a".to_string(), 1, TestRunStatus::Passed);

    registry.upsert_test_run("/tmp/project-b".to_string(), 2, TestRunStatus::Failed);

    let mut snapshot = registry.snapshot_test_runs();
    snapshot.sort_by(|a, b| a.cwd.cmp(&b.cwd));
    assert_eq!(snapshot.len(), 2, "unrelated directories must not affect each other");
    assert_eq!(snapshot[0].cwd, "/tmp/project-a".to_string());
    assert_eq!(snapshot[1].cwd, "/tmp/project-b".to_string());
}

#[test]
fn upsert_test_run_reports_a_tracked_agent_in_the_same_directory() {
    let mut registry = Registry::new();
    registry.upsert(sample_event(AgentStatus::Running));

    let outcome = registry.upsert_test_run("/tmp/project".to_string(), 999, TestRunStatus::Failed);

    assert!(outcome.has_tracked_agent);
}

#[test]
fn directory_groups_includes_a_directory_with_only_agents() {
    let mut registry = Registry::new();
    registry.upsert(sample_event(AgentStatus::Running));

    let groups = registry.directory_groups();

    assert_eq!(groups.len(), 1);
    assert_eq!(groups[0].cwd, "/tmp/project".to_string());
    assert_eq!(groups[0].agents.len(), 1);
    assert!(groups[0].test_runs.is_empty());
}

#[test]
fn directory_groups_includes_a_directory_with_only_test_runs() {
    let mut registry = Registry::new();
    registry.upsert_test_run("/tmp/project".to_string(), 999, TestRunStatus::Started);

    let groups = registry.directory_groups();

    assert_eq!(groups.len(), 1);
    assert!(groups[0].agents.is_empty());
    assert_eq!(groups[0].test_runs.len(), 1);
}

#[test]
fn directory_groups_includes_a_directory_with_both() {
    let mut registry = Registry::new();
    registry.upsert(sample_event(AgentStatus::Running));
    registry.upsert_test_run("/tmp/project".to_string(), 999, TestRunStatus::Started);

    let groups = registry.directory_groups();

    assert_eq!(groups.len(), 1);
    assert_eq!(groups[0].agents.len(), 1);
    assert_eq!(groups[0].test_runs.len(), 1);
}

#[test]
fn directory_groups_excludes_directories_with_neither() {
    let registry = Registry::new();

    let groups = registry.directory_groups();

    assert!(groups.is_empty());
}

#[test]
fn a_late_event_for_a_retired_session_is_ignored_and_reports_the_live_entry() {
    let mut registry = Registry::new();
    registry.upsert_at(sample_event(AgentStatus::Running), 1_000);
    registry.upsert_at(
        AgentEvent { session_id: SessionId("session-2".to_string()), ..sample_event(AgentStatus::NeedsInput) },
        1_010,
    );

    let outcome = registry.upsert_at(sample_event(AgentStatus::Done), 1_020);

    assert!(outcome.stale_event_ignored);
    assert_eq!(outcome.agent.session_id, SessionId("session-2".to_string()));
    assert_eq!(outcome.agent.status, AgentStatus::NeedsInput);
    assert_eq!(registry.snapshot().len(), 1);
}

#[test]
fn a_test_run_from_the_same_pid_keeps_its_start_and_a_new_pid_restarts_it() {
    let mut registry = Registry::new();
    registry.upsert_test_run_at("/tmp/project".to_string(), 7, TestRunStatus::Started, 100);
    let same = registry.upsert_test_run_at("/tmp/project".to_string(), 7, TestRunStatus::Passed, 200);
    assert_eq!(same.test_run.run_started_ms, 100);
    assert_eq!(same.test_run.last_updated_ms, 200);

    let other = registry.upsert_test_run_at("/tmp/project".to_string(), 8, TestRunStatus::Started, 300);
    assert_eq!(other.test_run.run_started_ms, 300);
}

#[test]
fn marking_a_session_stale_twice_reports_it_once() {
    let mut registry = Registry::new();
    registry.upsert_at(sample_event(AgentStatus::Running), 1_000);
    let session_id = SessionId("session-1".to_string());

    let first = registry.mark_stale_at(&session_id, 2_000);
    let second = registry.mark_stale_at(&session_id, 3_000);

    assert!(first.is_some());
    assert!(second.is_none());
    assert_eq!(registry.snapshot()[0].status_since_ms, 2_000);
}

fn event_for(session: &str, pid: u32, status: AgentStatus) -> AgentEvent {
    AgentEvent {
        session_id: SessionId(session.to_string()),
        cwd: "/tmp/project".to_string(),
        host_context: HostContext::Terminal,
        pid,
        status,
    }
}

#[test]
fn a_tracked_session_moving_onto_another_sessions_pid_displaces_it() {
    let mut registry = Registry::new();
    registry.upsert_at(event_for("s1", 1, AgentStatus::Running), 1_000);
    registry.upsert_at(event_for("s2", 2, AgentStatus::Running), 2_000);

    let outcome = registry.upsert_at(event_for("s1", 2, AgentStatus::Running), 3_000);

    assert!(!outcome.is_new);
    assert_eq!(outcome.previous_status, Some(AgentStatus::Running));
    assert_eq!(outcome.retired_session_ids.len(), 1);
    assert_eq!(outcome.retired_session_ids[0].0, "s2");
    let snapshot = registry.snapshot();
    assert_eq!(snapshot.len(), 1, "a pid never has more than one live entry");
    assert_eq!(snapshot[0].session_id.0, "s1");
    assert_eq!(snapshot[0].pid, 2);
    assert_eq!(snapshot[0].status_since_ms, 1_000);

    // A late event from the displaced session is ignored.
    let late = registry.upsert_at(event_for("s2", 2, AgentStatus::Done), 4_000);
    assert!(late.stale_event_ignored);
    assert_eq!(registry.snapshot().len(), 1);
}
