use std::sync::{Arc, Mutex};

use agentmon::ingest::{Ingestor, Notice};
use agentmon::notify::Notifier;
use agentmon::proto::{AgentEvent, AgentInfo, AgentStatus, HostContext, LogCategory, SessionId, TestRunStatus};
use agentmon::registry::Registry;

#[derive(Default)]
struct RecordingNotifier {
    calls: Mutex<Vec<AgentInfo>>,
    test_run_calls: Mutex<Vec<(String, TestRunStatus)>>,
}

impl Notifier for RecordingNotifier {
    fn notify(&self, agent: &AgentInfo) {
        self.calls.lock().unwrap().push(agent.clone());
    }

    fn notify_test_run(&self, cwd: &str, status: TestRunStatus) {
        self.test_run_calls.lock().unwrap().push((cwd.to_string(), status));
    }
}

fn event(status: AgentStatus) -> AgentEvent {
    AgentEvent {
        session_id: SessionId("session-1".to_string()),
        cwd: "/tmp/project".to_string(),
        host_context: HostContext::Terminal,
        pid: 1,
        status,
    }
}

fn project() -> String {
    "/tmp/project".to_string()
}

#[test]
fn ingest_event_updates_the_registry() {
    let notifier = Arc::new(RecordingNotifier::default());
    let mut ingestor = Ingestor::new(Registry::new(), notifier);

    let (agent, _) = ingestor.ingest_event(event(AgentStatus::Running));

    assert_eq!(agent.status, AgentStatus::Running);
    assert_eq!(ingestor.registry().snapshot().len(), 1);
}

#[test]
fn transition_to_done_sends_one_notification() {
    let notifier = Arc::new(RecordingNotifier::default());
    let mut ingestor = Ingestor::new(Registry::new(), notifier.clone());

    ingestor.ingest_event(event(AgentStatus::Running));
    ingestor.ingest_event(event(AgentStatus::Done));

    assert_eq!(notifier.calls.lock().unwrap().len(), 1);
}

#[test]
fn transition_to_needs_input_sends_one_notification() {
    let notifier = Arc::new(RecordingNotifier::default());
    let mut ingestor = Ingestor::new(Registry::new(), notifier.clone());

    ingestor.ingest_event(event(AgentStatus::Running));
    ingestor.ingest_event(event(AgentStatus::NeedsInput));

    assert_eq!(notifier.calls.lock().unwrap().len(), 1);
}

#[test]
fn repeated_done_status_does_not_renotify() {
    let notifier = Arc::new(RecordingNotifier::default());
    let mut ingestor = Ingestor::new(Registry::new(), notifier.clone());

    ingestor.ingest_event(event(AgentStatus::Done));
    ingestor.ingest_event(event(AgentStatus::Done));
    ingestor.ingest_event(event(AgentStatus::Done));

    assert_eq!(
        notifier.calls.lock().unwrap().len(),
        1,
        "repeated same-status done events must not trigger duplicate notifications"
    );
}

#[test]
fn repeated_needs_input_status_notifies_each_time() {
    let notifier = Arc::new(RecordingNotifier::default());
    let mut ingestor = Ingestor::new(Registry::new(), notifier.clone());

    ingestor.ingest_event(event(AgentStatus::NeedsInput));
    ingestor.ingest_event(event(AgentStatus::NeedsInput));
    ingestor.ingest_event(event(AgentStatus::NeedsInput));

    assert_eq!(
        notifier.calls.lock().unwrap().len(),
        3,
        "each needs-input event is a distinct blocking prompt and must notify"
    );
}

#[test]
fn switching_from_needs_input_to_done_notifies_again() {
    let notifier = Arc::new(RecordingNotifier::default());
    let mut ingestor = Ingestor::new(Registry::new(), notifier.clone());

    ingestor.ingest_event(event(AgentStatus::NeedsInput));
    ingestor.ingest_event(event(AgentStatus::Done));

    assert_eq!(notifier.calls.lock().unwrap().len(), 2);
}

#[test]
fn needs_input_after_done_is_guarded_and_does_not_notify() {
    let notifier = Arc::new(RecordingNotifier::default());
    let mut ingestor = Ingestor::new(Registry::new(), notifier.clone());

    ingestor.ingest_event(event(AgentStatus::Done));
    let (agent, _) = ingestor.ingest_event(event(AgentStatus::NeedsInput));

    assert_eq!(
        agent.status,
        AgentStatus::Done,
        "a needs-input event for an already-done session must be dropped by the registry"
    );
    assert_eq!(
        notifier.calls.lock().unwrap().len(),
        1,
        "the dropped needs-input event must not trigger a second notification"
    );
}

#[test]
fn repeated_running_status_does_not_renotify_or_change_status() {
    let notifier = Arc::new(RecordingNotifier::default());
    let mut ingestor = Ingestor::new(Registry::new(), notifier.clone());

    // Repeated tool-use events for a session that is already running.
    ingestor.ingest_event(event(AgentStatus::Running));
    let (agent, _) = ingestor.ingest_event(event(AgentStatus::Running));

    assert_eq!(agent.status, AgentStatus::Running);
    assert_eq!(
        notifier.calls.lock().unwrap().len(),
        0,
        "repeated running events must not trigger a notification"
    );
}

#[test]
fn transitions_that_are_not_done_or_needs_input_never_notify() {
    let notifier = Arc::new(RecordingNotifier::default());
    let mut ingestor = Ingestor::new(Registry::new(), notifier.clone());

    ingestor.ingest_event(event(AgentStatus::Running));
    ingestor.ingest_event(event(AgentStatus::Idle));
    ingestor.ingest_event(event(AgentStatus::Running));

    assert_eq!(notifier.calls.lock().unwrap().len(), 0);
}

#[test]
fn ingest_test_run_updates_the_registry() {
    let notifier = Arc::new(RecordingNotifier::default());
    let mut ingestor = Ingestor::new(Registry::new(), notifier);

    let test_run = ingestor.ingest_test_run(project(), 999, TestRunStatus::Started);

    assert_eq!(test_run.status, TestRunStatus::Started);
    assert_eq!(ingestor.registry().snapshot_test_runs().len(), 1);
}

#[test]
fn a_failing_run_with_no_tracked_agent_notifies() {
    let notifier = Arc::new(RecordingNotifier::default());
    let mut ingestor = Ingestor::new(Registry::new(), notifier.clone());

    ingestor.ingest_test_run(project(), 999, TestRunStatus::Failed);

    assert_eq!(notifier.test_run_calls.lock().unwrap().len(), 1);
}

#[test]
fn a_failing_run_with_a_tracked_agent_still_notifies() {
    let notifier = Arc::new(RecordingNotifier::default());
    let mut ingestor = Ingestor::new(Registry::new(), notifier.clone());
    ingestor.ingest_event(event(AgentStatus::Running));

    ingestor.ingest_test_run(project(), 999, TestRunStatus::Failed);

    assert_eq!(
        notifier.test_run_calls.lock().unwrap().as_slice(),
        [(project(), TestRunStatus::Failed)],
        "a tracked agent in the directory must not suppress the test-run notification"
    );
}

#[test]
fn a_passing_run_notifies_regardless_of_a_tracked_agent() {
    let notifier = Arc::new(RecordingNotifier::default());
    let mut ingestor = Ingestor::new(Registry::new(), notifier.clone());
    ingestor.ingest_event(event(AgentStatus::Running));

    ingestor.ingest_test_run(project(), 999, TestRunStatus::Passed);

    assert_eq!(notifier.test_run_calls.lock().unwrap().as_slice(), [(project(), TestRunStatus::Passed)]);
}

#[test]
fn a_started_run_notifies() {
    let notifier = Arc::new(RecordingNotifier::default());
    let mut ingestor = Ingestor::new(Registry::new(), notifier.clone());

    ingestor.ingest_test_run(project(), 999, TestRunStatus::Started);

    assert_eq!(notifier.test_run_calls.lock().unwrap().as_slice(), [(project(), TestRunStatus::Started)]);
}

#[test]
fn repeated_lifecycle_events_in_the_same_directory_each_notify() {
    let notifier = Arc::new(RecordingNotifier::default());
    let mut ingestor = Ingestor::new(Registry::new(), notifier.clone());

    // Two distinct runs starting and failing in the same directory.
    ingestor.ingest_test_run(project(), 1, TestRunStatus::Started);
    ingestor.ingest_test_run(project(), 1, TestRunStatus::Failed);
    ingestor.ingest_test_run(project(), 2, TestRunStatus::Started);
    ingestor.ingest_test_run(project(), 2, TestRunStatus::Failed);

    let calls = notifier.test_run_calls.lock().unwrap();
    assert_eq!(
        calls.as_slice(),
        [
            (project(), TestRunStatus::Started),
            (project(), TestRunStatus::Failed),
            (project(), TestRunStatus::Started),
            (project(), TestRunStatus::Failed),
        ],
        "each lifecycle event must notify independently, got: {calls:?}"
    );
}

#[test]
fn done_transition_appends_a_log_entry() {
    let notifier = Arc::new(RecordingNotifier::default());
    let mut ingestor = Ingestor::new(Registry::new(), notifier);

    ingestor.ingest_event(event(AgentStatus::Running));
    ingestor.ingest_event(event(AgentStatus::Done));

    let logs = ingestor.activity_log().snapshot();
    assert_eq!(logs.len(), 2, "the initial run-start is logged in addition to the done entry");
    assert_eq!(logs[0].status, "started");
    assert_eq!(logs[1].category, LogCategory::Agent);
    assert_eq!(logs[1].status, "done");
    assert_eq!(logs[1].working_dir, project());
}

#[test]
fn needs_input_transition_appends_a_log_entry() {
    let notifier = Arc::new(RecordingNotifier::default());
    let mut ingestor = Ingestor::new(Registry::new(), notifier);

    ingestor.ingest_event(event(AgentStatus::NeedsInput));

    let logs = ingestor.activity_log().snapshot();
    assert_eq!(logs.len(), 1);
    assert_eq!(logs[0].status, "needs_input");
}

#[test]
fn repeated_needs_input_appends_a_log_entry_each_time() {
    let notifier = Arc::new(RecordingNotifier::default());
    let mut ingestor = Ingestor::new(Registry::new(), notifier);

    ingestor.ingest_event(event(AgentStatus::NeedsInput));
    ingestor.ingest_event(event(AgentStatus::NeedsInput));

    assert_eq!(
        ingestor.activity_log().snapshot().len(),
        2,
        "each needs-input event is logged, matching notification behavior"
    );
}

#[test]
fn repeated_done_appends_only_one_log_entry() {
    let notifier = Arc::new(RecordingNotifier::default());
    let mut ingestor = Ingestor::new(Registry::new(), notifier);

    ingestor.ingest_event(event(AgentStatus::Done));
    ingestor.ingest_event(event(AgentStatus::Done));

    assert_eq!(
        ingestor.activity_log().snapshot().len(),
        1,
        "repeated same-status done events must not log a duplicate entry"
    );
}

#[test]
fn declined_does_not_append_a_log_entry() {
    let notifier = Arc::new(RecordingNotifier::default());
    let mut ingestor = Ingestor::new(Registry::new(), notifier);

    ingestor.ingest_event(event(AgentStatus::Running));
    ingestor.ingest_event(event(AgentStatus::Declined));

    let logs = ingestor.activity_log().snapshot();
    assert!(
        logs.iter().all(|entry| entry.status != "declined"),
        "the declined transition itself must not produce a log entry, got: {logs:?}"
    );
    assert_eq!(logs.len(), 1, "only the preceding run-start should be logged");
    assert_eq!(logs[0].status, "started");
}

#[test]
fn idle_transitions_do_not_append_log_entries() {
    let notifier = Arc::new(RecordingNotifier::default());
    let mut ingestor = Ingestor::new(Registry::new(), notifier);

    ingestor.ingest_event(event(AgentStatus::Running));
    ingestor.ingest_event(event(AgentStatus::Idle));

    let logs = ingestor.activity_log().snapshot();
    assert_eq!(logs.len(), 1, "only the run-start should be logged, not the Idle transition");
    assert_eq!(logs[0].status, "started");
}

#[test]
fn a_new_agents_first_running_event_logs_started_with_its_pid() {
    let notifier = Arc::new(RecordingNotifier::default());
    let mut ingestor = Ingestor::new(Registry::new(), notifier);

    ingestor.ingest_event(event(AgentStatus::Running));

    let logs = ingestor.activity_log().snapshot();
    assert_eq!(logs.len(), 1);
    assert_eq!(logs[0].category, LogCategory::Agent);
    assert_eq!(logs[0].status, "started");
    assert_eq!(logs[0].pid, Some(1), "a started entry must carry the reporting agent's process id");
}

#[test]
fn repeated_running_status_does_not_append_a_started_log_entry() {
    let notifier = Arc::new(RecordingNotifier::default());
    let mut ingestor = Ingestor::new(Registry::new(), notifier);

    ingestor.ingest_event(event(AgentStatus::Running));
    ingestor.ingest_event(event(AgentStatus::Running));
    ingestor.ingest_event(event(AgentStatus::Running));

    assert_eq!(
        ingestor.activity_log().snapshot().len(),
        1,
        "continuing an already-running turn must not append another started entry"
    );
}

#[test]
fn resuming_into_running_from_each_status_logs_exactly_one_started_entry() {
    for from in [AgentStatus::Idle, AgentStatus::NeedsInput, AgentStatus::Done, AgentStatus::Declined] {
        let notifier = Arc::new(RecordingNotifier::default());
        let mut ingestor = Ingestor::new(Registry::new(), notifier);

        ingestor.ingest_event(event(AgentStatus::Running));
        ingestor.ingest_event(event(from));
        let logs_before_resume = ingestor.activity_log().snapshot().len();

        ingestor.ingest_event(event(AgentStatus::Running));

        let logs = ingestor.activity_log().snapshot();
        assert_eq!(
            logs.len(),
            logs_before_resume + 1,
            "resuming into running from {from:?} must append exactly one more entry"
        );
        assert_eq!(logs.last().unwrap().status, "started");
    }
}

#[test]
fn resuming_into_running_from_stale_logs_a_started_entry() {
    let notifier = Arc::new(RecordingNotifier::default());
    let mut ingestor = Ingestor::new(Registry::new(), notifier);

    ingestor.ingest_event(event(AgentStatus::Running));
    ingestor
        .registry_mut()
        .mark_stale(&SessionId("session-1".to_string()))
        .expect("agent should be marked stale");
    let logs_before_resume = ingestor.activity_log().snapshot().len();

    ingestor.ingest_event(event(AgentStatus::Running));

    let logs = ingestor.activity_log().snapshot();
    assert_eq!(logs.len(), logs_before_resume + 1);
    assert_eq!(logs.last().unwrap().status, "started");
}

#[test]
fn a_session_cycling_through_several_turns_logs_one_started_entry_per_turn() {
    let notifier = Arc::new(RecordingNotifier::default());
    let mut ingestor = Ingestor::new(Registry::new(), notifier);

    for _ in 0..3 {
        ingestor.ingest_event(event(AgentStatus::Running));
        ingestor.ingest_event(event(AgentStatus::Done));
    }

    let logs = ingestor.activity_log().snapshot();
    let started_count = logs.iter().filter(|entry| entry.status == "started").count();
    let done_count = logs.iter().filter(|entry| entry.status == "done").count();
    assert_eq!(started_count, 3, "each of the three turns must log its own started entry");
    assert_eq!(done_count, 3);
}

#[test]
fn done_and_needs_input_log_entries_carry_the_agents_pid() {
    let notifier = Arc::new(RecordingNotifier::default());
    let mut ingestor = Ingestor::new(Registry::new(), notifier);

    ingestor.ingest_event(event(AgentStatus::Running));
    ingestor.ingest_event(event(AgentStatus::NeedsInput));
    ingestor.ingest_event(event(AgentStatus::Running));
    ingestor.ingest_event(event(AgentStatus::Done));

    let logs = ingestor.activity_log().snapshot();
    let needs_input_entry = logs.iter().find(|entry| entry.status == "needs_input").unwrap();
    let done_entry = logs.iter().find(|entry| entry.status == "done").unwrap();
    assert_eq!(needs_input_entry.pid, Some(1));
    assert_eq!(done_entry.pid, Some(1));
}

#[test]
fn a_late_event_for_a_superseded_session_does_not_notify_or_log_even_if_the_live_session_needs_input() {
    let notifier = Arc::new(RecordingNotifier::default());
    let mut ingestor = Ingestor::new(Registry::new(), notifier.clone());

    // session-1 is superseded by session-2 on the same pid, and session-2
    // then needs input - a status that always notifies on its own.
    ingestor.ingest_event(AgentEvent {
        session_id: SessionId("session-1".to_string()),
        pid: 1,
        ..event(AgentStatus::Running)
    });
    ingestor.ingest_event(AgentEvent {
        session_id: SessionId("session-2".to_string()),
        pid: 1,
        ..event(AgentStatus::Running)
    });
    ingestor.ingest_event(AgentEvent {
        session_id: SessionId("session-2".to_string()),
        pid: 1,
        ..event(AgentStatus::NeedsInput)
    });
    let calls_before_late_event = notifier.calls.lock().unwrap().len();
    let logs_before_late_event = ingestor.activity_log().snapshot().len();

    // A late hook event for the superseded session-1 finally arrives.
    let (agent, _) = ingestor.ingest_event(AgentEvent {
        session_id: SessionId("session-1".to_string()),
        pid: 1,
        ..event(AgentStatus::Done)
    });

    assert_eq!(
        agent.session_id,
        SessionId("session-2".to_string()),
        "the late event must resolve to session-2, the pid's live entry"
    );
    assert_eq!(
        notifier.calls.lock().unwrap().len(),
        calls_before_late_event,
        "a stale, dropped event must not trigger a notification"
    );
    assert_eq!(
        ingestor.activity_log().snapshot().len(),
        logs_before_late_event,
        "a stale, dropped event must not append an activity-log entry"
    );
}

#[test]
fn test_run_lifecycle_events_each_append_a_log_entry() {
    let notifier = Arc::new(RecordingNotifier::default());
    let mut ingestor = Ingestor::new(Registry::new(), notifier);

    ingestor.ingest_test_run(project(), 1, TestRunStatus::Started);
    ingestor.ingest_test_run(project(), 1, TestRunStatus::Passed);

    let logs = ingestor.activity_log().snapshot();
    assert_eq!(logs.len(), 2);
    assert_eq!(logs[0].category, LogCategory::TestRun);
    assert_eq!(logs[0].status, "started");
    assert_eq!(logs[1].status, "passed");
}

#[test]
fn a_failed_test_run_appends_a_log_entry() {
    let notifier = Arc::new(RecordingNotifier::default());
    let mut ingestor = Ingestor::new(Registry::new(), notifier);

    ingestor.ingest_test_run(project(), 1, TestRunStatus::Failed);

    let logs = ingestor.activity_log().snapshot();
    assert_eq!(logs.len(), 1);
    assert_eq!(logs[0].status, "failed");
}

#[test]
fn set_log_listener_is_invoked_for_every_recorded_entry() {
    let notifier = Arc::new(RecordingNotifier::default());
    let mut ingestor = Ingestor::new(Registry::new(), notifier);

    ingestor.ingest_event(event(AgentStatus::Done));
    ingestor.ingest_test_run(project(), 1, TestRunStatus::Started);

    // Every recorded entry is handed out once, in order.
    let received = ingestor.take_new_log_entries();
    assert_eq!(received.len(), 2);
    assert!(ingestor.take_new_log_entries().is_empty());
}

#[test]
fn a_late_event_for_a_superseded_session_records_no_new_entries() {
    let notifier = Arc::new(RecordingNotifier::default());
    let mut ingestor = Ingestor::new(Registry::new(), notifier);
    ingestor.ingest_event(event(AgentStatus::Running));
    ingestor.ingest_event(AgentEvent { session_id: SessionId("session-2".to_string()), ..event(AgentStatus::Running) });
    ingestor.take_new_log_entries();

    ingestor.ingest_event(event(AgentStatus::Done));

    assert!(ingestor.take_new_log_entries().is_empty());
}


#[test]
fn each_ingest_reports_the_notices_it_handed_to_the_notifier() {
    let notifier = Arc::new(RecordingNotifier::default());
    let mut ingestor = Ingestor::new(Registry::new(), notifier.clone());

    ingestor.ingest_event(event(AgentStatus::Running));
    assert!(ingestor.last_notified().is_empty());

    ingestor.ingest_event(event(AgentStatus::Done));
    let notified = ingestor.last_notified();
    assert_eq!(notified.len(), 1);
    let Notice::Agent(agent) = &notified[0] else { panic!("an agent notice") };
    assert_eq!(agent.status, AgentStatus::Done);
    assert_eq!(notifier.calls.lock().unwrap().len(), 1);

    ingestor.ingest_event(event(AgentStatus::Done));
    assert!(ingestor.last_notified().is_empty(), "a repeated done hands nothing over");

    ingestor.ingest_test_run(project(), 7, TestRunStatus::Failed);
    let notified = ingestor.last_notified();
    assert_eq!(notified.len(), 1);
    let Notice::TestRun(cwd, status) = &notified[0] else { panic!("a test-run notice") };
    assert_eq!((cwd.as_str(), *status), ("/tmp/project", TestRunStatus::Failed));
    assert_eq!(notifier.test_run_calls.lock().unwrap().as_slice(), [(project(), TestRunStatus::Failed)]);
}
