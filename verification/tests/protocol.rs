use std::sync::{Arc, Mutex};

use agentmon::app::App;
use agentmon::client::{
    apply_client_event, client_event_for, initial_reconnect, next_reconnect_step, ClientEvent, Reconnect, ReconnectStep, StreamOutcome,
    INITIAL_BACKOFF_MS, MAX_BACKOFF_MS,
};
use agentmon::daemon::{dispatch, dispatch_at, sweep_and_announce_at};
use agentmon::ingest::Ingestor;
use agentmon::notify::Notifier;
use agentmon::proto::{
    AgentEvent, AgentInfo, AgentStatus, ClientMessage, HostContext, LogCategory, LogEntry, ServerMessage, SessionId,
    TestRunStatus,
};
use agentmon::registry::Registry;
use agentmon::settings::{
    install_hook_entries, settings_text_with_hooks, settings_with_hooks, upsert_hook, Json, NEEDS_INPUT_MATCHER,
};

#[derive(Default)]
struct RecordingNotifier {
    calls: Mutex<Vec<AgentInfo>>,
}

impl Notifier for RecordingNotifier {
    fn notify(&self, agent: &AgentInfo) {
        self.calls.lock().unwrap().push(agent.clone());
    }
}

fn event(session: &str, pid: u32, status: AgentStatus) -> AgentEvent {
    AgentEvent {
        session_id: SessionId(session.to_string()),
        cwd: "/tmp/project".to_string(),
        host_context: HostContext::Terminal,
        pid,
        status,
    }
}

#[test]
fn a_reported_completion_is_broadcast_with_its_log_entries_and_notifies() {
    let notifier = Arc::new(RecordingNotifier::default());
    let mut ingestor = Ingestor::new(Registry::new(), notifier.clone());

    let first = dispatch_at(&mut ingestor, ClientMessage::ReportEvent { event: event("s1", 5, AgentStatus::Running) }, 100);
    assert!(first.reply.is_none());
    assert_eq!(first.broadcasts.len(), 2);
    assert!(matches!(&first.broadcasts[0], ServerMessage::LogAppended { entry } if entry.status == "started"));
    assert!(matches!(&first.broadcasts[1], ServerMessage::AgentUpdate { agent } if agent.status == AgentStatus::Running));

    let second = dispatch_at(&mut ingestor, ClientMessage::ReportEvent { event: event("s1", 5, AgentStatus::Done) }, 200);
    assert_eq!(second.broadcasts.len(), 2);
    assert!(matches!(&second.broadcasts[0], ServerMessage::LogAppended { entry } if entry.status == "done" && entry.occurred_at_ms == 200));
    assert_eq!(notifier.calls.lock().unwrap().len(), 1);
}

#[test]
fn a_session_switch_is_broadcast_as_the_update_then_the_removal() {
    let mut ingestor = Ingestor::new(Registry::new(), Arc::new(RecordingNotifier::default()));
    dispatch(&mut ingestor, ClientMessage::ReportEvent { event: event("s1", 5, AgentStatus::Running) });

    let switched = dispatch(&mut ingestor, ClientMessage::ReportEvent { event: event("s2", 5, AgentStatus::Running) });

    assert_eq!(switched.broadcasts.len(), 3);
    assert!(matches!(&switched.broadcasts[0], ServerMessage::LogAppended { .. }));
    assert!(matches!(&switched.broadcasts[1], ServerMessage::AgentUpdate { agent } if agent.session_id == SessionId("s2".to_string())));
    assert_eq!(switched.broadcasts[2], ServerMessage::AgentRemoved { session_id: SessionId("s1".to_string()) });
}

#[test]
fn a_reported_test_run_is_broadcast_and_logged() {
    let mut ingestor = Ingestor::new(Registry::new(), Arc::new(RecordingNotifier::default()));

    let result = dispatch(
        &mut ingestor,
        ClientMessage::ReportTestRun { cwd: "/tmp/project".to_string(), pid: 9, status: TestRunStatus::Failed },
    );

    assert_eq!(result.broadcasts.len(), 2);
    assert!(matches!(&result.broadcasts[0], ServerMessage::LogAppended { entry } if entry.category == LogCategory::TestRun));
    assert!(matches!(&result.broadcasts[1], ServerMessage::TestRunUpdate { test_run } if test_run.status == TestRunStatus::Failed));
}

#[test]
fn a_subscriber_gets_a_snapshot_and_nothing_changes() {
    let mut ingestor = Ingestor::new(Registry::new(), Arc::new(RecordingNotifier::default()));
    dispatch(&mut ingestor, ClientMessage::ReportEvent { event: event("s1", 5, AgentStatus::Running) });

    let result = dispatch(&mut ingestor, ClientMessage::Subscribe);

    assert!(result.broadcasts.is_empty());
    match result.reply {
        Some(ServerMessage::Snapshot { agents, test_runs, logs }) => {
            assert_eq!(agents.len(), 1);
            assert!(test_runs.is_empty());
            assert_eq!(logs.len(), 1);
        }
        other => panic!("expected a snapshot, got {other:?}"),
    }
}

#[test]
fn a_sweep_announces_each_agent_it_marks_stale() {
    let mut ingestor = Ingestor::new(Registry::new(), Arc::new(RecordingNotifier::default()));
    dispatch(&mut ingestor, ClientMessage::ReportEvent { event: event("s1", 5, AgentStatus::Running) });
    let dead = |_pid: u32| false;

    let first = sweep_and_announce_at(&mut ingestor, &dead, 1_000);
    let second = sweep_and_announce_at(&mut ingestor, &dead, 2_000);

    assert_eq!(first.len(), 1);
    assert!(matches!(&first[0], ServerMessage::AgentUpdate { agent } if agent.status == AgentStatus::Stale));
    assert!(second.is_empty());
}

#[test]
fn daemon_messages_become_ui_events() {
    let entry = LogEntry {
        working_dir: "/tmp".to_string(),
        category: LogCategory::Agent,
        status: "done".to_string(),
        occurred_at_ms: 1,
        pid: None,
    };
    assert_eq!(client_event_for(ServerMessage::LogAppended { entry: entry.clone() }), ClientEvent::LogAppended(entry));
    assert_eq!(
        client_event_for(ServerMessage::AgentRemoved { session_id: SessionId("x".to_string()) }),
        ClientEvent::AgentRemoved(SessionId("x".to_string()))
    );
}

#[test]
fn the_client_backs_off_exponentially_up_to_a_cap_and_resets_after_a_connection() {
    let mut state = initial_reconnect();
    assert_eq!(state, Reconnect { backoff_ms: INITIAL_BACKOFF_MS, ever_connected: false });
    let mut sleeps = Vec::new();
    for _ in 0..6 {
        match next_reconnect_step(state, StreamOutcome::ConnectFailed("refused".to_string())) {
            ReconnectStep::Retry { event, sleep_ms, next } => {
                assert_eq!(event, ClientEvent::Unreachable("refused".to_string()));
                sleeps.push(sleep_ms);
                state = next;
            }
            ReconnectStep::Stop => panic!("must keep retrying"),
        }
    }
    assert_eq!(sleeps, vec![250, 500, 1_000, 2_000, 4_000, MAX_BACKOFF_MS]);

    match next_reconnect_step(state, StreamOutcome::Disconnected) {
        ReconnectStep::Retry { event, sleep_ms, next } => {
            assert_eq!(event, ClientEvent::Reconnecting);
            assert_eq!(sleep_ms, INITIAL_BACKOFF_MS);
            assert!(next.ever_connected);
            state = next;
        }
        ReconnectStep::Stop => panic!("must keep retrying"),
    }
    match next_reconnect_step(state, StreamOutcome::ConnectFailed("refused".to_string())) {
        ReconnectStep::Retry { event, .. } => assert_eq!(event, ClientEvent::Reconnecting),
        ReconnectStep::Stop => panic!("must keep retrying"),
    }
    assert_eq!(next_reconnect_step(state, StreamOutcome::ReceiverGone), ReconnectStep::Stop);
}

fn text(s: &str) -> Json {
    Json::Text(s.to_string())
}

fn groups_for<'a>(root: &'a Json, event: &str) -> &'a Vec<Json> {
    let Json::Object(fields) = root else { panic!("root must be an object") };
    let (_, hooks) = fields.iter().find(|(k, _)| k == "hooks").expect("hooks");
    let Json::Object(hooks) = hooks else { panic!("hooks must be an object") };
    let (_, groups) = hooks.iter().find(|(k, _)| k == event).expect("event");
    let Json::Array(groups) = groups else { panic!("groups must be an array") };
    groups
}

#[test]
fn creates_settings_file_with_hooks_when_none_exists() {
    let root = install_hook_entries(Json::Object(Vec::new()), "/usr/local/bin/agentmon-report");

    for event in ["UserPromptSubmit", "Stop", "Notification"] {
        let groups = groups_for(&root, event);
        assert_eq!(groups.len(), 1, "{event}");
    }
    let Json::Object(group) = &groups_for(&root, "Notification")[0] else { panic!() };
    assert_eq!(group[0], ("matcher".to_string(), text(NEEDS_INPUT_MATCHER)));
}

#[test]
fn preserves_unrelated_existing_settings_and_hooks() {
    let other_group = Json::Object(vec![
        ("matcher".to_string(), text("")),
        (
            "hooks".to_string(),
            Json::Array(vec![Json::Object(vec![("type".to_string(), text("command")), ("command".to_string(), text("other"))])]),
        ),
    ]);
    let root = Json::Object(vec![
        ("theme".to_string(), text("dark")),
        ("hooks".to_string(), Json::Object(vec![("Stop".to_string(), Json::Array(vec![other_group]))])),
    ]);

    let root = install_hook_entries(root, "reporter");

    let Json::Object(fields) = &root else { panic!() };
    assert_eq!(fields[0], ("theme".to_string(), text("dark")));
    assert_eq!(groups_for(&root, "Stop").len(), 2, "the existing Stop hook must be kept");
    assert_eq!(groups_for(&root, "UserPromptSubmit").len(), 1);
}

#[test]
fn running_install_twice_does_not_duplicate_entries() {
    let once = install_hook_entries(Json::Null, "reporter");
    let twice = install_hook_entries(install_hook_entries(Json::Null, "reporter"), "reporter");

    assert_eq!(once, twice);
    for event in ["UserPromptSubmit", "Stop", "Notification"] {
        assert_eq!(groups_for(&twice, event).len(), 1);
    }
}

#[test]
fn upsert_hook_replaces_a_non_array_entry() {
    let hooks = upsert_hook(vec![("Stop".to_string(), Json::Bool(true))], "Stop", "", "reporter");
    assert_eq!(hooks.len(), 1);
    let Json::Array(groups) = &hooks[0].1 else { panic!() };
    assert_eq!(groups.len(), 1);
}

#[test]
fn a_same_pid_session_replacement_leaves_exactly_one_agent_and_one_details_modal_row() {
    let mut ingestor = Ingestor::new(Registry::new(), Arc::new(RecordingNotifier::default()));
    dispatch(&mut ingestor, ClientMessage::ReportEvent { event: event("session-1", 123, AgentStatus::Running) });

    // A UI subscribes and applies the snapshot, then every broadcast.
    let mut app = App::new();
    let subscribed = dispatch(&mut ingestor, ClientMessage::Subscribe);
    apply_client_event(&mut app, client_event_for(subscribed.reply.unwrap()));

    let replaced = dispatch(&mut ingestor, ClientMessage::ReportEvent { event: event("session-2", 123, AgentStatus::Running) });
    let mut saw_removal = false;
    for notice in replaced.broadcasts {
        let client_event = client_event_for(notice);
        if matches!(client_event, ClientEvent::AgentRemoved(_)) {
            saw_removal = true;
        }
        apply_client_event(&mut app, client_event);
    }
    assert!(saw_removal, "expected an AgentRemoved event for session-1");

    assert_eq!(app.directory_groups().iter().map(|g| g.agents.len()).sum::<usize>(), 1);
    app.open_details_modal();
    let panes = agentmon::screen::details_panes(&app, "/tmp/project", 0);
    assert_eq!(panes.agents.len(), 1, "the details modal must list the one live session");
}

#[test]
fn a_blank_settings_file_counts_as_an_empty_document() {
    let unreadable = settings_with_hooks("  \n\t", None, "reporter").expect("blank text is a document");
    let empty = install_hook_entries(Json::Object(Vec::new()), "reporter");
    assert_eq!(unreadable, empty);
    // Whatever the parser said of blank text, it is the empty document.
    let parsed = settings_with_hooks(" ", Some(Json::Bool(true)), "reporter").unwrap();
    assert_eq!(parsed, install_hook_entries(Json::Object(Vec::new()), "reporter"));
}

#[test]
fn a_settings_file_that_is_no_json_is_left_alone() {
    assert_eq!(settings_with_hooks("{not json", None, "reporter"), None);
}

#[test]
fn parsed_settings_get_the_hooks_installed() {
    let root = Json::Object(vec![("theme".to_string(), text("dark"))]);
    let doc = settings_with_hooks("{\"theme\": \"dark\"}", Some(root), "reporter").unwrap();
    let Json::Object(fields) = &doc else { panic!() };
    assert_eq!(fields[0], ("theme".to_string(), text("dark")));
    assert_eq!(groups_for(&doc, "Stop").len(), 1);
}

#[test]
fn settings_text_of_a_blank_file_holds_just_the_hooks() {
    let written = settings_text_with_hooks(" \n", "/usr/local/bin/agentmon-report").expect("blank text is a document");
    assert!(written.ends_with("}\n"));
    let value: serde_json::Value = serde_json::from_str(&written).unwrap();
    for event in ["UserPromptSubmit", "Stop", "Notification"] {
        let groups = value["hooks"][event].as_array().expect(event);
        assert_eq!(groups.len(), 1);
        assert_eq!(groups[0]["hooks"][0]["command"], "/usr/local/bin/agentmon-report");
    }
    assert_eq!(value["hooks"]["Notification"][0]["matcher"], NEEDS_INPUT_MATCHER);
}

#[test]
fn settings_text_that_is_no_json_is_left_alone() {
    assert_eq!(settings_text_with_hooks("{not json", "reporter"), None);
}

#[test]
fn settings_text_keeps_every_other_setting() {
    let written = settings_text_with_hooks(
        r#"{"theme": "dark", "limits": {"n": 1.5, "list": [1, true, null]}}"#,
        "reporter",
    )
    .unwrap();
    assert!(written.contains("\"theme\": \"dark\""), "pretty-printed, got {written}");
    let value: serde_json::Value = serde_json::from_str(&written).unwrap();
    assert_eq!(value["theme"], "dark");
    assert_eq!(value["limits"]["n"], 1.5);
    assert_eq!(value["limits"]["list"], serde_json::from_str::<serde_json::Value>("[1, true, null]").unwrap());
    assert_eq!(value["hooks"]["Stop"][0]["hooks"][0]["command"], "reporter");
}
