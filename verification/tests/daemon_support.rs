use agentmon::activity_log::{ActivityLog, MAX_LOG_ENTRIES};
use agentmon::launchd::{log_dir, plist_path, render_plist, LABEL};
use agentmon::liveness::{sweep_once, sweep_once_at};
use agentmon::notify::{
    applescript_literal, host_context_label, notification_script, status_notification, test_run_notification_script,
};
use agentmon::paths::{default_socket_path, join_path, log_line, project_name, report_log_path, resolve_binary_path};
use agentmon::proto::{AgentEvent, AgentInfo, AgentStatus, HostContext, LogCategory, LogEntry, SessionId, TestRunStatus};
use agentmon::registry::Registry;

fn entry(working_dir: &str, occurred_at_ms: u64) -> LogEntry {
    LogEntry {
        working_dir: working_dir.to_string(),
        category: LogCategory::Agent,
        status: "done".to_string(),
        occurred_at_ms,
        pid: None,
    }
}

#[test]
fn records_entries_in_order() {
    let mut log = ActivityLog::new();
    log.record(entry("/tmp/a", 1));
    log.record(entry("/tmp/b", 2));

    let snapshot = log.snapshot();
    assert_eq!(snapshot.len(), 2);
    assert_eq!(snapshot[0].working_dir, "/tmp/a".to_string());
    assert_eq!(snapshot[1].working_dir, "/tmp/b".to_string());
}

#[test]
fn evicts_the_oldest_entry_once_the_cap_is_reached() {
    let mut log = ActivityLog::new();
    for i in 0..MAX_LOG_ENTRIES as u64 {
        log.record(entry("/tmp/project", i));
    }

    log.record(entry("/tmp/project", MAX_LOG_ENTRIES as u64));

    let snapshot = log.snapshot();
    assert_eq!(snapshot.len(), MAX_LOG_ENTRIES, "log must stay capped at {MAX_LOG_ENTRIES}");
    assert_eq!(snapshot[0].occurred_at_ms, 1, "the single oldest entry (occurred_at_ms 0) must be evicted");
    assert_eq!(snapshot.last().unwrap().occurred_at_ms, MAX_LOG_ENTRIES as u64);
}

#[test]
fn eviction_is_global_across_different_working_directories() {
    let mut log = ActivityLog::new();
    log.record(entry("/tmp/oldest-project", 0));
    for i in 1..MAX_LOG_ENTRIES as u64 {
        log.record(entry("/tmp/other-project", i));
    }

    // At capacity, with the oldest entry from another project than the new one.
    log.record(entry("/tmp/new-event-project", MAX_LOG_ENTRIES as u64));

    let snapshot = log.snapshot();
    assert_eq!(snapshot.len(), MAX_LOG_ENTRIES);
    assert!(
        snapshot.iter().all(|e| e.working_dir != "/tmp/oldest-project"),
        "the oldest entry must be evicted even though it belongs to a different project"
    );
}

fn sample_agent(status: AgentStatus) -> AgentInfo {
    AgentInfo {
        session_id: SessionId("session-123".to_string()),
        cwd: "/Users/beet/Documents/Projects/enclaudinate".to_string(),
        host_context: HostContext::Terminal,
        pid: 4242,
        status,
        last_updated_ms: 1_700_000_000_000,
        status_since_ms: 1_700_000_000_000,
        run_started_ms: 1_700_000_000_000,
    }
}

#[test]
fn notification_script_uses_glass_sound_when_done() {
    let script = notification_script(&sample_agent(AgentStatus::Done)).unwrap();
    assert!(script.ends_with("sound name \"Glass\""), "script did not end with the Glass sound clause: {script}");
}

#[test]
fn notification_script_uses_ping_sound_when_needs_input() {
    let script = notification_script(&sample_agent(AgentStatus::NeedsInput)).unwrap();
    assert!(script.ends_with("sound name \"Ping\""), "script did not end with the Ping sound clause: {script}");
}

#[test]
fn notification_script_is_none_for_non_attention_states() {
    assert!(notification_script(&sample_agent(AgentStatus::Running)).is_none());
    assert!(notification_script(&sample_agent(AgentStatus::Idle)).is_none());
    assert!(notification_script(&sample_agent(AgentStatus::Stale)).is_none());
    assert!(notification_script(&sample_agent(AgentStatus::Declined)).is_none());
}

#[test]
fn notification_script_names_the_project_host_and_status() {
    let script = notification_script(&sample_agent(AgentStatus::Done)).unwrap();
    assert_eq!(
        script,
        "display notification \"enclaudinate (terminal) finished\" with title \"agentmon\" sound name \"Glass\""
    );
}

#[test]
fn test_run_notification_script_uses_basso_sound_when_failed() {
    let script = test_run_notification_script("/tmp/project", TestRunStatus::Failed);
    assert!(script.ends_with("sound name \"Basso\""), "script did not end with the Basso sound clause: {script}");
}

#[test]
fn test_run_notification_script_uses_tink_sound_when_passed() {
    let script = test_run_notification_script("/tmp/project", TestRunStatus::Passed);
    assert!(script.ends_with("sound name \"Tink\""), "script did not end with the Tink sound clause: {script}");
}

#[test]
fn test_run_notification_script_uses_pop_sound_when_started() {
    let script = test_run_notification_script("/tmp/project", TestRunStatus::Started);
    assert!(script.ends_with("sound name \"Pop\""), "script did not end with the Pop sound clause: {script}");
}

#[test]
fn test_run_notification_script_identifies_the_directory() {
    let script = test_run_notification_script("/tmp/project", TestRunStatus::Failed);
    assert!(script.contains("project"), "script did not mention the project directory: {script}");
}

#[test]
fn applescript_literal_escapes_quotes_and_backslashes() {
    assert_eq!(applescript_literal(r#"say "hi" \ bye"#), r#""say \"hi\" \\ bye""#);
}

#[test]
fn status_notification_only_covers_attention_states() {
    assert_eq!(status_notification(AgentStatus::Done), Some(("finished", "Glass")));
    assert_eq!(status_notification(AgentStatus::NeedsInput), Some(("needs input", "Ping")));
    assert_eq!(status_notification(AgentStatus::Running), None);
    assert_eq!(status_notification(AgentStatus::Idle), None);
    assert_eq!(status_notification(AgentStatus::Stale), None);
    assert_eq!(status_notification(AgentStatus::Declined), None);
}

#[test]
fn host_context_labels_are_lowercase_words() {
    assert_eq!(host_context_label(HostContext::Nvim), "nvim");
    assert_eq!(host_context_label(HostContext::Terminal), "terminal");
    assert_eq!(host_context_label(HostContext::Desktop), "desktop");
}

fn register(registry: &mut Registry, session_id: &str, pid: u32) {
    registry.upsert(AgentEvent {
        session_id: SessionId(session_id.to_string()),
        cwd: "/tmp/project".to_string(),
        host_context: HostContext::Terminal,
        pid,
        status: AgentStatus::Running,
    });
}

#[test]
fn sweep_does_not_repeat_already_stale_agents() {
    let mut registry = Registry::new();
    register(&mut registry, "session-1", 999_999);
    // No process has pid 999_999.
    let is_alive = |pid: u32| pid != 999_999;

    let first_sweep = sweep_once(&mut registry, &is_alive);
    assert_eq!(first_sweep.len(), 1);

    let second_sweep = sweep_once(&mut registry, &is_alive);
    assert!(second_sweep.is_empty(), "an already-stale agent should not be reported again");
}

#[test]
fn sweep_keeps_live_agents_and_marks_dead_ones_stale_at_the_sweep_time() {
    let mut registry = Registry::new();
    register(&mut registry, "alive", 10);
    register(&mut registry, "dead", 20);
    let is_alive = |pid: u32| pid == 10;

    let marked = sweep_once_at(&mut registry, &is_alive, 5_000);

    assert_eq!(marked.len(), 1);
    assert_eq!(marked[0].session_id, SessionId("dead".to_string()));
    assert_eq!(marked[0].status, AgentStatus::Stale);
    assert_eq!(marked[0].status_since_ms, 5_000);
    let snapshot = registry.snapshot();
    assert_eq!(snapshot[0].status, AgentStatus::Running);
    assert_eq!(snapshot[1].status, AgentStatus::Stale);
}

#[test]
fn render_plist_includes_the_expected_keys_and_values() {
    let xml = render_plist("com.example.agentd", "/usr/local/bin/agentd", "/Users/beet/Library/Logs/agentmon");

    assert!(xml.contains("<string>com.example.agentd</string>"));
    assert!(xml.contains("<string>/usr/local/bin/agentd</string>"));
    assert!(xml.contains("<string>--foreground</string>"));
    assert!(xml.contains("<key>KeepAlive</key>\n    <true/>"));
    assert!(xml.contains("<key>ThrottleInterval</key>\n    <integer>5</integer>"));
    assert!(xml.contains("<key>RunAtLoad</key>\n    <true/>"));
    assert!(xml.contains("/Users/beet/Library/Logs/agentmon/agentd.out.log"));
    assert!(xml.contains("/Users/beet/Library/Logs/agentmon/agentd.err.log"));
}

#[test]
fn plist_path_is_under_launch_agents_and_named_by_label() {
    let path = plist_path("/Users/beet", "com.example.agentd");

    assert!(path.starts_with("/Users/beet/Library/LaunchAgents/"));
    assert!(path.ends_with("/com.example.agentd.plist"));
    assert_eq!(plist_path("/Users/beet", LABEL), "/Users/beet/Library/LaunchAgents/com.agentmon.agentd.plist");
    assert_eq!(log_dir("/Users/beet/"), "/Users/beet/Library/Logs/agentmon");
}

#[test]
fn resolve_binary_path_keeps_an_absolute_arg0_unchanged() {
    let arg0 = "/usr/local/bin/agentd";
    let cwd = "/Users/beet/some/project";

    assert_eq!(resolve_binary_path(arg0, cwd), arg0.to_string());
}

#[test]
fn resolve_binary_path_joins_a_relative_arg0_onto_cwd() {
    let arg0 = "target/debug/agentd";
    let cwd = "/Users/beet/Documents/Projects/enclaudinate";

    assert_eq!(
        resolve_binary_path(arg0, cwd),
        "/Users/beet/Documents/Projects/enclaudinate/target/debug/agentd".to_string()
    );
}

#[test]
fn join_path_adds_exactly_one_separator_and_lets_an_absolute_part_win() {
    assert_eq!(join_path("/a", "b"), "/a/b");
    assert_eq!(join_path("/a/", "b"), "/a/b");
    assert_eq!(join_path("", "b"), "b");
    assert_eq!(join_path("/a", "/b"), "/b");
}

#[test]
fn home_relative_paths() {
    assert_eq!(default_socket_path("/Users/beet"), "/Users/beet/Library/Application Support/agentmon/agentd.sock");
    assert_eq!(report_log_path("/Users/beet"), "/Users/beet/Library/Logs/agentmon/agentmon-report.log");
    assert_eq!(log_line(42, "invoked"), "[42] invoked");
}

#[test]
fn project_name_is_the_last_path_component() {
    assert_eq!(project_name("/tmp/project"), "project");
    assert_eq!(project_name("/tmp/project/"), "project");
    assert_eq!(project_name("/"), "/");
}

#[test]
fn project_name_is_the_final_path_component() {
    assert_eq!(project_name("/tmp/project"), "project");
    assert_eq!(project_name("/tmp/project/"), "project");
    assert_eq!(project_name("/tmp/project/."), "project");
    assert_eq!(project_name("relative//dir"), "dir");
    // No final component: the whole path names the project.
    assert_eq!(project_name("/"), "/");
    assert_eq!(project_name(""), "");
    assert_eq!(project_name("."), ".");
    assert_eq!(project_name("/tmp/.."), "/tmp/..");
}
