use agentmon::app::{App, LogSort};
use agentmon::groups::DirectoryGroup;
use agentmon::labels::{
    agent_started_text_and_style, agent_status_text_and_style, format_running_duration, format_test_run_duration,
    log_category_label, log_completion_duration_ms, log_entry_line_with_pid, log_entry_status_line, log_sort_label,
    log_status_cell_text_and_style, logs_controls_hint, logs_filter_state, status_cell_text_and_style,
    status_label_and_style, test_run_started_text_and_style, test_run_status_cell_text_and_style, with_category_word,
    Tone,
};
use agentmon::proto::{AgentInfo, AgentStatus, HostContext, LogCategory, LogEntry, SessionId, TestRunInfo, TestRunStatus};
use agentmon::screen::{
    agent_table_rows, agents_status_line, details_panes, log_table_rows, table_selection, tests_status_line,
};

fn agent(id: &str, status: AgentStatus, pid: u32, last_updated_ms: u64) -> AgentInfo {
    AgentInfo {
        session_id: SessionId(id.to_string()),
        cwd: "/Users/beet/project".to_string(),
        host_context: HostContext::Terminal,
        pid,
        status,
        last_updated_ms,
        status_since_ms: last_updated_ms,
        run_started_ms: last_updated_ms,
    }
}

fn agent_with_status_since(id: &str, status: AgentStatus, pid: u32, last_updated_ms: u64, status_since_ms: u64) -> AgentInfo {
    AgentInfo { status_since_ms, ..agent(id, status, pid, last_updated_ms) }
}

fn test_run_with_start(pid: u32, status: TestRunStatus, run_started_ms: u64, last_updated_ms: u64) -> TestRunInfo {
    TestRunInfo { cwd: "/Users/beet/project".to_string(), pid, status, last_updated_ms, run_started_ms }
}

fn log_entry(cwd: &str, category: LogCategory, status: &str, occurred_at_ms: u64) -> LogEntry {
    LogEntry { working_dir: cwd.to_string(), category, status: status.to_string(), occurred_at_ms, pid: Some(7) }
}

#[test]
fn format_running_duration_under_a_minute() {
    assert_eq!(format_running_duration(0, 9_000), "9s");
}

#[test]
fn format_running_duration_under_an_hour() {
    assert_eq!(format_running_duration(0, 134_000), "2m14s");
}

#[test]
fn format_running_duration_an_hour_or_more() {
    assert_eq!(format_running_duration(0, 3_780_000), "1h03m");
}

#[test]
fn format_running_duration_is_zero_when_the_clock_is_behind() {
    assert_eq!(format_running_duration(5_000, 1_000), "0s");
    assert_eq!(format_running_duration(0, 60_000), "1m00s");
    assert_eq!(format_running_duration(0, 36_000_000), "10h00m");
}

#[test]
fn format_test_run_duration_for_a_running_run_is_live() {
    let running = test_run_with_start(1, TestRunStatus::Started, 0, 0);

    assert_eq!(format_test_run_duration(&running, 9_000), "9s");
}

#[test]
fn format_test_run_duration_for_a_finished_run_is_fixed_regardless_of_now() {
    let passed = test_run_with_start(1, TestRunStatus::Passed, 0, 134_000);

    assert_eq!(format_test_run_duration(&passed, 999_999_999), "2m14s");
}

#[test]
fn a_running_agent_shows_its_elapsed_duration() {
    let running = agent_with_status_since("s", AgentStatus::Running, 4242, 1_000_000, 866_000);

    let (text, _) = status_cell_text_and_style(&running, 1_000_000, false);

    assert_eq!(text, "🔧 running 2m14s");
}

#[test]
fn a_non_running_agent_shows_no_duration() {
    let idle = agent("s", AgentStatus::Idle, 4242, 0);

    let (text, _) = status_cell_text_and_style(&idle, 1_000_000, false);

    assert_eq!(text, "💤 idle");
}

#[test]
fn a_declined_agent_shows_no_duration() {
    let declined = agent("s", AgentStatus::Declined, 4242, 0);

    let (text, _) = status_cell_text_and_style(&declined, 1_000_000, false);

    assert_eq!(text, "🚫 declined");
}

#[test]
fn a_done_agent_shows_its_total_duration() {
    let done = AgentInfo {
        run_started_ms: 866_000,
        status_since_ms: 1_000_000,
        ..agent("s", AgentStatus::Done, 4242, 1_000_000)
    };

    let (text, _) = status_cell_text_and_style(&done, 999_999_999, false);

    assert_eq!(text, "✅ done 2m14s", "done's duration must be fixed (status_since - run_started)");
}

#[test]
fn status_cell_text_and_style_applies_the_category_prefix_when_requested() {
    let running = agent("s", AgentStatus::Running, 4242, 0);

    let (text, _) = status_cell_text_and_style(&running, 0, true);

    assert_eq!(text, "🔧 agent running 0s");
}

#[test]
fn every_agent_status_has_its_own_label_and_tone() {
    let statuses = [
        AgentStatus::Running,
        AgentStatus::Idle,
        AgentStatus::NeedsInput,
        AgentStatus::Done,
        AgentStatus::Stale,
        AgentStatus::Declined,
    ];
    let labels: Vec<&str> = statuses.iter().map(|s| status_label_and_style(*s).0).collect();
    assert_eq!(labels, ["🔧 running", "💤 idle", "🔔 NEEDS INPUT", "✅ done", "👻 stale", "🚫 declined"]);
    assert_eq!(status_label_and_style(AgentStatus::NeedsInput).1, Tone::YellowBold);
    assert_eq!(status_label_and_style(AgentStatus::Declined).1, Tone::Red);
    assert_eq!(agent_status_text_and_style(AgentStatus::NeedsInput, true).0, "🔔 agent NEEDS INPUT");
    assert_eq!(agent_started_text_and_style(), ("⏳ agent started".to_string(), Tone::Blue));
    assert_eq!(test_run_started_text_and_style(), ("⏳ tests started".to_string(), Tone::Blue));
}

#[test]
fn with_category_word_goes_after_the_marker_or_at_the_end() {
    assert_eq!(with_category_word("🔧 running", "agent"), "🔧 agent running");
    assert_eq!(with_category_word("a b c", "x"), "a x b c");
    assert_eq!(with_category_word("plain", "x"), "plain x");
}

#[test]
fn each_test_run_status_has_a_distinct_emoji_marker() {
    assert_eq!(test_run_status_cell_text_and_style(TestRunStatus::Started, true).0, "⏳ tests running");
    assert_eq!(test_run_status_cell_text_and_style(TestRunStatus::Passed, true).0, "✅ tests passed");
    assert_eq!(test_run_status_cell_text_and_style(TestRunStatus::Failed, true).0, "❌ tests failed");
}

#[test]
fn test_run_status_cell_omits_the_category_prefix_when_not_requested() {
    assert_eq!(test_run_status_cell_text_and_style(TestRunStatus::Started, false).0, "⏳ running");
    assert_eq!(test_run_status_cell_text_and_style(TestRunStatus::Passed, false).0, "✅ passed");
    assert_eq!(test_run_status_cell_text_and_style(TestRunStatus::Failed, false).0, "❌ failed");
}

#[test]
fn log_status_cell_uses_the_same_emoji_markers_as_the_agents_tab() {
    assert_eq!(log_status_cell_text_and_style(LogCategory::Agent, "started").0, "⏳ agent started");
    assert_eq!(log_status_cell_text_and_style(LogCategory::Agent, "done").0, "✅ agent done");
    assert_eq!(log_status_cell_text_and_style(LogCategory::Agent, "needs_input").0, "🔔 agent NEEDS INPUT");
    assert_eq!(log_status_cell_text_and_style(LogCategory::TestRun, "started").0, "⏳ tests started");
    assert_eq!(log_status_cell_text_and_style(LogCategory::TestRun, "passed").0, "✅ tests passed");
    assert_eq!(log_status_cell_text_and_style(LogCategory::TestRun, "failed").0, "❌ tests failed");
    assert_eq!(log_status_cell_text_and_style(LogCategory::TestRun, "weird"), ("weird".to_string(), Tone::Plain));
}

#[test]
fn log_status_cell_style_matches_the_agents_tab() {
    assert_eq!(
        log_status_cell_text_and_style(LogCategory::Agent, "done").1,
        status_label_and_style(AgentStatus::Done).1
    );
    assert_eq!(
        log_status_cell_text_and_style(LogCategory::TestRun, "failed").1,
        test_run_status_cell_text_and_style(TestRunStatus::Failed, true).1
    );
}

#[test]
fn logs_tab_shows_no_duration_for_a_started_run_with_no_completion_yet() {
    let logs = vec![log_entry("/tmp/project-a", LogCategory::TestRun, "started", 0)];

    assert_eq!(
        log_completion_duration_ms(&logs, &logs[0]),
        None,
        "a lone started entry has no completion to compute a duration from"
    );
}

#[test]
fn a_completion_pairs_with_the_latest_earlier_start_of_its_project_and_category() {
    let logs = vec![
        log_entry("/tmp/project-a", LogCategory::TestRun, "started", 0),
        log_entry("/tmp/project-a", LogCategory::TestRun, "started", 10_000),
        log_entry("/tmp/project-b", LogCategory::TestRun, "started", 50_000),
        log_entry("/tmp/project-a", LogCategory::Agent, "started", 60_000),
        log_entry("/tmp/project-a", LogCategory::TestRun, "passed", 144_000),
        log_entry("/tmp/project-a", LogCategory::TestRun, "started", 200_000),
    ];

    assert_eq!(log_completion_duration_ms(&logs, &logs[4]), Some(134_000));
    assert_eq!(log_entry_status_line(&logs, &logs[4]).0, "✅ tests passed 2m14s");
    assert_eq!(log_completion_duration_ms(&logs, &logs[1]), None);
}

#[test]
fn agent_log_lines_carry_their_pid_but_test_runs_do_not() {
    let logs = vec![
        log_entry("/tmp/project-a", LogCategory::Agent, "started", 0),
        log_entry("/tmp/project-a", LogCategory::Agent, "done", 134_000),
        log_entry("/tmp/project-a", LogCategory::TestRun, "failed", 134_000),
    ];

    assert_eq!(log_entry_line_with_pid(&logs, &logs[1]).0, "✅ agent done 2m14s  pid 7");
    assert_eq!(log_entry_line_with_pid(&logs, &logs[2]).0, "❌ tests failed");
}

#[test]
fn logs_captions_name_the_sort_and_filters() {
    let mut app = App::new();
    assert_eq!(log_sort_label(LogSort::Recency), "recency");
    assert_eq!(log_category_label(LogCategory::TestRun), "test-run");
    assert_eq!(logs_filter_state(&app), "none");
    assert_eq!(
        logs_controls_hint(&app),
        "Sort [o]: recency  |  Filter: none.  Project [p]  Status [s]  Clear [c]"
    );
    app.logs_filter_project = Some("a".to_string());
    app.logs_filter_status = Some("done".to_string());
    assert_eq!(logs_filter_state(&app), "project=a, status=done");
}

#[test]
fn two_agents_with_the_same_status_produce_one_status_segment() {
    let group = DirectoryGroup {
        cwd: "/Users/beet/project".to_string(),
        agents: vec![agent("a", AgentStatus::Running, 4242, 0), agent("b", AgentStatus::Running, 4243, 0)],
        test_runs: Vec::new(),
    };

    let line = agents_status_line(&group, 0, true);

    assert_eq!(line, vec![("🔧 agent running".to_string(), Tone::Blue)]);
}

#[test]
fn two_agents_with_different_statuses_show_both_in_one_row() {
    let group = DirectoryGroup {
        cwd: "/Users/beet/project".to_string(),
        agents: vec![agent("b", AgentStatus::NeedsInput, 4243, 0), agent("a", AgentStatus::Running, 4242, 0)],
        test_runs: Vec::new(),
    };

    let line = agents_status_line(&group, 9_000, true);

    assert_eq!(
        line,
        vec![
            ("🔧 agent running 9s".to_string(), Tone::Blue),
            (" · ".to_string(), Tone::Plain),
            ("🔔 agent NEEDS INPUT".to_string(), Tone::YellowBold),
        ]
    );
}

#[test]
fn a_test_run_cell_shows_its_status_and_duration() {
    let group = DirectoryGroup {
        cwd: "/Users/beet/project".to_string(),
        agents: Vec::new(),
        test_runs: vec![test_run_with_start(1, TestRunStatus::Failed, 0, 134_000)],
    };

    assert_eq!(tests_status_line(&group, 0, true), Some(("❌ tests failed 2m14s".to_string(), Tone::RedBold)));
    let empty = DirectoryGroup { cwd: "/x".to_string(), agents: Vec::new(), test_runs: Vec::new() };
    assert_eq!(tests_status_line(&empty, 0, true), None);
}

#[test]
fn agent_table_rows_follow_the_groups_newest_first() {
    let mut app = App::new();
    app.apply_snapshot(
        vec![AgentInfo { cwd: "/tmp/older".to_string(), ..agent("a", AgentStatus::Idle, 1, 1_000) }],
        vec![TestRunInfo { cwd: "/tmp/newer".to_string(), ..test_run_with_start(2, TestRunStatus::Passed, 0, 2_000) }],
    );

    let rows = agent_table_rows(&app, 5_000);

    assert_eq!(rows.len(), 2);
    assert_eq!(rows[0].project, "newer");
    assert_eq!(rows[0].updated_ms, 2_000);
    assert_eq!(rows[0].tests, Some(("✅ tests passed 2s".to_string(), Tone::Green)));
    assert!(rows[0].agents.is_empty());
    assert_eq!(rows[1].project, "older");
    assert_eq!(rows[1].agents, vec![("💤 agent idle".to_string(), Tone::Gray)]);
    assert_eq!(table_selection(5, rows.len()), Some(1));
    assert_eq!(table_selection(0, 0), None);
}

#[test]
fn log_table_rows_follow_the_shown_entries() {
    let mut app = App::new();
    app.apply_log_snapshot(vec![
        log_entry("/tmp/project-a", LogCategory::Agent, "needs_input", 1_000),
        log_entry("/tmp/project-b", LogCategory::TestRun, "failed", 2_000),
    ]);

    let rows = log_table_rows(&app);

    assert_eq!(rows.len(), 2);
    assert_eq!(rows[0].project, "project-b");
    assert_eq!(rows[0].category, "test-run");
    assert_eq!(rows[0].status, ("❌ tests failed".to_string(), Tone::RedBold));
    assert_eq!(rows[1].occurred_at_ms, 1_000);
    assert_eq!(rows[1].status.0, "🔔 agent NEEDS INPUT");
}

#[test]
fn details_panes_show_the_projects_agents_test_run_and_logs() {
    let mut app = App::new();
    app.apply_snapshot(
        vec![
            agent_with_status_since("a", AgentStatus::Running, 4242, 3_000, 1_000),
            AgentInfo { cwd: "/tmp/elsewhere".to_string(), ..agent("b", AgentStatus::Idle, 1, 0) },
        ],
        Vec::new(),
    );
    app.apply_log_snapshot(vec![
        log_entry("/Users/beet/project", LogCategory::Agent, "started", 1_000),
        log_entry("/tmp/elsewhere", LogCategory::Agent, "done", 1_500),
        log_entry("/Users/beet/project", LogCategory::Agent, "needs_input", 2_000),
    ]);

    let panes = details_panes(&app, "/Users/beet/project", 10_000);

    assert_eq!(panes.agents, vec![(("🔧 running 9s".to_string(), Tone::Blue), 4242)]);
    assert_eq!(panes.test_run, None);
    assert_eq!(panes.logs.len(), 2);
    assert_eq!(panes.logs[0], (2_000, ("🔔 agent NEEDS INPUT  pid 7".to_string(), Tone::YellowBold)));
    assert_eq!(panes.logs[1].0, 1_000);
}

fn agent_in(cwd: &str, id: &str, status: AgentStatus, pid: u32) -> AgentInfo {
    AgentInfo { cwd: cwd.to_string(), ..agent(id, status, pid, 0) }
}

#[test]
fn a_directory_with_no_tracked_agent_still_shows_its_test_run() {
    let mut app = App::new();
    app.apply_test_run_update(test_run_with_start(999, TestRunStatus::Started, 0, 0));

    let rows = agent_table_rows(&app, 0);

    assert_eq!(rows.len(), 1);
    assert_eq!(rows[0].project, "project");
    assert!(rows[0].agents.is_empty());
    let (tests, _) = rows[0].tests.as_ref().expect("the test run is shown");
    assert!(tests.contains("tests running"), "expected test-run status, got {tests:?}");
}

#[test]
fn logs_tab_shows_a_completed_test_runs_duration() {
    let mut app = App::new();
    app.apply_snapshot(Vec::new(), Vec::new());
    app.set_tab(agentmon::app::Tab::Logs);
    app.apply_log_snapshot(vec![
        log_entry("/tmp/project-a", LogCategory::TestRun, "started", 0),
        log_entry("/tmp/project-a", LogCategory::TestRun, "passed", 134_000),
    ]);

    let rows = log_table_rows(&app);

    assert!(
        rows.iter().any(|row| row.status.0.contains("2m14s")),
        "expected the completed test run's total duration"
    );
}

#[test]
fn the_agents_column_never_renders_a_started_label() {
    let mut app = App::new();
    app.apply_snapshot(
        vec![
            agent_in("/tmp/a", "a", AgentStatus::Running, 1),
            agent_in("/tmp/b", "b", AgentStatus::Idle, 2),
            agent_in("/tmp/c", "c", AgentStatus::NeedsInput, 3),
            agent_in("/tmp/d", "d", AgentStatus::Done, 4),
            agent_in("/tmp/e", "e", AgentStatus::Stale, 5),
            agent_in("/tmp/f", "f", AgentStatus::Declined, 6),
        ],
        Vec::new(),
    );
    app.apply_log_snapshot(vec![log_entry("/tmp/project", LogCategory::Agent, "started", 0)]);

    let rows = agent_table_rows(&app, 0);

    assert_eq!(rows.len(), 6);
    for row in &rows {
        for (text, _) in &row.agents {
            assert!(!text.contains("started"), "the Agents column must never show \"started\", got {text:?}");
        }
    }
}

#[test]
fn details_modal_shows_placeholders_when_no_test_run_or_activity() {
    let mut app = App::new();
    app.apply_snapshot(vec![agent("a", AgentStatus::Running, 4242, 0)], Vec::new());
    app.open_details_modal();

    let panes = details_panes(&app, "/Users/beet/project", 0);

    assert_eq!(panes.agents.len(), 1);
    assert!(panes.test_run.is_none(), "no test run: the pane shows its placeholder");
    assert!(panes.logs.is_empty(), "no activity: the pane shows its placeholder");
}

#[test]
fn updated_column_shows_the_most_recent_member_timestamp() {
    let mut app = App::new();
    app.apply_snapshot(
        vec![agent("a", AgentStatus::Running, 4242, 1_000)],
        vec![test_run_with_start(999, TestRunStatus::Failed, 2_000, 2_000)],
    );

    let rows = agent_table_rows(&app, 2_000);

    assert_eq!(rows.len(), 1);
    assert_eq!(rows[0].updated_ms, 2_000);
}
