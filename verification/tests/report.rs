use agentmon::hook::{build_event, status_for_payload, HookPayload};
use agentmon::host::{
    advance_ancestor_walk, classify_ancestor, contains_nvim, is_known_terminal_process, parse_ppid_comm,
    start_ancestor_walk, trim, AncestorStep, AncestorWalk, WalkStep, MAX_ANCESTOR_DEPTH,
};
use agentmon::proto::{AgentStatus, HostContext, SessionId};

/// The hook payload fields of a raw JSON hook payload.
fn payload_from(raw: &str) -> HookPayload {
    let value: serde_json::Value = serde_json::from_str(raw).unwrap();
    HookPayload {
        session_id: value["session_id"].as_str().unwrap().to_string(),
        cwd: value["cwd"].as_str().unwrap().to_string(),
        hook_event_name: value["hook_event_name"].as_str().unwrap().to_string(),
        notification_type: value["notification_type"].as_str().map(|s| s.to_string()),
    }
}

#[test]
fn parses_a_user_prompt_submit_payload() {
    let raw = r#"{
        "session_id": "abc-123",
        "cwd": "/tmp/project",
        "hook_event_name": "UserPromptSubmit"
    }"#;

    let payload = payload_from(raw);

    assert_eq!(payload.session_id, "abc-123");
    assert_eq!(payload.cwd, "/tmp/project");
    assert_eq!(status_for_payload(&payload), Some(AgentStatus::Running));
}

#[test]
fn parses_a_pre_tool_use_payload_as_running() {
    let raw = r#"{
        "session_id": "abc-123",
        "cwd": "/tmp/project",
        "hook_event_name": "PreToolUse",
        "tool_name": "Bash"
    }"#;

    assert_eq!(status_for_payload(&payload_from(raw)), Some(AgentStatus::Running));
}

#[test]
fn parses_a_stop_payload_as_done() {
    let raw = r#"{
        "session_id": "abc-123",
        "cwd": "/tmp/project",
        "hook_event_name": "Stop",
        "stop_reason": "end_turn"
    }"#;

    assert_eq!(status_for_payload(&payload_from(raw)), Some(AgentStatus::Done));
}

#[test]
fn permission_prompt_notification_needs_input() {
    let raw = r#"{
        "session_id": "abc-123",
        "cwd": "/tmp/project",
        "hook_event_name": "Notification",
        "notification_type": "permission_prompt",
        "message": "Allow tool use?"
    }"#;

    assert_eq!(status_for_payload(&payload_from(raw)), Some(AgentStatus::NeedsInput));
}

#[test]
fn unrelated_notification_types_are_skipped() {
    let raw = r#"{
        "session_id": "abc-123",
        "cwd": "/tmp/project",
        "hook_event_name": "Notification",
        "notification_type": "auth_success"
    }"#;

    assert_eq!(status_for_payload(&payload_from(raw)), None);
}

#[test]
fn unknown_hook_events_are_skipped() {
    let raw = r#"{
        "session_id": "abc-123",
        "cwd": "/tmp/project",
        "hook_event_name": "SomeFutureHook"
    }"#;

    assert_eq!(status_for_payload(&payload_from(raw)), None);
}

#[test]
fn a_notification_without_a_type_is_skipped() {
    let payload = HookPayload {
        session_id: "abc".to_string(),
        cwd: "/tmp".to_string(),
        hook_event_name: "Notification".to_string(),
        notification_type: None,
    };
    assert_eq!(status_for_payload(&payload), None);
}

#[test]
fn every_waiting_notification_type_needs_input() {
    for kind in ["permission_prompt", "idle_prompt", "elicitation_dialog", "elicitation_url_dialog", "agent_needs_input"] {
        let payload = HookPayload {
            session_id: "abc".to_string(),
            cwd: "/tmp".to_string(),
            hook_event_name: "Notification".to_string(),
            notification_type: Some(kind.to_string()),
        };
        assert_eq!(status_for_payload(&payload), Some(AgentStatus::NeedsInput), "{kind}");
    }
}

#[test]
fn build_event_maps_a_stop_payload_to_done() {
    let raw = r#"{
        "session_id": "abc-123",
        "cwd": "/tmp/project",
        "hook_event_name": "Stop"
    }"#;
    let payload = payload_from(raw);

    let event = build_event(&payload, HostContext::Terminal, 4242).unwrap();

    assert_eq!(event.session_id, SessionId("abc-123".to_string()));
    assert_eq!(event.cwd, "/tmp/project".to_string());
    assert_eq!(event.pid, 4242);
    assert_eq!(event.status, AgentStatus::Done);
    assert_eq!(event.host_context, HostContext::Terminal);
}

#[test]
fn build_event_returns_none_for_a_non_status_notification() {
    let raw = r#"{
        "session_id": "abc-123",
        "cwd": "/tmp/project",
        "hook_event_name": "Notification",
        "notification_type": "auth_success"
    }"#;
    let payload = payload_from(raw);

    assert!(build_event(&payload, HostContext::Terminal, 4242).is_none());
}

#[test]
fn parse_ppid_comm_handles_a_simple_command_name() {
    assert_eq!(parse_ppid_comm("  1234 zsh\n"), Some((1234, "zsh".to_string())));
}

#[test]
fn parse_ppid_comm_handles_a_path_with_spaces() {
    assert_eq!(
        parse_ppid_comm("42 /Applications/Agent Host.app/Contents/MacOS/Agent Host\n"),
        Some((42, "/Applications/Agent Host.app/Contents/MacOS/Agent Host".to_string()))
    );
}

#[test]
fn parse_ppid_comm_rejects_malformed_input() {
    assert_eq!(parse_ppid_comm(""), None);
    assert_eq!(parse_ppid_comm("not-a-number zsh"), None);
    assert_eq!(parse_ppid_comm("1234"), None);
}

#[test]
fn parse_ppid_comm_reads_pids_as_unsigned_32_bit_numbers() {
    assert_eq!(parse_ppid_comm("+7 zsh"), Some((7, "zsh".to_string())));
    assert_eq!(parse_ppid_comm("4294967295 zsh"), Some((4294967295, "zsh".to_string())));
    assert_eq!(parse_ppid_comm("4294967296 zsh"), None);
    assert_eq!(parse_ppid_comm("-1 zsh"), None);
    assert_eq!(parse_ppid_comm("12\tzsh  "), Some((12, "zsh".to_string())));
    assert_eq!(parse_ppid_comm("12 \u{a0} "), None);
}

#[test]
fn trim_removes_unicode_white_space_at_both_ends() {
    assert_eq!(trim("\u{3000} a b \n"), "a b");
    assert_eq!(trim("   "), "");
}

#[test]
fn contains_nvim_is_case_insensitive() {
    assert!(contains_nvim("nvim"));
    assert!(contains_nvim("NVIM"));
    assert!(contains_nvim("/opt/homebrew/bin/nvim"));
    assert!(!contains_nvim("vim"));
    assert!(!contains_nvim("zsh"));
}

#[test]
fn is_known_terminal_process_matches_common_emulators_and_multiplexers() {
    assert!(is_known_terminal_process("Terminal"));
    assert!(is_known_terminal_process("iTerm2"));
    assert!(is_known_terminal_process("/usr/local/bin/zellij"));
    assert!(is_known_terminal_process("tmux"));
    assert!(!is_known_terminal_process("zsh"));
    assert!(!is_known_terminal_process("nvim"));
}

#[test]
fn classify_ancestor_prefers_nvim_then_terminals_then_walks_up() {
    assert_eq!(classify_ancestor(50, 40, "nvim"), AncestorStep::Found(HostContext::Nvim));
    assert_eq!(classify_ancestor(50, 40, "tmux"), AncestorStep::Found(HostContext::Terminal));
    assert_eq!(classify_ancestor(50, 40, "zsh"), AncestorStep::Visit(40));
    assert_eq!(classify_ancestor(50, 1, "zsh"), AncestorStep::GiveUp);
    assert_eq!(classify_ancestor(50, 0, "zsh"), AncestorStep::GiveUp);
    assert_eq!(classify_ancestor(50, 50, "zsh"), AncestorStep::GiveUp);
}

#[test]
fn the_ancestor_walk_finds_a_terminal_two_levels_up() {
    let WalkStep::Ask(first) = start_ancestor_walk(500) else { panic!("the walk must start") };
    assert_eq!(first, AncestorWalk { pid: 500, asked: 0 });
    let WalkStep::Ask(second) = advance_ancestor_walk(first, Some((400, "zsh".to_string()))) else {
        panic!("a shell is not the host")
    };
    assert_eq!(second, AncestorWalk { pid: 400, asked: 1 });
    assert_eq!(
        advance_ancestor_walk(second, Some((300, "iTerm2".to_string()))),
        WalkStep::Done(Some(HostContext::Terminal))
    );
}

#[test]
fn the_ancestor_walk_ends_on_a_failed_ps_the_root_or_the_depth_limit() {
    let walk = AncestorWalk { pid: 500, asked: 0 };
    assert_eq!(advance_ancestor_walk(walk, None), WalkStep::Done(None));
    assert_eq!(advance_ancestor_walk(walk, Some((1, "zsh".to_string()))), WalkStep::Done(None));
    let last = AncestorWalk { pid: 500, asked: MAX_ANCESTOR_DEPTH - 1 };
    assert_eq!(advance_ancestor_walk(last, Some((400, "zsh".to_string()))), WalkStep::Done(None));
}
