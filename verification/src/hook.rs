//! Coding-agent hook payloads: which status a hook event reports, and the
//! event the reporter sends to the daemon.

use vstd::prelude::*;

use crate::proto::{AgentEvent, AgentStatus, HostContext, SessionId};
use crate::text::same_text;

verus! {

/// The fields read from a coding agent's hook JSON payload. Only
/// `session_id`, `cwd` and `hook_event_name` are common to every hook
/// event; `notification_type` comes with `Notification` events.
#[derive(Debug, Clone, PartialEq, Eq)]
pub struct HookPayload {
    pub session_id: String,
    pub cwd: String,
    pub hook_event_name: String,
    pub notification_type: Option<String>,
}

/// The `notification_type` values that mean the agent is waiting on the
/// user.
pub open spec fn needs_input_types() -> Seq<Seq<char>> {
    seq![
        "permission_prompt"@,
        "idle_prompt"@,
        "elicitation_dialog"@,
        "elicitation_url_dialog"@,
        "agent_needs_input"@,
    ]
}

/// The status a hook payload reports: running on a prompt or a tool use,
/// done on a stop, needs input on a notification of one of the waiting
/// kinds; `None` for every other event.
pub open spec fn payload_status(payload: HookPayload) -> Option<AgentStatus> {
    let event = payload.hook_event_name@;
    if event == "UserPromptSubmit"@ || event == "PreToolUse"@ {
        Some(AgentStatus::Running)
    } else if event == "Stop"@ {
        Some(AgentStatus::Done)
    } else if event == "Notification"@ {
        match payload.notification_type {
            Some(kind) => if needs_input_types().contains(kind@) {
                Some(AgentStatus::NeedsInput)
            } else {
                None
            },
            None => None,
        }
    } else {
        None
    }
}

/// Whether `kind` is a notification type meaning the agent waits on the
/// user.
fn is_needs_input_type(kind: &str) -> (r: bool)
    ensures
        r == needs_input_types().contains(kind@),
{
    let kinds: Vec<&str> = vec![
        "permission_prompt",
        "idle_prompt",
        "elicitation_dialog",
        "elicitation_url_dialog",
        "agent_needs_input",
    ];
    let ghost views = kinds@.map_values(|k: &str| k@);
    assert(views =~= needs_input_types());
    let mut i: usize = 0;
    while i < kinds.len()
        invariant
            i <= kinds@.len(),
            views == kinds@.map_values(|k: &str| k@),
            views == needs_input_types(),
            forall|m: int| 0 <= m < i ==> views[m] != kind@,
        decreases kinds@.len() - i,
    {
        if same_text(kind, kinds[i]) {
            assert(views[i as int] == kind@);
            return true;
        }
        i = i + 1;
    }
    false
}

/// Maps a hook payload to the status it reports, or `None` if the event is
/// no tracked status change (such as a notification of another kind).
pub fn status_for_payload(payload: &HookPayload) -> (r: Option<AgentStatus>)
    ensures
        r == payload_status(*payload),
{
    let event = payload.hook_event_name.as_str();
    if same_text(event, "UserPromptSubmit") || same_text(event, "PreToolUse") {
        Some(AgentStatus::Running)
    } else if same_text(event, "Stop") {
        Some(AgentStatus::Done)
    } else if same_text(event, "Notification") {
        match &payload.notification_type {
            Some(kind) => if is_needs_input_type(kind.as_str()) {
                Some(AgentStatus::NeedsInput)
            } else {
                None
            },
            None => None,
        }
    } else {
        None
    }
}

/// `event` reports `status` for the session and directory of `payload`,
/// from a process `pid` running in `host_context`.
pub open spec fn reports(
    event: AgentEvent,
    payload: HookPayload,
    host_context: HostContext,
    pid: u32,
    status: AgentStatus,
) -> bool {
    &&& event.session_id.0@ == payload.session_id@
    &&& event.cwd@ == payload.cwd@
    &&& event.host_context == host_context
    &&& event.pid == pid
    &&& event.status == status
}

/// Builds the event to report, or `None` if the payload is no tracked
/// status change.
pub fn build_event(payload: &HookPayload, host_context: HostContext, pid: u32) -> (r: Option<
    AgentEvent,
>)
    ensures
        match payload_status(*payload) {
            Some(status) => r is Some && reports(r.unwrap(), *payload, host_context, pid, status),
            None => r is None,
        },
{
    let status = match status_for_payload(payload) {
        Some(s) => s,
        None => return None,
    };
    Some(
        AgentEvent {
            session_id: SessionId(payload.session_id.clone()),
            cwd: payload.cwd.clone(),
            host_context,
            pid,
            status,
        },
    )
}

} // verus!
