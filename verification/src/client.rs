//! The terminal UI's connection to the daemon, as decisions: what each
//! daemon message tells the UI, and how the client reconnects with backoff
//! after a connection fails or drops.

use vstd::prelude::*;

use crate::app::{agents_clamped, first_run, first_session, has_run, logs_clamped, not_session, App, ConnectionStatus};
use crate::proto::{AgentInfo, LogEntry, ServerMessage, SessionId, TestRunInfo};
use crate::registry::has_session;

verus! {

/// The delay before the first reconnection attempt, in milliseconds.
pub const INITIAL_BACKOFF_MS: u64 = 250;

/// The longest delay between reconnection attempts, in milliseconds.
pub const MAX_BACKOFF_MS: u64 = 5000;

/// What the client reports back to the UI loop.
#[derive(Debug, Clone, PartialEq, Eq)]
pub enum ClientEvent {
    /// Never (yet) connected - the daemon may not be running.
    Unreachable(String),
    /// A previously established connection dropped and a reconnect attempt
    /// is under way.
    Reconnecting,
    Snapshot(Vec<AgentInfo>, Vec<TestRunInfo>, Vec<LogEntry>),
    Update(AgentInfo),
    TestRunUpdate(TestRunInfo),
    LogAppended(LogEntry),
    AgentRemoved(SessionId),
}

/// The UI event for a message from the daemon.
pub open spec fn event_for(message: ServerMessage) -> ClientEvent {
    match message {
        ServerMessage::Snapshot { agents, test_runs, logs } => ClientEvent::Snapshot(
            agents,
            test_runs,
            logs,
        ),
        ServerMessage::AgentUpdate { agent } => ClientEvent::Update(agent),
        ServerMessage::TestRunUpdate { test_run } => ClientEvent::TestRunUpdate(test_run),
        ServerMessage::LogAppended { entry } => ClientEvent::LogAppended(entry),
        ServerMessage::AgentRemoved { session_id } => ClientEvent::AgentRemoved(session_id),
    }
}

/// The UI event for a message from the daemon.
pub fn client_event_for(message: ServerMessage) -> (r: ClientEvent)
    ensures
        r == event_for(message),
{
    match message {
        ServerMessage::Snapshot { agents, test_runs, logs } => ClientEvent::Snapshot(
            agents,
            test_runs,
            logs,
        ),
        ServerMessage::AgentUpdate { agent } => ClientEvent::Update(agent),
        ServerMessage::TestRunUpdate { test_run } => ClientEvent::TestRunUpdate(test_run),
        ServerMessage::LogAppended { entry } => ClientEvent::LogAppended(entry),
        ServerMessage::AgentRemoved { session_id } => ClientEvent::AgentRemoved(session_id),
    }
}

/// How one connection attempt ended.
#[derive(Debug, Clone, PartialEq, Eq)]
pub enum StreamOutcome {
    /// The daemon could not be reached, or the subscription not sent.
    ConnectFailed(String),
    /// The connection was established and has since ended.
    Disconnected,
    /// The UI stopped listening; nothing more to do.
    ReceiverGone,
}

/// The reconnection state: the delay before the next attempt, and whether
/// any connection has succeeded yet.
#[derive(Debug, Clone, Copy, PartialEq, Eq, Structural)]
pub struct Reconnect {
    pub backoff_ms: u64,
    pub ever_connected: bool,
}

/// What to do after a connection attempt.
#[derive(Debug, Clone, PartialEq, Eq)]
pub enum ReconnectStep {
    /// Stop the client.
    Stop,
    /// Tell the UI `event`, wait `sleep_ms`, then try again in `next`.
    Retry { event: ClientEvent, sleep_ms: u64, next: Reconnect },
}

/// The state a client starts in.
pub fn initial_reconnect() -> (r: Reconnect)
    ensures
        r == (Reconnect { backoff_ms: INITIAL_BACKOFF_MS, ever_connected: false }),
{
    Reconnect { backoff_ms: INITIAL_BACKOFF_MS, ever_connected: false }
}

/// The step after `outcome` in `state`: a failed attempt reports the daemon
/// unreachable until a connection has ever succeeded, and reconnecting
/// after; a dropped connection reports reconnecting and resets the delay.
/// Each retry waits the current delay, and the delay doubles up to
/// `MAX_BACKOFF_MS`.
pub open spec fn reconnect_step(state: Reconnect, outcome: StreamOutcome) -> ReconnectStep {
    match outcome {
        StreamOutcome::ReceiverGone => ReconnectStep::Stop,
        StreamOutcome::ConnectFailed(reason) => {
            let sleep = state.backoff_ms;
            ReconnectStep::Retry {
                event: if state.ever_connected {
                    ClientEvent::Reconnecting
                } else {
                    ClientEvent::Unreachable(reason)
                },
                sleep_ms: sleep,
                next: Reconnect {
                    backoff_ms: if 2 * sleep <= MAX_BACKOFF_MS {
                        (2 * sleep) as u64
                    } else {
                        MAX_BACKOFF_MS
                    },
                    ever_connected: state.ever_connected,
                },
            }
        },
        StreamOutcome::Disconnected => ReconnectStep::Retry {
            event: ClientEvent::Reconnecting,
            sleep_ms: INITIAL_BACKOFF_MS,
            next: Reconnect { backoff_ms: (2 * INITIAL_BACKOFF_MS) as u64, ever_connected: true },
        },
    }
}

/// Decides what follows a connection attempt that ended with `outcome`.
pub fn next_reconnect_step(state: Reconnect, outcome: StreamOutcome) -> (r: ReconnectStep)
    ensures
        r == reconnect_step(state, outcome),
{
    match outcome {
        StreamOutcome::ReceiverGone => ReconnectStep::Stop,
        StreamOutcome::ConnectFailed(reason) => {
            let sleep = state.backoff_ms;
            let next_backoff = if sleep <= MAX_BACKOFF_MS / 2 {
                sleep * 2
            } else {
                MAX_BACKOFF_MS
            };
            let event = if state.ever_connected {
                ClientEvent::Reconnecting
            } else {
                ClientEvent::Unreachable(reason)
            };
            ReconnectStep::Retry {
                event,
                sleep_ms: sleep,
                next: Reconnect { backoff_ms: next_backoff, ever_connected: state.ever_connected },
            }
        },
        StreamOutcome::Disconnected => ReconnectStep::Retry {
            event: ClientEvent::Reconnecting,
            sleep_ms: INITIAL_BACKOFF_MS,
            next: Reconnect { backoff_ms: 2 * INITIAL_BACKOFF_MS, ever_connected: true },
        },
    }
}

/// The reconnection delay stays between `INITIAL_BACKOFF_MS` and
/// `MAX_BACKOFF_MS`, so the client neither spins nor waits unboundedly, and
/// each retry waits no longer than `MAX_BACKOFF_MS`.
pub proof fn lemma_backoff_stays_bounded(state: Reconnect, outcome: StreamOutcome)
    requires
        INITIAL_BACKOFF_MS <= state.backoff_ms <= MAX_BACKOFF_MS,
    ensures
        match reconnect_step(state, outcome) {
            ReconnectStep::Retry { event, sleep_ms, next } => {
                &&& INITIAL_BACKOFF_MS <= next.backoff_ms <= MAX_BACKOFF_MS
                &&& INITIAL_BACKOFF_MS <= sleep_ms <= MAX_BACKOFF_MS
            },
            ReconnectStep::Stop => true,
        },
{
}

/// Once a connection has succeeded, the client never again reports the
/// daemon unreachable - only reconnecting.
pub proof fn lemma_connected_client_reports_reconnecting(state: Reconnect, outcome: StreamOutcome)
    requires
        state.ever_connected || outcome == StreamOutcome::Disconnected,
    ensures
        match reconnect_step(state, outcome) {
            ReconnectStep::Retry { event, sleep_ms, next } => event == ClientEvent::Reconnecting
                && next.ever_connected,
            ReconnectStep::Stop => true,
        },
{
}

/// What the UI loop makes of a client event: the connection status, the
/// agents, test runs and log it shows, with its selections kept on rows.
pub open spec fn client_event_effect(a: App, event: ClientEvent, b: App) -> bool {
    match event {
        ClientEvent::Unreachable(reason) => b == (App {
            connection: ConnectionStatus::Unreachable(reason),
            ..a
        }),
        ClientEvent::Reconnecting => b == (App { connection: ConnectionStatus::Reconnecting, ..a }),
        ClientEvent::Snapshot(agents, test_runs, logs) => b == logs_clamped(
            App {
                logs,
                ..agents_clamped(
                    App { connection: ConnectionStatus::Connected, agents, test_runs, ..a },
                )
            },
        ),
        ClientEvent::Update(agent) => {
            let id = agent.session_id.0@;
            &&& b.agents@ == if has_session(a.agents@, id) {
                a.agents@.update(first_session(a.agents@, id), agent)
            } else {
                a.agents@.push(agent)
            }
            &&& b == agents_clamped(
                App { connection: ConnectionStatus::Connected, agents: b.agents, ..a },
            )
        },
        ClientEvent::TestRunUpdate(run) => {
            &&& b.test_runs@ == if has_run(a.test_runs@, run.cwd@, run.pid) {
                a.test_runs@.update(first_run(a.test_runs@, run.cwd@, run.pid), run)
            } else {
                a.test_runs@.push(run)
            }
            &&& b == agents_clamped(
                App { connection: ConnectionStatus::Connected, test_runs: b.test_runs, ..a },
            )
        },
        ClientEvent::LogAppended(entry) => {
            &&& b.logs@ == a.logs@.push(entry)
            &&& b == (App { logs: b.logs, ..a })
        },
        ClientEvent::AgentRemoved(id) => {
            &&& b.agents@ == a.agents@.filter(not_session(id.0@))
            &&& b == agents_clamped(App { agents: b.agents, ..a })
        },
    }
}

/// Applies what the client reported to the UI state: a snapshot replaces
/// the agents, test runs and log; an update, test-run update or log entry
/// is merged in; a retired session is removed; and the connection status
/// follows.
pub fn apply_client_event(app: &mut App, event: ClientEvent)
    ensures
        client_event_effect(*old(app), event, *final(app)),
{
    match event {
        ClientEvent::Unreachable(reason) => app.set_unreachable(reason),
        ClientEvent::Reconnecting => app.set_reconnecting(),
        ClientEvent::Snapshot(agents, test_runs, logs) => {
            app.apply_snapshot(agents, test_runs);
            app.apply_log_snapshot(logs);
        },
        ClientEvent::Update(agent) => app.apply_update(agent),
        ClientEvent::TestRunUpdate(run) => app.apply_test_run_update(run),
        ClientEvent::LogAppended(entry) => app.apply_log_appended(entry),
        ClientEvent::AgentRemoved(id) => app.remove_agent(&id),
    }
}

} // verus!
