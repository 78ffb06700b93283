//! The wire-level data model shared by the daemon, the hook reporter and the
//! terminal UI: agent and test-run status, the events reported to the
//! daemon, and the messages it sends to subscribed clients.

use vstd::prelude::*;

verus! {

/// Values that can be copied exactly.
pub trait Duplicate: Sized {
    /// An exact copy of this value.
    fn duplicate(&self) -> (r: Self)
        ensures
            r == *self,
    ;
}

impl<'a, T> Duplicate for &'a T {
    fn duplicate(&self) -> (r: Self) {
        *self
    }
}

/// Identifies a coding-agent session across hook events and client updates.
#[derive(Debug, Clone, PartialEq, Eq, Hash)]
pub struct SessionId(pub String);

impl Duplicate for SessionId {
    fn duplicate(&self) -> (r: SessionId) {
        SessionId(self.0.clone())
    }
}

/// Where a coding-agent session is hosted.
#[derive(Debug, Clone, Copy, PartialEq, Eq, Structural)]
pub enum HostContext {
    Nvim,
    Terminal,
    Desktop,
}

/// Lifecycle status of a tracked agent.
#[derive(Debug, Clone, Copy, PartialEq, Eq, Structural)]
pub enum AgentStatus {
    Running,
    Idle,
    NeedsInput,
    Done,
    Stale,
    Declined,
}

/// Lifecycle status of a tracked test run: it has no "declined" or "stale"
/// concept - its last reported status simply stands until superseded by
/// the next report for the same working directory.
#[derive(Debug, Clone, Copy, PartialEq, Eq, Structural)]
pub enum TestRunStatus {
    Started,
    Passed,
    Failed,
}

/// Which kind of event an activity-log entry records.
#[derive(Debug, Clone, Copy, PartialEq, Eq, Structural)]
pub enum LogCategory {
    Agent,
    TestRun,
}

/// The daemon's view of a tracked test run, identified by its working
/// directory.
#[derive(Debug, Clone, PartialEq, Eq)]
pub struct TestRunInfo {
    pub cwd: String,
    pub pid: u32,
    pub status: TestRunStatus,
    /// Unix epoch milliseconds of the last update to this test run.
    pub last_updated_ms: u64,
    /// Unix epoch milliseconds of when this run (the tracked process id)
    /// started: fixed across the started -> passed/failed lifecycle of one
    /// process, reset only when a different pid reports for the directory.
    pub run_started_ms: u64,
}

impl Duplicate for TestRunInfo {
    fn duplicate(&self) -> (r: TestRunInfo) {
        TestRunInfo {
            cwd: self.cwd.clone(),
            pid: self.pid,
            status: self.status,
            last_updated_ms: self.last_updated_ms,
            run_started_ms: self.run_started_ms,
        }
    }
}

/// A status event reported by a coding agent's hook to the daemon.
#[derive(Debug, Clone, PartialEq, Eq)]
pub struct AgentEvent {
    pub session_id: SessionId,
    pub cwd: String,
    pub host_context: HostContext,
    pub pid: u32,
    pub status: AgentStatus,
}

/// The daemon's view of a tracked agent, as sent to clients.
#[derive(Debug, Clone, PartialEq, Eq)]
pub struct AgentInfo {
    pub session_id: SessionId,
    pub cwd: String,
    pub host_context: HostContext,
    pub pid: u32,
    pub status: AgentStatus,
    /// Unix epoch milliseconds of the last update to this agent.
    pub last_updated_ms: u64,
    /// Unix epoch milliseconds of when this agent most recently entered its
    /// current status (same-status events do not move it).
    pub status_since_ms: u64,
    /// Unix epoch milliseconds of when the agent's current run of work began:
    /// reset whenever it enters "running" from any other status.
    pub run_started_ms: u64,
}

impl Duplicate for AgentInfo {
    fn duplicate(&self) -> (r: AgentInfo) {
        AgentInfo {
            session_id: self.session_id.duplicate(),
            cwd: self.cwd.clone(),
            host_context: self.host_context,
            pid: self.pid,
            status: self.status,
            last_updated_ms: self.last_updated_ms,
            status_since_ms: self.status_since_ms,
            run_started_ms: self.run_started_ms,
        }
    }
}

/// One entry of the daemon's activity log.
#[derive(Debug, Clone, PartialEq, Eq)]
pub struct LogEntry {
    pub working_dir: String,
    pub category: LogCategory,
    /// The wire-format (snake_case) status word, e.g. "started" or "done".
    pub status: String,
    pub occurred_at_ms: u64,
    /// The reporting process, where one is known.
    pub pid: Option<u32>,
}

impl Duplicate for LogEntry {
    fn duplicate(&self) -> (r: LogEntry) {
        LogEntry {
            working_dir: self.working_dir.clone(),
            category: self.category,
            status: self.status.clone(),
            occurred_at_ms: self.occurred_at_ms,
            pid: self.pid,
        }
    }
}

/// The first message a connection sends: a hook's event report, a test
/// formatter's test-run report, or a long-lived subscription.
#[derive(Debug, Clone, PartialEq, Eq)]
pub enum ClientMessage {
    ReportEvent { event: AgentEvent },
    ReportTestRun { cwd: String, pid: u32, status: TestRunStatus },
    Subscribe,
}

/// A message sent from the daemon to a subscribed client.
#[derive(Debug, Clone, PartialEq, Eq)]
pub enum ServerMessage {
    /// Full current state, sent once when a client subscribes.
    Snapshot { agents: Vec<AgentInfo>, test_runs: Vec<TestRunInfo>, logs: Vec<LogEntry> },
    /// An incremental update to a single agent's state.
    AgentUpdate { agent: AgentInfo },
    /// An incremental update to a single test run's state.
    TestRunUpdate { test_run: TestRunInfo },
    /// A newly recorded activity-log entry.
    LogAppended { entry: LogEntry },
    /// A session id the daemon retired (its pid now runs another session).
    AgentRemoved { session_id: SessionId },
}

} // verus!
