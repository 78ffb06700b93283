//! The daemon's decisions for each client message and each liveness sweep:
//! what the ingestor records, what goes back to the client, and what every
//! subscriber is sent.

use vstd::prelude::*;

use crate::ingest::{ingest_event_effect, ingest_test_run_effect, Ingestor, Notice};
use crate::liveness::{sweep_effect, sweep_once_at};
use crate::notify::Notifier;
use crate::seqs::copy_all;
use crate::proto::{AgentInfo, ClientMessage, Duplicate, LogEntry, ServerMessage, SessionId};

verus! {

/// What handling one client message produced.
pub struct Dispatch {
    /// Messages for every subscribed client, in order.
    pub broadcasts: Vec<ServerMessage>,
    /// The reply to the client that sent the message, if any. A subscriber
    /// gets a snapshot, and then the broadcasts that follow.
    pub reply: Option<ServerMessage>,
    /// The notifications handed to the notifier while handling the message,
    /// in order.
    pub notified: Vec<Notice>,
}

/// A removal notice for each retired session id.
pub open spec fn removal_messages(ids: Seq<SessionId>) -> Seq<ServerMessage> {
    ids.map_values(|id: SessionId| ServerMessage::AgentRemoved { session_id: id })
}

/// An appended-entry notice for each log entry.
pub open spec fn log_messages(entries: Seq<LogEntry>) -> Seq<ServerMessage> {
    entries.map_values(|e: LogEntry| ServerMessage::LogAppended { entry: e })
}

/// An update notice for each agent.
pub open spec fn update_messages(agents: Seq<AgentInfo>) -> Seq<ServerMessage> {
    agents.map_values(|a: AgentInfo| ServerMessage::AgentUpdate { agent: a })
}

/// `after` is `mid` with its unsent log entries handed out.
pub open spec fn drained<N: Notifier>(mid: Ingestor<N>, after: Ingestor<N>) -> bool {
    &&& after.registry_state() == mid.registry_state()
    &&& after.log_state() == mid.log_state()
    &&& after.unsent_entries() == Seq::<LogEntry>::empty()
    &&& after.notified_notices() == mid.notified_notices()
}

/// What handling `message` at time `now` does, taking the ingestor from
/// `before` to `after` and producing `r`.
pub open spec fn dispatch_effect<N: Notifier>(
    before: Ingestor<N>,
    after: Ingestor<N>,
    message: ClientMessage,
    now: u64,
    r: Dispatch,
) -> bool {
    match message {
        ClientMessage::ReportEvent { event } => exists|
            mid: Ingestor<N>,
            result: (AgentInfo, Vec<SessionId>),
        |
            {
                &&& ingest_event_effect(before, mid, event, now, result)
                &&& drained(mid, after)
                &&& r.broadcasts@ == log_messages(mid.unsent_entries()).push(
                    ServerMessage::AgentUpdate { agent: result.0 },
                ) + removal_messages(result.1@)
                &&& r.reply is None
                &&& r.notified@ == mid.notified_notices()
            },
        ClientMessage::ReportTestRun { cwd, pid, status } => exists|mid: Ingestor<N>, run|
            {
                &&& ingest_test_run_effect(before, mid, cwd, pid, status, now, run)
                &&& drained(mid, after)
                &&& r.broadcasts@ == log_messages(mid.unsent_entries()).push(
                    ServerMessage::TestRunUpdate { test_run: run },
                )
                &&& r.reply is None
                &&& r.notified@ == mid.notified_notices()
            },
        ClientMessage::Subscribe => {
            &&& after == before
            &&& r.broadcasts@ == Seq::<ServerMessage>::empty()
            &&& r.notified@ == Seq::<Notice>::empty()
            &&& match r.reply {
                Some(ServerMessage::Snapshot { agents, test_runs, logs }) => {
                    &&& agents@ == before.registry_state().agents()
                    &&& test_runs@ == before.registry_state().test_runs()
                    &&& logs@ == before.log_state().entries()
                },
                _ => false,
            }
        },
    }
}

/// Appends a removal notice for each of `ids` to `out`.
fn push_removals(out: &mut Vec<ServerMessage>, ids: &Vec<SessionId>)
    ensures
        final(out)@ == old(out)@ + removal_messages(ids@),
{
    let ghost start = out@;
    let mut i: usize = 0;
    while i < ids.len()
        invariant
            i <= ids@.len(),
            out@ == start + removal_messages(ids@.take(i as int)),
        decreases ids@.len() - i,
    {
        out.push(ServerMessage::AgentRemoved { session_id: ids[i].duplicate() });
        assert(removal_messages(ids@.take(i + 1)) =~= removal_messages(ids@.take(i as int)).push(
            ServerMessage::AgentRemoved { session_id: ids@[i as int] },
        ));
        i = i + 1;
    }
    assert(ids@.take(ids@.len() as int) =~= ids@);
}

/// Appends an appended-entry notice for each of `entries` to `out`.
fn push_log_notices(out: &mut Vec<ServerMessage>, entries: Vec<LogEntry>)
    ensures
        final(out)@ == old(out)@ + log_messages(entries@),
{
    let ghost start = out@;
    let mut i: usize = 0;
    while i < entries.len()
        invariant
            i <= entries@.len(),
            out@ == start + log_messages(entries@.take(i as int)),
        decreases entries@.len() - i,
    {
        out.push(ServerMessage::LogAppended { entry: entries[i].duplicate() });
        assert(log_messages(entries@.take(i + 1)) =~= log_messages(entries@.take(i as int)).push(
            ServerMessage::LogAppended { entry: entries@[i as int] },
        ));
        i = i + 1;
    }
    assert(entries@.take(entries@.len() as int) =~= entries@);
}

/// Handles one client message as of time `now`. A reported agent event
/// updates the registry and is announced to every subscriber: first the
/// log entries recorded since the last announcement, then the resulting
/// entry, then the sessions it retired. A reported test run is announced
/// the same way: its log entries, then the run. The notifications the
/// ingestor handed to the notifier for the message are returned too. A subscription is answered with a snapshot of every agent,
/// test run and log entry, and changes nothing.
pub fn dispatch_at<N: Notifier>(ingestor: &mut Ingestor<N>, message: ClientMessage, now: u64) -> (r:
    Dispatch)
    requires
        old(ingestor).wf(),
    ensures
        final(ingestor).wf(),
        dispatch_effect(*old(ingestor), *final(ingestor), message, now, r),
{
    match message {
        ClientMessage::ReportEvent { event } => {
            let (agent, retired) = ingestor.ingest_event_at(event, now);
            let ghost mid = *ingestor;
            let mut broadcasts: Vec<ServerMessage> = Vec::new();
            let entries = ingestor.take_new_log_entries();
            let notified = copy_all(ingestor.last_notified());
            push_log_notices(&mut broadcasts, entries);
            broadcasts.push(ServerMessage::AgentUpdate { agent: agent.duplicate() });
            push_removals(&mut broadcasts, &retired);
            proof {
                assert(ingest_event_effect(*old(ingestor), mid, event, now, (agent, retired)));
            }
            Dispatch { broadcasts, reply: None, notified }
        },
        ClientMessage::ReportTestRun { cwd, pid, status } => {
            let run = ingestor.ingest_test_run_at(cwd, pid, status, now);
            let ghost mid = *ingestor;
            let mut broadcasts: Vec<ServerMessage> = Vec::new();
            let entries = ingestor.take_new_log_entries();
            let notified = copy_all(ingestor.last_notified());
            push_log_notices(&mut broadcasts, entries);
            broadcasts.push(ServerMessage::TestRunUpdate { test_run: run.duplicate() });
            proof {
                assert(ingest_test_run_effect(*old(ingestor), mid, cwd, pid, status, now, run));
            }
            Dispatch { broadcasts, reply: None, notified }
        },
        ClientMessage::Subscribe => {
            let agents = ingestor.registry().snapshot();
            let test_runs = ingestor.registry().snapshot_test_runs();
            let logs = ingestor.activity_log().snapshot();
            Dispatch {
                broadcasts: Vec::new(),
                reply: Some(ServerMessage::Snapshot { agents, test_runs, logs }),
                notified: Vec::new(),
            }
        },
    }
}

/// `dispatch_at` as of the current wall-clock time.
pub fn dispatch<N: Notifier>(ingestor: &mut Ingestor<N>, message: ClientMessage) -> (r: Dispatch)
    requires
        old(ingestor).wf(),
    ensures
        final(ingestor).wf(),
        exists|now: u64| dispatch_effect(*old(ingestor), *final(ingestor), message, now, r),
{
    let now = crate::clock::now_ms();
    dispatch_at(ingestor, message, now)
}

/// Runs one liveness sweep over the ingestor's registry as of time `now`
/// (see `sweep_once_at`) and returns an update notice for each agent it
/// newly marked stale, for every subscriber.
pub fn sweep_and_announce_at<N: Notifier, F: Fn(u32) -> bool>(
    ingestor: &mut Ingestor<N>,
    is_alive: &F,
    now: u64,
) -> (r: Vec<ServerMessage>)
    requires
        old(ingestor).wf(),
        forall|pid: u32| is_alive.requires((pid,)),
    ensures
        final(ingestor).wf(),
        final(ingestor).log_state() == old(ingestor).log_state(),
        final(ingestor).unsent_entries() == old(ingestor).unsent_entries(),
        final(ingestor).notified_notices() == old(ingestor).notified_notices(),
        exists|stale: Seq<AgentInfo>|
            sweep_effect(
                old(ingestor).registry_state(),
                final(ingestor).registry_state(),
                *is_alive,
                now,
                stale,
            ) && r@ == update_messages(stale),
{
    let stale = sweep_once_at(ingestor.registry_mut(), is_alive, now);
    let mut out: Vec<ServerMessage> = Vec::new();
    let mut i: usize = 0;
    while i < stale.len()
        invariant
            i <= stale@.len(),
            out@ == update_messages(stale@.take(i as int)),
        decreases stale@.len() - i,
    {
        out.push(ServerMessage::AgentUpdate { agent: stale[i].duplicate() });
        assert(update_messages(stale@.take(i + 1)) =~= update_messages(stale@.take(i as int)).push(
            ServerMessage::AgentUpdate { agent: stale@[i as int] },
        ));
        i = i + 1;
    }
    assert(stale@.take(stale@.len() as int) =~= stale@);
    out
}

} // verus!
