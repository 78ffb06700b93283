//! Applies reported events to the registry, decides which of them notify the
//! user, and records the notification-worthy ones in the activity log.

use vstd::prelude::*;

use crate::activity_log::{recorded, recorded_all, ActivityLog};
use crate::clock::now_ms;
use crate::notify::Notifier;
use crate::proto::{AgentEvent, AgentInfo, AgentStatus, Duplicate, LogCategory, LogEntry, SessionId, TestRunInfo, TestRunStatus};
use crate::registry::{
    has_pid, is_retired, lemma_ignored_event_facts,
    lemma_retired_event_is_ignored, lemma_run_start_follows_running, lemma_second_done_finds_done,
    lemma_tracked_event_applies,
    run_start, session_entry, test_run_effect, upsert_effect, Registry, TestRunUpsertOutcome,
    UpsertOutcome,
};

verus! {

/// Every "needs input" event notifies (each is a distinct blocking prompt);
/// a "done" event notifies only when it changes the status; no other status
/// notifies.
pub open spec fn notifies(previous: Option<AgentStatus>, current: AgentStatus) -> bool {
    match current {
        AgentStatus::NeedsInput => true,
        AgentStatus::Done => previous != Some(current),
        _ => false,
    }
}

/// The activity-log status word of a notifying agent status.
pub open spec fn agent_log_status_text(status: AgentStatus) -> Seq<char> {
    if status == AgentStatus::Done {
        "done"@
    } else {
        "needs_input"@
    }
}

/// The activity-log status word of a test-run status.
pub open spec fn test_run_log_status_text(status: TestRunStatus) -> Seq<char> {
    match status {
        TestRunStatus::Started => "started"@,
        TestRunStatus::Passed => "passed"@,
        TestRunStatus::Failed => "failed"@,
    }
}

/// `e` is the "started" entry of `agent`'s new run of work, stamped with the
/// run's start time.
pub open spec fn is_started_entry(e: LogEntry, agent: AgentInfo) -> bool {
    &&& e.working_dir == agent.cwd
    &&& e.category == LogCategory::Agent
    &&& e.status@ == "started"@
    &&& e.occurred_at_ms == agent.run_started_ms
    &&& e.pid == Some(agent.pid)
}

/// `e` is the entry for `agent` entering "done" or "needs input" at `now`.
pub open spec fn is_attention_entry(e: LogEntry, agent: AgentInfo, now: u64) -> bool {
    &&& e.working_dir == agent.cwd
    &&& e.category == LogCategory::Agent
    &&& e.status@ == agent_log_status_text(agent.status)
    &&& e.occurred_at_ms == now
    &&& e.pid == Some(agent.pid)
}

/// `e` is the entry for a test-run report of `status` stamped at `now`.
pub open spec fn is_test_run_entry(e: LogEntry, run: TestRunInfo, status: TestRunStatus, now: u64) -> bool {
    &&& e.working_dir == run.cwd
    &&& e.category == LogCategory::TestRun
    &&& e.status@ == test_run_log_status_text(status)
    &&& e.occurred_at_ms == now
    &&& e.pid == Some(run.pid)
}

/// The entries an applied agent event records: none for an ignored late
/// event; a "started" entry when it begins a new run of work; an attention
/// entry when it notifies; nothing otherwise.
pub open spec fn event_entries(entries: Seq<LogEntry>, outcome: UpsertOutcome, now: u64) -> bool {
    if outcome.stale_event_ignored {
        entries.len() == 0
    } else if run_start(outcome.previous_status, outcome.agent.status) {
        entries.len() == 1 && is_started_entry(entries[0], outcome.agent)
    } else if notifies(outcome.previous_status, outcome.agent.status) {
        entries.len() == 1 && is_attention_entry(entries[0], outcome.agent, now)
    } else {
        entries.len() == 0
    }
}

/// Applies incoming agent events to the registry and notifies the user, through
/// its notifier, of transitions that need attention and of test-run events.
pub struct Ingestor<N: Notifier> {
    registry: Registry,
    notifier: N,
    activity_log: ActivityLog,
    /// Entries recorded since they were last taken, for the daemon to pass
    /// on to its subscribers.
    unsent: Vec<LogEntry>,
    /// The notifications the last ingested event or report handed to the
    /// notifier, in order.
    notified: Vec<Notice>,
}

/// A notification for the user: an agent that needs attention, or a
/// test-run event in a directory.
#[derive(Debug)]
pub enum Notice {
    Agent(AgentInfo),
    TestRun(String, TestRunStatus),
}

impl Duplicate for Notice {
    fn duplicate(&self) -> (r: Notice) {
        match self {
            Notice::Agent(agent) => Notice::Agent(agent.duplicate()),
            Notice::TestRun(cwd, status) => Notice::TestRun(cwd.clone(), *status),
        }
    }
}

/// The notifications an applied agent event sends: one about the resulting
/// entry when it is a transition that `notifies`, none for an ignored late
/// event or any other transition.
pub open spec fn event_notices(outcome: UpsertOutcome) -> Seq<Notice> {
    if !outcome.stale_event_ignored && notifies(outcome.previous_status, outcome.agent.status) {
        seq![Notice::Agent(outcome.agent)]
    } else {
        Seq::empty()
    }
}

/// The exact effect of `Ingestor::ingest_event_at(event, now)` returning
/// `result`.
pub open spec fn ingest_event_effect<N: Notifier>(
    before: Ingestor<N>,
    after: Ingestor<N>,
    event: AgentEvent,
    now: u64,
    result: (AgentInfo, Vec<SessionId>),
) -> bool {
    exists|outcome: UpsertOutcome, entries: Seq<LogEntry>|
        {
            &&& upsert_effect(before.registry_state(), after.registry_state(), event, now, outcome)
            &&& result.0 == outcome.agent
            &&& result.1@ == outcome.retired_session_ids@
            &&& event_entries(entries, outcome, now)
            &&& after.log_state().entries() == recorded_all(before.log_state().entries(), entries)
            &&& after.unsent_entries() == before.unsent_entries() + entries
            &&& after.notified_notices() == event_notices(outcome)
        }
}

/// The exact effect of `Ingestor::ingest_test_run_at(cwd, pid, status, now)`
/// returning `run`.
pub open spec fn ingest_test_run_effect<N: Notifier>(
    before: Ingestor<N>,
    after: Ingestor<N>,
    cwd: String,
    pid: u32,
    status: TestRunStatus,
    now: u64,
    run: TestRunInfo,
) -> bool {
    exists|outcome, entry: LogEntry|
        {
            &&& test_run_effect(
                before.registry_state(),
                after.registry_state(),
                cwd,
                pid,
                status,
                now,
                outcome,
            )
            &&& run == outcome.test_run
            &&& is_test_run_entry(entry, run, status, now)
            &&& after.log_state().entries() == recorded(before.log_state().entries(), entry)
            &&& after.unsent_entries() == before.unsent_entries().push(entry)
            &&& after.notified_notices() == seq![Notice::TestRun(run.cwd, status)]
        }
}

pub fn should_notify(previous: Option<AgentStatus>, current: AgentStatus) -> (r: bool)
    ensures
        r == notifies(previous, current),
{
    match current {
        AgentStatus::NeedsInput => true,
        AgentStatus::Done => match previous {
            Some(p) => p != AgentStatus::Done,
            None => true,
        },
        _ => false,
    }
}

/// Whether this transition begins a new run of work: entering "running" from
/// any other status, including no previous status at all.
pub fn is_run_start(previous: Option<AgentStatus>, current: AgentStatus) -> (r: bool)
    ensures
        r == run_start(previous, current),
{
    current == AgentStatus::Running && match previous {
        Some(p) => p != AgentStatus::Running,
        None => true,
    }
}

/// The activity-log status word of a notifying agent status.
pub fn agent_log_status(status: AgentStatus) -> (r: &'static str)
    requires
        status == AgentStatus::Done || status == AgentStatus::NeedsInput,
    ensures
        r@ == agent_log_status_text(status),
{
    match status {
        AgentStatus::Done => "done",
        _ => "needs_input",
    }
}

/// The activity-log status word of a test-run status.
pub fn test_run_log_status(status: TestRunStatus) -> (r: &'static str)
    ensures
        r@ == test_run_log_status_text(status),
{
    match status {
        TestRunStatus::Started => "started",
        TestRunStatus::Passed => "passed",
        TestRunStatus::Failed => "failed",
    }
}

impl<N: Notifier> Ingestor<N> {
    /// The registry the ingestor applies events to.
    pub closed spec fn registry_state(self) -> Registry {
        self.registry
    }

    /// The activity log the ingestor records to.
    pub closed spec fn log_state(self) -> ActivityLog {
        self.activity_log
    }

    /// The entries recorded since `take_new_log_entries` last ran, oldest
    /// first.
    pub closed spec fn unsent_entries(self) -> Seq<LogEntry> {
        self.unsent@
    }

    /// The notifications the last ingested event or report handed to the
    /// notifier, in order.
    pub closed spec fn notified_notices(self) -> Seq<Notice> {
        self.notified@
    }

    pub open spec fn wf(self) -> bool {
        self.registry_state().wf() && self.log_state().wf()
    }

    /// An ingestor over `registry`, with an empty activity log.
    pub fn new(registry: Registry, notifier: N) -> (r: Ingestor<N>)
        requires
            registry.wf(),
        ensures
            r.wf(),
            r.registry_state() == registry,
            r.log_state().entries() == Seq::<LogEntry>::empty(),
            r.unsent_entries() == Seq::<LogEntry>::empty(),
            r.notified_notices() == Seq::<Notice>::empty(),
    {
        Ingestor {
            registry,
            notifier,
            activity_log: ActivityLog::new(),
            unsent: Vec::new(),
            notified: Vec::new(),
        }
    }

    pub fn registry(&self) -> (r: &Registry)
        ensures
            *r == self.registry_state(),
    {
        &self.registry
    }

    /// Mutable access to the registry, e.g. for the liveness sweep.
    pub fn registry_mut(&mut self) -> (r: &mut Registry)
        ensures
            *r == old(self).registry_state(),
            final(self).registry_state() == *final(r),
            final(self).log_state() == old(self).log_state(),
            final(self).unsent_entries() == old(self).unsent_entries(),
            final(self).notified_notices() == old(self).notified_notices(),
    {
        &mut self.registry
    }

    /// The daemon's bounded activity log.
    pub fn activity_log(&self) -> (r: &ActivityLog)
        ensures
            *r == self.log_state(),
    {
        &self.activity_log
    }

    fn record_log(&mut self, entry: LogEntry)
        requires
            old(self).wf(),
        ensures
            final(self).wf(),
            final(self).registry_state() == old(self).registry_state(),
            final(self).log_state().entries() == recorded(old(self).log_state().entries(), entry),
            final(self).unsent_entries() == old(self).unsent_entries().push(entry),
            final(self).notified_notices() == old(self).notified_notices(),
    {
        self.unsent.push(entry.duplicate());
        self.activity_log.record(entry);
    }

    /// Takes every entry recorded since the last call, oldest first, so each
    /// recorded entry is handed out exactly once.
    pub fn take_new_log_entries(&mut self) -> (r: Vec<LogEntry>)
        ensures
            r@ == old(self).unsent_entries(),
            final(self).unsent_entries() == Seq::<LogEntry>::empty(),
            final(self).registry_state() == old(self).registry_state(),
            final(self).log_state() == old(self).log_state(),
            final(self).notified_notices() == old(self).notified_notices(),
    {
        let mut taken: Vec<LogEntry> = Vec::new();
        std::mem::swap(&mut taken, &mut self.unsent);
        taken
    }

    /// The notifications the last ingested event or report handed to the
    /// notifier, in order.
    pub fn last_notified(&self) -> (r: &Vec<Notice>)
        ensures
            r@ == self.notified_notices(),
    {
        &self.notified
    }

    /// Hands `notices` to the notifier, in order: an agent to `notify`, a
    /// test-run event to `notify_test_run`.
    fn deliver(&self, notices: &Vec<Notice>) {
        let mut i: usize = 0;
        while i < notices.len()
            invariant
                i <= notices@.len(),
            decreases notices@.len() - i,
        {
            match &notices[i] {
                Notice::Agent(agent) => self.notifier.notify(agent),
                Notice::TestRun(cwd, status) => self.notifier.notify_test_run(cwd.as_str(), *status),
            }
            i = i + 1;
        }
    }

    /// Updates the registry from a hook-reported event as of time `now`,
    /// notifying the user of the resulting entry and recording an
    /// activity-log entry if the result is a transition into "done" or a
    /// "needs input", and recording a "started" entry when the event begins
    /// a new run of work. A late event of an already-superseded session
    /// notifies and records nothing. `last_notified` then holds what was
    /// handed to the notifier.
    ///
    /// Returns the resulting entry and the session ids the registry retired
    /// while applying the event. The notifier is called exactly when the
    /// attention entry is recorded.
    pub fn ingest_event_at(&mut self, event: AgentEvent, now: u64) -> (r: (AgentInfo, Vec<SessionId>))
        requires
            old(self).wf(),
        ensures
            final(self).wf(),
            ingest_event_effect(*old(self), *final(self), event, now, r),
    {
        let ghost before = *self;
        let outcome = self.registry.upsert_at(event, now);
        let mut notices: Vec<Notice> = Vec::new();
        if outcome.stale_event_ignored {
            self.notified = notices;
            proof {
                let entries = Seq::<LogEntry>::empty();
                assert(event_entries(entries, outcome, now));
                assert(recorded_all(before.log_state().entries(), entries)
                    == before.log_state().entries());
                assert(before.unsent_entries() + entries =~= before.unsent_entries());
                assert(event_notices(outcome) =~= Seq::<Notice>::empty());
            }
            return (outcome.agent, outcome.retired_session_ids);
        }
        if is_run_start(outcome.previous_status, outcome.agent.status) {
            let entry = LogEntry {
                working_dir: outcome.agent.cwd.clone(),
                category: LogCategory::Agent,
                status: "started".to_owned(),
                occurred_at_ms: outcome.agent.run_started_ms,
                pid: Some(outcome.agent.pid),
            };
            let ghost e = entry;
            self.record_log(entry);
            proof {
                let entries = seq![e];
                assert(entries.drop_last() =~= Seq::<LogEntry>::empty());
                assert(event_entries(entries, outcome, now));
                assert(recorded_all(before.log_state().entries(), entries.drop_last())
                    == before.log_state().entries());
                assert(self.log_state().entries() == recorded_all(
                    before.log_state().entries(),
                    entries,
                ));
                assert(before.unsent_entries() + entries =~= before.unsent_entries().push(e));
                assert(event_notices(outcome) =~= Seq::<Notice>::empty());
            }
        } else if should_notify(outcome.previous_status, outcome.agent.status) {
            notices.push(Notice::Agent(outcome.agent.duplicate()));
            let entry = LogEntry {
                working_dir: outcome.agent.cwd.clone(),
                category: LogCategory::Agent,
                status: agent_log_status(outcome.agent.status).to_owned(),
                occurred_at_ms: now,
                pid: Some(outcome.agent.pid),
            };
            let ghost e = entry;
            self.record_log(entry);
            proof {
                let entries = seq![e];
                assert(entries.drop_last() =~= Seq::<LogEntry>::empty());
                assert(event_entries(entries, outcome, now));
                assert(recorded_all(before.log_state().entries(), entries.drop_last())
                    == before.log_state().entries());
                assert(self.log_state().entries() == recorded_all(
                    before.log_state().entries(),
                    entries,
                ));
                assert(before.unsent_entries() + entries =~= before.unsent_entries().push(e));
                assert(event_notices(outcome) =~= seq![Notice::Agent(outcome.agent)]);
            }
        } else {
            proof {
                let entries = Seq::<LogEntry>::empty();
                assert(event_entries(entries, outcome, now));
                assert(before.unsent_entries() + entries =~= before.unsent_entries());
                assert(event_notices(outcome) =~= Seq::<Notice>::empty());
            }
        }
        self.deliver(&notices);
        self.notified = notices;
        (outcome.agent, outcome.retired_session_ids)
    }

    /// `ingest_event_at` as of the current wall-clock time.
    pub fn ingest_event(&mut self, event: AgentEvent) -> (r: (AgentInfo, Vec<SessionId>))
        requires
            old(self).wf(),
        ensures
            final(self).wf(),
            exists|now: u64| ingest_event_effect(*old(self), *final(self), event, now, r),
    {
        let now = now_ms();
        self.ingest_event_at(event, now)
    }

    /// Updates the registry from a reported test-run event as of time `now`,
    /// queuing a notification of its directory and status and recording an
    /// activity-log entry for every
    /// status - "started", "passed", or "failed" - whether or not its
    /// directory has a tracked agent.
    pub fn ingest_test_run_at(
        &mut self,
        cwd: String,
        pid: u32,
        status: TestRunStatus,
        now: u64,
    ) -> (r: TestRunInfo)
        requires
            old(self).wf(),
        ensures
            final(self).wf(),
            ingest_test_run_effect(*old(self), *final(self), cwd, pid, status, now, r),
    {
        let outcome = self.registry.upsert_test_run_at(cwd, pid, status, now);
        let test_run = outcome.test_run;
        let mut notices: Vec<Notice> = Vec::new();
        notices.push(Notice::TestRun(test_run.cwd.clone(), status));
        assert(notices@ =~= seq![Notice::TestRun(test_run.cwd, status)]);
        self.deliver(&notices);
        self.notified = notices;
        let entry = LogEntry {
            working_dir: test_run.cwd.clone(),
            category: LogCategory::TestRun,
            status: test_run_log_status(status).to_owned(),
            occurred_at_ms: now,
            pid: Some(test_run.pid),
        };
        let ghost e = entry;
        self.record_log(entry);
        proof {
            assert(test_run_effect(
                old(self).registry_state(),
                self.registry_state(),
                cwd,
                pid,
                status,
                now,
                outcome,
            ) && test_run == outcome.test_run && is_test_run_entry(e, test_run, status, now)
                && self.log_state().entries() == recorded(old(self).log_state().entries(), e)
                && self.unsent_entries() == old(self).unsent_entries().push(e));
        }
        test_run
    }

    /// `ingest_test_run_at` as of the current wall-clock time.
    pub fn ingest_test_run(&mut self, cwd: String, pid: u32, status: TestRunStatus) -> (r: TestRunInfo)
        requires
            old(self).wf(),
        ensures
            final(self).wf(),
            exists|now: u64| ingest_test_run_effect(*old(self), *final(self), cwd, pid, status, now, r),
    {
        let now = now_ms();
        self.ingest_test_run_at(cwd, pid, status, now)
    }
}

/// A second "done" event for a session does not notify again or add to the
/// activity log: "done" notifies only on the transition into it.
pub proof fn lemma_repeated_done_is_quiet<N: Notifier>(
    before: Ingestor<N>,
    mid: Ingestor<N>,
    after: Ingestor<N>,
    first: AgentEvent,
    second: AgentEvent,
    t1: u64,
    t2: u64,
    r1: (AgentInfo, Vec<SessionId>),
    r2: (AgentInfo, Vec<SessionId>),
)
    requires
        mid.wf(),
        ingest_event_effect(before, mid, first, t1, r1),
        ingest_event_effect(mid, after, second, t2, r2),
        first.status == AgentStatus::Done,
        second.status == AgentStatus::Done,
        first.session_id == second.session_id,
        first.pid == second.pid,
    ensures
        after.notified_notices() == Seq::<Notice>::empty(),
        after.log_state().entries() == mid.log_state().entries(),
        after.unsent_entries() == mid.unsent_entries(),
{
    let (o1, e1) = choose|outcome: UpsertOutcome, entries: Seq<LogEntry>|
        {
            &&& upsert_effect(before.registry_state(), mid.registry_state(), first, t1, outcome)
            &&& r1.0 == outcome.agent
            &&& r1.1@ == outcome.retired_session_ids@
            &&& event_entries(entries, outcome, t1)
            &&& mid.log_state().entries() == recorded_all(before.log_state().entries(), entries)
            &&& mid.unsent_entries() == before.unsent_entries() + entries
            &&& mid.notified_notices() == event_notices(outcome)
        };
    let (o2, e2) = choose|outcome: UpsertOutcome, entries: Seq<LogEntry>|
        {
            &&& upsert_effect(mid.registry_state(), after.registry_state(), second, t2, outcome)
            &&& r2.0 == outcome.agent
            &&& r2.1@ == outcome.retired_session_ids@
            &&& event_entries(entries, outcome, t2)
            &&& after.log_state().entries() == recorded_all(mid.log_state().entries(), entries)
            &&& after.unsent_entries() == mid.unsent_entries() + entries
            &&& after.notified_notices() == event_notices(outcome)
        };
    lemma_second_done_finds_done(
        before.registry_state(),
        mid.registry_state(),
        after.registry_state(),
        first,
        second,
        t1,
        t2,
        o1,
        o2,
    );
    assert(event_notices(o2) =~= Seq::<Notice>::empty());
    assert(e2.len() == 0);
    assert(mid.unsent_entries() + e2 =~= mid.unsent_entries());
}

/// Every "needs input" event for a tracked session that is not done
/// notifies, however many came before: each is a distinct blocking prompt.
pub proof fn lemma_needs_input_always_notifies<N: Notifier>(
    before: Ingestor<N>,
    after: Ingestor<N>,
    event: AgentEvent,
    now: u64,
    result: (AgentInfo, Vec<SessionId>),
)
    requires
        ingest_event_effect(before, after, event, now, result),
        event.status == AgentStatus::NeedsInput,
        session_entry(before.registry_state().agents(), event.session_id.0@) matches Some(prev)
            && prev.status != AgentStatus::Done,
    ensures
        after.notified_notices() == seq![Notice::Agent(result.0)],
        result.0.status == AgentStatus::NeedsInput,
{
    let (o, e) = choose|outcome: UpsertOutcome, entries: Seq<LogEntry>|
        {
            &&& upsert_effect(before.registry_state(), after.registry_state(), event, now, outcome)
            &&& result.0 == outcome.agent
            &&& result.1@ == outcome.retired_session_ids@
            &&& event_entries(entries, outcome, now)
            &&& after.log_state().entries() == recorded_all(before.log_state().entries(), entries)
            &&& after.unsent_entries() == before.unsent_entries() + entries
            &&& after.notified_notices() == event_notices(outcome)
        };
    lemma_tracked_event_applies(before.registry_state(), after.registry_state(), event, now, o);
    assert(event_notices(o) =~= seq![Notice::Agent(result.0)]);
}

/// A late event for a session superseded on its pid - untracked, retired,
/// with its pid's live entry tracked - changes nothing, notifies nothing and
/// logs nothing, whatever the live session's status.
pub proof fn lemma_superseded_event_is_ignored<N: Notifier>(
    before: Ingestor<N>,
    after: Ingestor<N>,
    event: AgentEvent,
    now: u64,
    result: (AgentInfo, Vec<SessionId>),
)
    requires
        ingest_event_effect(before, after, event, now, result),
        session_entry(before.registry_state().agents(), event.session_id.0@) is None,
        is_retired(before.registry_state().retired(), event.session_id.0@),
        has_pid(before.registry_state().agents(), event.pid),
    ensures
        after.registry_state().agents() == before.registry_state().agents(),
        after.registry_state().retired() == before.registry_state().retired(),
        after.notified_notices() == Seq::<Notice>::empty(),
        after.log_state().entries() == before.log_state().entries(),
        after.unsent_entries() == before.unsent_entries(),
{
    let (o, e) = choose|outcome: UpsertOutcome, entries: Seq<LogEntry>|
        {
            &&& upsert_effect(before.registry_state(), after.registry_state(), event, now, outcome)
            &&& result.0 == outcome.agent
            &&& result.1@ == outcome.retired_session_ids@
            &&& event_entries(entries, outcome, now)
            &&& after.log_state().entries() == recorded_all(before.log_state().entries(), entries)
            &&& after.unsent_entries() == before.unsent_entries() + entries
            &&& after.notified_notices() == event_notices(outcome)
        };
    lemma_retired_event_is_ignored(before.registry_state(), after.registry_state(), event, now, o);
    lemma_ignored_event_facts(before.registry_state(), after.registry_state(), event, now, o);
    assert(e.len() == 0);
    assert(before.unsent_entries() + e =~= before.unsent_entries());
    assert(event_notices(o) =~= Seq::<Notice>::empty());
}

/// `after` is `before` with `entries` recorded: appended, in order, to the
/// activity log and to the entries waiting to be handed out.
pub open spec fn records<N: Notifier>(
    before: Ingestor<N>,
    after: Ingestor<N>,
    entries: Seq<LogEntry>,
) -> bool {
    &&& after.log_state().entries() == recorded_all(before.log_state().entries(), entries)
    &&& after.unsent_entries() == before.unsent_entries() + entries
}

/// The entries of `batches`, batch after batch.
pub open spec fn all_entries(batches: Seq<Seq<LogEntry>>) -> Seq<LogEntry>
    decreases batches.len(),
{
    if batches.len() == 0 {
        Seq::empty()
    } else {
        all_entries(batches.drop_last()) + batches.last()
    }
}

/// Recording `a` and then `b` is recording `a` followed by `b`.
proof fn lemma_recorded_all_append(log: Seq<LogEntry>, a: Seq<LogEntry>, b: Seq<LogEntry>)
    ensures
        recorded_all(recorded_all(log, a), b) == recorded_all(log, a + b),
    decreases b.len(),
{
    if b.len() == 0 {
        assert(a + b =~= a);
    } else {
        lemma_recorded_all_append(log, a, b.drop_last());
        assert((a + b).drop_last() =~= a + b.drop_last());
        assert((a + b).last() == b.last());
    }
}

/// An agent event records the entries its effect names.
pub proof fn lemma_event_records<N: Notifier>(
    before: Ingestor<N>,
    after: Ingestor<N>,
    event: AgentEvent,
    now: u64,
    result: (AgentInfo, Vec<SessionId>),
)
    requires
        ingest_event_effect(before, after, event, now, result),
    ensures
        exists|entries: Seq<LogEntry>| records(before, after, entries),
{
    let (o, e) = choose|outcome: UpsertOutcome, entries: Seq<LogEntry>|
        {
            &&& upsert_effect(before.registry_state(), after.registry_state(), event, now, outcome)
            &&& result.0 == outcome.agent
            &&& result.1@ == outcome.retired_session_ids@
            &&& event_entries(entries, outcome, now)
            &&& after.log_state().entries() == recorded_all(before.log_state().entries(), entries)
            &&& after.unsent_entries() == before.unsent_entries() + entries
            &&& after.notified_notices() == event_notices(outcome)
        };
    assert(records(before, after, e));
}

/// A test-run report records its one entry.
pub proof fn lemma_test_run_records<N: Notifier>(
    before: Ingestor<N>,
    after: Ingestor<N>,
    cwd: String,
    pid: u32,
    status: TestRunStatus,
    now: u64,
    run: TestRunInfo,
)
    requires
        ingest_test_run_effect(before, after, cwd, pid, status, now, run),
    ensures
        exists|entries: Seq<LogEntry>| records(before, after, entries),
{
    let (o, e) = choose|outcome: TestRunUpsertOutcome, entry: LogEntry|
        {
            &&& test_run_effect(
                before.registry_state(),
                after.registry_state(),
                cwd,
                pid,
                status,
                now,
                outcome,
            )
            &&& run == outcome.test_run
            &&& is_test_run_entry(entry, run, status, now)
            &&& after.log_state().entries() == recorded(before.log_state().entries(), entry)
            &&& after.unsent_entries() == before.unsent_entries().push(entry)
            &&& after.notified_notices() == seq![Notice::TestRun(run.cwd, status)]
        };
    let entries = seq![e];
    assert(entries.drop_last() =~= Seq::<LogEntry>::empty());
    assert(recorded_all(before.log_state().entries(), entries.drop_last())
        == before.log_state().entries());
    assert(entries.last() == e);
    assert(recorded_all(before.log_state().entries(), entries) == recorded(
        before.log_state().entries(),
        e,
    ));
    assert(before.unsent_entries() + entries =~= before.unsent_entries().push(e));
    assert(records(before, after, entries));
}

/// Every recorded entry is handed out exactly once, in order: after a run of
/// steps that each record a batch of entries (as every ingest does), the
/// activity log holds every batch recorded in order, and the entries waiting
/// to be handed out are those that waited before followed by every batch in
/// order - which is what the next `take_new_log_entries` returns, leaving
/// none to hand out again.
pub proof fn lemma_every_recorded_entry_is_handed_out_once<N: Notifier>(
    states: Seq<Ingestor<N>>,
    batches: Seq<Seq<LogEntry>>,
)
    requires
        states.len() == batches.len() + 1,
        forall|k: int|
            0 <= k < batches.len() ==> records(states[k], states[k + 1], #[trigger] batches[k]),
    ensures
        states.last().unsent_entries() == states[0].unsent_entries() + all_entries(batches),
        states.last().log_state().entries() == recorded_all(
            states[0].log_state().entries(),
            all_entries(batches),
        ),
    decreases batches.len(),
{
    if batches.len() == 0 {
        assert(states[0].unsent_entries() + all_entries(batches) =~= states[0].unsent_entries());
    } else {
        let n = batches.len() - 1;
        let s = states.drop_last();
        let b = batches.drop_last();
        assert forall|k: int| 0 <= k < b.len() implies records(s[k], s[k + 1], #[trigger] b[k]) by {
            assert(batches[k] == b[k]);
        }
        lemma_every_recorded_entry_is_handed_out_once(s, b);
        assert(s.last() == states[n]);
        assert(records(states[n], states[n + 1], batches[n]));
        assert(states[0].unsent_entries() + all_entries(b) + batches[n] =~= states[0].unsent_entries()
            + all_entries(batches));
        lemma_recorded_all_append(states[0].log_state().entries(), all_entries(b), batches[n]);
    }
}

/// A tracked session resuming work - an event that moves it into "running"
/// from any other status - starts a new run at the event's time: the entry's
/// run starts then, and exactly one entry is recorded, a "started" entry for
/// the session stamped with the event's time.
pub proof fn lemma_resumed_run_is_logged_at_the_event<N: Notifier>(
    before: Ingestor<N>,
    after: Ingestor<N>,
    event: AgentEvent,
    now: u64,
    result: (AgentInfo, Vec<SessionId>),
)
    requires
        ingest_event_effect(before, after, event, now, result),
        event.status == AgentStatus::Running,
        session_entry(before.registry_state().agents(), event.session_id.0@) matches Some(p)
            && p.status != AgentStatus::Running,
    ensures
        result.0.run_started_ms == now,
        after.unsent_entries().len() == before.unsent_entries().len() + 1,
        after.unsent_entries().last().status@ == "started"@,
        after.unsent_entries().last().occurred_at_ms == now,
        after.unsent_entries().last().working_dir == result.0.cwd,
        after.unsent_entries().last().pid == Some(result.0.pid),
        after.notified_notices() == Seq::<Notice>::empty(),
{
    let (o, e) = choose|outcome: UpsertOutcome, entries: Seq<LogEntry>|
        {
            &&& upsert_effect(before.registry_state(), after.registry_state(), event, now, outcome)
            &&& result.0 == outcome.agent
            &&& result.1@ == outcome.retired_session_ids@
            &&& event_entries(entries, outcome, now)
            &&& after.log_state().entries() == recorded_all(before.log_state().entries(), entries)
            &&& after.unsent_entries() == before.unsent_entries() + entries
            &&& after.notified_notices() == event_notices(outcome)
        };
    lemma_tracked_event_applies(before.registry_state(), after.registry_state(), event, now, o);
    lemma_run_start_follows_running(before.registry_state(), after.registry_state(), event, now, o);
    assert(e.len() == 1);
    assert(after.unsent_entries().last() == e[0]);
    assert(event_notices(o) =~= Seq::<Notice>::empty());
}

} // verus!
