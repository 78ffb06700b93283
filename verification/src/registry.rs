//! The daemon's in-memory registry of tracked agents (keyed by session id)
//! and test runs (keyed by working directory).

use vstd::prelude::*;

use crate::clock::now_ms;
use crate::groups::{group_by_directory, grouped, DirectoryGroup};
use crate::seqs::copy_all;
use crate::proto::{Duplicate, AgentEvent, AgentInfo, AgentStatus, SessionId, TestRunInfo, TestRunStatus};

verus! {

/// No two tracked agents share a session id.
pub open spec fn sessions_unique(agents: Seq<AgentInfo>) -> bool {
    forall|i: int, j: int|
        #![trigger agents[i], agents[j]]
        0 <= i < agents.len() && 0 <= j < agents.len() && i != j
            ==> agents[i].session_id.0@ != agents[j].session_id.0@
}

/// No two tracked test runs share a working directory.
pub open spec fn dirs_unique(runs: Seq<TestRunInfo>) -> bool {
    forall|i: int, j: int|
        #![trigger runs[i], runs[j]]
        0 <= i < runs.len() && 0 <= j < runs.len() && i != j ==> runs[i].cwd@ != runs[j].cwd@
}

pub open spec fn has_session(agents: Seq<AgentInfo>, id: Seq<char>) -> bool {
    exists|i: int| 0 <= i < agents.len() && agents[i].session_id.0@ == id
}

pub open spec fn session_index(agents: Seq<AgentInfo>, id: Seq<char>) -> int {
    choose|i: int| 0 <= i < agents.len() && agents[i].session_id.0@ == id
}

/// The tracked agent with session id `id`, if any.
pub open spec fn session_entry(agents: Seq<AgentInfo>, id: Seq<char>) -> Option<AgentInfo> {
    if has_session(agents, id) {
        Some(agents[session_index(agents, id)])
    } else {
        None
    }
}

pub open spec fn has_pid(agents: Seq<AgentInfo>, pid: u32) -> bool {
    exists|i: int| 0 <= i < agents.len() && agents[i].pid == pid
}

/// The position of the first tracked agent with process id `pid`.
pub open spec fn first_with_pid(agents: Seq<AgentInfo>, pid: u32) -> int {
    choose|i: int|
        0 <= i < agents.len() && agents[i].pid == pid && forall|j: int|
            0 <= j < i ==> #[trigger] agents[j].pid != pid
}

pub open spec fn is_retired(retired: Seq<SessionId>, id: Seq<char>) -> bool {
    exists|k: int| 0 <= k < retired.len() && retired[k].0@ == id
}

/// No two tracked agents share a process id.
pub open spec fn pids_unique(agents: Seq<AgentInfo>) -> bool {
    forall|i: int, j: int|
        #![trigger agents[i], agents[j]]
        0 <= i < agents.len() && 0 <= j < agents.len() && i != j ==> agents[i].pid != agents[j].pid
}

/// Whether `a` is another session's entry on process id `pid`: an applied
/// event of session `id` that reports `pid` displaces it.
pub open spec fn displaced_by(id: Seq<char>, pid: u32) -> spec_fn(AgentInfo) -> bool {
    |a: AgentInfo| a.pid == pid && a.session_id.0@ != id
}

/// Whether `a` stays tracked through an applied event of session `id` that
/// reports process id `pid`.
pub open spec fn kept_by(id: Seq<char>, pid: u32) -> spec_fn(AgentInfo) -> bool {
    |a: AgentInfo| !(a.pid == pid && a.session_id.0@ != id)
}

/// Whether moving from `previous` to `current` begins a new run of work:
/// entering "running" from any other status, or registering already running.
pub open spec fn run_start(previous: Option<AgentStatus>, current: AgentStatus) -> bool {
    current == AgentStatus::Running && previous != Some(AgentStatus::Running)
}

/// A "needs input" event for a session that is already "done" is dropped.
pub open spec fn drops_late_needs_input(prev: Option<AgentInfo>, status: AgentStatus) -> bool {
    match prev {
        Some(p) => p.status == AgentStatus::Done && status == AgentStatus::NeedsInput,
        None => false,
    }
}

/// The entry an applied event leaves for its session at time `now`.
pub open spec fn upserted(event: AgentEvent, prev: Option<AgentInfo>, now: u64) -> AgentInfo {
    AgentInfo {
        session_id: event.session_id,
        cwd: event.cwd,
        host_context: event.host_context,
        pid: event.pid,
        status: event.status,
        last_updated_ms: now,
        status_since_ms: match prev {
            Some(p) => if p.status == event.status {
                p.status_since_ms
            } else {
                now
            },
            None => now,
        },
        run_started_ms: match prev {
            Some(p) => if run_start(Some(p.status), event.status) {
                now
            } else {
                p.run_started_ms
            },
            None => now,
        },
    }
}

/// `a` marked stale at time `now`.
pub open spec fn staled(a: AgentInfo, now: u64) -> AgentInfo {
    AgentInfo { status: AgentStatus::Stale, last_updated_ms: now, status_since_ms: now, ..a }
}

/// The position of the test run for directory `cwd`, if any.
pub open spec fn has_dir(runs: Seq<TestRunInfo>, cwd: Seq<char>) -> bool {
    exists|i: int| 0 <= i < runs.len() && runs[i].cwd@ == cwd
}

pub open spec fn dir_index(runs: Seq<TestRunInfo>, cwd: Seq<char>) -> int {
    choose|i: int| 0 <= i < runs.len() && runs[i].cwd@ == cwd
}

/// The test-run entry a report leaves for its directory at time `now`.
pub open spec fn reported_run(
    runs: Seq<TestRunInfo>,
    cwd: String,
    pid: u32,
    status: TestRunStatus,
    now: u64,
) -> TestRunInfo {
    TestRunInfo {
        cwd: cwd,
        pid: pid,
        status: status,
        last_updated_ms: now,
        run_started_ms: if has_dir(runs, cwd@) && runs[dir_index(runs, cwd@)].pid == pid {
            runs[dir_index(runs, cwd@)].run_started_ms
        } else {
            now
        },
    }
}

/// Whether some tracked agent works in directory `cwd`.
pub open spec fn has_agent_in(agents: Seq<AgentInfo>, cwd: Seq<char>) -> bool {
    exists|i: int| 0 <= i < agents.len() && agents[i].cwd@ == cwd
}

/// A tracked test run's update, paired with whether its working directory
/// currently has any tracked agent.
pub struct TestRunUpsertOutcome {
    pub test_run: TestRunInfo,
    pub has_tracked_agent: bool,
}

/// What applying one agent event did.
pub struct UpsertOutcome {
    /// The entry the event's session (or, for a superseded session, its
    /// pid's live entry) has after the event.
    pub agent: AgentInfo,
    /// Whether the event registered a session that was not tracked.
    pub is_new: bool,
    /// The status of that entry before the event.
    pub previous_status: Option<AgentStatus>,
    /// Session ids dropped because the event's new session took over their
    /// process id.
    pub retired_session_ids: Vec<SessionId>,
    /// Whether the event was a late one for an already-superseded session,
    /// and was ignored.
    pub stale_event_ignored: bool,
}

/// In-memory registry of tracked agents, keyed by session id, and of test
/// runs, keyed by working directory.
pub struct Registry {
    agents: Vec<AgentInfo>,
    test_runs: Vec<TestRunInfo>,
    retired: Vec<SessionId>,
}

/// The exact effect of `Registry::upsert_at(event, now)`, taking `before`
/// to `after` and returning `outcome`.
#[verifier::opaque]
pub open spec fn upsert_effect(
    before: Registry,
    after: Registry,
    event: AgentEvent,
    now: u64,
    outcome: UpsertOutcome,
) -> bool {
    let agents = before.agents();
    let id = event.session_id.0@;
    let prev = session_entry(agents, id);
    &&& after.test_runs() == before.test_runs()
    &&& if drops_late_needs_input(prev, event.status) {
        &&& after.agents() == agents
        &&& after.retired() == before.retired()
        &&& outcome.agent == prev->0
        &&& !outcome.is_new
        &&& outcome.previous_status == Some(AgentStatus::Done)
        &&& outcome.retired_session_ids@ == Seq::<SessionId>::empty()
        &&& !outcome.stale_event_ignored
    } else if prev is None && is_retired(before.retired(), id) && has_pid(agents, event.pid) {
        let live = agents[first_with_pid(agents, event.pid)];
        &&& after.agents() == agents
        &&& after.retired() == before.retired()
        &&& outcome.agent == live
        &&& !outcome.is_new
        &&& outcome.previous_status == Some(live.status)
        &&& outcome.retired_session_ids@ == Seq::<SessionId>::empty()
        &&& outcome.stale_event_ignored
    } else {
        let info = upserted(event, prev, now);
        let base = if prev is Some {
            agents.update(session_index(agents, id), info)
        } else {
            agents
        };
        let kept = base.filter(kept_by(id, event.pid));
        let removed = base.filter(displaced_by(id, event.pid));
        &&& after.agents() == if prev is Some {
            kept
        } else {
            kept.push(info)
        }
        &&& outcome.retired_session_ids@.len() == removed.len()
        &&& forall|k: int|
            0 <= k < removed.len() ==> #[trigger] outcome.retired_session_ids@[k]
                == removed[k].session_id
        &&& after.retired() == before.retired() + outcome.retired_session_ids@
        &&& outcome.agent == info
        &&& outcome.is_new == (prev is None)
        &&& outcome.previous_status == match prev {
            Some(p) => Some(p.status),
            None => None::<AgentStatus>,
        }
        &&& !outcome.stale_event_ignored
    }
}

/// The exact effect of `Registry::mark_stale_at(session_id, now)`.
#[verifier::opaque]
pub open spec fn mark_stale_effect(
    before: Registry,
    after: Registry,
    id: Seq<char>,
    now: u64,
    result: Option<AgentInfo>,
) -> bool {
    let agents = before.agents();
    &&& after.test_runs() == before.test_runs()
    &&& after.retired() == before.retired()
    &&& if has_session(agents, id) && agents[session_index(agents, id)].status
        != AgentStatus::Stale {
        let i = session_index(agents, id);
        &&& after.agents() == agents.update(i, staled(agents[i], now))
        &&& result == Some(staled(agents[i], now))
    } else {
        &&& after.agents() == agents
        &&& result is None
    }
}

/// The exact effect of `Registry::upsert_test_run_at(cwd, pid, status, now)`.
#[verifier::opaque]
pub open spec fn test_run_effect(
    before: Registry,
    after: Registry,
    cwd: String,
    pid: u32,
    status: TestRunStatus,
    now: u64,
    outcome: TestRunUpsertOutcome,
) -> bool {
    let runs = before.test_runs();
    let info = reported_run(runs, cwd, pid, status, now);
    &&& after.agents() == before.agents()
    &&& after.retired() == before.retired()
    &&& after.test_runs() == if has_dir(runs, cwd@) {
        runs.update(dir_index(runs, cwd@), info)
    } else {
        runs.push(info)
    }
    &&& outcome.test_run == info
    &&& outcome.has_tracked_agent == has_agent_in(before.agents(), cwd@)
}

/// The position of the agent with session id `id`, if one is tracked.
fn find_session(agents: &Vec<AgentInfo>, id: &SessionId) -> (r: Option<usize>)
    ensures
        match r {
            Some(i) => i < agents.len() && agents@[i as int].session_id.0@ == id.0@,
            None => !has_session(agents@, id.0@),
        },
{
    let mut i: usize = 0;
    while i < agents.len()
        invariant
            i <= agents.len(),
            forall|j: int| 0 <= j < i ==> agents@[j].session_id.0@ != id.0@,
        decreases agents.len() - i,
    {
        if agents[i].session_id.0 == id.0 {
            return Some(i);
        }
        i = i + 1;
    }
    None
}

/// The position of the first agent with process id `pid`, if any.
fn find_pid(agents: &Vec<AgentInfo>, pid: u32) -> (r: Option<usize>)
    ensures
        match r {
            Some(i) => i < agents.len() && agents@[i as int].pid == pid && forall|j: int|
                0 <= j < i ==> #[trigger] agents@[j].pid != pid,
            None => !has_pid(agents@, pid),
        },
{
    let mut i: usize = 0;
    while i < agents.len()
        invariant
            i <= agents.len(),
            forall|j: int| 0 <= j < i ==> #[trigger] agents@[j].pid != pid,
        decreases agents.len() - i,
    {
        if agents[i].pid == pid {
            return Some(i);
        }
        i = i + 1;
    }
    None
}

/// Whether `id` is among the retired session ids.
fn retired_contains(retired: &Vec<SessionId>, id: &SessionId) -> (r: bool)
    ensures
        r == is_retired(retired@, id.0@),
{
    let mut k: usize = 0;
    while k < retired.len()
        invariant
            k <= retired.len(),
            forall|j: int| 0 <= j < k ==> retired@[j].0@ != id.0@,
        decreases retired.len() - k,
    {
        if retired[k].0 == id.0 {
            return true;
        }
        k = k + 1;
    }
    false
}

/// The position of the test run for directory `cwd`, if any.
fn find_dir(runs: &Vec<TestRunInfo>, cwd: &String) -> (r: Option<usize>)
    ensures
        match r {
            Some(i) => i < runs.len() && runs@[i as int].cwd@ == cwd@,
            None => !has_dir(runs@, cwd@),
        },
{
    let mut i: usize = 0;
    while i < runs.len()
        invariant
            i <= runs.len(),
            forall|j: int| 0 <= j < i ==> runs@[j].cwd@ != cwd@,
        decreases runs.len() - i,
    {
        if runs[i].cwd == *cwd {
            return Some(i);
        }
        i = i + 1;
    }
    None
}

/// Whether some agent in `agents` works in directory `cwd`.
fn any_agent_in(agents: &Vec<AgentInfo>, cwd: &String) -> (r: bool)
    ensures
        r == has_agent_in(agents@, cwd@),
{
    let mut i: usize = 0;
    while i < agents.len()
        invariant
            i <= agents.len(),
            forall|j: int| 0 <= j < i ==> agents@[j].cwd@ != cwd@,
        decreases agents.len() - i,
    {
        if agents[i].cwd == *cwd {
            return true;
        }
        i = i + 1;
    }
    false
}

/// Splits `agents` into the entries that an applied event of session `id`
/// on process id `pid` keeps (in order) and the session ids of those it
/// displaces (in order).
fn split_displaced(agents: &Vec<AgentInfo>, id: &SessionId, pid: u32) -> (r: (
    Vec<AgentInfo>,
    Vec<SessionId>,
))
    ensures
        r.0@ == agents@.filter(kept_by(id.0@, pid)),
        r.1@.len() == agents@.filter(displaced_by(id.0@, pid)).len(),
        forall|k: int|
            0 <= k < r.1@.len() ==> #[trigger] r.1@[k] == agents@.filter(
                displaced_by(id.0@, pid),
            )[k].session_id,
{
    let ghost agents0 = agents@;
    let ghost keep = kept_by(id.0@, pid);
    let ghost drop = displaced_by(id.0@, pid);
    let mut kept: Vec<AgentInfo> = Vec::new();
    let mut removed: Vec<SessionId> = Vec::new();
    let mut i: usize = 0;
    while i < agents.len()
        invariant
            agents@ == agents0,
            keep == kept_by(id.0@, pid),
            drop == displaced_by(id.0@, pid),
            i <= agents0.len(),
            kept@ == agents0.take(i as int).filter(keep),
            removed@.len() == agents0.take(i as int).filter(drop).len(),
            forall|k: int|
                0 <= k < removed@.len() ==> #[trigger] removed@[k] == agents0.take(
                    i as int,
                ).filter(drop)[k].session_id,
        decreases agents0.len() - i,
    {
        let ghost prefix = agents0.take(i as int);
        proof {
            assert(agents0.take(i + 1) =~= prefix.push(agents0[i as int]));
            prefix.lemma_filter_push(agents0[i as int], keep);
            prefix.lemma_filter_push(agents0[i as int], drop);
        }
        let same_session = agents[i].session_id.0 == id.0;
        if agents[i].pid == pid && !same_session {
            removed.push(agents[i].session_id.duplicate());
        } else {
            kept.push(agents[i].duplicate());
        }
        i = i + 1;
    }
    proof {
        assert(agents0.take(agents0.len() as int) =~= agents0);
    }
    (kept, removed)
}

/// A late event of a superseded session leaves the registry as it is and
/// reports the pid's first live entry.
proof fn lemma_superseded_effect(
    reg: Registry,
    event: AgentEvent,
    now: u64,
    outcome: UpsertOutcome,
    j: int,
)
    requires
        !has_session(reg.agents(), event.session_id.0@),
        is_retired(reg.retired(), event.session_id.0@),
        0 <= j < reg.agents().len(),
        reg.agents()[j].pid == event.pid,
        forall|k: int| 0 <= k < j ==> #[trigger] reg.agents()[k].pid != event.pid,
        outcome.agent == reg.agents()[j],
        !outcome.is_new,
        outcome.previous_status == Some(reg.agents()[j].status),
        outcome.retired_session_ids@ == Seq::<SessionId>::empty(),
        outcome.stale_event_ignored,
    ensures
        upsert_effect(reg, reg, event, now, outcome),
{
    reveal(upsert_effect);
    let agents = reg.agents();
    let fj = first_with_pid(agents, event.pid);
    assert(has_pid(agents, event.pid));
    assert(0 <= fj < agents.len() && agents[fj].pid == event.pid && forall|k: int|
        0 <= k < fj ==> #[trigger] agents[k].pid != event.pid);
    assert(fj == j);
}

/// The effect `update_existing` promises is `upsert_effect`'s for an event of
/// a tracked session.
proof fn lemma_update_effect(
    before: Registry,
    after: Registry,
    event: AgentEvent,
    now: u64,
    outcome: UpsertOutcome,
    i: int,
)
    requires
        0 <= i < before.agents().len(),
        session_entry(before.agents(), event.session_id.0@) == Some(before.agents()[i]),
        session_index(before.agents(), event.session_id.0@) == i,
        after.test_runs() == before.test_runs(),
        !outcome.stale_event_ignored,
        !outcome.is_new,
        outcome.previous_status == Some(before.agents()[i].status),
        if drops_late_needs_input(Some(before.agents()[i]), event.status) {
            &&& after.agents() == before.agents()
            &&& after.retired() == before.retired()
            &&& outcome.agent == before.agents()[i]
            &&& outcome.retired_session_ids@ == Seq::<SessionId>::empty()
        } else {
            let info = upserted(event, Some(before.agents()[i]), now);
            let base = before.agents().update(i, info);
            let id = event.session_id.0@;
            let removed = base.filter(displaced_by(id, event.pid));
            &&& after.agents() == base.filter(kept_by(id, event.pid))
            &&& outcome.retired_session_ids@.len() == removed.len()
            &&& forall|k: int|
                0 <= k < removed.len() ==> #[trigger] outcome.retired_session_ids@[k]
                    == removed[k].session_id
            &&& after.retired() == before.retired() + outcome.retired_session_ids@
            &&& outcome.agent == info
        },
    ensures
        upsert_effect(before, after, event, now, outcome),
{
    reveal(upsert_effect);
}

/// The effect `register_new` promises is `upsert_effect`'s for an event of an
/// untracked session that is not a superseded one.
proof fn lemma_register_effect(
    before: Registry,
    after: Registry,
    event: AgentEvent,
    now: u64,
    outcome: UpsertOutcome,
)
    requires
        session_entry(before.agents(), event.session_id.0@) is None,
        !(is_retired(before.retired(), event.session_id.0@) && has_pid(before.agents(), event.pid)),
        after.test_runs() == before.test_runs(),
        ({
            let agents = before.agents();
            let id = event.session_id.0@;
            let removed = agents.filter(displaced_by(id, event.pid));
            &&& after.agents() == agents.filter(kept_by(id, event.pid)).push(
                upserted(event, None, now),
            )
            &&& outcome.retired_session_ids@.len() == removed.len()
            &&& forall|k: int|
                0 <= k < removed.len() ==> #[trigger] outcome.retired_session_ids@[k]
                    == removed[k].session_id
            &&& after.retired() == before.retired() + outcome.retired_session_ids@
            &&& outcome.agent == upserted(event, None, now)
            &&& outcome.is_new
            &&& outcome.previous_status == None::<AgentStatus>
            &&& !outcome.stale_event_ignored
        }),
    ensures
        upsert_effect(before, after, event, now, outcome),
{
    reveal(upsert_effect);
}

/// Keeping only the entries that an event of session `id` on process id
/// `pid` does not displace leaves session ids unique, and leaves process ids
/// unique where `pid` is the only one that entries share.
proof fn lemma_kept_unique(base: Seq<AgentInfo>, id: Seq<char>, pid: u32)
    requires
        sessions_unique(base),
        forall|a: int, b: int|
            #![trigger base[a], base[b]]
            0 <= a < base.len() && 0 <= b < base.len() && a != b && base[a].pid == base[b].pid
                ==> base[a].pid == pid,
    ensures
        sessions_unique(base.filter(kept_by(id, pid))),
        pids_unique(base.filter(kept_by(id, pid))),
    decreases base.len(),
{
    if base.len() > 0 {
        let keep = kept_by(id, pid);
        let s = base.drop_last();
        let x = base.last();
        let last = base.len() - 1;
        assert forall|a: int, b: int|
            #![trigger s[a], s[b]]
            0 <= a < s.len() && 0 <= b < s.len() && a != b implies s[a].session_id.0@
            != s[b].session_id.0@ && (s[a].pid == s[b].pid ==> s[a].pid == pid) by {
            assert(base[a] == s[a]);
            assert(base[b] == s[b]);
        }
        lemma_kept_unique(s, id, pid);
        assert(base =~= s.push(x));
        s.lemma_filter_push(x, keep);
        if keep(x) {
            let f = s.filter(keep);
            assert forall|k: int| 0 <= k < f.len() implies f[k].session_id.0@
                != x.session_id.0@ && f[k].pid != x.pid by {
                s.lemma_filter_pred(keep, k);
                assert(f.contains(f[k]));
                s.lemma_filter_contains_rev(keep, f[k]);
                let m = choose|m: int| 0 <= m < s.len() && s[m] == f[k];
                assert(base[m] == f[k]);
                assert(base[last] == x);
            }
            let g = f.push(x);
            assert forall|a: int, b: int|
                #![trigger g[a], g[b]]
                0 <= a < g.len() && 0 <= b < g.len() && a != b implies g[a].session_id.0@
                != g[b].session_id.0@ && g[a].pid != g[b].pid by {
                if a < f.len() && b < f.len() {
                    assert(g[a] == f[a] && g[b] == f[b]);
                } else if a < f.len() {
                    assert(g[a] == f[a]);
                } else {
                    assert(g[b] == f[b]);
                }
            }
        }
    }
}

impl Registry {
    /// The tracked agents.
    pub closed spec fn agents(self) -> Seq<AgentInfo> {
        self.agents@
    }

    /// The tracked test runs.
    pub closed spec fn test_runs(self) -> Seq<TestRunInfo> {
        self.test_runs@
    }

    /// Every session id ever superseded by another session on its pid, in
    /// the order they were retired.
    pub closed spec fn retired(self) -> Seq<SessionId> {
        self.retired@
    }

    /// Session ids, process ids and test-run directories are each unique.
    pub open spec fn wf(self) -> bool {
        &&& sessions_unique(self.agents())
        &&& pids_unique(self.agents())
        &&& dirs_unique(self.test_runs())
    }

    /// An empty registry.
    pub fn new() -> (r: Registry)
        ensures
            r.wf(),
            r.agents() == Seq::<AgentInfo>::empty(),
            r.test_runs() == Seq::<TestRunInfo>::empty(),
            r.retired() == Seq::<SessionId>::empty(),
    {
        Registry { agents: Vec::new(), test_runs: Vec::new(), retired: Vec::new() }
    }

    /// Inserts a newly seen session, or updates an existing one in place, as
    /// of time `now`.
    ///
    /// A "needs input" event is dropped when the session is already "done".
    /// A pid never has more than one live entry: every other session's entry
    /// on the event's pid is dropped and its session id retired whenever an
    /// event is applied. A later event for a retired session id is ignored
    /// while its pid has a live entry, and reports that entry.
    pub fn upsert_at(&mut self, event: AgentEvent, now: u64) -> (outcome: UpsertOutcome)
        requires
            old(self).wf(),
        ensures
            final(self).wf(),
            upsert_effect(*old(self), *final(self), event, now, outcome),
    {
        let ghost agents0 = self.agents@;
        let ghost id = event.session_id.0@;
        match find_session(&self.agents, &event.session_id) {
            Some(i) => {
                proof {
                    let si = session_index(agents0, id);
                    assert(agents0[si].session_id.0@ == id);
                    assert(si == i);
                    assert(session_entry(agents0, id) == Some(agents0[i as int]));
                }
                let ghost before = *self;
                let ghost ev = event;
                let outcome = self.update_existing(i, event, now);
                proof {
                    lemma_update_effect(before, *self, ev, now, outcome, i as int);
                    lemma_one_entry_per_pid(before, *self, ev, now, outcome);
                }
                outcome
            },
            None => {
                if retired_contains(&self.retired, &event.session_id) {
                    match find_pid(&self.agents, event.pid) {
                        Some(j) => {
                            let outcome = UpsertOutcome {
                                agent: self.agents[j].duplicate(),
                                is_new: false,
                                previous_status: Some(self.agents[j].status),
                                retired_session_ids: Vec::new(),
                                stale_event_ignored: true,
                            };
                            proof {
                                lemma_superseded_effect(*self, event, now, outcome, j as int);
                            }
                            return outcome;
                        },
                        None => {},
                    }
                }
                proof {
                    assert(session_entry(agents0, id) is None);
                }
                let ghost before = *self;
                let ghost ev = event;
                let outcome = self.register_new(event, now);
                proof {
                    lemma_register_effect(before, *self, ev, now, outcome);
                    lemma_one_entry_per_pid(before, *self, ev, now, outcome);
                }
                outcome
            },
        }
    }

    /// Applies `event` to the existing entry at position `i`, then drops and
    /// retires every other session's entry on the event's process id.
    fn update_existing(&mut self, i: usize, event: AgentEvent, now: u64) -> (outcome: UpsertOutcome)
        requires
            i < old(self).agents().len(),
            old(self).agents()[i as int].session_id.0@ == event.session_id.0@,
        ensures
            final(self).test_runs() == old(self).test_runs(),
            !outcome.stale_event_ignored,
            !outcome.is_new,
            outcome.previous_status == Some(old(self).agents()[i as int].status),
            if drops_late_needs_input(Some(old(self).agents()[i as int]), event.status) {
                &&& final(self).agents() == old(self).agents()
                &&& final(self).retired() == old(self).retired()
                &&& outcome.agent == old(self).agents()[i as int]
                &&& outcome.retired_session_ids@ == Seq::<SessionId>::empty()
            } else {
                let info = upserted(event, Some(old(self).agents()[i as int]), now);
                let base = old(self).agents().update(i as int, info);
                let id = event.session_id.0@;
                let removed = base.filter(displaced_by(id, event.pid));
                &&& final(self).agents() == base.filter(kept_by(id, event.pid))
                &&& outcome.retired_session_ids@.len() == removed.len()
                &&& forall|k: int|
                    0 <= k < removed.len() ==> #[trigger] outcome.retired_session_ids@[k]
                        == removed[k].session_id
                &&& final(self).retired() == old(self).retired() + outcome.retired_session_ids@
                &&& outcome.agent == info
            },
    {
        let prev_status = self.agents[i].status;
        if prev_status == AgentStatus::Done && event.status == AgentStatus::NeedsInput {
            return UpsertOutcome {
                agent: self.agents[i].duplicate(),
                is_new: false,
                previous_status: Some(prev_status),
                retired_session_ids: Vec::new(),
                stale_event_ignored: false,
            };
        }
        let status_since_ms: u64 = if prev_status == event.status {
            self.agents[i].status_since_ms
        } else {
            now
        };
        let run_started_ms: u64 = if event.status == AgentStatus::Running && prev_status
            != AgentStatus::Running {
            now
        } else {
            self.agents[i].run_started_ms
        };
        let sid = event.session_id.duplicate();
        let pid = event.pid;
        let info = AgentInfo {
            session_id: event.session_id,
            cwd: event.cwd,
            host_context: event.host_context,
            pid: event.pid,
            status: event.status,
            last_updated_ms: now,
            status_since_ms,
            run_started_ms,
        };
        let agent = info.duplicate();
        self.agents.set(i, info);
        let (kept, removed) = split_displaced(&self.agents, &sid, pid);
        let mut retiring = copy_all(&removed);
        self.retired.append(&mut retiring);
        self.agents = kept;
        UpsertOutcome {
            agent,
            is_new: false,
            previous_status: Some(prev_status),
            retired_session_ids: removed,
            stale_event_ignored: false,
        }
    }

    /// Registers `event`'s session, which is not tracked, after dropping and
    /// retiring every entry that has its process id.
    fn register_new(&mut self, event: AgentEvent, now: u64) -> (outcome: UpsertOutcome)
        ensures
            final(self).test_runs() == old(self).test_runs(),
            ({
                let agents = old(self).agents();
                let id = event.session_id.0@;
                let removed = agents.filter(displaced_by(id, event.pid));
                &&& final(self).agents() == agents.filter(kept_by(id, event.pid)).push(
                    upserted(event, None, now),
                )
                &&& outcome.retired_session_ids@.len() == removed.len()
                &&& forall|k: int|
                    0 <= k < removed.len() ==> #[trigger] outcome.retired_session_ids@[k]
                        == removed[k].session_id
                &&& final(self).retired() == old(self).retired() + outcome.retired_session_ids@
                &&& outcome.agent == upserted(event, None, now)
                &&& outcome.is_new
                &&& outcome.previous_status == None::<AgentStatus>
                &&& !outcome.stale_event_ignored
            }),
    {
        let (mut kept, removed) = split_displaced(&self.agents, &event.session_id, event.pid);
        let mut retiring = copy_all(&removed);
        self.retired.append(&mut retiring);
        let info = AgentInfo {
            session_id: event.session_id,
            cwd: event.cwd,
            host_context: event.host_context,
            pid: event.pid,
            status: event.status,
            last_updated_ms: now,
            status_since_ms: now,
            run_started_ms: now,
        };
        let agent = info.duplicate();
        kept.push(info);
        self.agents = kept;
        UpsertOutcome {
            agent,
            is_new: true,
            previous_status: None,
            retired_session_ids: removed,
            stale_event_ignored: false,
        }
    }

    /// `upsert_at` as of the current wall-clock time.
    pub fn upsert(&mut self, event: AgentEvent) -> (outcome: UpsertOutcome)
        requires
            old(self).wf(),
        ensures
            final(self).wf(),
            exists|now: u64| upsert_effect(*old(self), *final(self), event, now, outcome),
    {
        let now = now_ms();
        self.upsert_at(event, now)
    }

    /// Marks a tracked agent as stale as of time `now`. Returns `None` if the
    /// session is unknown or already marked stale.
    pub fn mark_stale_at(&mut self, session_id: &SessionId, now: u64) -> (r: Option<AgentInfo>)
        requires
            old(self).wf(),
        ensures
            final(self).wf(),
            mark_stale_effect(*old(self), *final(self), session_id.0@, now, r),
    {
        proof {
            reveal(mark_stale_effect);
        }
        let ghost agents0 = self.agents@;
        match find_session(&self.agents, session_id) {
            Some(i) => {
                proof {
                    let si = session_index(agents0, session_id.0@);
                    assert(agents0[si].session_id.0@ == session_id.0@);
                    assert(si == i);
                }
                if self.agents[i].status == AgentStatus::Stale {
                    return None;
                }
                let mut agent = self.agents[i].duplicate();
                agent.status = AgentStatus::Stale;
                agent.last_updated_ms = now;
                agent.status_since_ms = now;
                let result = agent.duplicate();
                self.agents.set(i, agent);
                proof {
                    assert forall|a: int, b: int|
                        #![trigger self.agents@[a], self.agents@[b]]
                        0 <= a < self.agents@.len() && 0 <= b < self.agents@.len() && a
                            != b implies self.agents@[a].session_id.0@
                        != self.agents@[b].session_id.0@ && self.agents@[a].pid
                        != self.agents@[b].pid by {
                        assert(agents0[a] == agents0[a]);
                        assert(agents0[b] == agents0[b]);
                    }
                }
                Some(result)
            },
            None => None,
        }
    }

    /// `mark_stale_at` as of the current wall-clock time.
    pub fn mark_stale(&mut self, session_id: &SessionId) -> (r: Option<AgentInfo>)
        requires
            old(self).wf(),
        ensures
            final(self).wf(),
            exists|now: u64| mark_stale_effect(*old(self), *final(self), session_id.0@, now, r),
    {
        let now = now_ms();
        self.mark_stale_at(session_id, now)
    }

    /// Every tracked agent.
    pub fn snapshot(&self) -> (r: Vec<AgentInfo>)
        ensures
            r@ == self.agents(),
    {
        copy_all(&self.agents)
    }

    /// Records a test-run report as of time `now`, keyed by `cwd` alone: a
    /// later report for the same directory always replaces the previous one,
    /// even from a different pid. The run's start time is kept while the same
    /// pid keeps reporting, and reset when a different pid reports.
    pub fn upsert_test_run_at(
        &mut self,
        cwd: String,
        pid: u32,
        status: TestRunStatus,
        now: u64,
    ) -> (outcome: TestRunUpsertOutcome)
        requires
            old(self).wf(),
        ensures
            final(self).wf(),
            test_run_effect(*old(self), *final(self), cwd, pid, status, now, outcome),
    {
        proof {
            reveal(test_run_effect);
        }
        let ghost runs0 = self.test_runs@;
        let has_tracked_agent = any_agent_in(&self.agents, &cwd);
        match find_dir(&self.test_runs, &cwd) {
            Some(i) => {
                proof {
                    let di = dir_index(runs0, cwd@);
                    assert(runs0[di].cwd@ == cwd@);
                    assert(di == i);
                }
                let run_started_ms: u64 = if self.test_runs[i].pid == pid {
                    self.test_runs[i].run_started_ms
                } else {
                    now
                };
                let info = TestRunInfo { cwd, pid, status, last_updated_ms: now, run_started_ms };
                let test_run = info.duplicate();
                self.test_runs.set(i, info);
                proof {
                    assert forall|a: int, b: int|
                        #![trigger self.test_runs@[a], self.test_runs@[b]]
                        0 <= a < self.test_runs@.len() && 0 <= b < self.test_runs@.len() && a
                            != b implies self.test_runs@[a].cwd@ != self.test_runs@[b].cwd@ by {
                        assert(runs0[a] == runs0[a]);
                        assert(runs0[b] == runs0[b]);
                    }
                }
                TestRunUpsertOutcome { test_run, has_tracked_agent }
            },
            None => {
                let info = TestRunInfo { cwd, pid, status, last_updated_ms: now, run_started_ms: now };
                let test_run = info.duplicate();
                self.test_runs.push(info);
                proof {
                    assert forall|a: int, b: int|
                        #![trigger self.test_runs@[a], self.test_runs@[b]]
                        0 <= a < self.test_runs@.len() && 0 <= b < self.test_runs@.len() && a
                            != b implies self.test_runs@[a].cwd@ != self.test_runs@[b].cwd@ by {
                        if a < runs0.len() {
                            assert(runs0[a] == runs0[a]);
                        }
                        if b < runs0.len() {
                            assert(runs0[b] == runs0[b]);
                        }
                    }
                }
                TestRunUpsertOutcome { test_run, has_tracked_agent }
            },
        }
    }

    /// `upsert_test_run_at` as of the current wall-clock time.
    pub fn upsert_test_run(&mut self, cwd: String, pid: u32, status: TestRunStatus) -> (outcome:
        TestRunUpsertOutcome)
        requires
            old(self).wf(),
        ensures
            final(self).wf(),
            exists|now: u64| test_run_effect(*old(self), *final(self), cwd, pid, status, now, outcome),
    {
        let now = now_ms();
        self.upsert_test_run_at(cwd, pid, status, now)
    }

    /// Every tracked test run.
    pub fn snapshot_test_runs(&self) -> (r: Vec<TestRunInfo>)
        ensures
            r@ == self.test_runs(),
    {
        copy_all(&self.test_runs)
    }

    /// Groups every tracked agent and test run by exact working-directory
    /// match. A directory with neither never appears.
    pub fn directory_groups(&self) -> (r: Vec<DirectoryGroup>)
        ensures
            grouped(self.agents(), self.test_runs(), r@),
    {
        group_by_directory(&self.agents, &self.test_runs)
    }
}

/// Updating a session's entry and dropping the entries its event displaces
/// leaves ids unique, with the updated entry the only one on its pid.
proof fn lemma_update_keeps_one_entry(
    agents: Seq<AgentInfo>,
    i: int,
    info: AgentInfo,
    id: Seq<char>,
    pid: u32,
)
    requires
        sessions_unique(agents),
        pids_unique(agents),
        0 <= i < agents.len(),
        agents[i].session_id.0@ == id,
        info.session_id.0@ == id,
        info.pid == pid,
    ensures
        sessions_unique(agents.update(i, info).filter(kept_by(id, pid))),
        pids_unique(agents.update(i, info).filter(kept_by(id, pid))),
        forall|k: int|
            0 <= k < agents.update(i, info).filter(kept_by(id, pid)).len() && #[trigger] agents.update(
                i,
                info,
            ).filter(kept_by(id, pid))[k].pid == pid ==> agents.update(i, info).filter(
                kept_by(id, pid),
            )[k] == info,
{
    let keep = kept_by(id, pid);
    let base = agents.update(i, info);
    assert forall|a: int, b: int|
        #![trigger base[a], base[b]]
        0 <= a < base.len() && 0 <= b < base.len() && a != b implies base[a].session_id.0@
        != base[b].session_id.0@ && (base[a].pid == base[b].pid ==> base[a].pid == pid) by {
        assert(agents[a] == agents[a]);
        assert(agents[b] == agents[b]);
    }
    lemma_kept_unique(base, id, pid);
    let kept = base.filter(keep);
    assert forall|k: int| 0 <= k < kept.len() && #[trigger] kept[k].pid == pid implies kept[k]
        == info by {
        base.lemma_filter_pred(keep, k);
        assert(kept.contains(kept[k]));
        base.lemma_filter_contains_rev(keep, kept[k]);
        let m = choose|m: int| 0 <= m < base.len() && base[m] == kept[k];
        assert(base[i] == info);
        if m != i {
            assert(base[m].session_id.0@ != base[i].session_id.0@);
        }
    }
}

/// Dropping the entries a new session's event displaces and adding the new
/// session's entry leaves ids unique, with the new entry the only one on its
/// pid.
proof fn lemma_register_keeps_one_entry(
    agents: Seq<AgentInfo>,
    info: AgentInfo,
    id: Seq<char>,
    pid: u32,
)
    requires
        sessions_unique(agents),
        pids_unique(agents),
        !has_session(agents, id),
        info.session_id.0@ == id,
        info.pid == pid,
    ensures
        sessions_unique(agents.filter(kept_by(id, pid)).push(info)),
        pids_unique(agents.filter(kept_by(id, pid)).push(info)),
        forall|k: int|
            0 <= k < agents.filter(kept_by(id, pid)).push(info).len() && #[trigger] agents.filter(
                kept_by(id, pid),
            ).push(info)[k].pid == pid ==> agents.filter(kept_by(id, pid)).push(info)[k] == info,
{
    let keep = kept_by(id, pid);
    assert forall|a: int, b: int|
        #![trigger agents[a], agents[b]]
        0 <= a < agents.len() && 0 <= b < agents.len() && a != b && agents[a].pid
            == agents[b].pid implies agents[a].pid == pid by {}
    lemma_kept_unique(agents, id, pid);
    let kept = agents.filter(keep);
    assert forall|k: int| 0 <= k < kept.len() implies kept[k].pid != pid && kept[k].session_id.0@
        != id by {
        agents.lemma_filter_pred(keep, k);
        assert(kept.contains(kept[k]));
        agents.lemma_filter_contains_rev(keep, kept[k]);
        let m = choose|m: int| 0 <= m < agents.len() && agents[m] == kept[k];
        assert(agents[m].session_id.0@ != id);
    }
    let g = kept.push(info);
    assert forall|a: int, b: int|
        #![trigger g[a], g[b]]
        0 <= a < g.len() && 0 <= b < g.len() && a != b implies g[a].session_id.0@
        != g[b].session_id.0@ && g[a].pid != g[b].pid by {
        if a < kept.len() && b < kept.len() {
            assert(g[a] == kept[a] && g[b] == kept[b]);
        } else if a < kept.len() {
            assert(g[a] == kept[a]);
        } else {
            assert(g[b] == kept[b]);
        }
    }
    assert forall|k: int| 0 <= k < g.len() && #[trigger] g[k].pid == pid implies g[k] == info by {
        if k < kept.len() {
            assert(g[k] == kept[k]);
        }
    }
}

/// A pid never has more than one live entry: whatever the event, a valid
/// registry stays valid - no two tracked agents share a session id or a
/// process id - and once an event is applied, the only entry on its process
/// id is the one it reports.
pub proof fn lemma_one_entry_per_pid(
    before: Registry,
    after: Registry,
    event: AgentEvent,
    now: u64,
    outcome: UpsertOutcome,
)
    requires
        before.wf(),
        upsert_effect(before, after, event, now, outcome),
    ensures
        after.wf(),
        pids_unique(after.agents()),
        !outcome.stale_event_ignored && !drops_late_needs_input(
            session_entry(before.agents(), event.session_id.0@),
            event.status,
        ) ==> forall|k: int|
            0 <= k < after.agents().len() && #[trigger] after.agents()[k].pid == event.pid
                ==> after.agents()[k] == outcome.agent,
{
    let agents = before.agents();
    let id = event.session_id.0@;
    let prev = session_entry(agents, id);
    assert(after.test_runs() == before.test_runs()) by {
        reveal(upsert_effect);
    }
    if drops_late_needs_input(prev, event.status) || (prev is None && is_retired(
        before.retired(),
        id,
    ) && has_pid(agents, event.pid)) {
        assert(after.agents() == agents && (drops_late_needs_input(prev, event.status)
            || outcome.stale_event_ignored)) by {
            reveal(upsert_effect);
        }
    } else {
        let info = upserted(event, prev, now);
        if prev is Some {
            let i = session_index(agents, id);
            assert(after.agents() == agents.update(i, info).filter(kept_by(id, event.pid))
                && outcome.agent == info) by {
                reveal(upsert_effect);
            }
            lemma_update_keeps_one_entry(agents, i, info, id, event.pid);
        } else {
            assert(after.agents() == agents.filter(kept_by(id, event.pid)).push(info)
                && outcome.agent == info) by {
                reveal(upsert_effect);
            }
            lemma_register_keeps_one_entry(agents, info, id, event.pid);
        }
    }
}

/// No session that a new session's event displaces is tracked afterwards.
proof fn lemma_displaced_are_gone(agents: Seq<AgentInfo>, info: AgentInfo, id: Seq<char>, pid: u32)
    requires
        sessions_unique(agents),
        info.session_id.0@ == id,
    ensures
        forall|k: int|
            0 <= k < agents.filter(displaced_by(id, pid)).len() ==> !has_session(
                agents.filter(kept_by(id, pid)).push(info),
                #[trigger] agents.filter(displaced_by(id, pid))[k].session_id.0@,
            ),
{
    let kept = agents.filter(kept_by(id, pid));
    let removed = agents.filter(displaced_by(id, pid));
    let after = kept.push(info);
    assert forall|k: int| 0 <= k < removed.len() implies !has_session(
        after,
        #[trigger] removed[k].session_id.0@,
    ) by {
        let gone = removed[k];
        agents.lemma_filter_pred(displaced_by(id, pid), k);
        assert(removed.contains(gone));
        agents.lemma_filter_contains_rev(displaced_by(id, pid), gone);
        let g = choose|g: int| 0 <= g < agents.len() && agents[g] == gone;
        if has_session(after, gone.session_id.0@) {
            let j = choose|j: int|
                0 <= j < after.len() && after[j].session_id.0@ == gone.session_id.0@;
            if j < kept.len() {
                assert(after[j] == kept[j]);
                agents.lemma_filter_pred(kept_by(id, pid), j);
                assert(kept.contains(kept[j]));
                agents.lemma_filter_contains_rev(kept_by(id, pid), kept[j]);
                let m = choose|m: int| 0 <= m < agents.len() && agents[m] == kept[j];
                assert(agents[m].session_id.0@ == agents[g].session_id.0@);
                assert(m != g);
            }
        }
    }
}

/// A session switch never leaves two entries on one process id: once an
/// event registers a new session, its pid has exactly one entry - the new
/// session's, last in the registry - and no retired session id is tracked.
#[verifier::rlimit(60)]
pub proof fn lemma_session_switch_keeps_one_entry_per_pid(
    before: Registry,
    after: Registry,
    event: AgentEvent,
    now: u64,
    outcome: UpsertOutcome,
)
    requires
        before.wf(),
        upsert_effect(before, after, event, now, outcome),
        outcome.is_new,
    ensures
        after.agents().len() > 0,
        after.agents().last() == outcome.agent,
        outcome.agent.pid == event.pid,
        forall|i: int|
            0 <= i < after.agents().len() && #[trigger] after.agents()[i].pid == event.pid ==> i
                == after.agents().len() - 1,
        forall|k: int|
            0 <= k < outcome.retired_session_ids@.len() ==> !has_session(
                after.agents(),
                #[trigger] outcome.retired_session_ids@[k].0@,
            ),
{
    let agents = before.agents();
    let id = event.session_id.0@;
    let info = upserted(event, None, now);
    let removed = agents.filter(displaced_by(id, event.pid));
    assert({
        &&& after.agents() == agents.filter(kept_by(id, event.pid)).push(info)
        &&& outcome.agent == info
        &&& outcome.retired_session_ids@.len() == removed.len()
        &&& forall|k: int|
            0 <= k < removed.len() ==> #[trigger] outcome.retired_session_ids@[k]
                == removed[k].session_id
        &&& !outcome.stale_event_ignored
        &&& session_entry(agents, id) is None
    }) by {
        reveal(upsert_effect);
    }
    lemma_one_entry_per_pid(before, after, event, now, outcome);
    lemma_displaced_are_gone(agents, info, id, event.pid);
    let last = after.agents().len() - 1;
    assert(after.agents()[last] == outcome.agent);
    assert forall|i: int|
        0 <= i < after.agents().len() && #[trigger] after.agents()[i].pid == event.pid implies i
        == last by {
        if i != last {
            assert(after.agents()[i].pid != after.agents()[last].pid);
        }
    }
    assert forall|k: int| 0 <= k < outcome.retired_session_ids@.len() implies !has_session(
        after.agents(),
        #[trigger] outcome.retired_session_ids@[k].0@,
    ) by {
        assert(outcome.retired_session_ids@[k] == removed[k].session_id);
    }
}

/// A "needs input" event for a session that is already "done" changes
/// nothing, and reports the session's entry as it was.
pub proof fn lemma_late_needs_input_changes_nothing(
    before: Registry,
    after: Registry,
    event: AgentEvent,
    now: u64,
    outcome: UpsertOutcome,
)
    requires
        upsert_effect(before, after, event, now, outcome),
        event.status == AgentStatus::NeedsInput,
        session_entry(before.agents(), event.session_id.0@) matches Some(prev) && prev.status
            == AgentStatus::Done,
    ensures
        after.agents() == before.agents(),
        after.test_runs() == before.test_runs(),
        after.retired() == before.retired(),
        session_entry(before.agents(), event.session_id.0@) == Some(outcome.agent),
{
    reveal(upsert_effect);
}

/// An event that keeps a tracked session's status keeps the time that
/// status began; one that changes it restarts that time at the event.
pub proof fn lemma_status_since_follows_transitions(
    before: Registry,
    after: Registry,
    event: AgentEvent,
    now: u64,
    outcome: UpsertOutcome,
)
    requires
        upsert_effect(before, after, event, now, outcome),
        session_entry(before.agents(), event.session_id.0@) matches Some(prev)
            && !drops_late_needs_input(Some(prev), event.status),
    ensures
        ({
            let prev = session_entry(before.agents(), event.session_id.0@)->0;
            &&& outcome.agent.status == event.status
            &&& prev.status == event.status ==> outcome.agent.status_since_ms
                == prev.status_since_ms
            &&& prev.status != event.status ==> outcome.agent.status_since_ms == now
        }),
{
    reveal(upsert_effect);
}

/// Marking a session stale takes effect once: marking it again reports
/// nothing and changes nothing.
pub proof fn lemma_mark_stale_is_idempotent(
    before: Registry,
    mid: Registry,
    after: Registry,
    id: Seq<char>,
    t1: u64,
    t2: u64,
    first: Option<AgentInfo>,
    second: Option<AgentInfo>,
)
    requires
        before.wf(),
        mark_stale_effect(before, mid, id, t1, first),
        mark_stale_effect(mid, after, id, t2, second),
    ensures
        second is None,
        after.agents() == mid.agents(),
        after.test_runs() == mid.test_runs(),
        after.retired() == mid.retired(),
{
    reveal(mark_stale_effect);
    let agents = before.agents();
    if has_session(agents, id) && agents[session_index(agents, id)].status != AgentStatus::Stale {
        let i = session_index(agents, id);
        let m = mid.agents();
        assert(m[i].session_id.0@ == id);
        assert(has_session(m, id));
        let j = session_index(m, id);
        if j != i {
            assert(m[j] == agents[j]);
            assert(agents[j].session_id.0@ == agents[i].session_id.0@);
        }
    }
}

/// A test-run report leaves exactly one entry for its directory - the
/// reported run - whether it replaced an earlier run (from any pid) or was
/// the directory's first.
pub proof fn lemma_one_test_run_per_directory(
    before: Registry,
    after: Registry,
    cwd: String,
    pid: u32,
    status: TestRunStatus,
    now: u64,
    outcome: TestRunUpsertOutcome,
)
    requires
        before.wf(),
        test_run_effect(before, after, cwd, pid, status, now, outcome),
    ensures
        exists|k: int|
            0 <= k < after.test_runs().len() && after.test_runs()[k] == outcome.test_run && forall|
                j: int,
            |
                0 <= j < after.test_runs().len() && #[trigger] after.test_runs()[j].cwd@ == cwd@
                    ==> j == k,
        outcome.test_run.cwd == cwd,
        outcome.test_run.pid == pid,
        outcome.test_run.status == status,
{
    reveal(test_run_effect);
    let runs = before.test_runs();
    let info = reported_run(runs, cwd, pid, status, now);
    if has_dir(runs, cwd@) {
        let k = dir_index(runs, cwd@);
        assert(after.test_runs()[k] == outcome.test_run);
        assert forall|j: int|
            0 <= j < after.test_runs().len() && #[trigger] after.test_runs()[j].cwd@ == cwd@
                implies j == k by {
            if j != k {
                assert(after.test_runs()[j] == runs[j]);
            }
        }
    } else {
        let k = runs.len() as int;
        assert(after.test_runs()[k] == outcome.test_run);
        assert forall|j: int|
            0 <= j < after.test_runs().len() && #[trigger] after.test_runs()[j].cwd@ == cwd@
                implies j == k by {
            if j < k {
                assert(after.test_runs()[j] == runs[j]);
            }
        }
    }
}

/// An applied event that is not ignored leaves its session tracked, with
/// the reported entry.
proof fn lemma_applied_event_is_tracked(
    before: Registry,
    after: Registry,
    event: AgentEvent,
    now: u64,
    outcome: UpsertOutcome,
)
    requires
        after.wf(),
        upsert_effect(before, after, event, now, outcome),
        !outcome.stale_event_ignored,
        !drops_late_needs_input(session_entry(before.agents(), event.session_id.0@), event.status),
    ensures
        session_entry(after.agents(), event.session_id.0@) == Some(outcome.agent),
        outcome.agent.status == event.status,
{
    reveal(upsert_effect);
    let id = event.session_id.0@;
    let agents = before.agents();
    let keep = kept_by(id, event.pid);
    let info = outcome.agent;
    assert(info.session_id == event.session_id && info.status == event.status);
    let i = if session_entry(agents, id) is Some {
        let si = session_index(agents, id);
        let base = agents.update(si, info);
        assert(base[si] == info);
        base.lemma_filter_contains(keep, si);
        choose|k: int| 0 <= k < after.agents().len() && after.agents()[k] == info
    } else {
        agents.filter(keep).len() as int
    };
    assert(0 <= i < after.agents().len() && after.agents()[i] == info);
    assert(has_session(after.agents(), id));
    let j = session_index(after.agents(), id);
    if j != i {
        assert(after.agents()[j].session_id.0@ == after.agents()[i].session_id.0@);
    }
}

/// An ignored late event changes nothing, and is one for an untracked,
/// retired session whose pid has a live entry.
pub proof fn lemma_ignored_event_facts(
    before: Registry,
    after: Registry,
    event: AgentEvent,
    now: u64,
    outcome: UpsertOutcome,
)
    requires
        upsert_effect(before, after, event, now, outcome),
        outcome.stale_event_ignored,
    ensures
        after.agents() == before.agents(),
        after.retired() == before.retired(),
        session_entry(before.agents(), event.session_id.0@) is None,
        is_retired(before.retired(), event.session_id.0@),
        has_pid(before.agents(), event.pid),
{
    reveal(upsert_effect);
}

/// An event for an untracked, retired session whose pid has a live entry
/// is ignored.
pub proof fn lemma_retired_event_is_ignored(
    before: Registry,
    after: Registry,
    event: AgentEvent,
    now: u64,
    outcome: UpsertOutcome,
)
    requires
        upsert_effect(before, after, event, now, outcome),
        session_entry(before.agents(), event.session_id.0@) is None,
        is_retired(before.retired(), event.session_id.0@),
        has_pid(before.agents(), event.pid),
    ensures
        outcome.stale_event_ignored,
{
    reveal(upsert_effect);
}

/// A "done" event for a session already done reports it done, from done.
proof fn lemma_done_event_on_done_session(
    before: Registry,
    after: Registry,
    event: AgentEvent,
    now: u64,
    outcome: UpsertOutcome,
)
    requires
        upsert_effect(before, after, event, now, outcome),
        event.status == AgentStatus::Done,
        session_entry(before.agents(), event.session_id.0@) matches Some(p) && p.status
            == AgentStatus::Done,
    ensures
        !outcome.stale_event_ignored,
        outcome.previous_status == Some(AgentStatus::Done),
        outcome.agent.status == AgentStatus::Done,
{
    reveal(upsert_effect);
}

/// A second "done" event for the session of a first one finds it done
/// already (or is ignored like the first, as a superseded session's).
pub proof fn lemma_second_done_finds_done(
    before: Registry,
    mid: Registry,
    after: Registry,
    first: AgentEvent,
    second: AgentEvent,
    t1: u64,
    t2: u64,
    o1: UpsertOutcome,
    o2: UpsertOutcome,
)
    requires
        mid.wf(),
        upsert_effect(before, mid, first, t1, o1),
        upsert_effect(mid, after, second, t2, o2),
        first.status == AgentStatus::Done,
        second.status == AgentStatus::Done,
        first.session_id == second.session_id,
        first.pid == second.pid,
    ensures
        o2.stale_event_ignored || (o2.previous_status == Some(AgentStatus::Done)
            && o2.agent.status == AgentStatus::Done),
{
    if o1.stale_event_ignored {
        lemma_ignored_event_facts(before, mid, first, t1, o1);
        lemma_retired_event_is_ignored(mid, after, second, t2, o2);
    } else {
        lemma_applied_event_is_tracked(before, mid, first, t1, o1);
        lemma_done_event_on_done_session(mid, after, second, t2, o2);
    }
}

/// An event for a tracked session is applied to it (unless it is a late
/// "needs input" for a done session): the entry takes the event's status,
/// and the status it had is reported as the previous one.
pub proof fn lemma_tracked_event_applies(
    before: Registry,
    after: Registry,
    event: AgentEvent,
    now: u64,
    outcome: UpsertOutcome,
)
    requires
        upsert_effect(before, after, event, now, outcome),
        session_entry(before.agents(), event.session_id.0@) matches Some(prev)
            && !drops_late_needs_input(Some(prev), event.status),
    ensures
        !outcome.stale_event_ignored,
        outcome.agent.status == event.status,
        outcome.previous_status == Some(
            session_entry(before.agents(), event.session_id.0@)->0.status,
        ),
{
    reveal(upsert_effect);
}

/// When an agent's current run of work began: an event that registers a
/// session starts its run at the event's time; an applied event that moves a
/// tracked session into "running" from any other status restarts the run at
/// the event's time; any other applied event keeps the time the run began.
pub proof fn lemma_run_start_follows_running(
    before: Registry,
    after: Registry,
    event: AgentEvent,
    now: u64,
    outcome: UpsertOutcome,
)
    requires
        upsert_effect(before, after, event, now, outcome),
        !outcome.stale_event_ignored,
    ensures
        session_entry(before.agents(), event.session_id.0@) is None ==> outcome.agent.run_started_ms
            == now,
        session_entry(before.agents(), event.session_id.0@) matches Some(p) ==> (
        !(p.status == AgentStatus::Done && event.status == AgentStatus::NeedsInput) ==> {
            &&& outcome.agent.status == event.status
            &&& (event.status == AgentStatus::Running && p.status != AgentStatus::Running)
                ==> outcome.agent.run_started_ms == now
            &&& !(event.status == AgentStatus::Running && p.status != AgentStatus::Running)
                ==> outcome.agent.run_started_ms == p.run_started_ms
        }),
{
    reveal(upsert_effect);
}

} // verus!
