//! Grouping of tracked agents and test runs by their exact working
//! directory.

use vstd::prelude::*;

use crate::proto::{Duplicate, AgentInfo, TestRunInfo};

verus! {

/// Every tracked agent and test run sharing one exact working directory.
#[derive(Debug, Clone, PartialEq, Eq)]
pub struct DirectoryGroup {
    pub cwd: String,
    pub agents: Vec<AgentInfo>,
    pub test_runs: Vec<TestRunInfo>,
}

/// The latest `last_updated_ms` among `agents`, or 0 if there are none.
pub open spec fn latest_agent_update(agents: Seq<AgentInfo>) -> u64
    decreases agents.len(),
{
    if agents.len() == 0 {
        0
    } else {
        let rest = latest_agent_update(agents.drop_last());
        if agents.last().last_updated_ms > rest {
            agents.last().last_updated_ms
        } else {
            rest
        }
    }
}

/// The latest `last_updated_ms` among `runs`, or 0 if there are none.
pub open spec fn latest_run_update(runs: Seq<TestRunInfo>) -> u64
    decreases runs.len(),
{
    if runs.len() == 0 {
        0
    } else {
        let rest = latest_run_update(runs.drop_last());
        if runs.last().last_updated_ms > rest {
            runs.last().last_updated_ms
        } else {
            rest
        }
    }
}

/// The most recent update among a group's agents and test runs (0 if it has
/// neither).
pub open spec fn latest_update(agents: Seq<AgentInfo>, runs: Seq<TestRunInfo>) -> u64 {
    let a = latest_agent_update(agents);
    let t = latest_run_update(runs);
    if a > t {
        a
    } else {
        t
    }
}

impl DirectoryGroup {
    /// The most recent `last_updated_ms` among this group's members (0 for
    /// an empty group), used to order groups and as the project's UPDATED
    /// time.
    pub fn most_recent_update_ms(&self) -> (r: u64)
        ensures
            r == latest_update(self.agents@, self.test_runs@),
    {
        let mut a: u64 = 0;
        let mut i: usize = 0;
        while i < self.agents.len()
            invariant
                i <= self.agents@.len(),
                a == latest_agent_update(self.agents@.take(i as int)),
            decreases self.agents@.len() - i,
        {
            assert(self.agents@.take(i + 1).drop_last() =~= self.agents@.take(i as int));
            if self.agents[i].last_updated_ms > a {
                a = self.agents[i].last_updated_ms;
            }
            i = i + 1;
        }
        assert(self.agents@.take(self.agents@.len() as int) =~= self.agents@);
        let mut t: u64 = 0;
        let mut j: usize = 0;
        while j < self.test_runs.len()
            invariant
                j <= self.test_runs@.len(),
                t == latest_run_update(self.test_runs@.take(j as int)),
            decreases self.test_runs@.len() - j,
        {
            assert(self.test_runs@.take(j + 1).drop_last() =~= self.test_runs@.take(j as int));
            if self.test_runs[j].last_updated_ms > t {
                t = self.test_runs[j].last_updated_ms;
            }
            j = j + 1;
        }
        assert(self.test_runs@.take(self.test_runs@.len() as int) =~= self.test_runs@);
        if a > t {
            a
        } else {
            t
        }
    }
}

/// The working directory of each agent, in order.
pub open spec fn agent_dirs(agents: Seq<AgentInfo>) -> Seq<Seq<char>> {
    agents.map_values(|a: AgentInfo| a.cwd@)
}

/// The working directory of each test run, in order.
pub open spec fn run_dirs(runs: Seq<TestRunInfo>) -> Seq<Seq<char>> {
    runs.map_values(|t: TestRunInfo| t.cwd@)
}

/// The contents of each string, in order.
pub open spec fn string_views(s: Seq<String>) -> Seq<Seq<char>> {
    s.map_values(|x: String| x@)
}

/// The distinct values of `keys`, each at its first appearance.
pub open spec fn distinct_in_order(keys: Seq<Seq<char>>) -> Seq<Seq<char>>
    decreases keys.len(),
{
    if keys.len() == 0 {
        Seq::empty()
    } else {
        let seen = distinct_in_order(keys.drop_last());
        if seen.contains(keys.last()) {
            seen
        } else {
            seen.push(keys.last())
        }
    }
}

pub open spec fn agent_in_dir(cwd: Seq<char>) -> spec_fn(AgentInfo) -> bool {
    |a: AgentInfo| a.cwd@ == cwd
}

pub open spec fn run_in_dir(cwd: Seq<char>) -> spec_fn(TestRunInfo) -> bool {
    |t: TestRunInfo| t.cwd@ == cwd
}

/// The directories `agents` and `runs` work in, each once, in order of first
/// appearance (agents before test runs).
pub open spec fn group_dirs(agents: Seq<AgentInfo>, runs: Seq<TestRunInfo>) -> Seq<Seq<char>> {
    distinct_in_order(agent_dirs(agents) + run_dirs(runs))
}

/// `groups` holds one group per directory of `group_dirs(agents, runs)`, in
/// that order, each with exactly the agents and test runs of its directory,
/// in their input order.
pub open spec fn grouped(
    agents: Seq<AgentInfo>,
    runs: Seq<TestRunInfo>,
    groups: Seq<DirectoryGroup>,
) -> bool {
    let dirs = group_dirs(agents, runs);
    &&& groups.len() == dirs.len()
    &&& forall|k: int|
        #![trigger groups[k]]
        0 <= k < groups.len() ==> {
            &&& groups[k].cwd@ == dirs[k]
            &&& groups[k].agents@ == agents.filter(agent_in_dir(dirs[k]))
            &&& groups[k].test_runs@ == runs.filter(run_in_dir(dirs[k]))
        }
}

/// One step of `distinct_in_order`.
pub proof fn lemma_distinct_push(keys: Seq<Seq<char>>, key: Seq<char>)
    ensures
        distinct_in_order(keys.push(key)) == if distinct_in_order(keys).contains(key) {
            distinct_in_order(keys)
        } else {
            distinct_in_order(keys).push(key)
        },
{
    assert(keys.push(key).drop_last() =~= keys);
}

/// Whether `key` is among the contents of `strings`.
fn contains_string(strings: &Vec<String>, key: &String) -> (r: bool)
    ensures
        r == string_views(strings@).contains(key@),
{
    let mut i: usize = 0;
    while i < strings.len()
        invariant
            i <= strings.len(),
            forall|j: int| 0 <= j < i ==> strings@[j]@ != key@,
        decreases strings.len() - i,
    {
        if strings[i] == *key {
            assert(string_views(strings@)[i as int] == key@);
            return true;
        }
        i = i + 1;
    }
    proof {
        if string_views(strings@).contains(key@) {
            let j = choose|j: int|
                0 <= j < string_views(strings@).len() && string_views(strings@)[j] == key@;
            assert(strings@[j]@ == key@);
        }
    }
    false
}

/// The directories of `agents` then `runs`, each once, in first-appearance
/// order.
fn distinct_dirs(agents: &Vec<AgentInfo>, runs: &Vec<TestRunInfo>) -> (dirs: Vec<String>)
    ensures
        string_views(dirs@) == group_dirs(agents@, runs@),
{
    let mut dirs: Vec<String> = Vec::new();
    let mut i: usize = 0;
    while i < agents.len()
        invariant
            i <= agents.len(),
            string_views(dirs@) == distinct_in_order(agent_dirs(agents@.take(i as int))),
        decreases agents.len() - i,
    {
        let ghost before = agent_dirs(agents@.take(i as int));
        proof {
            assert(agent_dirs(agents@.take(i + 1)) =~= before.push(agents@[i as int].cwd@));
            lemma_distinct_push(before, agents@[i as int].cwd@);
        }
        if !contains_string(&dirs, &agents[i].cwd) {
            dirs.push(agents[i].cwd.clone());
            assert(string_views(dirs@) =~= distinct_in_order(before).push(agents@[i as int].cwd@));
        }
        i = i + 1;
    }
    let ghost adirs = agent_dirs(agents@);
    proof {
        assert(agents@.take(agents@.len() as int) =~= agents@);
        assert(adirs + run_dirs(runs@.take(0)) =~= adirs);
    }
    let mut j: usize = 0;
    while j < runs.len()
        invariant
            j <= runs.len(),
            adirs == agent_dirs(agents@),
            string_views(dirs@) == distinct_in_order(adirs + run_dirs(runs@.take(j as int))),
        decreases runs.len() - j,
    {
        let ghost before = adirs + run_dirs(runs@.take(j as int));
        proof {
            assert(adirs + run_dirs(runs@.take(j + 1)) =~= before.push(runs@[j as int].cwd@));
            lemma_distinct_push(before, runs@[j as int].cwd@);
        }
        if !contains_string(&dirs, &runs[j].cwd) {
            dirs.push(runs[j].cwd.clone());
            assert(string_views(dirs@) =~= distinct_in_order(before).push(runs@[j as int].cwd@));
        }
        j = j + 1;
    }
    proof {
        assert(runs@.take(runs@.len() as int) =~= runs@);
    }
    dirs
}

/// The agents of `agents` working in `cwd`, in order.
pub fn agents_in(agents: &Vec<AgentInfo>, cwd: &String) -> (r: Vec<AgentInfo>)
    ensures
        r@ == agents@.filter(agent_in_dir(cwd@)),
{
    let mut r: Vec<AgentInfo> = Vec::new();
    let mut i: usize = 0;
    while i < agents.len()
        invariant
            i <= agents.len(),
            r@ == agents@.take(i as int).filter(agent_in_dir(cwd@)),
        decreases agents.len() - i,
    {
        proof {
            assert(agents@.take(i + 1) =~= agents@.take(i as int).push(agents@[i as int]));
            agents@.take(i as int).lemma_filter_push(agents@[i as int], agent_in_dir(cwd@));
        }
        if agents[i].cwd == *cwd {
            r.push(agents[i].duplicate());
        }
        i = i + 1;
    }
    assert(agents@.take(agents@.len() as int) =~= agents@);
    r
}

/// The test runs of `runs` for directory `cwd`, in order.
pub fn runs_in(runs: &Vec<TestRunInfo>, cwd: &String) -> (r: Vec<TestRunInfo>)
    ensures
        r@ == runs@.filter(run_in_dir(cwd@)),
{
    let mut r: Vec<TestRunInfo> = Vec::new();
    let mut i: usize = 0;
    while i < runs.len()
        invariant
            i <= runs.len(),
            r@ == runs@.take(i as int).filter(run_in_dir(cwd@)),
        decreases runs.len() - i,
    {
        proof {
            assert(runs@.take(i + 1) =~= runs@.take(i as int).push(runs@[i as int]));
            runs@.take(i as int).lemma_filter_push(runs@[i as int], run_in_dir(cwd@));
        }
        if runs[i].cwd == *cwd {
            r.push(runs[i].duplicate());
        }
        i = i + 1;
    }
    assert(runs@.take(runs@.len() as int) =~= runs@);
    r
}

/// Groups `agents` and `runs` by exact working directory: one group per
/// directory, in order of first appearance (agents before test runs), each
/// holding that directory's agents and test runs in their input order.
pub fn group_by_directory(agents: &Vec<AgentInfo>, runs: &Vec<TestRunInfo>) -> (r: Vec<
    DirectoryGroup,
>)
    ensures
        grouped(agents@, runs@, r@),
{
    let dirs = distinct_dirs(agents, runs);
    let ghost gd = group_dirs(agents@, runs@);
    let mut r: Vec<DirectoryGroup> = Vec::new();
    let mut k: usize = 0;
    while k < dirs.len()
        invariant
            k <= dirs.len(),
            string_views(dirs@) == gd,
            gd == group_dirs(agents@, runs@),
            r@.len() == k,
            forall|m: int|
                #![trigger r@[m]]
                0 <= m < k ==> {
                    &&& r@[m].cwd@ == gd[m]
                    &&& r@[m].agents@ == agents@.filter(agent_in_dir(gd[m]))
                    &&& r@[m].test_runs@ == runs@.filter(run_in_dir(gd[m]))
                },
        decreases dirs.len() - k,
    {
        assert(gd[k as int] == dirs@[k as int]@);
        let group = DirectoryGroup {
            cwd: dirs[k].clone(),
            agents: agents_in(agents, &dirs[k]),
            test_runs: runs_in(runs, &dirs[k]),
        };
        r.push(group);
        k = k + 1;
    }
    r
}

} // verus!
