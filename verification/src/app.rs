//! The terminal UI's application state: what's on screen, decoupled from
//! the terminal and the daemon connection.

use vstd::prelude::*;

use crate::groups::{
    agent_in_dir, group_by_directory, group_dirs, latest_update, run_in_dir, DirectoryGroup,
};
use crate::order::{
    by_lex, by_newest, char_views, lex_le, lex_le_exec, lex_lt, permuted, positions,
    sort_lexicographic, sort_newest_first, stable_perm, stably_sorted,
};
use crate::paths::{project_name, project_name_of};
use crate::proto::{AgentInfo, Duplicate, LogEntry, SessionId, TestRunInfo};
use crate::registry::{has_session, sessions_unique};
use crate::seqs::permute;
use crate::text::chars_of;

verus! {

/// `current + delta` clamped to `[0, len - 1]`, or 0 when `len` is 0.
pub open spec fn clamped(current: int, delta: int, len: int) -> int {
    if len <= 0 {
        0
    } else if current + delta < 0 {
        0
    } else if current + delta > len - 1 {
        len - 1
    } else {
        current + delta
    }
}

/// The window top that keeps `selected` visible with the least scrolling,
/// never running past the end of a `len`-row list.
pub open spec fn synced(top: int, selected: int, len: int, page_size: int) -> int {
    if page_size == 0 {
        0
    } else {
        let t = if selected < top {
            selected
        } else if selected >= top + page_size {
            selected + 1 - page_size
        } else {
            top
        };
        let max_top = if len > page_size {
            len - page_size
        } else {
            0
        };
        if t < max_top {
            t
        } else {
            max_top
        }
    }
}

/// Moves `current` by `delta`, clamped to `[0, len - 1]` (or 0 if `len` is
/// 0).
pub fn clamp_index(current: usize, delta: isize, len: usize) -> (r: usize)
    ensures
        r == clamped(current as int, delta as int, len as int),
{
    if len == 0 {
        return 0;
    }
    let target: i128 = current as i128 + delta as i128;
    if target < 0 {
        0
    } else if target > (len - 1) as i128 {
        len - 1
    } else {
        target as usize
    }
}

/// Scrolls `top` by the minimum amount needed to keep `selected` within
/// `[top, top + page_size)`, then clamps it so the window never runs past
/// the end of the list.
fn synced_top(top: usize, selected: usize, len: usize, page_size: usize) -> (r: usize)
    ensures
        r == synced(top as int, selected as int, len as int, page_size as int),
{
    if page_size == 0 {
        return 0;
    }
    let t: usize = if selected < top {
        selected
    } else if selected - top >= page_size {
        selected - (page_size - 1)
    } else {
        top
    };
    let max_top: usize = if len > page_size {
        len - page_size
    } else {
        0
    };
    if t < max_top {
        t
    } else {
        max_top
    }
}

/// Whether a paginated list needs pagination controls at all: only once it
/// holds more rows than fit on one page.
pub fn needs_pagination(len: usize, page_size: usize) -> (r: bool)
    ensures
        r == (page_size > 0 && len > page_size),
{
    page_size > 0 && len > page_size
}

/// A paginated list's selection and scroll-window state. `page_size` (how
/// many rows fit in the list's rendered area) is supplied by callers.
#[derive(Debug, Clone, Copy, PartialEq, Eq, Default)]
pub struct Paginator {
    pub selected: usize,
    pub top: usize,
}

/// The top row after paging in `direction` by a full page that overlaps
/// the previous page by exactly one row, clamped to the first and last page.
pub open spec fn paged_top(top: int, direction: int, len: int, page_size: int) -> int {
    let step = if page_size > 1 {
        page_size - 1
    } else {
        1
    };
    let max_top = if len > page_size {
        len - page_size
    } else {
        0
    };
    let t = top + direction * step;
    if t < 0 {
        0
    } else if t > max_top {
        max_top
    } else {
        t
    }
}

impl Paginator {
    /// Moves the selection by `delta` lines, clamped to `[0, len - 1]`, and
    /// scrolls the window by the minimum amount needed to keep it visible.
    pub fn move_by(&mut self, delta: isize, len: usize, page_size: usize)
        ensures
            final(self).selected == clamped(old(self).selected as int, delta as int, len as int),
            final(self).top == synced(
                old(self).top as int,
                final(self).selected as int,
                len as int,
                page_size as int,
            ),
    {
        self.selected = clamp_index(self.selected, delta, len);
        self.top = synced_top(self.top, self.selected, len, page_size);
    }

    /// Moves by a full page in `direction` (+1 down, -1 up; a larger
    /// magnitude moves that many pages), overlapping the previous page by
    /// exactly 1 row: the window's top row advances by `page_size - 1` rows
    /// per page and the selection snaps to that new top row,
    /// clamped so the window never scrolls past the list's first or last
    /// entry. A no-op if `len` or `page_size` is 0.
    pub fn page(&mut self, direction: isize, len: usize, page_size: usize)
        ensures
            if page_size == 0 || len == 0 {
                *final(self) == *old(self)
            } else {
                &&& final(self).top == paged_top(
                    old(self).top as int,
                    direction as int,
                    len as int,
                    page_size as int,
                )
                &&& final(self).selected == final(self).top
            },
    {
        if page_size == 0 || len == 0 {
            return;
        }
        let step: i128 = if page_size > 1 {
            (page_size - 1) as i128
        } else {
            1
        };
        let max_top: i128 = if len > page_size {
            (len - page_size) as i128
        } else {
            0
        };
        let d: i128 = direction as i128;
        assert(-0x8000_0000_0000_0000_0000_0000_0000_0000int < d * step
            < 0x8000_0000_0000_0000_0000_0000_0000_0000int) by (nonlinear_arith)
            requires
                -0x8000_0000_0000_0000int <= d <= 0x7fff_ffff_ffff_ffffint,
                1 <= step <= 0xffff_ffff_ffff_ffffint,
        {
            if d >= 0 {
                assert(d * step <= 0x7fff_ffff_ffff_ffffint * step);
                assert(0x7fff_ffff_ffff_ffffint * step <= 0x7fff_ffff_ffff_ffffint
                    * 0xffff_ffff_ffff_ffffint);
            } else {
                assert(d * step >= -0x8000_0000_0000_0000int * step);
                assert(-0x8000_0000_0000_0000int * step >= -0x8000_0000_0000_0000int
                    * 0xffff_ffff_ffff_ffffint);
            }
        }
        let shift: i128 = d * step;
        let new_top: usize = if shift > max_top {
            max_top as usize
        } else {
            let t: i128 = self.top as i128 + shift;
            if t < 0 {
                0
            } else if t > max_top {
                max_top as usize
            } else {
                t as usize
            }
        };
        self.top = new_top;
        self.selected = new_top;
    }

    /// Clamps the selection to `[0, len - 1]`, leaving `top` as-is.
    pub fn clamp_selected(&mut self, len: usize)
        ensures
            final(self).selected == clamped(old(self).selected as int, 0, len as int),
            final(self).top == old(self).top,
    {
        self.selected = clamp_index(self.selected, 0, len);
    }

    /// Resets to the top of the list.
    pub fn reset(&mut self)
        ensures
            final(self).selected == 0,
            final(self).top == 0,
    {
        self.selected = 0;
        self.top = 0;
    }

    /// The selection to render this frame, clamped to `len`.
    pub fn display_selected(&self, len: usize) -> (r: usize)
        ensures
            r == clamped(self.selected as int, 0, len as int),
    {
        if len == 0 {
            0
        } else if self.selected < len - 1 {
            self.selected
        } else {
            len - 1
        }
    }

    /// The top-of-window row to render this frame, recomputed from the
    /// current `len` and `page_size` rather than trusting the stored `top`.
    pub fn display_top(&self, len: usize, page_size: usize) -> (r: usize)
        ensures
            r == synced(
                self.top as int,
                clamped(self.selected as int, 0, len as int),
                len as int,
                page_size as int,
            ),
    {
        synced_top(self.top, self.display_selected(len), len, page_size)
    }
}

/// How many rows each paginated list rendered on the most recent frame.
#[derive(Debug, Clone, Copy, Default)]
pub struct PageSizes {
    pub logs_tab: usize,
    pub modal_logs: usize,
}

/// Which tab is currently shown.
#[derive(Debug, Clone, Copy, PartialEq, Eq, Structural)]
pub enum Tab {
    Agents,
    Logs,
}

/// How the Logs tab orders its entries.
#[derive(Debug, Clone, Copy, PartialEq, Eq, Structural)]
pub enum LogSort {
    Recency,
    Project,
    Status,
}

/// A modal overlay drawn on top of the active tab.
#[derive(Debug, Clone, PartialEq, Eq)]
pub enum Modal {
    /// The working directory of the project whose details are shown.
    Details(String),
    Help,
}

#[derive(Debug, Clone, PartialEq, Eq)]
pub enum ConnectionStatus {
    Connecting,
    Connected,
    /// The connection dropped after being established and a reconnect
    /// attempt is in progress; the last-known agent list is kept on screen.
    Reconnecting,
    Unreachable(String),
}


/// The first agent with session id `id`.
pub open spec fn first_session(agents: Seq<AgentInfo>, id: Seq<char>) -> int {
    choose|i: int|
        0 <= i < agents.len() && agents[i].session_id.0@ == id && forall|j: int|
            0 <= j < i ==> #[trigger] agents[j].session_id.0@ != id
}

pub open spec fn not_session(id: Seq<char>) -> spec_fn(AgentInfo) -> bool {
    |a: AgentInfo| a.session_id.0@ != id
}

pub open spec fn has_run(runs: Seq<TestRunInfo>, cwd: Seq<char>, pid: u32) -> bool {
    exists|i: int| 0 <= i < runs.len() && runs[i].cwd@ == cwd && runs[i].pid == pid
}

/// The first test run for directory `cwd` and process `pid`.
pub open spec fn first_run(runs: Seq<TestRunInfo>, cwd: Seq<char>, pid: u32) -> int {
    choose|i: int|
        0 <= i < runs.len() && runs[i].cwd@ == cwd && runs[i].pid == pid && forall|j: int|
            0 <= j < i ==> !(#[trigger] runs[j].cwd@ == cwd && runs[j].pid == pid)
}

/// How many project rows the Agents tab shows.
pub open spec fn group_count(agents: Seq<AgentInfo>, runs: Seq<TestRunInfo>) -> int {
    group_dirs(agents, runs).len() as int
}

pub open spec fn agent_updated() -> spec_fn(AgentInfo) -> u64 {
    |a: AgentInfo| a.last_updated_ms
}

pub open spec fn run_updated() -> spec_fn(TestRunInfo) -> u64 {
    |t: TestRunInfo| t.last_updated_ms
}

pub open spec fn log_time() -> spec_fn(LogEntry) -> u64 {
    |e: LogEntry| e.occurred_at_ms
}

pub open spec fn log_project() -> spec_fn(LogEntry) -> Seq<char> {
    |e: LogEntry| project_name_of(e.working_dir@)
}

pub open spec fn log_status() -> spec_fn(LogEntry) -> Seq<char> {
    |e: LogEntry| e.status@
}

/// How recently each directory's agents and test runs were updated.
pub open spec fn recency(agents: Seq<AgentInfo>, runs: Seq<TestRunInfo>) -> spec_fn(Seq<char>) -> u64 {
    |d: Seq<char>| latest_update(agents.filter(agent_in_dir(d)), runs.filter(run_in_dir(d)))
}

/// `out` is the Agents tab's rows: one group per working directory, most
/// recently updated group first (ties in first-appearance order), each with
/// its agents and then its test runs ordered newest first.
pub open spec fn displayed_groups(
    agents: Seq<AgentInfo>,
    runs: Seq<TestRunInfo>,
    out: Seq<DirectoryGroup>,
) -> bool {
    let dirs = group_dirs(agents, runs);
    exists|p: Seq<int>|
        {
            &&& stable_perm(dirs.map_values(recency(agents, runs)), p, by_newest())
            &&& out.len() == dirs.len()
            &&& forall|k: int|
                #![trigger out[k]]
                0 <= k < out.len() ==> {
                    &&& out[k].cwd@ == dirs[p[k]]
                    &&& stably_sorted(
                        out[k].agents@,
                        agents.filter(agent_in_dir(dirs[p[k]])),
                        agent_updated(),
                        by_newest(),
                    )
                    &&& stably_sorted(
                        out[k].test_runs@,
                        runs.filter(run_in_dir(dirs[p[k]])),
                        run_updated(),
                        by_newest(),
                    )
                }
        }
}

/// Whether `e` passes the Logs tab's project and status filters.
pub open spec fn log_filter(project: Option<String>, status: Option<String>) -> spec_fn(LogEntry) -> bool {
    |e: LogEntry|
        (match project {
            Some(p) => project_name_of(e.working_dir@) == p@,
            None => true,
        }) && (match status {
            Some(s) => e.status@ == s@,
            None => true,
        })
}

/// `out` is `logs` filtered, then stably sorted by `sort`: newest first,
/// by project name, or by status word.
pub open spec fn shown_logs(
    logs: Seq<LogEntry>,
    sort: LogSort,
    project: Option<String>,
    status: Option<String>,
    out: Seq<LogEntry>,
) -> bool {
    let f = logs.filter(log_filter(project, status));
    match sort {
        LogSort::Recency => stably_sorted(out, f, log_time(), by_newest()),
        LogSort::Project => stably_sorted(out, f, log_project(), by_lex()),
        LogSort::Status => stably_sorted(out, f, log_status(), by_lex()),
    }
}

pub open spec fn log_in_dir(cwd: Seq<char>) -> spec_fn(LogEntry) -> bool {
    |e: LogEntry| e.working_dir@ == cwd
}

/// A stable sort keeps every element: the output is as long as the input.
pub proof fn lemma_sorted_len<T, K>(
    out: Seq<T>,
    s: Seq<T>,
    key: spec_fn(T) -> K,
    le: spec_fn(K, K) -> bool,
)
    requires
        stably_sorted(out, s, key, le),
    ensures
        out.len() == s.len(),
{
    let p = choose|p: Seq<int>| stable_perm(s.map_values(key), p, le) && out == permuted(s, p);
    assert(out.len() == p.len());
}

/// `v` stably sorted newest first.
pub(crate) fn agents_newest_first(v: &Vec<AgentInfo>) -> (r: Vec<AgentInfo>)
    ensures
        stably_sorted(r@, v@, agent_updated(), by_newest()),
{
    let mut keys: Vec<u64> = Vec::new();
    let mut i: usize = 0;
    while i < v.len()
        invariant
            i <= v@.len(),
            keys@ == v@.take(i as int).map_values(agent_updated()),
        decreases v@.len() - i,
    {
        keys.push(v[i].last_updated_ms);
        assert(v@.take(i + 1).map_values(agent_updated()) =~= v@.take(i as int).map_values(
            agent_updated(),
        ).push(v@[i as int].last_updated_ms));
        i = i + 1;
    }
    assert(v@.take(v@.len() as int) =~= v@);
    let p = sort_newest_first(&keys);
    proof {
        assert forall|j: int| 0 <= j < p@.len() implies #[trigger] p@[j] < v@.len() by {
            assert(positions(p@)[j] == p@[j] as int);
        }
    }
    let r = permute(v, &p);
    assert(stable_perm(v@.map_values(agent_updated()), positions(p@), by_newest()) && r@
        == permuted(v@, positions(p@)));
    r
}

/// `v` stably sorted newest first.
pub(crate) fn runs_newest_first(v: &Vec<TestRunInfo>) -> (r: Vec<TestRunInfo>)
    ensures
        stably_sorted(r@, v@, run_updated(), by_newest()),
{
    let mut keys: Vec<u64> = Vec::new();
    let mut i: usize = 0;
    while i < v.len()
        invariant
            i <= v@.len(),
            keys@ == v@.take(i as int).map_values(run_updated()),
        decreases v@.len() - i,
    {
        keys.push(v[i].last_updated_ms);
        assert(v@.take(i + 1).map_values(run_updated()) =~= v@.take(i as int).map_values(
            run_updated(),
        ).push(v@[i as int].last_updated_ms));
        i = i + 1;
    }
    assert(v@.take(v@.len() as int) =~= v@);
    let p = sort_newest_first(&keys);
    proof {
        assert forall|j: int| 0 <= j < p@.len() implies #[trigger] p@[j] < v@.len() by {
            assert(positions(p@)[j] == p@[j] as int);
        }
    }
    let r = permute(v, &p);
    assert(stable_perm(v@.map_values(run_updated()), positions(p@), by_newest()) && r@
        == permuted(v@, positions(p@)));
    r
}

/// Dereferencing commutes with reordering.
proof fn lemma_unref_permuted(v: Seq<&LogEntry>, p: Seq<int>)
    requires
        forall|j: int| 0 <= j < p.len() ==> 0 <= #[trigger] p[j] < v.len(),
    ensures
        permuted(v, p).unref() == permuted(v.unref(), p),
{
    assert(permuted(v, p).unref() =~= permuted(v.unref(), p));
}

/// `v` stably sorted newest first.
fn logs_newest_first<'a>(v: &Vec<&'a LogEntry>) -> (r: Vec<&'a LogEntry>)
    ensures
        stably_sorted(r@.unref(), v@.unref(), log_time(), by_newest()),
{
    let mut keys: Vec<u64> = Vec::new();
    let mut i: usize = 0;
    while i < v.len()
        invariant
            i <= v@.len(),
            keys@ == v@.unref().take(i as int).map_values(log_time()),
        decreases v@.len() - i,
    {
        keys.push(v[i].occurred_at_ms);
        assert(v@.unref().take(i + 1).map_values(log_time()) =~= v@.unref().take(
            i as int,
        ).map_values(log_time()).push(v@[i as int].occurred_at_ms));
        i = i + 1;
    }
    assert(v@.unref().take(v@.len() as int) =~= v@.unref());
    let p = sort_newest_first(&keys);
    proof {
        assert forall|j: int| 0 <= j < p@.len() implies #[trigger] p@[j] < v@.len() by {
            assert(positions(p@)[j] == p@[j] as int);
        }
        lemma_unref_permuted(v@, positions(p@));
    }
    let r = permute(v, &p);
    assert(stable_perm(v@.unref().map_values(log_time()), positions(p@), by_newest())
        && r@.unref() == permuted(v@.unref(), positions(p@)));
    r
}

/// `v` stably sorted by a lexicographic key: the project name when
/// `by_project`, the status word otherwise.
fn logs_by_word<'a>(v: &Vec<&'a LogEntry>, by_project: bool) -> (r: Vec<&'a LogEntry>)
    ensures
        by_project ==> stably_sorted(r@.unref(), v@.unref(), log_project(), by_lex()),
        !by_project ==> stably_sorted(r@.unref(), v@.unref(), log_status(), by_lex()),
{
    let ghost key = if by_project {
        log_project()
    } else {
        log_status()
    };
    let mut keys: Vec<Vec<char>> = Vec::new();
    let mut i: usize = 0;
    while i < v.len()
        invariant
            i <= v@.len(),
            key == if by_project {
                log_project()
            } else {
                log_status()
            },
            char_views(keys@) == v@.unref().take(i as int).map_values(key),
        decreases v@.len() - i,
    {
        let word = if by_project {
            chars_of(project_name(v[i].working_dir.as_str()).as_str())
        } else {
            chars_of(v[i].status.as_str())
        };
        assert(word@ == key(v@.unref()[i as int]));
        let ghost prev = char_views(keys@);
        keys.push(word);
        assert(v@.unref().take(i + 1).map_values(key) =~= v@.unref().take(i as int).map_values(
            key,
        ).push(key(v@.unref()[i as int])));
        assert(char_views(keys@) =~= prev.push(word@));
        i = i + 1;
    }
    assert(v@.unref().take(v@.len() as int) =~= v@.unref());
    let p = sort_lexicographic(&keys);
    proof {
        assert forall|j: int| 0 <= j < p@.len() implies #[trigger] p@[j] < v@.len() by {
            assert(positions(p@)[j] == p@[j] as int);
        }
        lemma_unref_permuted(v@, positions(p@));
    }
    let r = permute(v, &p);
    assert(stable_perm(v@.unref().map_values(key), positions(p@), by_lex()) && r@.unref()
        == permuted(v@.unref(), positions(p@)));
    r
}

/// Each word comes strictly after the previous one.
pub open spec fn strictly_increasing(s: Seq<Seq<char>>) -> bool {
    forall|i: int, j: int| 0 <= i < j < s.len() ==> lex_lt(#[trigger] s[i], #[trigger] s[j])
}

/// `options` lists each distinct word of `words` once, in lexicographic
/// order.
pub open spec fn sorted_distinct(words: Seq<Seq<char>>, options: Seq<Seq<char>>) -> bool {
    &&& strictly_increasing(options)
    &&& forall|x: Seq<char>| #[trigger] options.contains(x) <==> words.contains(x)
}

/// The first position of `c` in `options`.
pub open spec fn first_position(options: Seq<Seq<char>>, c: Seq<char>) -> int {
    choose|i: int|
        0 <= i < options.len() && options[i] == c && forall|j: int|
            0 <= j < i ==> #[trigger] options[j] != c
}

/// The option after `current` (the first option when there is none), or
/// `None` once the last option has been passed or `current` is not listed.
pub open spec fn next_option(current: Option<Seq<char>>, options: Seq<Seq<char>>) -> Option<
    Seq<char>,
> {
    match current {
        None => if options.len() > 0 {
            Some(options[0])
        } else {
            None
        },
        Some(c) => if options.contains(c) && first_position(options, c) + 1 < options.len() {
            Some(options[first_position(options, c) + 1])
        } else {
            None
        },
    }
}

/// Adds `word` to the strictly increasing `options` unless already there.
fn insert_option(options: &mut Vec<String>, word: String)
    requires
        strictly_increasing(crate::groups::string_views(old(options)@)),
    ensures
        strictly_increasing(crate::groups::string_views(final(options)@)),
        forall|x: Seq<char>|
            #[trigger] crate::groups::string_views(final(options)@).contains(x) <==> (
            crate::groups::string_views(old(options)@).contains(x) || x == word@),
{
    let ghost old_views = crate::groups::string_views(options@);
    let w = chars_of(word.as_str());
    let mut j: usize = 0;
    while j < options.len() && !lex_le_exec(&w, &chars_of(options[j].as_str()))
        invariant
            j <= options@.len(),
            w@ == word@,
            old_views == crate::groups::string_views(options@),
            strictly_increasing(old_views),
            forall|i: int| 0 <= i < j ==> !lex_le(word@, #[trigger] old_views[i]),
        decreases options@.len() - j,
    {
        j = j + 1;
    }
    proof {
        assert forall|i: int| 0 <= i < j implies lex_lt(#[trigger] old_views[i], word@) by {
            crate::order::lemma_lex_trichotomy(old_views[i], word@);
            crate::order::lemma_lex_reflexive(word@);
        }
    }
    if j < options.len() && options[j] == word {
        proof {
            assert forall|x: Seq<char>|
                #[trigger] old_views.contains(x) <==> (old_views.contains(x) || x == word@) by {
                if x == word@ {
                    assert(old_views[j as int] == x);
                }
            }
        }
        return;
    }
    proof {
        if j < old_views.len() {
            assert(lex_lt(word@, old_views[j as int]));
            assert forall|m: int| j <= m < old_views.len() implies lex_lt(
                word@,
                #[trigger] old_views[m],
            ) by {
                if m > j {
                    assert(lex_lt(old_views[j as int], old_views[m]));
                    crate::order::lemma_lex_lt_transitive(word@, old_views[j as int], old_views[m]);
                }
            }
        }
    }
    options.insert(j, word);
    proof {
        let nv = crate::groups::string_views(options@);
        assert(nv =~= old_views.insert(j as int, word@));
        assert forall|a: int, b: int| 0 <= a < b < nv.len() implies lex_lt(
            #[trigger] nv[a],
            #[trigger] nv[b],
        ) by {
            if b < j {
            } else if b == j {
            } else if a < j {
                assert(lex_lt(old_views[a], word@));
                crate::order::lemma_lex_lt_transitive(old_views[a], word@, old_views[b - 1]);
            } else if a == j {
            } else {
                assert(lex_lt(old_views[a - 1], old_views[b - 1]));
            }
        }
        assert forall|x: Seq<char>|
            #[trigger] nv.contains(x) <==> (old_views.contains(x) || x == word@) by {
            if nv.contains(x) {
                let k = choose|k: int| 0 <= k < nv.len() && nv[k] == x;
                if k < j {
                    assert(old_views[k] == x);
                } else if k > j {
                    assert(old_views[k - 1] == x);
                }
            }
            if old_views.contains(x) {
                let k = choose|k: int| 0 <= k < old_views.len() && old_views[k] == x;
                if k < j {
                    assert(nv[k] == x);
                } else {
                    assert(nv[k + 1] == x);
                }
            }
            if x == word@ {
                assert(nv[j as int] == x);
            }
        }
    }
}

/// The contents of an optional string.
pub open spec fn str_view(s: Option<&str>) -> Option<Seq<char>> {
    match s {
        Some(c) => Some(c@),
        None => None,
    }
}

/// Advances `current` to the next entry in `options` (in order), or to
/// `None` once the last option has been passed - cycling a filter through
/// "every value, then off" with a single key.
pub fn next_in_cycle(current: Option<&str>, options: &Vec<String>) -> (r: Option<String>)
    ensures
        match r {
            Some(s) => next_option(str_view(current), crate::groups::string_views(options@))
                == Some(s@),
            None => next_option(str_view(current), crate::groups::string_views(options@)) is None,
        },
{
    let ghost views = crate::groups::string_views(options@);
    match current {
        None => {
            if options.len() > 0 {
                Some(options[0].clone())
            } else {
                None
            }
        },
        Some(c) => {
            let cs: String = c.to_owned();
            let mut i: usize = 0;
            while i < options.len()
                invariant
                    i <= options@.len(),
                    views == crate::groups::string_views(options@),
                    cs@ == c@,
                    str_view(current) == Some(c@),
                    forall|j: int| 0 <= j < i ==> #[trigger] views[j] != c@,
                decreases options@.len() - i,
            {
                assert(views[i as int] == options@[i as int]@);
                if options[i] == cs {
                    proof {
                        let fp = first_position(views, c@);
                        assert(views[i as int] == c@);
                        assert(views.contains(c@));
                        assert(fp == i);
                    }
                    if i + 1 < options.len() {
                        assert(views[i + 1] == options@[i + 1]@);
                        assert(views.contains(c@));
                        assert(first_position(views, c@) == i);
                        assert(next_option(Some(c@), views) == Some(views[i + 1]));
                        return Some(options[i + 1].clone());
                    } else {
                        return None;
                    }
                }
                i = i + 1;
            }
            None
        },
    }
}

/// The position of the first agent with session id `id`, if any.
fn find_first_session(agents: &Vec<AgentInfo>, id: &SessionId) -> (r: Option<usize>)
    ensures
        match r {
            Some(i) => i < agents@.len() && i == first_session(agents@, id.0@) && has_session(
                agents@,
                id.0@,
            ),
            None => !has_session(agents@, id.0@),
        },
{
    let mut i: usize = 0;
    while i < agents.len()
        invariant
            i <= agents@.len(),
            forall|j: int| 0 <= j < i ==> #[trigger] agents@[j].session_id.0@ != id.0@,
        decreases agents@.len() - i,
    {
        if agents[i].session_id.0 == id.0 {
            proof {
                let f = first_session(agents@, id.0@);
                assert(agents@[i as int].session_id.0@ == id.0@);
                assert(f == i);
            }
            return Some(i);
        }
        i = i + 1;
    }
    None
}

/// The position of the first test run for `(cwd, pid)`, if any.
fn find_first_run(runs: &Vec<TestRunInfo>, cwd: &String, pid: u32) -> (r: Option<usize>)
    ensures
        match r {
            Some(i) => i < runs@.len() && i == first_run(runs@, cwd@, pid) && has_run(
                runs@,
                cwd@,
                pid,
            ),
            None => !has_run(runs@, cwd@, pid),
        },
{
    let mut i: usize = 0;
    while i < runs.len()
        invariant
            i <= runs@.len(),
            forall|j: int| 0 <= j < i ==> !(#[trigger] runs@[j].cwd@ == cwd@ && runs@[j].pid == pid),
        decreases runs@.len() - i,
    {
        if runs[i].cwd == *cwd && runs[i].pid == pid {
            proof {
                let f = first_run(runs@, cwd@, pid);
                assert(runs@[i as int].cwd@ == cwd@ && runs@[i as int].pid == pid);
                assert(f == i);
            }
            return Some(i);
        }
        i = i + 1;
    }
    None
}

/// Pure application state: what's on screen, decoupled from the terminal
/// and the socket connection.
#[derive(Debug, Clone, PartialEq, Eq)]
pub struct App {
    pub connection: ConnectionStatus,
    pub agents: Vec<AgentInfo>,
    pub test_runs: Vec<TestRunInfo>,
    pub active_tab: Tab,
    pub agents_selected: usize,
    pub logs: Vec<LogEntry>,
    pub logs_pagination: Paginator,
    pub logs_sort: LogSort,
    pub logs_filter_project: Option<String>,
    pub logs_filter_status: Option<String>,
    pub modal: Option<Modal>,
    /// The details modal's Logs pane's own selection/scroll state, separate
    /// from the Logs tab's - reset whenever `open_details_modal` runs.
    pub modal_logs_pagination: Paginator,
}

/// The number of activity-log entries the Logs tab shows.
pub open spec fn visible_count(app: App) -> int {
    app.logs@.filter(log_filter(app.logs_filter_project, app.logs_filter_status)).len() as int
}

/// The Agents tab's selection clamped to its rows.
pub open spec fn agents_clamped(app: App) -> App {
    App {
        agents_selected: clamped(
            app.agents_selected as int,
            0,
            group_count(app.agents@, app.test_runs@),
        ) as usize,
        ..app
    }
}

/// The Logs tab's selection clamped to the entries it shows.
pub open spec fn logs_clamped(app: App) -> App {
    App {
        logs_pagination: Paginator {
            selected: clamped(app.logs_pagination.selected as int, 0, visible_count(app)) as usize,
            ..app.logs_pagination
        },
        ..app
    }
}

/// The number of entries the details modal's Logs pane shows.
pub open spec fn modal_logs_count(app: App) -> int {
    match app.modal {
        Some(Modal::Details(cwd)) => app.logs@.filter(log_in_dir(cwd@)).len() as int,
        _ => 0,
    }
}

/// The distinct project names (or status words) of `logs`, in
/// lexicographic order.
fn word_options(logs: &Vec<LogEntry>, by_project: bool) -> (r: Vec<String>)
    ensures
        by_project ==> sorted_distinct(log_projects(logs@), crate::groups::string_views(r@)),
        !by_project ==> sorted_distinct(log_statuses(logs@), crate::groups::string_views(r@)),
{
    let ghost words = if by_project {
        log_projects(logs@)
    } else {
        log_statuses(logs@)
    };
    let mut options: Vec<String> = Vec::new();
    let mut i: usize = 0;
    while i < logs.len()
        invariant
            i <= logs@.len(),
            words == if by_project {
                log_projects(logs@)
            } else {
                log_statuses(logs@)
            },
            words.len() == logs@.len(),
            sorted_distinct(words.take(i as int), crate::groups::string_views(options@)),
        decreases logs@.len() - i,
    {
        let word = if by_project {
            project_name(logs[i].working_dir.as_str())
        } else {
            logs[i].status.clone()
        };
        assert(word@ == words[i as int]);
        let ghost old_views = crate::groups::string_views(options@);
        insert_option(&mut options, word);
        proof {
            let views = crate::groups::string_views(options@);
            assert(words.take(i + 1) =~= words.take(i as int).push(words[i as int]));
            assert forall|x: Seq<char>| #[trigger] views.contains(x) <==> words.take(i + 1).contains(
                x,
            ) by {
                assert(old_views.contains(x) == words.take(i as int).contains(x));
                if x == words[i as int] {
                    assert(words.take(i + 1)[i as int] == x);
                }
                if words.take(i + 1).contains(x) {
                    let k = choose|k: int| 0 <= k < i + 1 && #[trigger] words.take(i + 1)[k] == x;
                    if k < i {
                        assert(words.take(i as int)[k] == x);
                    }
                }
                if words.take(i as int).contains(x) {
                    let k = choose|k: int| 0 <= k < i && #[trigger] words.take(i as int)[k] == x;
                    assert(words.take(i + 1)[k] == x);
                }
            }
        }
        i = i + 1;
    }
    assert(words.take(logs@.len() as int) =~= words);
    options
}

/// The next way of sorting the Logs tab.
pub open spec fn next_sort(sort: LogSort) -> LogSort {
    match sort {
        LogSort::Recency => LogSort::Project,
        LogSort::Project => LogSort::Status,
        LogSort::Status => LogSort::Recency,
    }
}

/// The next tab.
pub open spec fn next_tab(tab: Tab) -> Tab {
    match tab {
        Tab::Agents => Tab::Logs,
        Tab::Logs => Tab::Agents,
    }
}

/// The contents of an optional string.
pub open spec fn string_view(s: Option<String>) -> Option<Seq<char>> {
    match s {
        Some(c) => Some(c@),
        None => None,
    }
}

/// The project names of `logs`.
pub open spec fn log_projects(logs: Seq<LogEntry>) -> Seq<Seq<char>> {
    logs.map_values(log_project())
}

/// The status words of `logs`.
pub open spec fn log_statuses(logs: Seq<LogEntry>) -> Seq<Seq<char>> {
    logs.map_values(log_status())
}

/// `b` is `a` with a details modal opened for the selected row - the
/// Agents tab's selected project, or the Logs tab's selected entry's
/// project - and that modal's Logs pane back at its top; `b` is `a` when the
/// active tab shows no selected row.
pub open spec fn details_opened(app: App, b: App) -> bool {
    let opened = |cwd: String|
        b == (App {
            modal: Some(Modal::Details(cwd)),
            modal_logs_pagination: Paginator { selected: 0, top: 0 },
            ..app
        });
    match app.active_tab {
        Tab::Agents => if (app.agents_selected as int) < group_count(app.agents@, app.test_runs@) {
            exists|out: Seq<DirectoryGroup>|
                displayed_groups(app.agents@, app.test_runs@, out) && opened(
                    #[trigger] out[app.agents_selected as int].cwd,
                )
        } else {
            b == app
        },
        Tab::Logs => if (app.logs_pagination.selected as int) < visible_count(app) {
            exists|out: Seq<LogEntry>|
                shown_logs(
                    app.logs@,
                    app.logs_sort,
                    app.logs_filter_project,
                    app.logs_filter_status,
                    out,
                ) && opened(#[trigger] out[app.logs_pagination.selected as int].working_dir)
        } else {
            b == app
        },
    }
}

/// `b` is `a` with the Logs tab's selection moved by `delta` lines, clamped
/// to the entries it shows, and its window following the selection.
pub open spec fn logs_moved(a: App, b: App, delta: int, page_size: int) -> bool {
    &&& b.logs_pagination.selected == clamped(
        a.logs_pagination.selected as int,
        delta,
        visible_count(a),
    )
    &&& b.logs_pagination.top == synced(
        a.logs_pagination.top as int,
        b.logs_pagination.selected as int,
        visible_count(a),
        page_size,
    )
    &&& b == (App { logs_pagination: b.logs_pagination, ..a })
}

/// `b` is `a` with the Logs tab paged once in `direction`, selecting the
/// new page's first row; `b` is `a` when nothing is shown or no row fits.
pub open spec fn logs_paged(a: App, b: App, direction: int, page_size: int) -> bool {
    if page_size == 0 || visible_count(a) == 0 {
        b == a
    } else {
        &&& b.logs_pagination.top == paged_top(
            a.logs_pagination.top as int,
            direction,
            visible_count(a),
            page_size,
        )
        &&& b.logs_pagination.selected == b.logs_pagination.top
        &&& b == (App { logs_pagination: b.logs_pagination, ..a })
    }
}

/// `b` is `a` with the details modal's Logs pane selection moved by `delta`.
pub open spec fn modal_logs_moved(a: App, b: App, delta: int, page_size: int) -> bool {
    &&& b.modal_logs_pagination.selected == clamped(
        a.modal_logs_pagination.selected as int,
        delta,
        modal_logs_count(a),
    )
    &&& b.modal_logs_pagination.top == synced(
        a.modal_logs_pagination.top as int,
        b.modal_logs_pagination.selected as int,
        modal_logs_count(a),
        page_size,
    )
    &&& b == (App { modal_logs_pagination: b.modal_logs_pagination, ..a })
}

/// `b` is `a` with the details modal's Logs pane paged once in `direction`.
pub open spec fn modal_logs_paged(a: App, b: App, direction: int, page_size: int) -> bool {
    if page_size == 0 || modal_logs_count(a) == 0 {
        b == a
    } else {
        &&& b.modal_logs_pagination.top == paged_top(
            a.modal_logs_pagination.top as int,
            direction,
            modal_logs_count(a),
            page_size,
        )
        &&& b.modal_logs_pagination.selected == b.modal_logs_pagination.top
        &&& b == (App { modal_logs_pagination: b.modal_logs_pagination, ..a })
    }
}

/// `b` is `a` with the project filter moved to the next of the log's
/// distinct project names in alphabetical order (after the last: none), and
/// the Logs tab's selection clamped to what remains shown.
pub open spec fn project_filter_cycled(a: App, b: App) -> bool {
    &&& exists|options: Seq<Seq<char>>|
        sorted_distinct(log_projects(a.logs@), options) && string_view(b.logs_filter_project)
            == next_option(string_view(a.logs_filter_project), options)
    &&& b == logs_clamped(App { logs_filter_project: b.logs_filter_project, ..a })
}

/// `b` is `a` with the status filter moved to the next of the log's
/// distinct status words in alphabetical order (after the last: none), and
/// the Logs tab's selection clamped to what remains shown.
pub open spec fn status_filter_cycled(a: App, b: App) -> bool {
    &&& exists|options: Seq<Seq<char>>|
        sorted_distinct(log_statuses(a.logs@), options) && string_view(b.logs_filter_status)
            == next_option(string_view(a.logs_filter_status), options)
    &&& b == logs_clamped(App { logs_filter_status: b.logs_filter_status, ..a })
}

impl App {
    /// A fresh state: connecting, nothing tracked, on the Agents tab.
    pub fn new() -> (r: App)
        ensures
            r.connection == ConnectionStatus::Connecting,
            r.agents@ == Seq::<AgentInfo>::empty(),
            r.test_runs@ == Seq::<TestRunInfo>::empty(),
            r.active_tab == Tab::Agents,
            r.agents_selected == 0,
            r.logs@ == Seq::<LogEntry>::empty(),
            r.logs_pagination == (Paginator { selected: 0, top: 0 }),
            r.logs_sort == LogSort::Recency,
            r.logs_filter_project is None,
            r.logs_filter_status is None,
            r.modal is None,
            r.modal_logs_pagination == (Paginator { selected: 0, top: 0 }),
    {
        App {
            connection: ConnectionStatus::Connecting,
            agents: Vec::new(),
            test_runs: Vec::new(),
            active_tab: Tab::Agents,
            agents_selected: 0,
            logs: Vec::new(),
            logs_pagination: Paginator { selected: 0, top: 0 },
            logs_sort: LogSort::Recency,
            logs_filter_project: None,
            logs_filter_status: None,
            modal: None,
            modal_logs_pagination: Paginator { selected: 0, top: 0 },
        }
    }

    pub fn set_unreachable(&mut self, reason: String)
        ensures
            *final(self) == (App { connection: ConnectionStatus::Unreachable(reason), ..*old(self) }),
    {
        self.connection = ConnectionStatus::Unreachable(reason);
    }

    /// Marks the connection as actively retrying, keeping whatever agents are
    /// already on screen.
    pub fn set_reconnecting(&mut self)
        ensures
            *final(self) == (App { connection: ConnectionStatus::Reconnecting, ..*old(self) }),
    {
        self.connection = ConnectionStatus::Reconnecting;
    }

    fn clamp_agents_selected(&mut self)
        ensures
            *final(self) == agents_clamped(*old(self)),
    {
        let len = group_by_directory(&self.agents, &self.test_runs).len();
        self.agents_selected = clamp_index(self.agents_selected, 0, len);
    }

    /// Replaces the agent and test-run lists with the daemon's snapshot.
    pub fn apply_snapshot(&mut self, agents: Vec<AgentInfo>, test_runs: Vec<TestRunInfo>)
        ensures
            *final(self) == agents_clamped(
                App { connection: ConnectionStatus::Connected, agents, test_runs, ..*old(self) },
            ),
    {
        self.connection = ConnectionStatus::Connected;
        self.agents = agents;
        self.test_runs = test_runs;
        self.clamp_agents_selected();
    }

    /// Inserts a newly seen agent, or updates the first one shown with its
    /// session id - covers ordinary status changes as well as an agent being
    /// marked stale.
    pub fn apply_update(&mut self, agent: AgentInfo)
        ensures
            ({
                let agents = old(self).agents@;
                let id = agent.session_id.0@;
                let new_agents = if has_session(agents, id) {
                    agents.update(first_session(agents, id), agent)
                } else {
                    agents.push(agent)
                };
                &&& final(self).agents@ == new_agents
                &&& *final(self) == agents_clamped(
                    App {
                        connection: ConnectionStatus::Connected,
                        agents: final(self).agents,
                        ..*old(self)
                    },
                )
            }),
    {
        self.connection = ConnectionStatus::Connected;
        match find_first_session(&self.agents, &agent.session_id) {
            Some(i) => {
                self.agents.set(i, agent);
            },
            None => {
                self.agents.push(agent);
            },
        }
        self.clamp_agents_selected();
    }

    /// Drops a retired session id from the tracked agents; a no-op if it
    /// isn't tracked.
    pub fn remove_agent(&mut self, session_id: &SessionId)
        ensures
            final(self).agents@ == old(self).agents@.filter(not_session(session_id.0@)),
            *final(self) == agents_clamped(App { agents: final(self).agents, ..*old(self) }),
    {
        let mut kept: Vec<AgentInfo> = Vec::new();
        let mut i: usize = 0;
        while i < self.agents.len()
            invariant
                i <= self.agents@.len(),
                kept@ == self.agents@.take(i as int).filter(not_session(session_id.0@)),
            decreases self.agents@.len() - i,
        {
            proof {
                assert(self.agents@.take(i + 1) =~= self.agents@.take(i as int).push(
                    self.agents@[i as int],
                ));
                self.agents@.take(i as int).lemma_filter_push(
                    self.agents@[i as int],
                    not_session(session_id.0@),
                );
            }
            if self.agents[i].session_id.0 != session_id.0 {
                kept.push(self.agents[i].duplicate());
            }
            i = i + 1;
        }
        assert(self.agents@.take(self.agents@.len() as int) =~= self.agents@);
        self.agents = kept;
        self.clamp_agents_selected();
    }

    /// Inserts a newly seen test run, or updates the first one shown with the
    /// same `(cwd, pid)`.
    pub fn apply_test_run_update(&mut self, test_run: TestRunInfo)
        ensures
            ({
                let runs = old(self).test_runs@;
                let new_runs = if has_run(runs, test_run.cwd@, test_run.pid) {
                    runs.update(first_run(runs, test_run.cwd@, test_run.pid), test_run)
                } else {
                    runs.push(test_run)
                };
                &&& final(self).test_runs@ == new_runs
                &&& *final(self) == agents_clamped(
                    App {
                        connection: ConnectionStatus::Connected,
                        test_runs: final(self).test_runs,
                        ..*old(self)
                    },
                )
            }),
    {
        self.connection = ConnectionStatus::Connected;
        match find_first_run(&self.test_runs, &test_run.cwd, test_run.pid) {
            Some(i) => {
                self.test_runs.set(i, test_run);
            },
            None => {
                self.test_runs.push(test_run);
            },
        }
        self.clamp_agents_selected();
    }

    /// Replaces the activity log with the daemon's current snapshot.
    pub fn apply_log_snapshot(&mut self, logs: Vec<LogEntry>)
        ensures
            *final(self) == logs_clamped(App { logs, ..*old(self) }),
    {
        self.logs = logs;
        self.clamp_logs_selected();
    }

    /// Appends a newly pushed activity-log entry.
    pub fn apply_log_appended(&mut self, entry: LogEntry)
        ensures
            final(self).logs@ == old(self).logs@.push(entry),
            *final(self) == (App { logs: final(self).logs, ..*old(self) }),
    {
        self.logs.push(entry);
    }

    /// Groups tracked agents and test runs by exact working directory,
    /// ordered most-recently-updated group first; within a group, agents and
    /// test runs are each ordered newest first.
    pub fn directory_groups(&self) -> (r: Vec<DirectoryGroup>)
        ensures
            displayed_groups(self.agents@, self.test_runs@, r@),
    {
        let groups = group_by_directory(&self.agents, &self.test_runs);
        let ghost dirs = group_dirs(self.agents@, self.test_runs@);
        let mut keys: Vec<u64> = Vec::new();
        let mut i: usize = 0;
        while i < groups.len()
            invariant
                i <= groups@.len(),
                crate::groups::grouped(self.agents@, self.test_runs@, groups@),
                dirs == group_dirs(self.agents@, self.test_runs@),
                keys@ == dirs.take(i as int).map_values(recency(self.agents@, self.test_runs@)),
            decreases groups@.len() - i,
        {
            let key = groups[i].most_recent_update_ms();
            assert(dirs.take(i + 1).map_values(recency(self.agents@, self.test_runs@))
                =~= dirs.take(i as int).map_values(recency(self.agents@, self.test_runs@)).push(
                key,
            ));
            keys.push(key);
            i = i + 1;
        }
        assert(dirs.take(dirs.len() as int) =~= dirs);
        let p = sort_newest_first(&keys);
        let mut out: Vec<DirectoryGroup> = Vec::new();
        let mut k: usize = 0;
        while k < p.len()
            invariant
                k <= p@.len(),
                crate::groups::grouped(self.agents@, self.test_runs@, groups@),
                dirs == group_dirs(self.agents@, self.test_runs@),
                stable_perm(
                    dirs.map_values(recency(self.agents@, self.test_runs@)),
                    positions(p@),
                    by_newest(),
                ),
                out@.len() == k,
                forall|m: int|
                    #![trigger out@[m]]
                    0 <= m < k ==> {
                        &&& out@[m].cwd@ == dirs[positions(p@)[m]]
                        &&& stably_sorted(
                            out@[m].agents@,
                            self.agents@.filter(agent_in_dir(dirs[positions(p@)[m]])),
                            agent_updated(),
                            by_newest(),
                        )
                        &&& stably_sorted(
                            out@[m].test_runs@,
                            self.test_runs@.filter(run_in_dir(dirs[positions(p@)[m]])),
                            run_updated(),
                            by_newest(),
                        )
                    },
            decreases p@.len() - k,
        {
            let g = p[k];
            assert(positions(p@)[k as int] == g as int);
            assert(groups@[g as int].cwd@ == dirs[g as int]);
            let group = DirectoryGroup {
                cwd: groups[g].cwd.clone(),
                agents: agents_newest_first(&groups[g].agents),
                test_runs: runs_newest_first(&groups[g].test_runs),
            };
            out.push(group);
            k = k + 1;
        }
        assert(stable_perm(
            dirs.map_values(recency(self.agents@, self.test_runs@)),
            positions(p@),
            by_newest(),
        ));
        out
    }

    /// Cycles between the Agents and Logs tabs.
    pub fn cycle_tab(&mut self)
        ensures
            *final(self) == (App { active_tab: next_tab(old(self).active_tab), ..*old(self) }),
    {
        self.active_tab = match self.active_tab {
            Tab::Agents => Tab::Logs,
            Tab::Logs => Tab::Agents,
        };
    }

    pub fn set_tab(&mut self, tab: Tab)
        ensures
            *final(self) == (App { active_tab: tab, ..*old(self) }),
    {
        self.active_tab = tab;
    }

    /// Moves the Agents tab's row selection by `delta`, clamped to the
    /// current number of project rows.
    pub fn move_agents_selection(&mut self, delta: isize)
        ensures
            *final(self) == (App {
                agents_selected: clamped(
                    old(self).agents_selected as int,
                    delta as int,
                    group_count(old(self).agents@, old(self).test_runs@),
                ) as usize,
                ..*old(self)
            }),
    {
        let len = group_by_directory(&self.agents, &self.test_runs).len();
        self.agents_selected = clamp_index(self.agents_selected, delta, len);
    }

    pub fn open_help_modal(&mut self)
        ensures
            *final(self) == (App { modal: Some(Modal::Help), ..*old(self) }),
    {
        self.modal = Some(Modal::Help);
    }

    pub fn close_modal(&mut self)
        ensures
            *final(self) == (App { modal: None, ..*old(self) }),
    {
        self.modal = None;
    }

    /// The activity log's entries after applying the current filter and
    /// sort.
    pub fn visible_logs(&self) -> (r: Vec<&LogEntry>)
        ensures
            shown_logs(
                self.logs@,
                self.logs_sort,
                self.logs_filter_project,
                self.logs_filter_status,
                r@.unref(),
            ),
    {
        let ghost pred = log_filter(self.logs_filter_project, self.logs_filter_status);
        let mut kept: Vec<&LogEntry> = Vec::new();
        let mut i: usize = 0;
        while i < self.logs.len()
            invariant
                i <= self.logs@.len(),
                pred == log_filter(self.logs_filter_project, self.logs_filter_status),
                kept@.unref() == self.logs@.take(i as int).filter(pred),
            decreases self.logs@.len() - i,
        {
            proof {
                assert(self.logs@.take(i + 1) =~= self.logs@.take(i as int).push(
                    self.logs@[i as int],
                ));
                self.logs@.take(i as int).lemma_filter_push(self.logs@[i as int], pred);
            }
            let e = &self.logs[i];
            let project_ok = match &self.logs_filter_project {
                Some(p) => project_name(e.working_dir.as_str()) == *p,
                None => true,
            };
            let status_ok = match &self.logs_filter_status {
                Some(st) => e.status == *st,
                None => true,
            };
            assert((project_ok && status_ok) == pred(self.logs@[i as int]));
            if project_ok && status_ok {
                let ghost before = kept@;
                kept.push(e);
                assert(kept@.unref() =~= before.unref().push(self.logs@[i as int]));
            }
            i = i + 1;
        }
        assert(self.logs@.take(self.logs@.len() as int) =~= self.logs@);
        match self.logs_sort {
            LogSort::Recency => logs_newest_first(&kept),
            LogSort::Project => logs_by_word(&kept, true),
            LogSort::Status => logs_by_word(&kept, false),
        }
    }

    /// A project's activity-log entries, most recent first, ignoring the
    /// Logs tab's own sort and filter.
    pub fn project_logs(&self, cwd: &str) -> (r: Vec<&LogEntry>)
        ensures
            stably_sorted(r@.unref(), self.logs@.filter(log_in_dir(cwd@)), log_time(), by_newest()),
    {
        let cwd_owned: String = cwd.to_owned();
        let mut kept: Vec<&LogEntry> = Vec::new();
        let mut i: usize = 0;
        while i < self.logs.len()
            invariant
                i <= self.logs@.len(),
                cwd_owned@ == cwd@,
                kept@.unref() == self.logs@.take(i as int).filter(log_in_dir(cwd@)),
            decreases self.logs@.len() - i,
        {
            proof {
                assert(self.logs@.take(i + 1) =~= self.logs@.take(i as int).push(
                    self.logs@[i as int],
                ));
                self.logs@.take(i as int).lemma_filter_push(self.logs@[i as int], log_in_dir(cwd@));
            }
            if self.logs[i].working_dir == cwd_owned {
                let ghost before = kept@;
                kept.push(&self.logs[i]);
                assert(kept@.unref() =~= before.unref().push(self.logs@[i as int]));
            }
            i = i + 1;
        }
        assert(self.logs@.take(self.logs@.len() as int) =~= self.logs@);
        logs_newest_first(&kept)
    }

    fn clamp_logs_selected(&mut self)
        ensures
            *final(self) == logs_clamped(*old(self)),
    {
        let visible = self.visible_logs();
        let len = visible.len();
        proof {
            let f = self.logs@.filter(log_filter(self.logs_filter_project, self.logs_filter_status));
            match self.logs_sort {
                LogSort::Recency => lemma_sorted_len(visible@.unref(), f, log_time(), by_newest()),
                LogSort::Project => lemma_sorted_len(visible@.unref(), f, log_project(), by_lex()),
                LogSort::Status => lemma_sorted_len(visible@.unref(), f, log_status(), by_lex()),
            }
        }
        self.logs_pagination.clamp_selected(len);
    }

    /// Opens the details modal for whichever row is selected - the Agents
    /// tab's selected project, or the Logs tab's selected entry's project -
    /// resetting the modal's Logs pane to its top. Does nothing when the
    /// active tab shows no rows.
    pub fn open_details_modal(&mut self)
        ensures
            details_opened(*old(self), *final(self)),
    {
        match self.active_tab {
            Tab::Agents => {
                let groups = self.directory_groups();
                proof {
                    let dirs = group_dirs(self.agents@, self.test_runs@);
                    let p = choose|p: Seq<int>|
                        {
                            &&& stable_perm(
                                dirs.map_values(recency(self.agents@, self.test_runs@)),
                                p,
                                by_newest(),
                            )
                            &&& groups@.len() == dirs.len()
                            &&& forall|k: int|
                                #![trigger groups@[k]]
                                0 <= k < groups@.len() ==> {
                                    &&& groups@[k].cwd@ == dirs[p[k]]
                                    &&& stably_sorted(
                                        groups@[k].agents@,
                                        self.agents@.filter(agent_in_dir(dirs[p[k]])),
                                        agent_updated(),
                                        by_newest(),
                                    )
                                    &&& stably_sorted(
                                        groups@[k].test_runs@,
                                        self.test_runs@.filter(run_in_dir(dirs[p[k]])),
                                        run_updated(),
                                        by_newest(),
                                    )
                                }
                        };
                }
                if self.agents_selected < groups.len() {
                    let cwd = groups[self.agents_selected].cwd.clone();
                    self.modal_logs_pagination.reset();
                    self.modal = Some(Modal::Details(cwd));
                    assert(displayed_groups(old(self).agents@, old(self).test_runs@, groups@));
                }
            },
            Tab::Logs => {
                let visible = self.visible_logs();
                proof {
                    self.lemma_visible_len(visible@.unref());
                }
                if self.logs_pagination.selected < visible.len() {
                    let cwd = visible[self.logs_pagination.selected].working_dir.clone();
                    assert(cwd == visible@.unref()[self.logs_pagination.selected as int].working_dir);
                    self.modal_logs_pagination.reset();
                    self.modal = Some(Modal::Details(cwd));
                }
            },
        }
    }

    /// Shown logs hold every entry that passes the filters.
    proof fn lemma_visible_len(self, out: Seq<LogEntry>)
        requires
            shown_logs(
                self.logs@,
                self.logs_sort,
                self.logs_filter_project,
                self.logs_filter_status,
                out,
            ),
        ensures
            out.len() == visible_count(self),
    {
        let f = self.logs@.filter(log_filter(self.logs_filter_project, self.logs_filter_status));
        match self.logs_sort {
            LogSort::Recency => lemma_sorted_len(out, f, log_time(), by_newest()),
            LogSort::Project => lemma_sorted_len(out, f, log_project(), by_lex()),
            LogSort::Status => lemma_sorted_len(out, f, log_status(), by_lex()),
        }
    }

    /// The number of entries the details modal's Logs pane shows: its
    /// project's entries, or 0 if no details modal is open.
    fn modal_logs_len(&self) -> (r: usize)
        ensures
            r == modal_logs_count(*self),
    {
        match &self.modal {
            Some(Modal::Details(cwd)) => {
                let shown = self.project_logs(cwd.as_str());
                proof {
                    lemma_sorted_len(
                        shown@.unref(),
                        self.logs@.filter(log_in_dir(cwd@)),
                        log_time(),
                        by_newest(),
                    );
                }
                shown.len()
            },
            _ => 0,
        }
    }

    /// Moves the Logs tab's selection by `delta` lines, clamped to the
    /// entries it shows; `page_size` is how many rows it rendered.
    pub fn move_logs_selection(&mut self, delta: isize, page_size: usize)
        ensures
            logs_moved(*old(self), *final(self), delta as int, page_size as int),
    {
        let visible = self.visible_logs();
        proof {
            self.lemma_visible_len(visible@.unref());
        }
        let len = visible.len();
        self.logs_pagination.move_by(delta, len, page_size);
    }

    /// Moves the Logs tab's selection by a full page in `direction` (+1 or
    /// -1), overlapping the previous page by exactly 1 row.
    pub fn page_logs(&mut self, direction: isize, page_size: usize)
        ensures
            logs_paged(*old(self), *final(self), direction as int, page_size as int),
    {
        let visible = self.visible_logs();
        proof {
            self.lemma_visible_len(visible@.unref());
        }
        let len = visible.len();
        self.logs_pagination.page(direction, len, page_size);
    }

    /// Moves the details modal's Logs pane's own selection by `delta` lines.
    pub fn move_modal_logs_selection(&mut self, delta: isize, page_size: usize)
        ensures
            modal_logs_moved(*old(self), *final(self), delta as int, page_size as int),
    {
        let len = self.modal_logs_len();
        self.modal_logs_pagination.move_by(delta, len, page_size);
    }

    /// Moves the details modal's Logs pane's own selection by a full page.
    pub fn page_modal_logs(&mut self, direction: isize, page_size: usize)
        ensures
            modal_logs_paged(*old(self), *final(self), direction as int, page_size as int),
    {
        let len = self.modal_logs_len();
        self.modal_logs_pagination.page(direction, len, page_size);
    }

    /// Moves to the next way of sorting the Logs tab (recency, project,
    /// status, then recency again), back at the top of the list.
    pub fn cycle_logs_sort(&mut self)
        ensures
            *final(self) == (App {
                logs_sort: next_sort(old(self).logs_sort),
                logs_pagination: Paginator { selected: 0, top: 0 },
                ..*old(self)
            }),
    {
        self.logs_sort = match self.logs_sort {
            LogSort::Recency => LogSort::Project,
            LogSort::Project => LogSort::Status,
            LogSort::Status => LogSort::Recency,
        };
        self.logs_pagination.reset();
    }

    /// Cycles the project filter through every distinct project present in
    /// the full log, in alphabetical order, then back to no filter.
    pub fn cycle_logs_project_filter(&mut self)
        ensures
            project_filter_cycled(*old(self), *final(self)),
    {
        let options = word_options(&self.logs, true);
        let current: Option<&str> = match &self.logs_filter_project {
            Some(p) => Some(p.as_str()),
            None => None,
        };
        self.logs_filter_project = next_in_cycle(current, &options);
        self.clamp_logs_selected();
    }

    /// Cycles the status filter through every distinct status present in
    /// the full log, in alphabetical order, then back to no filter.
    pub fn cycle_logs_status_filter(&mut self)
        ensures
            status_filter_cycled(*old(self), *final(self)),
    {
        let options = word_options(&self.logs, false);
        let current: Option<&str> = match &self.logs_filter_status {
            Some(p) => Some(p.as_str()),
            None => None,
        };
        self.logs_filter_status = next_in_cycle(current, &options);
        self.clamp_logs_selected();
    }

    /// Clears both Logs-tab filters.
    pub fn clear_logs_filters(&mut self)
        ensures
            *final(self) == logs_clamped(
                App { logs_filter_project: None, logs_filter_status: None, ..*old(self) },
            ),
    {
        self.logs_filter_project = None;
        self.logs_filter_status = None;
        self.clamp_logs_selected();
    }
}

impl Default for App {
    /// The same fresh state as `App::new`.
    fn default() -> (r: App)
        ensures
            r.connection == ConnectionStatus::Connecting,
            r.agents@ == Seq::<AgentInfo>::empty(),
            r.test_runs@ == Seq::<TestRunInfo>::empty(),
            r.active_tab == Tab::Agents,
            r.agents_selected == 0,
            r.logs@ == Seq::<LogEntry>::empty(),
            r.logs_pagination == (Paginator { selected: 0, top: 0 }),
            r.logs_sort == LogSort::Recency,
            r.logs_filter_project is None,
            r.logs_filter_status is None,
            r.modal is None,
            r.modal_logs_pagination == (Paginator { selected: 0, top: 0 }),
    {
        App::new()
    }
}

/// Cycling tabs twice comes back to the same tab.
pub proof fn lemma_cycle_tab_twice_returns(tab: Tab)
    ensures
        next_tab(next_tab(tab)) == tab,
{
}

/// Cycling the Logs tab's sort three times comes back to the same sort,
/// through all three ways of sorting.
pub proof fn lemma_sort_cycle_has_three_steps(sort: LogSort)
    ensures
        next_sort(next_sort(next_sort(sort))) == sort,
        next_sort(sort) != sort,
        next_sort(next_sort(sort)) != sort,
{
}

/// A clamped selection always names a row of a non-empty list.
pub proof fn lemma_clamped_is_a_row(current: int, delta: int, len: int)
    requires
        len > 0,
    ensures
        0 <= clamped(current, delta, len) < len,
{
}

/// After the selection moves, it stays on screen: the window's top keeps
/// the selected row among the `page_size` rows shown, and the window never
/// runs past the end of the list.
pub proof fn lemma_selection_stays_visible(top: int, selected: int, len: int, page_size: int)
    requires
        page_size > 0,
        0 <= selected < len,
        0 <= top,
    ensures
        0 <= synced(top, selected, len, page_size) <= selected,
        selected < synced(top, selected, len, page_size) + page_size,
        synced(top, selected, len, page_size) + page_size <= len || synced(
            top,
            selected,
            len,
            page_size,
        ) == 0,
{
}

/// Paging lands on the first page, the last page, or exactly one row short
/// of a full page away, and never before the first row or past the last
/// page.
pub proof fn lemma_paging_stays_in_bounds(top: int, direction: int, len: int, page_size: int)
    requires
        page_size > 0,
        -1 <= direction <= 1,
    ensures
        0 <= paged_top(top, direction, len, page_size),
        paged_top(top, direction, len, page_size) + page_size <= len || paged_top(
            top,
            direction,
            len,
            page_size,
        ) == 0,
        paged_top(top, direction, len, page_size) == 0 || paged_top(top, direction, len, page_size)
            == len - page_size || paged_top(top, direction, len, page_size) == top + direction * (
        if page_size > 1 {
            page_size - 1
        } else {
            1
        }),
{
}

/// Applying an agent update never lists a session twice: it replaces the
/// session's entry when it is listed, and adds it otherwise.
pub proof fn lemma_update_keeps_sessions_unique(agents: Seq<AgentInfo>, agent: AgentInfo)
    requires
        sessions_unique(agents),
    ensures
        sessions_unique(
            if has_session(agents, agent.session_id.0@) {
                agents.update(first_session(agents, agent.session_id.0@), agent)
            } else {
                agents.push(agent)
            },
        ),
{
    let id = agent.session_id.0@;
    if has_session(agents, id) {
        let w = choose|i: int| 0 <= i < agents.len() && agents[i].session_id.0@ == id;
        assert forall|j: int| 0 <= j < w implies #[trigger] agents[j].session_id.0@ != id by {
            assert(agents[j].session_id.0@ != agents[w].session_id.0@);
        }
        let k = first_session(agents, id);
        if k != w {
            assert(agents[k].session_id.0@ != agents[w].session_id.0@);
        }
        let out = agents.update(k, agent);
        assert forall|i: int, j: int|
            0 <= i < out.len() && 0 <= j < out.len() && i != j implies #[trigger] out[i].session_id.0@
            != #[trigger] out[j].session_id.0@ by {
            if i != k && j != k {
                assert(agents[i].session_id.0@ != agents[j].session_id.0@);
            } else if i == k {
                assert(agents[j].session_id.0@ != agents[k].session_id.0@);
            } else {
                assert(agents[i].session_id.0@ != agents[k].session_id.0@);
            }
        }
    } else {
        let out = agents.push(agent);
        assert forall|i: int, j: int|
            0 <= i < out.len() && 0 <= j < out.len() && i != j implies #[trigger] out[i].session_id.0@
            != #[trigger] out[j].session_id.0@ by {
            if i < agents.len() && j < agents.len() {
                assert(agents[i].session_id.0@ != agents[j].session_id.0@);
            } else if i < agents.len() {
                assert(agents[i].session_id.0@ != id);
            } else {
                assert(agents[j].session_id.0@ != id);
            }
        }
    }
}

/// Removing a session leaves no entry for it and keeps every other entry,
/// in order.
pub proof fn lemma_removed_session_is_gone(agents: Seq<AgentInfo>, id: Seq<char>)
    ensures
        forall|k: int|
            0 <= k < agents.filter(not_session(id)).len() ==> (
            #[trigger] agents.filter(not_session(id))[k]).session_id.0@ != id,
        forall|k: int|
            0 <= k < agents.len() && agents[k].session_id.0@ != id ==> agents.filter(
                not_session(id),
            ).contains(#[trigger] agents[k]),
{
    broadcast use vstd::seq_lib::group_filter_ensures;

    assert forall|k: int|
        0 <= k < agents.filter(not_session(id)).len() implies (#[trigger] agents.filter(
        not_session(id),
    )[k]).session_id.0@ != id by {
        assert(not_session(id)(agents.filter(not_session(id))[k]));
    }
    assert forall|k: int| 0 <= k < agents.len() && agents[k].session_id.0@ != id implies agents.filter(
        not_session(id),
    ).contains(#[trigger] agents[k]) by {
        agents.lemma_filter_contains(not_session(id), k);
    }
}

} // verus!