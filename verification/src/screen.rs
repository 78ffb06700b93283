//! What each part of the terminal UI shows, as text and tones: the Agents
//! table's rows, the Logs tab's rows and captions, and the details modal's
//! panes. Drawing them is left to the caller.

use vstd::prelude::*;

use crate::app::{
    agent_updated, agents_newest_first, displayed_groups, log_in_dir, log_time, run_updated,
    runs_newest_first, shown_logs, App,
};
use crate::groups::{agent_in_dir, agents_in, latest_update, run_in_dir, runs_in, DirectoryGroup};
use crate::labels::{
    agent_status_text, agent_status_text_and_style, agent_tone, category_label,
    completion_duration, entry_status_text, log_category_label, log_entry_line_with_pid,
    log_entry_status_line, log_status_text, status_cell_text, status_cell_text_and_style,
    test_run_duration_text, test_run_status_cell_text_and_style, test_run_status_text,
    test_run_tone, with_pid_text, Tone,
};
use crate::order::{by_newest, lemma_perm_covers, permuted, stable_perm, stably_sorted};
use crate::paths::{project_name, project_name_of};
use crate::proto::{AgentInfo, AgentStatus, Duplicate, LogEntry, TestRunInfo};
use crate::text::push_char;

verus! {

/// The order distinct agent statuses appear in a project's AGENTS cell, so
/// the same set of statuses always renders the same way.
pub open spec fn status_order() -> Seq<AgentStatus> {
    seq![
        AgentStatus::Running,
        AgentStatus::Idle,
        AgentStatus::NeedsInput,
        AgentStatus::Done,
        AgentStatus::Stale,
        AgentStatus::Declined,
    ]
}

pub open spec fn has_status(status: AgentStatus) -> spec_fn(AgentInfo) -> bool {
    |a: AgentInfo| a.status == status
}

/// The segment for `status` in an AGENTS cell: a running or done status held
/// by exactly one agent shows that agent's duration; otherwise just the
/// label.
pub open spec fn status_segment(
    agents: Seq<AgentInfo>,
    status: AgentStatus,
    now_ms: u64,
    with_category_prefix: bool,
) -> (Seq<char>, Tone) {
    let matching = agents.filter(has_status(status));
    if (status == AgentStatus::Running || status == AgentStatus::Done) && matching.len() == 1 {
        (status_cell_text(matching[0], now_ms, with_category_prefix), agent_tone(status))
    } else {
        (agent_status_text(status, with_category_prefix), agent_tone(status))
    }
}

/// The AGENTS cell's segments for the first `k` statuses of `status_order`:
/// one per status some agent holds, joined by " · " separators.
pub open spec fn status_segments(
    agents: Seq<AgentInfo>,
    now_ms: u64,
    with_category_prefix: bool,
    k: nat,
) -> Seq<(Seq<char>, Tone)>
    decreases k,
{
    if k == 0 {
        Seq::empty()
    } else {
        let prev = status_segments(agents, now_ms, with_category_prefix, (k - 1) as nat);
        let status = status_order()[k - 1];
        if agents.filter(has_status(status)).len() == 0 {
            prev
        } else if prev.len() == 0 {
            seq![status_segment(agents, status, now_ms, with_category_prefix)]
        } else {
            prev + seq![
                (" · "@, Tone::Plain),
                status_segment(agents, status, now_ms, with_category_prefix),
            ]
        }
    }
}

/// The text and tone of each segment.
pub open spec fn segment_views(s: Seq<(String, Tone)>) -> Seq<(Seq<char>, Tone)> {
    s.map_values(|p: (String, Tone)| (p.0@, p.1))
}

/// The agents of `agents` with status `status`, in order.
fn agents_with_status(agents: &Vec<AgentInfo>, status: AgentStatus) -> (r: Vec<AgentInfo>)
    ensures
        r@ == agents@.filter(has_status(status)),
{
    let mut r: Vec<AgentInfo> = Vec::new();
    let mut i: usize = 0;
    while i < agents.len()
        invariant
            i <= agents.len(),
            r@ == agents@.take(i as int).filter(has_status(status)),
        decreases agents.len() - i,
    {
        proof {
            assert(agents@.take(i + 1) =~= agents@.take(i as int).push(agents@[i as int]));
            agents@.take(i as int).lemma_filter_push(agents@[i as int], has_status(status));
        }
        if agents[i].status == status {
            r.push(agents[i].duplicate());
        }
        i = i + 1;
    }
    assert(agents@.take(agents@.len() as int) =~= agents@);
    r
}

/// A project's AGENTS cell: one segment per distinct agent status present,
/// in `status_order`, joined by " · " so no status hides another.
pub fn agents_status_line(group: &DirectoryGroup, now_ms: u64, with_category_prefix: bool) -> (r:
    Vec<(String, Tone)>)
    ensures
        segment_views(r@) == status_segments(group.agents@, now_ms, with_category_prefix, 6),
{
    let order: Vec<AgentStatus> = vec![
        AgentStatus::Running,
        AgentStatus::Idle,
        AgentStatus::NeedsInput,
        AgentStatus::Done,
        AgentStatus::Stale,
        AgentStatus::Declined,
    ];
    assert(order@ =~= status_order());
    let mut spans: Vec<(String, Tone)> = Vec::new();
    let mut k: usize = 0;
    while k < order.len()
        invariant
            order@ == status_order(),
            k <= order@.len(),
            segment_views(spans@) == status_segments(
                group.agents@,
                now_ms,
                with_category_prefix,
                k as nat,
            ),
        decreases order@.len() - k,
    {
        let status = order[k];
        let matching = agents_with_status(&group.agents, status);
        let ghost before = spans@;
        if matching.len() > 0 {
            if spans.len() > 0 {
                spans.push((" · ".to_owned(), Tone::Plain));
            }
            let segment = if (status == AgentStatus::Running || status == AgentStatus::Done)
                && matching.len() == 1 {
                status_cell_text_and_style(&matching[0], now_ms, with_category_prefix)
            } else {
                agent_status_text_and_style(status, with_category_prefix)
            };
            spans.push(segment);
        }
        assert(segment_views(spans@) =~= status_segments(
            group.agents@,
            now_ms,
            with_category_prefix,
            (k + 1) as nat,
        ));
        k = k + 1;
    }
    spans
}

/// A project's TESTS cell: its test run's status label and duration, or
/// nothing when it has no test run.
pub open spec fn tests_segment(runs: Seq<TestRunInfo>, now_ms: u64, with_category_prefix: bool) -> Option<
    (Seq<char>, Tone),
> {
    if runs.len() == 0 {
        None
    } else {
        Some(
            (
                test_run_status_text(runs[0].status, with_category_prefix) + seq![' ']
                    + test_run_duration_text(runs[0], now_ms),
                test_run_tone(runs[0].status),
            ),
        )
    }
}

/// A project's TESTS cell: its test run's status and duration, or `None` if
/// the project has no tracked test run.
pub fn tests_status_line(group: &DirectoryGroup, now_ms: u64, with_category_prefix: bool) -> (r:
    Option<(String, Tone)>)
    ensures
        match r {
            Some(p) => tests_segment(group.test_runs@, now_ms, with_category_prefix) == Some(
                (p.0@, p.1),
            ),
            None => tests_segment(group.test_runs@, now_ms, with_category_prefix) is None,
        },
{
    if group.test_runs.len() == 0 {
        return None;
    }
    let test_run = &group.test_runs[0];
    let (mut text, tone) = test_run_status_cell_text_and_style(
        test_run.status,
        with_category_prefix,
    );
    push_char(&mut text, ' ');
    let duration = crate::labels::format_test_run_duration(test_run, now_ms);
    text.append(duration.as_str());
    Some((text, tone))
}

/// One row of the Agents table.
pub struct AgentRow {
    pub project: String,
    pub agents: Vec<(String, Tone)>,
    pub tests: Option<(String, Tone)>,
    pub updated_ms: u64,
}

/// `row` shows `group`: its project name, AGENTS and TESTS cells (with
/// category words) and the time of its latest update.
pub open spec fn agent_row_of(group: DirectoryGroup, now_ms: u64, row: AgentRow) -> bool {
    &&& row.project@ == project_name_of(group.cwd@)
    &&& segment_views(row.agents@) == status_segments(group.agents@, now_ms, true, 6)
    &&& match row.tests {
        Some(p) => tests_segment(group.test_runs@, now_ms, true) == Some((p.0@, p.1)),
        None => tests_segment(group.test_runs@, now_ms, true) is None,
    }
    &&& row.updated_ms == latest_update(group.agents@, group.test_runs@)
}

/// The Agents table's rows, one per project in display order.
pub fn agent_table_rows(app: &App, now_ms: u64) -> (r: Vec<AgentRow>)
    ensures
        exists|out: Seq<DirectoryGroup>|
            displayed_groups(app.agents@, app.test_runs@, out) && r@.len() == out.len() && forall|
                k: int,
            | 0 <= k < out.len() ==> agent_row_of(out[k], now_ms, #[trigger] r@[k]),
{
    let groups = app.directory_groups();
    let mut rows: Vec<AgentRow> = Vec::new();
    let mut k: usize = 0;
    while k < groups.len()
        invariant
            k <= groups@.len(),
            rows@.len() == k,
            forall|m: int| 0 <= m < k ==> agent_row_of(groups@[m], now_ms, #[trigger] rows@[m]),
        decreases groups@.len() - k,
    {
        let group = &groups[k];
        let row = AgentRow {
            project: project_name(group.cwd.as_str()),
            agents: agents_status_line(group, now_ms, true),
            tests: tests_status_line(group, now_ms, true),
            updated_ms: group.most_recent_update_ms(),
        };
        rows.push(row);
        k = k + 1;
    }
    rows
}

/// Which row a table highlights: the selection, clamped to the last row;
/// none when the table is empty.
pub fn table_selection(selected: usize, len: usize) -> (r: Option<usize>)
    ensures
        len == 0 ==> r is None,
        len > 0 ==> r == Some(if selected < len { selected } else { (len - 1) as usize }),
{
    if len == 0 {
        None
    } else if selected < len {
        Some(selected)
    } else {
        Some(len - 1)
    }
}

/// One row of the Logs tab.
pub struct LogRow {
    pub occurred_at_ms: u64,
    pub project: String,
    pub category: &'static str,
    pub status: (String, Tone),
}

/// `row` shows `entry` of `logs`: its time, project name, category and
/// status text with any completed run's duration.
pub open spec fn log_row_of(logs: Seq<LogEntry>, entry: LogEntry, row: LogRow) -> bool {
    &&& row.occurred_at_ms == entry.occurred_at_ms
    &&& row.project@ == project_name_of(entry.working_dir@)
    &&& row.category@ == category_label(entry.category)
    &&& row.status.1 == log_status_text(entry.category, entry.status@).1
    &&& exists|d: Option<u64>|
        completion_duration(logs, entry, d) && row.status.0@ == entry_status_text(logs, entry, d)
}

/// The Logs tab's rows: the shown entries, filtered and sorted.
pub fn log_table_rows(app: &App) -> (r: Vec<LogRow>)
    ensures
        exists|out: Seq<LogEntry>|
            shown_logs(
                app.logs@,
                app.logs_sort,
                app.logs_filter_project,
                app.logs_filter_status,
                out,
            ) && r@.len() == out.len() && forall|k: int|
                0 <= k < out.len() ==> log_row_of(app.logs@, out[k], #[trigger] r@[k]),
{
    let entries = app.visible_logs();
    let mut rows: Vec<LogRow> = Vec::new();
    let mut k: usize = 0;
    while k < entries.len()
        invariant
            k <= entries@.len(),
            rows@.len() == k,
            forall|m: int|
                0 <= m < k ==> log_row_of(app.logs@, entries@.unref()[m], #[trigger] rows@[m]),
        decreases entries@.len() - k,
    {
        let entry: &LogEntry = entries[k];
        let row = LogRow {
            occurred_at_ms: entry.occurred_at_ms,
            project: project_name(entry.working_dir.as_str()),
            category: log_category_label(entry.category),
            status: log_entry_status_line(app.logs.as_slice(), entry),
        };
        assert(entries@.unref()[k as int] == *entry);
        rows.push(row);
        k = k + 1;
    }
    rows
}

/// The details modal's three panes for project directory `cwd`.
pub struct DetailsPanes {
    /// Each agent's status cell (no category word) and process id, newest
    /// first.
    pub agents: Vec<((String, Tone), u32)>,
    /// The project's test run's status and duration, if it has one.
    pub test_run: Option<(String, Tone)>,
    /// Each activity-log entry's time and status line with process id,
    /// newest first.
    pub logs: Vec<(u64, (String, Tone))>,
}

/// `panes` shows project `cwd`: `agents` and `runs` are its agents and test
/// runs and `logs` its log entries, each newest first.
pub open spec fn details_of(
    all_logs: Seq<LogEntry>,
    agents: Seq<AgentInfo>,
    runs: Seq<TestRunInfo>,
    logs: Seq<LogEntry>,
    now_ms: u64,
    panes: DetailsPanes,
) -> bool {
    &&& panes.agents@.len() == agents.len()
    &&& forall|k: int|
        0 <= k < agents.len() ==> {
            &&& (#[trigger] panes.agents@[k]).0.0@ == status_cell_text(agents[k], now_ms, false)
            &&& panes.agents@[k].0.1 == agent_tone(agents[k].status)
            &&& panes.agents@[k].1 == agents[k].pid
        }
    &&& match panes.test_run {
        Some(p) => tests_segment(runs, now_ms, false) == Some((p.0@, p.1)),
        None => tests_segment(runs, now_ms, false) is None,
    }
    &&& panes.logs@.len() == logs.len()
    &&& forall|k: int|
        0 <= k < logs.len() ==> {
            &&& (#[trigger] panes.logs@[k]).0 == logs[k].occurred_at_ms
            &&& panes.logs@[k].1.1 == log_status_text(logs[k].category, logs[k].status@).1
            &&& exists|d: Option<u64>|
                completion_duration(all_logs, logs[k], d) && panes.logs@[k].1.0@ == with_pid_text(
                    logs[k],
                    entry_status_text(all_logs, logs[k], d),
                )
        }
}

/// The details modal's panes for project directory `cwd`: its agents, its
/// test run, and its activity-log entries, each newest first.
pub fn details_panes(app: &App, cwd: &str, now_ms: u64) -> (r: DetailsPanes)
    ensures
        exists|agents: Seq<AgentInfo>, runs: Seq<TestRunInfo>, logs: Seq<LogEntry>|
            {
                &&& stably_sorted(
                    agents,
                    app.agents@.filter(agent_in_dir(cwd@)),
                    agent_updated(),
                    by_newest(),
                )
                &&& stably_sorted(
                    runs,
                    app.test_runs@.filter(run_in_dir(cwd@)),
                    run_updated(),
                    by_newest(),
                )
                &&& stably_sorted(logs, app.logs@.filter(log_in_dir(cwd@)), log_time(), by_newest())
                &&& details_of(app.logs@, agents, runs, logs, now_ms, r)
            },
{
    let dir: String = cwd.to_owned();
    let agents = agents_newest_first(&agents_in(&app.agents, &dir));
    let runs = runs_newest_first(&runs_in(&app.test_runs, &dir));
    let mut agent_lines: Vec<((String, Tone), u32)> = Vec::new();
    let mut k: usize = 0;
    while k < agents.len()
        invariant
            k <= agents@.len(),
            agent_lines@.len() == k,
            forall|m: int|
                0 <= m < k ==> {
                    &&& (#[trigger] agent_lines@[m]).0.0@ == status_cell_text(
                        agents@[m],
                        now_ms,
                        false,
                    )
                    &&& agent_lines@[m].0.1 == agent_tone(agents@[m].status)
                    &&& agent_lines@[m].1 == agents@[m].pid
                },
        decreases agents@.len() - k,
    {
        let cell = status_cell_text_and_style(&agents[k], now_ms, false);
        agent_lines.push((cell, agents[k].pid));
        k = k + 1;
    }
    let test_run = if runs.len() == 0 {
        None
    } else {
        let (mut text, tone) = test_run_status_cell_text_and_style(runs[0].status, false);
        push_char(&mut text, ' ');
        let duration = crate::labels::format_test_run_duration(&runs[0], now_ms);
        text.append(duration.as_str());
        assert(text@ =~= tests_segment(runs@, now_ms, false).unwrap().0);
        Some((text, tone))
    };
    let entries = app.project_logs(cwd);
    let mut log_lines: Vec<(u64, (String, Tone))> = Vec::new();
    let mut k: usize = 0;
    while k < entries.len()
        invariant
            k <= entries@.len(),
            log_lines@.len() == k,
            forall|m: int|
                0 <= m < k ==> {
                    &&& (#[trigger] log_lines@[m]).0 == entries@.unref()[m].occurred_at_ms
                    &&& log_lines@[m].1.1 == log_status_text(
                        entries@.unref()[m].category,
                        entries@.unref()[m].status@,
                    ).1
                    &&& exists|d: Option<u64>|
                        completion_duration(app.logs@, entries@.unref()[m], d)
                            && log_lines@[m].1.0@ == with_pid_text(
                            entries@.unref()[m],
                            entry_status_text(app.logs@, entries@.unref()[m], d),
                        )
                },
        decreases entries@.len() - k,
    {
        let entry: &LogEntry = entries[k];
        assert(entries@.unref()[k as int] == *entry);
        let line = log_entry_line_with_pid(app.logs.as_slice(), entry);
        log_lines.push((entry.occurred_at_ms, line));
        k = k + 1;
    }
    let r = DetailsPanes { agents: agent_lines, test_run, logs: log_lines };
    assert(details_of(app.logs@, agents@, runs@, entries@.unref(), now_ms, r));
    r
}

/// A project's TESTS cell - in the Agents table and in the details modal,
/// each of which is handed the project's runs newest first - shows its most
/// recently updated test run: the cell is what that run alone shows, and no
/// other run of the project was updated later. A project with no test run
/// has no cell.
pub proof fn lemma_tests_cell_shows_the_newest_run(
    sorted: Seq<TestRunInfo>,
    runs: Seq<TestRunInfo>,
    now_ms: u64,
    with_category_prefix: bool,
)
    requires
        stably_sorted(sorted, runs, run_updated(), by_newest()),
    ensures
        runs.len() == 0 ==> tests_segment(sorted, now_ms, with_category_prefix) is None,
        runs.len() > 0 ==> exists|k: int|
            0 <= k < runs.len() && (forall|j: int|
                0 <= j < runs.len() ==> #[trigger] runs[j].last_updated_ms
                    <= runs[k].last_updated_ms) && tests_segment(
                sorted,
                now_ms,
                with_category_prefix,
            ) == tests_segment(seq![runs[k]], now_ms, with_category_prefix),
{
    let keys = runs.map_values(run_updated());
    let p = choose|p: Seq<int>|
        stable_perm(keys, p, by_newest()) && sorted == permuted(runs, p);
    if runs.len() > 0 {
        let k = p[0];
        assert(sorted[0] == runs[k]);
        assert(seq![runs[k]][0] == runs[k]);
        assert forall|j: int| 0 <= j < runs.len() implies #[trigger] runs[j].last_updated_ms
            <= runs[k].last_updated_ms by {
            lemma_perm_covers(keys, p, by_newest(), j);
            let m = choose|m: int| 0 <= m < p.len() && p[m] == j;
            if m != 0 {
                assert(by_newest()(keys[p[0]], keys[p[m]]));
            }
            assert(keys[j] == runs[j].last_updated_ms);
            assert(keys[k] == runs[k].last_updated_ms);
        }
    }
}

/// The TESTS cell of project directory `dir` - handed the project's runs
/// newest first, as `agent_table_rows` (through `displayed_groups`) and
/// `details_panes` both hand them - shows the status of the run of `dir`
/// that was updated last: it is what that run alone shows, and no run of
/// `dir` was updated later. Without a run of `dir` there is no cell.
pub proof fn lemma_project_tests_cell_shows_its_newest_run(
    all_runs: Seq<TestRunInfo>,
    dir: Seq<char>,
    sorted: Seq<TestRunInfo>,
    now_ms: u64,
    with_category_prefix: bool,
)
    requires
        stably_sorted(sorted, all_runs.filter(run_in_dir(dir)), run_updated(), by_newest()),
    ensures
        (forall|i: int| 0 <= i < all_runs.len() ==> #[trigger] all_runs[i].cwd@ != dir)
            ==> tests_segment(sorted, now_ms, with_category_prefix) is None,
        (exists|i: int| 0 <= i < all_runs.len() && #[trigger] all_runs[i].cwd@ == dir) ==> exists|
            j: int,
        |
            0 <= j < all_runs.len() && all_runs[j].cwd@ == dir && (forall|i: int|
                0 <= i < all_runs.len() && #[trigger] all_runs[i].cwd@ == dir
                    ==> all_runs[i].last_updated_ms <= all_runs[j].last_updated_ms)
                && tests_segment(sorted, now_ms, with_category_prefix) == tests_segment(
                seq![all_runs[j]],
                now_ms,
                with_category_prefix,
            ),
{
    broadcast use vstd::seq_lib::group_filter_ensures;

    let mine = all_runs.filter(run_in_dir(dir));
    lemma_tests_cell_shows_the_newest_run(sorted, mine, now_ms, with_category_prefix);
    if mine.len() > 0 {
        let k = choose|k: int|
            0 <= k < mine.len() && (forall|j: int|
                0 <= j < mine.len() ==> #[trigger] mine[j].last_updated_ms
                    <= mine[k].last_updated_ms) && tests_segment(
                sorted,
                now_ms,
                with_category_prefix,
            ) == tests_segment(seq![mine[k]], now_ms, with_category_prefix);
        all_runs.lemma_filter_pred(run_in_dir(dir), k);
        assert(mine.contains(mine[k]));
        all_runs.lemma_filter_contains_rev(run_in_dir(dir), mine[k]);
        let j = choose|j: int| 0 <= j < all_runs.len() && all_runs[j] == mine[k];
        assert forall|i: int|
            0 <= i < all_runs.len() && #[trigger] all_runs[i].cwd@ == dir implies all_runs[i].last_updated_ms
            <= all_runs[j].last_updated_ms by {
            all_runs.lemma_filter_contains(run_in_dir(dir), i);
            let m = choose|m: int| 0 <= m < mine.len() && mine[m] == all_runs[i];
            assert(mine[m].last_updated_ms <= mine[k].last_updated_ms);
        }
        assert(tests_segment(seq![mine[k]], now_ms, with_category_prefix) == tests_segment(
            seq![all_runs[j]],
            now_ms,
            with_category_prefix,
        ));
    } else {
        if exists|i: int| 0 <= i < all_runs.len() && #[trigger] all_runs[i].cwd@ == dir {
            let i = choose|i: int| 0 <= i < all_runs.len() && #[trigger] all_runs[i].cwd@ == dir;
            all_runs.lemma_filter_contains(run_in_dir(dir), i);
        }
    }
}

} // verus!
