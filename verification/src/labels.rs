//! The text the terminal UI shows: status labels with their emoji markers
//! and tones, elapsed-time counters, and the Logs tab's captions.

use vstd::prelude::*;

use crate::app::{App, LogSort};
use crate::proto::{AgentInfo, AgentStatus, LogCategory, LogEntry, TestRunInfo, TestRunStatus};
use crate::text::{chars_of, decimal, push_char, push_decimal, push_two_digits, same_text, two_digits};

verus! {

/// How a piece of status text is drawn: its colour and emphasis.
#[derive(Debug, Clone, Copy, PartialEq, Eq, Structural)]
pub enum Tone {
    Plain,
    Blue,
    Gray,
    YellowBold,
    Green,
    DarkGrayDim,
    Red,
    RedBold,
}

/// `elapsed_ms` as a compact counter: `9s` under a minute, `2m14s` under an
/// hour, `1h03m` at an hour or more (seconds dropped once hours show).
pub open spec fn elapsed_text(elapsed_ms: nat) -> Seq<char> {
    let secs = elapsed_ms / 1000;
    let hours = secs / 3600;
    let minutes = (secs % 3600) / 60;
    let seconds = secs % 60;
    if hours > 0 {
        decimal(hours) + seq!['h'] + two_digits(minutes) + seq!['m']
    } else if minutes > 0 {
        decimal(minutes) + seq!['m'] + two_digits(seconds) + seq!['s']
    } else {
        decimal(seconds) + seq!['s']
    }
}

/// The counter for the time from `since_ms` to `now_ms` (zero if `now_ms`
/// is earlier).
pub open spec fn running_duration_text(since_ms: u64, now_ms: u64) -> Seq<char> {
    elapsed_text(
        if now_ms >= since_ms {
            (now_ms - since_ms) as nat
        } else {
            0
        },
    )
}

/// Appends the counter for the time from `since_ms` to `now_ms` to `s`.
fn push_duration(s: &mut String, since_ms: u64, now_ms: u64)
    ensures
        final(s)@ == old(s)@ + running_duration_text(since_ms, now_ms),
{
    let elapsed_ms: u64 = if now_ms >= since_ms {
        now_ms - since_ms
    } else {
        0
    };
    let elapsed_secs = elapsed_ms / 1000;
    let hours = elapsed_secs / 3600;
    let minutes = (elapsed_secs % 3600) / 60;
    let seconds = elapsed_secs % 60;
    if hours > 0 {
        push_decimal(s, hours);
        push_char(s, 'h');
        push_two_digits(s, minutes);
        push_char(s, 'm');
    } else if minutes > 0 {
        push_decimal(s, minutes);
        push_char(s, 'm');
        push_two_digits(s, seconds);
        push_char(s, 's');
    } else {
        push_decimal(s, seconds);
        push_char(s, 's');
    }
    assert(final(s)@ =~= old(s)@ + running_duration_text(since_ms, now_ms));
}

/// Formats the time elapsed since `status_since_ms` as a compact counter:
/// `9s` under a minute, `2m14s` under an hour, `1h03m` at an hour or more.
pub fn format_running_duration(status_since_ms: u64, now_ms: u64) -> (r: String)
    ensures
        r@ == running_duration_text(status_since_ms, now_ms),
{
    let mut r = String::new();
    push_duration(&mut r, status_since_ms, now_ms);
    r
}

/// A test run's duration: live while it runs, and fixed at its last update
/// once it passed or failed.
pub open spec fn test_run_duration_text(run: TestRunInfo, now_ms: u64) -> Seq<char> {
    match run.status {
        TestRunStatus::Started => running_duration_text(run.run_started_ms, now_ms),
        TestRunStatus::Passed | TestRunStatus::Failed => running_duration_text(
            run.run_started_ms,
            run.last_updated_ms,
        ),
    }
}

/// A test run's duration: live and counting up while it runs, and the fixed
/// total once it passed or failed.
pub fn format_test_run_duration(test_run: &TestRunInfo, now_ms: u64) -> (r: String)
    ensures
        r@ == test_run_duration_text(*test_run, now_ms),
{
    match test_run.status {
        TestRunStatus::Started => format_running_duration(test_run.run_started_ms, now_ms),
        TestRunStatus::Passed | TestRunStatus::Failed => format_running_duration(
            test_run.run_started_ms,
            test_run.last_updated_ms,
        ),
    }
}

/// Each agent status's bare label: an emoji marker and a word.
pub open spec fn agent_label(status: AgentStatus) -> Seq<char> {
    match status {
        AgentStatus::Running => "🔧 running"@,
        AgentStatus::Idle => "💤 idle"@,
        AgentStatus::NeedsInput => "🔔 NEEDS INPUT"@,
        AgentStatus::Done => "✅ done"@,
        AgentStatus::Stale => "👻 stale"@,
        AgentStatus::Declined => "🚫 declined"@,
    }
}

/// Each agent status's tone.
pub open spec fn agent_tone(status: AgentStatus) -> Tone {
    match status {
        AgentStatus::Running => Tone::Blue,
        AgentStatus::Idle => Tone::Gray,
        AgentStatus::NeedsInput => Tone::YellowBold,
        AgentStatus::Done => Tone::Green,
        AgentStatus::Stale => Tone::DarkGrayDim,
        AgentStatus::Declined => Tone::Red,
    }
}

/// Every status gets both a distinct label and a distinct tone, so the
/// distinction survives in plain text and not only through colour.
pub fn status_label_and_style(status: AgentStatus) -> (r: (&'static str, Tone))
    ensures
        r.0@ == agent_label(status),
        r.1 == agent_tone(status),
{
    match status {
        AgentStatus::Running => ("🔧 running", Tone::Blue),
        AgentStatus::Idle => ("💤 idle", Tone::Gray),
        AgentStatus::NeedsInput => ("🔔 NEEDS INPUT", Tone::YellowBold),
        AgentStatus::Done => ("✅ done", Tone::Green),
        AgentStatus::Stale => ("👻 stale", Tone::DarkGrayDim),
        AgentStatus::Declined => ("🚫 declined", Tone::Red),
    }
}

/// `i` is the position of the first space in `s`.
pub open spec fn first_space(s: Seq<char>, i: int) -> bool {
    &&& 0 <= i < s.len()
    &&& s[i] == ' '
    &&& forall|j: int| 0 <= j < i ==> s[j] != ' '
}

/// `label` with `word` inserted after its first space-separated part (its
/// emoji marker), or appended after a space if it has no space.
pub open spec fn with_category(label: Seq<char>, word: Seq<char>) -> Seq<char> {
    if exists|i: int| first_space(label, i) {
        let i = choose|i: int| first_space(label, i);
        label.take(i) + seq![' '] + word + seq![' '] + label.skip(i + 1)
    } else {
        label + seq![' '] + word
    }
}

/// Inserts `category_word` right after `label`'s leading emoji and before
/// its status word (`"🔧 running"` with `"agent"` gives
/// `"🔧 agent running"`).
pub fn with_category_word(label: &str, category_word: &str) -> (r: String)
    ensures
        r@ == with_category(label@, category_word@),
{
    let chars = chars_of(label);
    let mut i: usize = 0;
    while i < chars.len()
        invariant
            chars@ == label@,
            i <= chars@.len(),
            forall|j: int| 0 <= j < i ==> chars@[j] != ' ',
        ensures
            i < chars@.len() ==> chars@[i as int] == ' ',
        decreases chars@.len() - i,
    {
        if chars[i] == ' ' {
            break;
        }
        i = i + 1;
    }
    let mut r = String::new();
    if i < chars.len() {
        assert(first_space(label@, i as int));
        let mut k: usize = 0;
        while k < i
            invariant
                chars@ == label@,
                i < chars@.len(),
                k <= i,
                r@ == label@.take(k as int),
            decreases i - k,
        {
            push_char(&mut r, chars[k]);
            assert(label@.take(k + 1) =~= label@.take(k as int).push(chars@[k as int]));
            k = k + 1;
        }
        push_char(&mut r, ' ');
        r.append(category_word);
        push_char(&mut r, ' ');
        let ghost head = r@;
        let mut k: usize = i + 1;
        while k < chars.len()
            invariant
                chars@ == label@,
                i < k <= chars@.len(),
                r@ == head + label@.subrange(i + 1, k as int),
            decreases chars@.len() - k,
        {
            push_char(&mut r, chars[k]);
            assert(label@.subrange(i + 1, k + 1) =~= label@.subrange(i + 1, k as int).push(
                chars@[k as int],
            ));
            k = k + 1;
        }
        proof {
            let c = choose|j: int| first_space(label@, j);
            if c < i {
                assert(chars@[c] != ' ');
            }
            if i < c {
                assert(label@[i as int] != ' ');
            }
            assert(label@.subrange(i + 1, label@.len() as int) =~= label@.skip(i + 1));
        }
    } else {
        proof {
            if exists|j: int| first_space(label@, j) {
                let c = choose|j: int| first_space(label@, j);
                assert(chars@[c] != ' ');
            }
        }
        r.append(label);
        push_char(&mut r, ' ');
        r.append(category_word);
    }
    assert(r@ =~= with_category(label@, category_word@));
    r
}

/// An agent status's label, with the "agent" category word when
/// `with_category_prefix` is set.
pub open spec fn agent_status_text(status: AgentStatus, with_category_prefix: bool) -> Seq<char> {
    if with_category_prefix {
        with_category(agent_label(status), "agent"@)
    } else {
        agent_label(status)
    }
}

/// An agent status's label and tone, with the "agent" category word applied
/// when `with_category_prefix` is set (the Agents tab and the Logs views;
/// not the details modal's Agents pane).
pub fn agent_status_text_and_style(status: AgentStatus, with_category_prefix: bool) -> (r: (
    String,
    Tone,
))
    ensures
        r.0@ == agent_status_text(status, with_category_prefix),
        r.1 == agent_tone(status),
{
    let (label, tone) = status_label_and_style(status);
    let text = if with_category_prefix {
        with_category_word(label, "agent")
    } else {
        label.to_owned()
    };
    (text, tone)
}

/// The label and tone of a log-only "agent started" entry.
pub fn agent_started_text_and_style() -> (r: (String, Tone))
    ensures
        r.0@ == "⏳ agent started"@,
        r.1 == Tone::Blue,
{
    ("⏳ agent started".to_owned(), Tone::Blue)
}

/// The label and tone of a log-only "a test run began" entry.
pub fn test_run_started_text_and_style() -> (r: (String, Tone))
    ensures
        r.0@ == "⏳ tests started"@,
        r.1 == Tone::Blue,
{
    ("⏳ tests started".to_owned(), Tone::Blue)
}

/// Each test-run status's bare label.
pub open spec fn test_run_label(status: TestRunStatus) -> Seq<char> {
    match status {
        TestRunStatus::Started => "⏳ running"@,
        TestRunStatus::Passed => "✅ passed"@,
        TestRunStatus::Failed => "❌ failed"@,
    }
}

/// Each test-run status's tone.
pub open spec fn test_run_tone(status: TestRunStatus) -> Tone {
    match status {
        TestRunStatus::Started => Tone::Blue,
        TestRunStatus::Passed => Tone::Green,
        TestRunStatus::Failed => Tone::RedBold,
    }
}

/// A test-run status's label, with the "tests" category word when
/// `with_category_prefix` is set.
pub open spec fn test_run_status_text(status: TestRunStatus, with_category_prefix: bool) -> Seq<
    char,
> {
    if with_category_prefix {
        with_category(test_run_label(status), "tests"@)
    } else {
        test_run_label(status)
    }
}

/// A test run's status cell text and tone, with the "tests" category word
/// applied when `with_category_prefix` is set.
pub fn test_run_status_cell_text_and_style(status: TestRunStatus, with_category_prefix: bool) -> (r:
    (String, Tone))
    ensures
        r.0@ == test_run_status_text(status, with_category_prefix),
        r.1 == test_run_tone(status),
{
    let (label, tone): (&str, Tone) = match status {
        TestRunStatus::Started => ("⏳ running", Tone::Blue),
        TestRunStatus::Passed => ("✅ passed", Tone::Green),
        TestRunStatus::Failed => ("❌ failed", Tone::RedBold),
    };
    let text = if with_category_prefix {
        with_category_word(label, "tests")
    } else {
        label.to_owned()
    };
    (text, tone)
}

/// An agent's status cell: its label, then for a running agent the live time
/// since its status began, and for a done agent the fixed time its run of
/// work took.
pub open spec fn status_cell_text(agent: AgentInfo, now_ms: u64, with_category_prefix: bool) -> Seq<
    char,
> {
    let label = agent_status_text(agent.status, with_category_prefix);
    match agent.status {
        AgentStatus::Running => label + seq![' '] + running_duration_text(
            agent.status_since_ms,
            now_ms,
        ),
        AgentStatus::Done => label + seq![' '] + running_duration_text(
            agent.run_started_ms,
            agent.status_since_ms,
        ),
        _ => label,
    }
}

/// The status cell's text and tone for one agent.
pub fn status_cell_text_and_style(agent: &AgentInfo, now_ms: u64, with_category_prefix: bool) -> (r:
    (String, Tone))
    ensures
        r.0@ == status_cell_text(*agent, now_ms, with_category_prefix),
        r.1 == agent_tone(agent.status),
{
    let (mut text, tone) = agent_status_text_and_style(agent.status, with_category_prefix);
    match agent.status {
        AgentStatus::Running => {
            push_char(&mut text, ' ');
            push_duration(&mut text, agent.status_since_ms, now_ms);
        },
        AgentStatus::Done => {
            push_char(&mut text, ' ');
            push_duration(&mut text, agent.run_started_ms, agent.status_since_ms);
        },
        _ => {},
    }
    (text, tone)
}

/// The Logs tab's sort, as its caption names it.
pub open spec fn sort_label(sort: LogSort) -> Seq<char> {
    match sort {
        LogSort::Recency => "recency"@,
        LogSort::Project => "project"@,
        LogSort::Status => "status"@,
    }
}

pub fn log_sort_label(sort: LogSort) -> (r: &'static str)
    ensures
        r@ == sort_label(sort),
{
    match sort {
        LogSort::Recency => "recency",
        LogSort::Project => "project",
        LogSort::Status => "status",
    }
}

/// A log entry's category, as the Logs tab names it.
pub open spec fn category_label(category: LogCategory) -> Seq<char> {
    match category {
        LogCategory::Agent => "agent"@,
        LogCategory::TestRun => "test-run"@,
    }
}

pub fn log_category_label(category: LogCategory) -> (r: &'static str)
    ensures
        r@ == category_label(category),
{
    match category {
        LogCategory::Agent => "agent",
        LogCategory::TestRun => "test-run",
    }
}

/// A log entry's status column: the same emoji-marked label and tone the
/// Agents tab uses for that status, always with the category word; a status
/// word it does not know is shown as it is, untoned.
pub open spec fn log_status_text(category: LogCategory, status: Seq<char>) -> (Seq<char>, Tone) {
    match category {
        LogCategory::Agent => if status == "started"@ {
            ("⏳ agent started"@, Tone::Blue)
        } else if status == "done"@ {
            (agent_status_text(AgentStatus::Done, true), agent_tone(AgentStatus::Done))
        } else if status == "needs_input"@ {
            (agent_status_text(AgentStatus::NeedsInput, true), agent_tone(AgentStatus::NeedsInput))
        } else {
            (status, Tone::Plain)
        },
        LogCategory::TestRun => if status == "started"@ {
            ("⏳ tests started"@, Tone::Blue)
        } else if status == "passed"@ {
            (test_run_status_text(TestRunStatus::Passed, true), test_run_tone(TestRunStatus::Passed))
        } else if status == "failed"@ {
            (test_run_status_text(TestRunStatus::Failed, true), test_run_tone(TestRunStatus::Failed))
        } else {
            (status, Tone::Plain)
        },
    }
}

/// Maps a log entry's category and status word to the label and tone the
/// Agents tab uses for that status.
pub fn log_status_cell_text_and_style(category: LogCategory, status: &str) -> (r: (String, Tone))
    ensures
        (r.0@, r.1) == log_status_text(category, status@),
{
    match category {
        LogCategory::Agent => if same_text(status, "started") {
            agent_started_text_and_style()
        } else if same_text(status, "done") {
            agent_status_text_and_style(AgentStatus::Done, true)
        } else if same_text(status, "needs_input") {
            agent_status_text_and_style(AgentStatus::NeedsInput, true)
        } else {
            (status.to_owned(), Tone::Plain)
        },
        LogCategory::TestRun => if same_text(status, "started") {
            test_run_started_text_and_style()
        } else if same_text(status, "passed") {
            test_run_status_cell_text_and_style(TestRunStatus::Passed, true)
        } else if same_text(status, "failed") {
            test_run_status_cell_text_and_style(TestRunStatus::Failed, true)
        } else {
            (status.to_owned(), Tone::Plain)
        },
    }
}

/// `e` is a "started" entry of `entry`'s category and project, logged no
/// later than `entry`.
pub open spec fn opens_run_of(entry: LogEntry) -> spec_fn(LogEntry) -> bool {
    |e: LogEntry|
        e.category == entry.category && e.working_dir@ == entry.working_dir@ && e.status@
            == "started"@ && e.occurred_at_ms <= entry.occurred_at_ms
}

/// `entry` closes a run of work: a passed or failed test run, or a done
/// agent task.
pub open spec fn is_completion(entry: LogEntry) -> bool {
    match entry.category {
        LogCategory::TestRun => entry.status@ == "passed"@ || entry.status@ == "failed"@,
        LogCategory::Agent => entry.status@ == "done"@,
    }
}

/// For a completion entry, the time since the latest "started" entry of the
/// same category and project logged no later than it: `r` is `None` exactly
/// when `entry` is no completion or no such entry exists.
pub open spec fn completion_duration(logs: Seq<LogEntry>, entry: LogEntry, r: Option<u64>) -> bool {
    if !is_completion(entry) {
        r is None
    } else {
        match r {
            None => forall|k: int| 0 <= k < logs.len() ==> !(#[trigger] opens_run_of(entry)(logs[k])),
            Some(d) => exists|k: int|
                0 <= k < logs.len() && #[trigger] opens_run_of(entry)(logs[k]) && d
                    == entry.occurred_at_ms - logs[k].occurred_at_ms && forall|j: int|
                    0 <= j < logs.len() && #[trigger] opens_run_of(entry)(logs[j])
                        ==> logs[j].occurred_at_ms <= logs[k].occurred_at_ms,
        }
    }
}

/// For a completed run/task log entry - a passed or failed test run, or a
/// done agent - the time elapsed since the most recent preceding "started"
/// entry of the same category for the same project, reconstructed from the
/// log's own history.
pub fn log_completion_duration_ms(all_logs: &[LogEntry], entry: &LogEntry) -> (r: Option<u64>)
    ensures
        completion_duration(all_logs@, *entry, r),
{
    let completion = match entry.category {
        LogCategory::TestRun => same_text(entry.status.as_str(), "passed") || same_text(
            entry.status.as_str(),
            "failed",
        ),
        LogCategory::Agent => same_text(entry.status.as_str(), "done"),
    };
    if !completion {
        return None;
    }
    let ghost opens = opens_run_of(*entry);
    let mut best: Option<usize> = None;
    let mut i: usize = 0;
    while i < all_logs.len()
        invariant
            i <= all_logs@.len(),
            opens == opens_run_of(*entry),
            match best {
                None => forall|k: int| 0 <= k < i ==> !(#[trigger] opens(all_logs@[k])),
                Some(b) => {
                    &&& b < i
                    &&& opens(all_logs@[b as int])
                    &&& forall|j: int|
                        0 <= j < i && #[trigger] opens(all_logs@[j])
                            ==> all_logs@[j].occurred_at_ms <= all_logs@[b as int].occurred_at_ms
                },
            },
        decreases all_logs@.len() - i,
    {
        let e = &all_logs[i];
        let started = e.category == entry.category && e.working_dir == entry.working_dir
            && same_text(e.status.as_str(), "started") && e.occurred_at_ms <= entry.occurred_at_ms;
        assert(started == opens(all_logs@[i as int]));
        if started {
            match best {
                None => {
                    best = Some(i);
                },
                Some(b) => {
                    if all_logs[b].occurred_at_ms <= e.occurred_at_ms {
                        best = Some(i);
                    }
                },
            }
        }
        i = i + 1;
    }
    match best {
        None => None,
        Some(b) => {
            assert(opens(all_logs@[b as int]));
            Some(entry.occurred_at_ms - all_logs[b].occurred_at_ms)
        },
    }
}

/// A log entry's status text: its label, then for a completion whose run
/// start is in the log, a space and the run's duration.
pub open spec fn entry_status_text(logs: Seq<LogEntry>, entry: LogEntry, duration: Option<u64>) -> Seq<
    char,
> {
    let label = log_status_text(entry.category, entry.status@).0;
    match duration {
        Some(d) => label + seq![' '] + running_duration_text(0, d),
        None => label,
    }
}

/// A log entry's styled status text, with the elapsed duration of a
/// completed run/task appended (see `log_completion_duration_ms`).
pub fn log_entry_status_line(all_logs: &[LogEntry], entry: &LogEntry) -> (r: (String, Tone))
    ensures
        r.1 == log_status_text(entry.category, entry.status@).1,
        exists|d: Option<u64>|
            completion_duration(all_logs@, *entry, d) && r.0@ == entry_status_text(
                all_logs@,
                *entry,
                d,
            ),
{
    let (mut text, tone) = log_status_cell_text_and_style(entry.category, entry.status.as_str());
    let duration = log_completion_duration_ms(all_logs, entry);
    if let Some(duration_ms) = duration {
        push_char(&mut text, ' ');
        push_duration(&mut text, 0, duration_ms);
    }
    assert(text@ == entry_status_text(all_logs@, *entry, duration));
    (text, tone)
}

/// An entry's status text with its reporting process id appended, for
/// agent entries that carry one.
pub open spec fn with_pid_text(entry: LogEntry, text: Seq<char>) -> Seq<char> {
    match (entry.category, entry.pid) {
        (LogCategory::Agent, Some(pid)) => text + "  pid "@ + decimal(pid as nat),
        _ => text,
    }
}

/// A log entry's status line with the reporting process id appended for
/// agent entries - the details modal's Logs pane shows it, the Logs tab
/// does not.
pub fn log_entry_line_with_pid(all_logs: &[LogEntry], entry: &LogEntry) -> (r: (String, Tone))
    ensures
        r.1 == log_status_text(entry.category, entry.status@).1,
        exists|d: Option<u64>|
            completion_duration(all_logs@, *entry, d) && r.0@ == with_pid_text(
                *entry,
                entry_status_text(all_logs@, *entry, d),
            ),
{
    let (mut text, tone) = log_entry_status_line(all_logs, entry);
    let ghost before = text@;
    if entry.category == LogCategory::Agent {
        if let Some(pid) = entry.pid {
            text.append("  pid ");
            push_decimal(&mut text, pid as u64);
        }
    }
    assert(text@ == with_pid_text(*entry, before));
    (text, tone)
}

/// The Logs tab's filter state: "none", or which project and/or status it
/// keeps.
pub open spec fn filter_state_text(project: Option<String>, status: Option<String>) -> Seq<char> {
    match (project, status) {
        (None, None) => "none"@,
        (Some(p), None) => "project="@ + p@,
        (None, Some(s)) => "status="@ + s@,
        (Some(p), Some(s)) => "project="@ + p@ + ", status="@ + s@,
    }
}

pub fn logs_filter_state(app: &App) -> (r: String)
    ensures
        r@ == filter_state_text(app.logs_filter_project, app.logs_filter_status),
{
    match (&app.logs_filter_project, &app.logs_filter_status) {
        (None, None) => "none".to_owned(),
        (Some(project), None) => {
            let mut r = "project=".to_owned();
            r.append(project.as_str());
            r
        },
        (None, Some(status)) => {
            let mut r = "status=".to_owned();
            r.append(status.as_str());
            r
        },
        (Some(project), Some(status)) => {
            let mut r = "project=".to_owned();
            r.append(project.as_str());
            r.append(", status=");
            r.append(status.as_str());
            r
        },
    }
}

/// The Logs tab's always-visible sort and filter caption.
pub open spec fn controls_hint_text(app: App) -> Seq<char> {
    "Sort [o]: "@ + sort_label(app.logs_sort) + "  |  Filter: "@ + filter_state_text(
        app.logs_filter_project,
        app.logs_filter_status,
    ) + ".  Project [p]  Status [s]  Clear [c]"@
}

/// The always-visible sort/filter hint shown in the Logs tab's title: the
/// keybindings stay present whether or not a filter is applied.
pub fn logs_controls_hint(app: &App) -> (r: String)
    ensures
        r@ == controls_hint_text(*app),
{
    let mut r = "Sort [o]: ".to_owned();
    r.append(log_sort_label(app.logs_sort));
    r.append("  |  Filter: ");
    let state = logs_filter_state(app);
    r.append(state.as_str());
    r.append(".  Project [p]  Status [s]  Clear [c]");
    r
}

} // verus!
