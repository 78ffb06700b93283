//! Keyboard handling for the terminal UI: which key does what, with a modal
//! taking priority over the tab underneath it.

use vstd::prelude::*;

use crate::app::{
    clamped, details_opened, group_count, logs_clamped, logs_moved, logs_paged, modal_logs_moved,
    modal_logs_paged, next_sort, next_tab, project_filter_cycled, status_filter_cycled, App,
    Modal, PageSizes, Paginator, Tab,
};

verus! {

/// The keys the UI tells apart; every other key is `Other`.
#[derive(Debug, Clone, Copy, PartialEq, Eq, Structural)]
pub enum KeyCode {
    Char(char),
    Esc,
    Tab,
    Enter,
    Up,
    Down,
    PageUp,
    PageDown,
    Other,
}

/// A key press, as far as the UI reads it.
#[derive(Debug, Clone, Copy, PartialEq, Eq, Structural)]
pub struct KeyEvent {
    pub code: KeyCode,
}

impl KeyEvent {
    pub fn new(code: KeyCode) -> (r: KeyEvent)
        ensures
            r.code == code,
    {
        KeyEvent { code }
    }
}

#[derive(Debug, Clone, Copy, PartialEq, Eq, Structural)]
pub enum InputAction {
    Continue,
    Quit,
}

/// What a key press asks of the UI state.
#[derive(Debug, Clone, Copy, PartialEq, Eq, Structural)]
pub enum KeyCommand {
    Quit,
    CloseModal,
    CycleTab,
    OpenHelp,
    ShowTab(Tab),
    MoveAgents(isize),
    OpenDetails,
    MoveLogs(isize),
    PageLogs(isize),
    CycleSort,
    CycleProjectFilter,
    CycleStatusFilter,
    ClearFilters,
    MoveModalLogs(isize),
    PageModalLogs(isize),
    Ignore,
}

/// The command for `code` on the Agents tab with no modal open.
pub open spec fn agents_tab_command(code: KeyCode) -> KeyCommand {
    match code {
        KeyCode::Char('j') | KeyCode::Down => KeyCommand::MoveAgents(1isize),
        KeyCode::Char('k') | KeyCode::Up => KeyCommand::MoveAgents(-1isize),
        KeyCode::Enter => KeyCommand::OpenDetails,
        _ => KeyCommand::Ignore,
    }
}

/// The command for `code` on the Logs tab with no modal open.
pub open spec fn logs_tab_command(code: KeyCode) -> KeyCommand {
    match code {
        KeyCode::Char('j') | KeyCode::Down => KeyCommand::MoveLogs(1isize),
        KeyCode::Char('k') | KeyCode::Up => KeyCommand::MoveLogs(-1isize),
        KeyCode::Char('d') | KeyCode::PageDown => KeyCommand::PageLogs(1isize),
        KeyCode::Char('u') | KeyCode::PageUp => KeyCommand::PageLogs(-1isize),
        KeyCode::Char('o') => KeyCommand::CycleSort,
        KeyCode::Char('p') => KeyCommand::CycleProjectFilter,
        KeyCode::Char('s') => KeyCommand::CycleStatusFilter,
        KeyCode::Char('c') => KeyCommand::ClearFilters,
        KeyCode::Enter => KeyCommand::OpenDetails,
        _ => KeyCommand::Ignore,
    }
}

/// The command for `code` while `modal` is open: `Esc` closes it, and a
/// details modal routes its own Logs pane's navigation keys to that pane.
pub open spec fn modal_command(modal: Modal, code: KeyCode) -> KeyCommand {
    if code == KeyCode::Esc {
        KeyCommand::CloseModal
    } else {
        match modal {
            Modal::Details(_) => match code {
                KeyCode::Char('j') | KeyCode::Down => KeyCommand::MoveModalLogs(1isize),
                KeyCode::Char('k') | KeyCode::Up => KeyCommand::MoveModalLogs(-1isize),
                KeyCode::Char('d') | KeyCode::PageDown => KeyCommand::PageModalLogs(1isize),
                KeyCode::Char('u') | KeyCode::PageUp => KeyCommand::PageModalLogs(-1isize),
                _ => KeyCommand::Ignore,
            },
            Modal::Help => KeyCommand::Ignore,
        }
    }
}

/// The command a key press gives: `q` always quits; an open modal takes
/// every other key; otherwise the tab-switching keys and `Esc` (quit) come
/// before the active tab's own keys.
pub open spec fn key_command(modal: Option<Modal>, tab: Tab, code: KeyCode) -> KeyCommand {
    if code == KeyCode::Char('q') {
        KeyCommand::Quit
    } else {
        match modal {
            Some(m) => modal_command(m, code),
            None => match code {
                KeyCode::Esc => KeyCommand::Quit,
                KeyCode::Tab => KeyCommand::CycleTab,
                KeyCode::Char('?') => KeyCommand::OpenHelp,
                KeyCode::Char('A') | KeyCode::Char('a') => KeyCommand::ShowTab(Tab::Agents),
                KeyCode::Char('L') | KeyCode::Char('l') => KeyCommand::ShowTab(Tab::Logs),
                _ => match tab {
                    Tab::Agents => agents_tab_command(code),
                    Tab::Logs => logs_tab_command(code),
                },
            },
        }
    }
}

/// `b` is what `cmd` makes of `a`, with `sizes` the rows each paginated list
/// rendered on the last frame.
pub open spec fn command_effect(a: App, cmd: KeyCommand, sizes: PageSizes, b: App) -> bool {
    match cmd {
        KeyCommand::Quit | KeyCommand::Ignore => b == a,
        KeyCommand::CloseModal => b == (App { modal: None, ..a }),
        KeyCommand::CycleTab => b == (App { active_tab: next_tab(a.active_tab), ..a }),
        KeyCommand::OpenHelp => b == (App { modal: Some(Modal::Help), ..a }),
        KeyCommand::ShowTab(t) => b == (App { active_tab: t, ..a }),
        KeyCommand::MoveAgents(d) => b == (App {
            agents_selected: clamped(
                a.agents_selected as int,
                d as int,
                group_count(a.agents@, a.test_runs@),
            ) as usize,
            ..a
        }),
        KeyCommand::OpenDetails => details_opened(a, b),
        KeyCommand::MoveLogs(d) => logs_moved(a, b, d as int, sizes.logs_tab as int),
        KeyCommand::PageLogs(d) => logs_paged(a, b, d as int, sizes.logs_tab as int),
        KeyCommand::CycleSort => b == (App {
            logs_sort: next_sort(a.logs_sort),
            logs_pagination: Paginator { selected: 0, top: 0 },
            ..a
        }),
        KeyCommand::CycleProjectFilter => project_filter_cycled(a, b),
        KeyCommand::CycleStatusFilter => status_filter_cycled(a, b),
        KeyCommand::ClearFilters => b == logs_clamped(
            App { logs_filter_project: None, logs_filter_status: None, ..a },
        ),
        KeyCommand::MoveModalLogs(d) => modal_logs_moved(a, b, d as int, sizes.modal_logs as int),
        KeyCommand::PageModalLogs(d) => modal_logs_paged(a, b, d as int, sizes.modal_logs as int),
    }
}

/// Maps a key press to an action, applying it to `app` along the way.
/// `page_sizes` carries how many rows each paginated list rendered on the
/// most recent frame.
///
/// A modal, if open, takes priority over tab-level keys: only `Esc`
/// (close), `q` (quit), and - for a details modal - its own Logs pane's
/// pagination keys are handled while one is showing, so the tab underneath
/// never reacts to a key meant for the modal.
pub fn handle_key(app: &mut App, key: KeyEvent, page_sizes: PageSizes) -> (r: InputAction)
    ensures
        r == (if key_command(old(app).modal, old(app).active_tab, key.code) == KeyCommand::Quit {
            InputAction::Quit
        } else {
            InputAction::Continue
        }),
        command_effect(
            *old(app),
            key_command(old(app).modal, old(app).active_tab, key.code),
            page_sizes,
            *final(app),
        ),
{
    if let KeyCode::Char('q') = key.code {
        return InputAction::Quit;
    }
    if app.modal.is_some() {
        handle_modal_key(app, key.code, page_sizes.modal_logs);
        return InputAction::Continue;
    }
    match key.code {
        KeyCode::Esc => return InputAction::Quit,
        KeyCode::Tab => {
            app.cycle_tab();
            return InputAction::Continue;
        },
        KeyCode::Char('?') => {
            app.open_help_modal();
            return InputAction::Continue;
        },
        KeyCode::Char('A') | KeyCode::Char('a') => {
            app.set_tab(Tab::Agents);
            return InputAction::Continue;
        },
        KeyCode::Char('L') | KeyCode::Char('l') => {
            app.set_tab(Tab::Logs);
            return InputAction::Continue;
        },
        _ => {},
    }
    match app.active_tab {
        Tab::Agents => handle_agents_tab_key(app, key.code),
        Tab::Logs => handle_logs_tab_key(app, key.code, page_sizes.logs_tab),
    }
    InputAction::Continue
}

fn handle_agents_tab_key(app: &mut App, code: KeyCode)
    ensures
        command_effect(
            *old(app),
            agents_tab_command(code),
            PageSizes { logs_tab: 0, modal_logs: 0 },
            *final(app),
        ),
{
    match code {
        KeyCode::Char('j') | KeyCode::Down => app.move_agents_selection(1),
        KeyCode::Char('k') | KeyCode::Up => app.move_agents_selection(-1),
        KeyCode::Enter => app.open_details_modal(),
        _ => {},
    }
}

fn handle_logs_tab_key(app: &mut App, code: KeyCode, page_size: usize)
    ensures
        command_effect(
            *old(app),
            logs_tab_command(code),
            PageSizes { logs_tab: page_size, modal_logs: 0 },
            *final(app),
        ),
{
    match code {
        KeyCode::Char('j') | KeyCode::Down => app.move_logs_selection(1, page_size),
        KeyCode::Char('k') | KeyCode::Up => app.move_logs_selection(-1, page_size),
        KeyCode::Char('d') | KeyCode::PageDown => app.page_logs(1, page_size),
        KeyCode::Char('u') | KeyCode::PageUp => app.page_logs(-1, page_size),
        KeyCode::Char('o') => app.cycle_logs_sort(),
        KeyCode::Char('p') => app.cycle_logs_project_filter(),
        KeyCode::Char('s') => app.cycle_logs_status_filter(),
        KeyCode::Char('c') => app.clear_logs_filters(),
        KeyCode::Enter => app.open_details_modal(),
        _ => {},
    }
}

/// Handles a key while a modal is open: `Esc` closes any modal, and a
/// details modal routes its own Logs pane's navigation keys to that pane.
fn handle_modal_key(app: &mut App, code: KeyCode, modal_logs_page_size: usize)
    requires
        old(app).modal is Some,
    ensures
        command_effect(
            *old(app),
            modal_command(old(app).modal.unwrap(), code),
            PageSizes { logs_tab: 0, modal_logs: modal_logs_page_size },
            *final(app),
        ),
{
    if code == KeyCode::Esc {
        app.close_modal();
        return ;
    }
    if matches!(app.modal, Some(Modal::Details(_))) {
        match code {
            KeyCode::Char('j') | KeyCode::Down => app.move_modal_logs_selection(
                1,
                modal_logs_page_size,
            ),
            KeyCode::Char('k') | KeyCode::Up => app.move_modal_logs_selection(
                -1,
                modal_logs_page_size,
            ),
            KeyCode::Char('d') | KeyCode::PageDown => app.page_modal_logs(1, modal_logs_page_size),
            KeyCode::Char('u') | KeyCode::PageUp => app.page_modal_logs(-1, modal_logs_page_size),
            _ => {},
        }
    }
}

/// Whether `app` is showing the help overlay.
pub fn is_help_modal_open(app: &App) -> (r: bool)
    ensures
        r == (app.modal == Some(Modal::Help)),
{
    matches!(app.modal, Some(Modal::Help))
}

/// `q` quits from anywhere, and the quit leaves the UI state as it was.
pub proof fn lemma_q_always_quits(modal: Option<Modal>, tab: Tab, app: App, sizes: PageSizes, after: App)
    requires
        command_effect(app, key_command(modal, tab, KeyCode::Char('q')), sizes, after),
    ensures
        key_command(modal, tab, KeyCode::Char('q')) == KeyCommand::Quit,
        after == app,
{
}

/// While a modal is open, only `Esc` (close), `q` (quit) and a details
/// modal's own Logs-pane keys do anything: no key reaches the tab
/// underneath, and `Esc` closes the modal instead of quitting.
pub proof fn lemma_modal_takes_the_keys(modal: Modal, tab: Tab, code: KeyCode)
    ensures
        ({
            let cmd = key_command(Some(modal), tab, code);
            &&& code == KeyCode::Esc ==> cmd == KeyCommand::CloseModal
            &&& code != KeyCode::Char('q') && code != KeyCode::Esc ==> (cmd is Ignore
                || cmd is MoveModalLogs || cmd is PageModalLogs)
            &&& modal is Help && code != KeyCode::Char('q') && code != KeyCode::Esc ==> cmd
                is Ignore
        }),
{
}

/// On the Agents tab with no modal open, the arrow keys move the selection
/// as `j` and `k` do: Down moves it one row down the table (towards its
/// end), stopping at the last row; Up moves it one row up, stopping at the
/// first. Nothing else changes. (The table has at most `usize::MAX` rows.)
pub proof fn lemma_arrow_keys_move_the_agents_selection(a: App, b: App, sizes: PageSizes, down: bool)
    requires
        a.modal is None,
        a.active_tab == Tab::Agents,
        command_effect(
            a,
            key_command(None, Tab::Agents, if down { KeyCode::Down } else { KeyCode::Up }),
            sizes,
            b,
        ),
    ensures
        key_command(None, Tab::Agents, KeyCode::Down) == key_command(None, Tab::Agents, KeyCode::Char('j')),
        key_command(None, Tab::Agents, KeyCode::Up) == key_command(None, Tab::Agents, KeyCode::Char('k')),
        b == (App { agents_selected: b.agents_selected, ..a }),
        ({
            let n = group_count(a.agents@, a.test_runs@);
            let s = a.agents_selected as int;
            n <= usize::MAX ==> {
                &&& down && s + 1 < n ==> b.agents_selected == s + 1
                &&& down && n > 0 && s + 1 >= n ==> b.agents_selected == n - 1
                &&& !down && 0 < s && s < n ==> b.agents_selected == s - 1
                &&& !down && s == 0 ==> b.agents_selected == 0
            }
        }),
{
}

/// On the Logs tab with no modal open, the arrow keys move the selection as
/// `j` and `k` do: Down one entry down, Up one entry up.
pub proof fn lemma_arrow_keys_move_the_logs_selection()
    ensures
        key_command(None, Tab::Logs, KeyCode::Down) == KeyCommand::MoveLogs(1isize),
        key_command(None, Tab::Logs, KeyCode::Char('j')) == KeyCommand::MoveLogs(1isize),
        key_command(None, Tab::Logs, KeyCode::Up) == KeyCommand::MoveLogs(-1isize),
        key_command(None, Tab::Logs, KeyCode::Char('k')) == KeyCommand::MoveLogs(-1isize),
{
}

} // verus!
