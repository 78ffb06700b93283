//! User-facing notifications: who delivers them, and the AppleScript text
//! that shows one as a macOS notification banner.

use vstd::prelude::*;

use crate::paths::{project_name, project_name_of};
use crate::proto::{AgentInfo, AgentStatus, HostContext, TestRunStatus};
use crate::text::{chars_of, push_char};

verus! {

/// Delivers a user-facing notification for an agent that needs attention,
/// and for test-run events.
pub trait Notifier {
    fn notify(&self, agent: &AgentInfo);

    /// Notifies about a test-run event ("started", "passed", or "failed"),
    /// independent of whether its working directory has a tracked agent.
    /// Defaults to a no-op.
    fn notify_test_run(&self, cwd: &str, status: TestRunStatus) {
    }
}

impl<T: Notifier> Notifier for std::sync::Arc<T> {
    fn notify(&self, agent: &AgentInfo) {
        let inner: &T = &**self;
        inner.notify(agent)
    }

    fn notify_test_run(&self, cwd: &str, status: TestRunStatus) {
        let inner: &T = &**self;
        inner.notify_test_run(cwd, status)
    }
}

/// `s` with every backslash and double quote escaped by a backslash.
pub open spec fn escaped(s: Seq<char>) -> Seq<char>
    decreases s.len(),
{
    if s.len() == 0 {
        Seq::empty()
    } else {
        let rest = escaped(s.drop_last());
        if s.last() == '\\' {
            rest + seq!['\\', '\\']
        } else if s.last() == '"' {
            rest + seq!['\\', '"']
        } else {
            rest.push(s.last())
        }
    }
}

/// `s` as an AppleScript string literal.
pub open spec fn quoted(s: Seq<char>) -> Seq<char> {
    seq!['"'] + escaped(s) + seq!['"']
}

/// The AppleScript that shows `body` as a notification titled "agentmon"
/// with the built-in sound `sound`.
pub open spec fn display_script(body: Seq<char>, sound: Seq<char>) -> Seq<char> {
    "display notification "@ + quoted(body) + " with title "@ + quoted("agentmon"@)
        + " sound name "@ + quoted(sound)
}

pub open spec fn host_context_text(context: HostContext) -> Seq<char> {
    match context {
        HostContext::Nvim => "nvim"@,
        HostContext::Terminal => "terminal"@,
        HostContext::Desktop => "desktop"@,
    }
}

/// Notification text and built-in macOS sound for the statuses that warrant
/// a notification; `None` for every other status.
pub open spec fn status_notification_text(status: AgentStatus) -> Option<(Seq<char>, Seq<char>)> {
    match status {
        AgentStatus::Done => Some(("finished"@, "Glass"@)),
        AgentStatus::NeedsInput => Some(("needs input"@, "Ping"@)),
        _ => None,
    }
}

/// Label and sound for each test-run status: `Pop` (started), `Tink`
/// (passed) and `Basso` (failed) are distinct from one another and from the
/// agent sounds.
pub open spec fn test_run_notification_text(status: TestRunStatus) -> (Seq<char>, Seq<char>) {
    match status {
        TestRunStatus::Started => ("tests started"@, "Pop"@),
        TestRunStatus::Passed => ("tests passed"@, "Tink"@),
        TestRunStatus::Failed => ("tests failed"@, "Basso"@),
    }
}

/// The notification script for `agent`, if its status warrants one.
pub open spec fn agent_script(agent: AgentInfo) -> Option<Seq<char>> {
    match status_notification_text(agent.status) {
        Some((label, sound)) => Some(
            display_script(
                project_name_of(agent.cwd@) + " ("@ + host_context_text(agent.host_context) + ") "@
                    + label,
                sound,
            ),
        ),
        None => None,
    }
}

/// The notification script for a test-run event in directory `cwd`.
pub open spec fn test_run_script(cwd: Seq<char>, status: TestRunStatus) -> Seq<char> {
    display_script(
        project_name_of(cwd) + " "@ + test_run_notification_text(status).0,
        test_run_notification_text(status).1,
    )
}

pub fn host_context_label(context: HostContext) -> (r: &'static str)
    ensures
        r@ == host_context_text(context),
{
    match context {
        HostContext::Nvim => "nvim",
        HostContext::Terminal => "terminal",
        HostContext::Desktop => "desktop",
    }
}

/// Notification text and sound for statuses that warrant a notification.
pub fn status_notification(status: AgentStatus) -> (r: Option<(&'static str, &'static str)>)
    ensures
        match r {
            Some((label, sound)) => status_notification_text(status) == Some((label@, sound@)),
            None => status_notification_text(status) is None,
        },
{
    match status {
        AgentStatus::Done => Some(("finished", "Glass")),
        AgentStatus::NeedsInput => Some(("needs input", "Ping")),
        _ => None,
    }
}

/// Escapes `value` for safe interpolation into an AppleScript string
/// literal, quotes included.
pub fn applescript_literal(value: &str) -> (r: String)
    ensures
        r@ == quoted(value@),
{
    let chars = chars_of(value);
    let mut r = String::new();
    push_char(&mut r, '"');
    let mut i: usize = 0;
    while i < chars.len()
        invariant
            i <= chars@.len(),
            chars@ == value@,
            r@ == seq!['"'] + escaped(chars@.take(i as int)),
        decreases chars@.len() - i,
    {
        let c = chars[i];
        proof {
            assert(chars@.take(i + 1).drop_last() =~= chars@.take(i as int));
        }
        if c == '\\' {
            push_char(&mut r, '\\');
            push_char(&mut r, '\\');
        } else if c == '"' {
            push_char(&mut r, '\\');
            push_char(&mut r, '"');
        } else {
            push_char(&mut r, c);
        }
        assert(r@ =~= seq!['"'] + escaped(chars@.take(i + 1)));
        i = i + 1;
    }
    push_char(&mut r, '"');
    assert(chars@.take(chars@.len() as int) =~= chars@);
    assert(r@ =~= quoted(value@));
    r
}

/// The script that shows `body` with title "agentmon" and sound `sound`.
fn display_notification_script(body: &str, sound: &str) -> (r: String)
    ensures
        r@ == display_script(body@, sound@),
{
    let mut r = String::new();
    r.append("display notification ");
    let b = applescript_literal(body);
    r.append(b.as_str());
    r.append(" with title ");
    let t = applescript_literal("agentmon");
    r.append(t.as_str());
    r.append(" sound name ");
    let s = applescript_literal(sound);
    r.append(s.as_str());
    assert(r@ =~= display_script(body@, sound@));
    r
}

/// The `osascript` AppleScript for a notification about `agent`, or `None` if
/// its status doesn't warrant one.
pub fn notification_script(agent: &AgentInfo) -> (r: Option<String>)
    ensures
        match r {
            Some(script) => agent_script(*agent) == Some(script@),
            None => agent_script(*agent) is None,
        },
{
    match status_notification(agent.status) {
        Some((label, sound)) => {
            let mut body = project_name(agent.cwd.as_str());
            body.append(" (");
            body.append(host_context_label(agent.host_context));
            body.append(") ");
            body.append(label);
            Some(display_notification_script(body.as_str(), sound))
        },
        None => None,
    }
}

/// Label and sound for a test-run event.
fn test_run_notification(status: TestRunStatus) -> (r: (&'static str, &'static str))
    ensures
        (r.0@, r.1@) == test_run_notification_text(status),
{
    match status {
        TestRunStatus::Started => ("tests started", "Pop"),
        TestRunStatus::Passed => ("tests passed", "Tink"),
        TestRunStatus::Failed => ("tests failed", "Basso"),
    }
}

/// The `osascript` AppleScript for a test-run event in directory `cwd`.
pub fn test_run_notification_script(cwd: &str, status: TestRunStatus) -> (r: String)
    ensures
        r@ == test_run_script(cwd@, status),
{
    let (label, sound) = test_run_notification(status);
    let mut body = project_name(cwd);
    body.append(" ");
    body.append(label);
    display_notification_script(body.as_str(), sound)
}

/// A test-run notification names the run's status, each with its own
/// sound: "<project> tests started" (Pop), "<project> tests passed" (Tink)
/// and "<project> tests failed" (Basso), three different texts.
pub proof fn lemma_test_run_script_names_its_status(cwd: Seq<char>)
    ensures
        test_run_script(cwd, TestRunStatus::Started) == display_script(
            project_name_of(cwd) + " tests started"@,
            "Pop"@,
        ),
        test_run_script(cwd, TestRunStatus::Passed) == display_script(
            project_name_of(cwd) + " tests passed"@,
            "Tink"@,
        ),
        test_run_script(cwd, TestRunStatus::Failed) == display_script(
            project_name_of(cwd) + " tests failed"@,
            "Basso"@,
        ),
        " tests started"@ != " tests passed"@,
        " tests passed"@ != " tests failed"@,
        " tests started"@ != " tests failed"@,
{
    reveal_strlit(" ");
    reveal_strlit("tests started");
    reveal_strlit("tests passed");
    reveal_strlit("tests failed");
    reveal_strlit(" tests started");
    reveal_strlit(" tests passed");
    reveal_strlit(" tests failed");
    let name = project_name_of(cwd);
    assert(name + " "@ + "tests started"@ =~= name + " tests started"@);
    assert(name + " "@ + "tests passed"@ =~= name + " tests passed"@);
    assert(name + " "@ + "tests failed"@ =~= name + " tests failed"@);
    assert(" tests started"@[7] != " tests passed"@[7]);
    assert(" tests passed"@[7] != " tests failed"@[7]);
    assert(" tests started"@[7] != " tests failed"@[7]);
}

} // verus!
