//! Installing the reporter's hooks into the coding agent's settings: the
//! settings document as a JSON value, and the edit that adds one hook group
//! per reported event unless the reporter's command is already there.

use vstd::prelude::*;

use crate::host::{trim, trimmed};
use crate::text::{chars_of, push_char, same_text};

verus! {

/// A JSON value. Numbers are kept as their JSON text, which is all the
/// settings edit needs of them.
#[derive(Debug, PartialEq, Eq)]
pub enum Json {
    Null,
    Bool(bool),
    Number(String),
    Text(String),
    Array(Vec<Json>),
    Object(Vec<(String, Json)>),
}

/// Restricts the `Notification` hook to the notification types meaning the
/// agent needs the user, so the agent does not run the reporter for every
/// notification.
pub const NEEDS_INPUT_MATCHER: &'static str = "permission_prompt|idle_prompt|elicitation_dialog|elicitation_url_dialog|agent_needs_input";

/// `i` is the position of the first field of `fields` named `key`.
pub open spec fn key_at(fields: Seq<(String, Json)>, key: Seq<char>, i: int) -> bool {
    &&& 0 <= i < fields.len()
    &&& fields[i].0@ == key
    &&& forall|j: int| 0 <= j < i ==> fields[j].0@ != key
}

/// The value of the first field named `key`, if any.
pub open spec fn field(fields: Seq<(String, Json)>, key: Seq<char>) -> Option<Json> {
    if exists|i: int| key_at(fields, key, i) {
        Some(fields[choose|i: int| key_at(fields, key, i)].1)
    } else {
        None
    }
}

/// A hook entry runs `command`: an object whose `command` is that text.
pub open spec fn hook_runs(hook: Json, command: Seq<char>) -> bool {
    match hook {
        Json::Object(f) => match field(f@, "command"@) {
            Some(Json::Text(c)) => c@ == command,
            _ => false,
        },
        _ => false,
    }
}

/// A hook group's `hooks` entries: none when it is no object or they are
/// no array.
pub open spec fn hooks_of(group: Json) -> Seq<Json> {
    match group {
        Json::Object(f) => match field(f@, "hooks"@) {
            Some(Json::Array(hooks)) => hooks@,
            _ => Seq::empty(),
        },
        _ => Seq::empty(),
    }
}

/// A hook group runs `command`: one of its `hooks` does.
pub open spec fn group_runs(group: Json, command: Seq<char>) -> bool {
    exists|h: int| 0 <= h < hooks_of(group).len() && hook_runs(#[trigger] hooks_of(group)[h], command)
}

/// Some group of `groups` runs `command`.
pub open spec fn installed_in(groups: Seq<Json>, command: Seq<char>) -> bool {
    exists|g: int| 0 <= g < groups.len() && group_runs(#[trigger] groups[g], command)
}

/// `g` is the hook group `{"matcher": matcher, "hooks": [{"type":
/// "command", "command": command}]}`.
pub open spec fn is_new_group(g: Json, matcher: Seq<char>, command: Seq<char>) -> bool {
    match g {
        Json::Object(f) => {
            &&& f@.len() == 2
            &&& f@[0].0@ == "matcher"@
            &&& (match f@[0].1 {
                Json::Text(m) => m@ == matcher,
                _ => false,
            })
            &&& f@[1].0@ == "hooks"@
            &&& match f@[1].1 {
                Json::Array(hooks) => hooks@.len() == 1 && match hooks@[0] {
                    Json::Object(h) => {
                        &&& h@.len() == 2
                        &&& h@[0].0@ == "type"@
                        &&& (match h@[0].1 {
                            Json::Text(t) => t@ == "command"@,
                            _ => false,
                        })
                        &&& h@[1].0@ == "command"@
                        &&& match h@[1].1 {
                            Json::Text(c) => c@ == command,
                            _ => false,
                        }
                    },
                    _ => false,
                },
                _ => false,
            }
        },
        _ => false,
    }
}

/// The groups an event's hooks hold: its array, or none when the event is
/// missing or not an array.
pub open spec fn groups_of(hooks: Seq<(String, Json)>, event: Seq<char>) -> Seq<Json> {
    match field(hooks, event) {
        Some(Json::Array(groups)) => groups@,
        _ => Seq::empty(),
    }
}

/// `after` is `before` with `event`'s groups holding a group that runs
/// `command`: unchanged if one already does; otherwise a new group with
/// `matcher` appended to them (a missing or non-array entry counting as no
/// groups). No other entry changes.
pub open spec fn hook_upserted(
    before: Seq<(String, Json)>,
    after: Seq<(String, Json)>,
    event: Seq<char>,
    matcher: Seq<char>,
    command: Seq<char>,
) -> bool {
    let groups = groups_of(before, event);
    if installed_in(groups, command) {
        after == before
    } else {
        let placed = |v: Json|
            match v {
                Json::Array(gs) => gs@.len() == groups.len() + 1 && gs@.take(groups.len() as int)
                    == groups && is_new_group(gs@[groups.len() as int], matcher, command),
                _ => false,
            };
        if exists|i: int| key_at(before, event, i) {
            let i = choose|i: int| key_at(before, event, i);
            &&& after.len() == before.len()
            &&& after[i].0 == before[i].0
            &&& placed(after[i].1)
            &&& forall|j: int| 0 <= j < before.len() && j != i ==> after[j] == before[j]
        } else {
            &&& after.len() == before.len() + 1
            &&& after.take(before.len() as int) == before
            &&& after[before.len() as int].0@ == event
            &&& placed(after[before.len() as int].1)
        }
    }
}

/// The position of the first field named `key`.
fn find_key(fields: &Vec<(String, Json)>, key: &str) -> (r: Option<usize>)
    ensures
        match r {
            Some(i) => key_at(fields@, key@, i as int),
            None => forall|j: int| 0 <= j < fields@.len() ==> fields@[j].0@ != key@,
        },
{
    let mut i: usize = 0;
    while i < fields.len()
        invariant
            i <= fields@.len(),
            forall|j: int| 0 <= j < i ==> fields@[j].0@ != key@,
        decreases fields@.len() - i,
    {
        if same_text(fields[i].0.as_str(), key) {
            return Some(i);
        }
        i = i + 1;
    }
    None
}

/// The value of the first field of `fields` named `key`, if any.
fn find_field<'a>(fields: &'a Vec<(String, Json)>, key: &str) -> (r: Option<&'a Json>)
    ensures
        match r {
            Some(v) => field(fields@, key@) == Some(*v),
            None => field(fields@, key@) is None,
        },
{
    match find_key(fields, key) {
        Some(i) => {
            proof {
                let c = choose|j: int| key_at(fields@, key@, j);
                if c < i {
                    assert(fields@[c].0@ != key@);
                }
                if i < c {
                    assert(fields@[i as int].0@ != key@);
                }
            }
            Some(&fields[i].1)
        },
        None => {
            proof {
                if exists|j: int| key_at(fields@, key@, j) {
                    let c = choose|j: int| key_at(fields@, key@, j);
                    assert(fields@[c].0@ != key@);
                }
            }
            None
        },
    }
}

/// Whether `hook` runs `command`.
fn runs_command(hook: &Json, command: &str) -> (r: bool)
    ensures
        r == hook_runs(*hook, command@),
{
    match hook {
        Json::Object(f) => match find_field(f, "command") {
            Some(Json::Text(c)) => same_text(c.as_str(), command),
            _ => false,
        },
        _ => false,
    }
}

/// Whether `group` has a hook running `command`.
fn group_runs_command(group: &Json, command: &str) -> (r: bool)
    ensures
        r == group_runs(*group, command@),
{
    match group {
        Json::Object(f) => match find_field(f, "hooks") {
            Some(Json::Array(hooks)) => {
                let mut h: usize = 0;
                while h < hooks.len()
                    invariant
                        h <= hooks@.len(),
                        *group == Json::Object(*f),
                        field(f@, "hooks"@) == Some(Json::Array(*hooks)),
                        forall|k: int| 0 <= k < h ==> !hook_runs(#[trigger] hooks@[k], command@),
                    decreases hooks@.len() - h,
                {
                    if runs_command(&hooks[h], command) {
                        assert(hooks_of(*group) == hooks@);
                        assert(hook_runs(hooks_of(*group)[h as int], command@));
                        return true;
                    }
                    h = h + 1;
                }
                assert(hooks_of(*group) == hooks@);
                false
            },
            _ => false,
        },
        _ => false,
    }
}

/// Whether some group of `groups` runs `command`.
fn any_group_runs(groups: &Vec<Json>, command: &str) -> (r: bool)
    ensures
        r == installed_in(groups@, command@),
{
    let mut g: usize = 0;
    while g < groups.len()
        invariant
            g <= groups@.len(),
            forall|k: int| 0 <= k < g ==> !group_runs(#[trigger] groups@[k], command@),
        decreases groups@.len() - g,
    {
        if group_runs_command(&groups[g], command) {
            return true;
        }
        g = g + 1;
    }
    false
}

/// The hook group running `command` for events matching `matcher`.
fn new_group(matcher: &str, command: &str) -> (r: Json)
    ensures
        is_new_group(r, matcher@, command@),
{
    let hook = Json::Object(
        vec![
            ("type".to_owned(), Json::Text("command".to_owned())),
            ("command".to_owned(), Json::Text(command.to_owned())),
        ],
    );
    Json::Object(
        vec![
            ("matcher".to_owned(), Json::Text(matcher.to_owned())),
            ("hooks".to_owned(), Json::Array(vec![hook])),
        ],
    )
}

/// Ensures `hooks[event]` holds a hook group running `command`, without
/// touching any existing entries for `event` or any other event.
pub fn upsert_hook(hooks: Vec<(String, Json)>, event: &str, matcher: &str, command: &str) -> (r: Vec<
    (String, Json),
>)
    ensures
        hook_upserted(hooks@, r@, event@, matcher@, command@),
{
    let mut hooks = hooks;
    let ghost before = hooks@;
    match find_key(&hooks, event) {
        Some(i) => {
            proof {
                let c = choose|j: int| key_at(before, event@, j);
                if c < i {
                    assert(before[c].0@ != event@);
                }
                if i < c {
                    assert(before[i as int].0@ != event@);
                }
            }
            let installed = match &hooks[i].1 {
                Json::Array(groups) => any_group_runs(groups, command),
                _ => false,
            };
            if installed {
                return hooks;
            }
            let (key, value) = hooks.remove(i);
            let mut groups: Vec<Json> = match value {
                Json::Array(groups) => groups,
                _ => Vec::new(),
            };
            let ghost old_groups = groups@;
            assert(old_groups == groups_of(before, event@));
            groups.push(new_group(matcher, command));
            assert(groups@.take(old_groups.len() as int) =~= old_groups);
            hooks.insert(i, (key, Json::Array(groups)));
            proof {
                assert forall|j: int| 0 <= j < before.len() && j != i implies hooks@[j]
                    == before[j] by {
                    if j < i {
                        assert(hooks@[j] == before[j]);
                    } else {
                        assert(hooks@[j] == before[j]);
                    }
                }
            }
            hooks
        },
        None => {
            proof {
                if exists|j: int| key_at(before, event@, j) {
                    let c = choose|j: int| key_at(before, event@, j);
                    assert(before[c].0@ != event@);
                }
                assert(groups_of(before, event@) =~= Seq::<Json>::empty());
            }
            let groups: Vec<Json> = vec![new_group(matcher, command)];
            assert(groups@.take(0) =~= Seq::<Json>::empty());
            hooks.push((event.to_owned(), Json::Array(groups)));
            assert(hooks@.take(before.len() as int) =~= before);
            hooks
        },
    }
}

/// The top-level fields of a settings document: none unless it is an
/// object.
pub open spec fn root_fields(root: Json) -> Seq<(String, Json)> {
    match root {
        Json::Object(f) => f@,
        _ => Seq::empty(),
    }
}

/// The `hooks` object of a settings document's fields: empty when missing
/// or not an object.
pub open spec fn hooks_field(fields: Seq<(String, Json)>) -> Seq<(String, Json)> {
    match field(fields, "hooks"@) {
        Some(Json::Object(h)) => h@,
        _ => Seq::empty(),
    }
}

/// `r` is the settings document with fields `fields` whose `hooks` entry is
/// set to the object `hooks`, in place, or appended when missing.
pub open spec fn hooks_set(fields: Seq<(String, Json)>, hooks: Seq<(String, Json)>, r: Json) -> bool {
    let is_hooks = |v: Json|
        match v {
            Json::Object(h) => h@ == hooks,
            _ => false,
        };
    match r {
        Json::Object(out) => if exists|i: int| key_at(fields, "hooks"@, i) {
            let i = choose|i: int| key_at(fields, "hooks"@, i);
            &&& out@.len() == fields.len()
            &&& out@[i].0 == fields[i].0
            &&& is_hooks(out@[i].1)
            &&& forall|j: int| 0 <= j < fields.len() && j != i ==> out@[j] == fields[j]
        } else {
            &&& out@.len() == fields.len() + 1
            &&& out@.take(fields.len() as int) == fields
            &&& out@[fields.len() as int].0@ == "hooks"@
            &&& is_hooks(out@[fields.len() as int].1)
        },
        _ => false,
    }
}

/// `r` is the settings document `root` with the reporter's hooks running
/// `command` installed: `UserPromptSubmit`, then `Stop`, then
/// `Notification` (with `NEEDS_INPUT_MATCHER`) each given a group running
/// `command` unless one already does, in the `hooks` object of `root`.
pub open spec fn hooks_installed(root: Json, command: Seq<char>, r: Json) -> bool {
    exists|h1: Seq<(String, Json)>, h2: Seq<(String, Json)>, h3: Seq<(String, Json)>|
        {
            &&& hook_upserted(hooks_field(root_fields(root)), h1, "UserPromptSubmit"@, ""@, command)
            &&& hook_upserted(h1, h2, "Stop"@, ""@, command)
            &&& hook_upserted(h2, h3, "Notification"@, NEEDS_INPUT_MATCHER@, command)
            &&& hooks_set(root_fields(root), h3, r)
        }
}

/// Adds (or completes) the reporter's hook entries in a coding agent's
/// settings document, with `command` as the hook command: a group for
/// `UserPromptSubmit`, for `Stop`, and for `Notification` restricted to
/// `NEEDS_INPUT_MATCHER`, each unless the event already has a group running
/// `command`. A document that is no object counts as an empty one, and a
/// `hooks` entry that is no object as an empty `hooks`. Every other setting
/// and hook is left as it was.
pub fn install_hook_entries(root: Json, command: &str) -> (r: Json)
    ensures
        hooks_installed(root, command@, r),
{
    let mut fields: Vec<(String, Json)> = match root {
        Json::Object(f) => f,
        _ => Vec::new(),
    };
    let ghost before = fields@;
    let position = find_key(&fields, "hooks");
    proof {
        match position {
            Some(i) => {
                let c = choose|j: int| key_at(before, "hooks"@, j);
                if c < i {
                    assert(before[c].0@ != "hooks"@);
                }
                if i < c {
                    assert(before[i as int].0@ != "hooks"@);
                }
            },
            None => {
                if exists|j: int| key_at(before, "hooks"@, j) {
                    let c = choose|j: int| key_at(before, "hooks"@, j);
                    assert(before[c].0@ != "hooks"@);
                }
            },
        }
    }
    let (slot, hooks0): (Option<(usize, String)>, Vec<(String, Json)>) = match position {
        Some(i) => {
            let (key, value) = fields.remove(i);
            let h = match value {
                Json::Object(h) => h,
                _ => Vec::new(),
            };
            (Some((i, key)), h)
        },
        None => (None, Vec::new()),
    };
    assert(hooks0@ == hooks_field(before));
    let h1 = upsert_hook(hooks0, "UserPromptSubmit", "", command);
    let ghost g1 = h1@;
    let h2 = upsert_hook(h1, "Stop", "", command);
    let ghost g2 = h2@;
    let h3 = upsert_hook(h2, "Notification", NEEDS_INPUT_MATCHER, command);
    let ghost hooks = h3@;
    match slot {
        Some((i, key)) => {
            fields.insert(i, (key, Json::Object(h3)));
            proof {
                assert forall|j: int| 0 <= j < before.len() && j != i implies fields@[j]
                    == before[j] by {
                    if j < i {
                        assert(fields@[j] == before[j]);
                    } else {
                        assert(fields@[j] == before[j]);
                    }
                }
            }
        },
        None => {
            fields.push(("hooks".to_owned(), Json::Object(h3)));
            assert(fields@.take(before.len() as int) =~= before);
        },
    }
    let r = Json::Object(fields);
    assert(hooks_set(before, hooks, r));
    assert(before == root_fields(root));
    assert(hook_upserted(hooks_field(root_fields(root)), g1, "UserPromptSubmit"@, ""@, command@));
    assert(hook_upserted(g1, g2, "Stop"@, ""@, command@));
    assert(hook_upserted(g2, hooks, "Notification"@, NEEDS_INPUT_MATCHER@, command@));
    assert(hooks_set(root_fields(root), hooks, r));
    r
}

/// If some field is named `key`, a first one is.
proof fn lemma_first_key(fields: Seq<(String, Json)>, key: Seq<char>, j: int)
    requires
        0 <= j < fields.len(),
        fields[j].0@ == key,
    ensures
        exists|i: int| key_at(fields, key, i),
    decreases j,
{
    if exists|k: int| 0 <= k < j && fields[k].0@ == key {
        let k = choose|k: int| 0 <= k < j && fields[k].0@ == key;
        lemma_first_key(fields, key, k);
    } else {
        assert(key_at(fields, key, j));
    }
}

/// The first field named `key` is at one position only.
proof fn lemma_key_at_unique(fields: Seq<(String, Json)>, key: Seq<char>, i: int, j: int)
    requires
        key_at(fields, key, i),
        key_at(fields, key, j),
    ensures
        i == j,
{
    if i < j {
        assert(fields[i].0@ != key);
    }
    if j < i {
        assert(fields[j].0@ != key);
    }
}

/// The hook group built for `matcher` and `command` runs `command`.
proof fn lemma_new_group_runs(g: Json, matcher: Seq<char>, command: Seq<char>)
    requires
        is_new_group(g, matcher, command),
    ensures
        group_runs(g, command),
{
    reveal_strlit("matcher");
    reveal_strlit("hooks");
    reveal_strlit("type");
    reveal_strlit("command");
    assert("matcher"@.len() != "hooks"@.len());
    assert("type"@.len() != "command"@.len());
    match g {
        Json::Object(f) => {
            assert(key_at(f@, "hooks"@, 1));
            lemma_key_at_unique(f@, "hooks"@, 1, choose|i: int| key_at(f@, "hooks"@, i));
            match f@[1].1 {
                Json::Array(hooks) => {
                    match hooks@[0] {
                        Json::Object(h) => {
                            assert(key_at(h@, "command"@, 1));
                            lemma_key_at_unique(
                                h@,
                                "command"@,
                                1,
                                choose|i: int| key_at(h@, "command"@, i),
                            );
                            assert(hook_runs(hooks@[0], command));
                            assert(hooks_of(g) == hooks@);
                        },
                        _ => {},
                    }
                },
                _ => {},
            }
        },
        _ => {},
    }
}

/// After an event's hooks are upserted, some group of that event runs the
/// command.
proof fn lemma_upsert_installs(
    before: Seq<(String, Json)>,
    after: Seq<(String, Json)>,
    event: Seq<char>,
    matcher: Seq<char>,
    command: Seq<char>,
)
    requires
        hook_upserted(before, after, event, matcher, command),
    ensures
        installed_in(groups_of(after, event), command),
{
    let groups = groups_of(before, event);
    if !installed_in(groups, command) {
        let slot = if exists|i: int| key_at(before, event, i) {
            choose|i: int| key_at(before, event, i)
        } else {
            before.len() as int
        };
        if slot == before.len() {
            assert forall|j: int| 0 <= j < before.len() implies before[j].0@ != event by {
                if before[j].0@ == event {
                    lemma_first_key(before, event, j);
                }
            }
            assert forall|j: int| 0 <= j < slot implies after[j].0@ != event by {
                assert(after[j] == after.take(before.len() as int)[j]);
            }
        } else {
            assert forall|j: int| 0 <= j < slot implies after[j].0@ != event by {
                assert(after[j] == before[j]);
            }
        }
        assert(key_at(after, event, slot));
        lemma_key_at_unique(after, event, slot, choose|i: int| key_at(after, event, i));
        match after[slot].1 {
            Json::Array(gs) => {
                assert(groups_of(after, event) == gs@);
                lemma_new_group_runs(gs@[groups.len() as int], matcher, command);
            },
            _ => {},
        }
    }
}

/// Upserting one event's hooks leaves every other event's entry as it was.
proof fn lemma_upsert_keeps_other_events(
    before: Seq<(String, Json)>,
    after: Seq<(String, Json)>,
    event: Seq<char>,
    matcher: Seq<char>,
    command: Seq<char>,
    other: Seq<char>,
)
    requires
        hook_upserted(before, after, event, matcher, command),
        other != event,
    ensures
        field(after, other) == field(before, other),
{
    if !installed_in(groups_of(before, event), command) {
        let updated = exists|i: int| key_at(before, event, i);
        let slot = if updated {
            choose|i: int| key_at(before, event, i)
        } else {
            before.len() as int
        };
        assert(after[slot].0@ == event);
        assert forall|k: int| #[trigger] key_at(after, other, k) implies key_at(before, other, k) by {
            if k < before.len() {
                assert forall|j: int| 0 <= j < k implies before[j].0@ != other by {
                    if j != slot {
                        assert(after[j] == before[j]) by {
                            if !updated {
                                assert(after[j] == after.take(before.len() as int)[j]);
                            }
                        }
                    }
                }
                if k != slot {
                    if !updated {
                        assert(after[k] == after.take(before.len() as int)[k]);
                    }
                }
            }
        }
        assert forall|k: int| #[trigger] key_at(before, other, k) implies key_at(after, other, k) by {
            assert forall|j: int| 0 <= j < k implies after[j].0@ != other by {
                if j != slot {
                    if !updated {
                        assert(after[j] == after.take(before.len() as int)[j]);
                    }
                } else {
                    assert(before[j].0@ == event);
                }
            }
            if !updated {
                assert(after[k] == after.take(before.len() as int)[k]);
            }
        }
        if exists|k: int| key_at(after, other, k) {
            let k = choose|k: int| key_at(after, other, k);
            lemma_key_at_unique(before, other, k, choose|i: int| key_at(before, other, i));
            if k != slot && !updated {
                assert(after[k] == after.take(before.len() as int)[k]);
            }
        }
    }
}

/// Upserting an event whose groups already run the command changes
/// nothing.
proof fn lemma_upsert_when_installed(
    before: Seq<(String, Json)>,
    after: Seq<(String, Json)>,
    event: Seq<char>,
    matcher: Seq<char>,
    command: Seq<char>,
)
    requires
        hook_upserted(before, after, event, matcher, command),
        installed_in(groups_of(before, event), command),
    ensures
        after == before,
{
}

/// Each of the three events has a group running `command` once the three
/// upserts have run.
proof fn lemma_all_three_installed(
    h0: Seq<(String, Json)>,
    h1: Seq<(String, Json)>,
    h2: Seq<(String, Json)>,
    h3: Seq<(String, Json)>,
    command: Seq<char>,
)
    requires
        hook_upserted(h0, h1, "UserPromptSubmit"@, ""@, command),
        hook_upserted(h1, h2, "Stop"@, ""@, command),
        hook_upserted(h2, h3, "Notification"@, NEEDS_INPUT_MATCHER@, command),
    ensures
        installed_in(groups_of(h3, "UserPromptSubmit"@), command),
        installed_in(groups_of(h3, "Stop"@), command),
        installed_in(groups_of(h3, "Notification"@), command),
{
    reveal_strlit("UserPromptSubmit");
    reveal_strlit("Stop");
    reveal_strlit("Notification");
    assert("Stop"@.len() != "UserPromptSubmit"@.len());
    assert("Notification"@.len() != "UserPromptSubmit"@.len());
    assert("Notification"@.len() != "Stop"@.len());
    lemma_upsert_installs(h0, h1, "UserPromptSubmit"@, ""@, command);
    lemma_upsert_keeps_other_events(h1, h2, "Stop"@, ""@, command, "UserPromptSubmit"@);
    lemma_upsert_keeps_other_events(
        h2,
        h3,
        "Notification"@,
        NEEDS_INPUT_MATCHER@,
        command,
        "UserPromptSubmit"@,
    );
    lemma_upsert_installs(h1, h2, "Stop"@, ""@, command);
    lemma_upsert_keeps_other_events(h2, h3, "Notification"@, NEEDS_INPUT_MATCHER@, command, "Stop"@);
    lemma_upsert_installs(h2, h3, "Notification"@, NEEDS_INPUT_MATCHER@, command);
}

/// The document a settings edit produced holds the edited hooks object as
/// its `hooks` entry.
proof fn lemma_hooks_set_reads_back(fields: Seq<(String, Json)>, hooks: Seq<(String, Json)>, r: Json)
    requires
        hooks_set(fields, hooks, r),
    ensures
        hooks_field(root_fields(r)) == hooks,
        exists|i: int| key_at(root_fields(r), "hooks"@, i),
{
    let out = root_fields(r);
    let updated = exists|i: int| key_at(fields, "hooks"@, i);
    let slot = if updated {
        choose|i: int| key_at(fields, "hooks"@, i)
    } else {
        fields.len() as int
    };
    if updated {
        assert forall|j: int| 0 <= j < slot implies out[j].0@ != "hooks"@ by {
            assert(out[j] == fields[j]);
        }
    } else {
        assert forall|j: int| 0 <= j < slot implies out[j].0@ != "hooks"@ by {
            assert(out[j] == out.take(fields.len() as int)[j]);
            if fields[j].0@ == "hooks"@ {
                lemma_first_key(fields, "hooks"@, j);
            }
        }
    }
    assert(key_at(out, "hooks"@, slot));
    lemma_key_at_unique(out, "hooks"@, slot, choose|i: int| key_at(out, "hooks"@, i));
}

/// Whether a settings file's text holds nothing but whitespace: such a
/// file, like a missing one, counts as an empty settings document.
pub open spec fn is_blank(text: Seq<char>) -> bool {
    trimmed(text).len() == 0
}

/// The settings document to write back after installing the reporter's
/// hooks, running `command`, into the settings file whose text is `text`;
/// `parsed` is what the JSON parser read from `text` (`None` where `text` is
/// no JSON). A blank file counts as a document with no fields, whatever the
/// parser said of it. Otherwise a file that is no JSON gives `None`: there is
/// nothing to edit, and the file must be left alone.
pub fn settings_with_hooks(text: &str, parsed: Option<Json>, command: &str) -> (r: Option<Json>)
    ensures
        is_blank(text@) ==> (r matches Some(doc) && forall|root: Json|
            root_fields(root) == Seq::<(String, Json)>::empty() ==> #[trigger] hooks_installed(
                root,
                command@,
                doc,
            )),
        !is_blank(text@) ==> match parsed {
            Some(v) => r matches Some(doc) && hooks_installed(v, command@, doc),
            None => r is None,
        },
{
    let trimmed_text = trim(text);
    if chars_of(trimmed_text.as_str()).len() == 0 {
        let empty = Json::Object(Vec::new());
        let ghost e = empty;
        let doc = install_hook_entries(empty, command);
        proof {
            assert forall|root: Json|
                root_fields(root) == Seq::<(String, Json)>::empty() implies #[trigger] hooks_installed(
                root,
                command@,
                doc,
            ) by {
                assert(root_fields(root) =~= root_fields(e));
            }
        }
        Some(doc)
    } else {
        match parsed {
            Some(v) => Some(install_hook_entries(v, command)),
            None => None,
        }
    }
}

/// Installing the hooks twice is installing them once: the second run
/// finds every event's group in place and leaves the document's fields, and
/// the entries of its `hooks` object, as the first run left them.
pub proof fn lemma_install_is_idempotent(root: Json, once: Json, twice: Json, command: Seq<char>)
    requires
        hooks_installed(root, command, once),
        hooks_installed(once, command, twice),
    ensures
        hooks_field(root_fields(twice)) == hooks_field(root_fields(once)),
        root_fields(twice).len() == root_fields(once).len(),
        forall|k: int|
            0 <= k < root_fields(once).len() ==> (#[trigger] root_fields(twice)[k]).0
                == root_fields(once)[k].0,
        forall|k: int|
            0 <= k < root_fields(once).len() && root_fields(once)[k].0@ != "hooks"@ ==> (
            #[trigger] root_fields(twice)[k]) == root_fields(once)[k],
{
    let (a1, a2, a3) = choose|
        h1: Seq<(String, Json)>,
        h2: Seq<(String, Json)>,
        h3: Seq<(String, Json)>,
    |
        {
            &&& hook_upserted(hooks_field(root_fields(root)), h1, "UserPromptSubmit"@, ""@, command)
            &&& hook_upserted(h1, h2, "Stop"@, ""@, command)
            &&& hook_upserted(h2, h3, "Notification"@, NEEDS_INPUT_MATCHER@, command)
            &&& hooks_set(root_fields(root), h3, once)
        };
    let (b1, b2, b3) = choose|
        h1: Seq<(String, Json)>,
        h2: Seq<(String, Json)>,
        h3: Seq<(String, Json)>,
    |
        {
            &&& hook_upserted(hooks_field(root_fields(once)), h1, "UserPromptSubmit"@, ""@, command)
            &&& hook_upserted(h1, h2, "Stop"@, ""@, command)
            &&& hook_upserted(h2, h3, "Notification"@, NEEDS_INPUT_MATCHER@, command)
            &&& hooks_set(root_fields(once), h3, twice)
        };
    lemma_all_three_installed(hooks_field(root_fields(root)), a1, a2, a3, command);
    lemma_hooks_set_reads_back(root_fields(root), a3, once);
    lemma_upsert_when_installed(a3, b1, "UserPromptSubmit"@, ""@, command);
    lemma_upsert_when_installed(b1, b2, "Stop"@, ""@, command);
    lemma_upsert_when_installed(b2, b3, "Notification"@, NEEDS_INPUT_MATCHER@, command);
    lemma_hooks_set_reads_back(root_fields(once), b3, twice);
    let fields = root_fields(once);
    let i = choose|i: int| key_at(fields, "hooks"@, i);
    assert forall|k: int|
        0 <= k < fields.len() && fields[k].0@ != "hooks"@ implies (#[trigger] root_fields(
        twice,
    )[k]) == fields[k] by {
        assert(k != i);
    }
}

#[verifier::external_type_specification]
#[verifier::external_body]
pub struct ExJsonValue(serde_json::Value);

/// The JSON value `serde_json::from_str` reads from `text`, as a `Json`;
/// `None` where `text` is no JSON.
pub uninterp spec fn json_read(text: Seq<char>) -> Option<Json>;

/// The text `serde_json::to_string_pretty` prints for `doc`.
pub uninterp spec fn json_pretty(doc: Json) -> Seq<char>;

/// A `serde_json::Value` as a `Json`, variant for variant; a number as its
/// JSON text. Only `parse_json` uses it.
#[verifier::external_body]
fn json_from_value(value: serde_json::Value) -> Json {
    match value {
        serde_json::Value::Null => Json::Null,
        serde_json::Value::Bool(b) => Json::Bool(b),
        serde_json::Value::Number(n) => Json::Number(n.to_string()),
        serde_json::Value::String(s) => Json::Text(s),
        serde_json::Value::Array(items) => Json::Array(items.into_iter().map(json_from_value).collect()),
        serde_json::Value::Object(fields) => Json::Object(fields.into_iter().map(|(k, v)| (k, json_from_value(v))).collect()),
    }
}

/// A `Json` as a `serde_json::Value`, variant for variant; number text that
/// `serde_json` cannot read as a number becomes null. Only `render_json` uses
/// it.
#[verifier::external_body]
fn value_from_json(doc: &Json) -> serde_json::Value {
    match doc {
        Json::Null => serde_json::Value::Null,
        Json::Bool(b) => serde_json::Value::Bool(*b),
        Json::Number(text) => serde_json::from_str(text).unwrap_or(serde_json::Value::Null),
        Json::Text(s) => serde_json::Value::String(s.clone()),
        Json::Array(items) => serde_json::Value::Array(items.iter().map(value_from_json).collect()),
        Json::Object(fields) => serde_json::Value::Object(fields.iter().map(|(k, v)| (k.clone(), value_from_json(v))).collect()),
    }
}

/// `serde_json::from_str` of `text` as a JSON value, converted to `Json`:
/// what it reads is named `json_read(text@)`, `None` where it fails. Nothing
/// more is claimed of the parser here.
#[verifier::external_body]
fn parse_json(text: &str) -> (r: Option<Json>)
    ensures
        r == json_read(text@),
{
    match serde_json::from_str::<serde_json::Value>(text) {
        Ok(value) => Some(json_from_value(value)),
        Err(_) => None,
    }
}

/// `serde_json::to_string_pretty` of `doc`: the text is named
/// `json_pretty(*doc)`. Nothing more is claimed of the printer here.
#[verifier::external_body]
fn render_json(doc: &Json) -> (r: String)
    ensures
        r@ == json_pretty(*doc),
{
    serde_json::to_string_pretty(&value_from_json(doc)).unwrap_or_default()
}

/// The text to write back to a coding agent's settings file whose text is
/// `text`, with the reporter's hooks, running `command`, installed: the
/// JSON that `text` reads as (a blank file counting as a document with no
/// fields) with `install_hook_entries` applied, printed pretty and ended
/// with a newline. `None` where a non-blank `text` is no JSON: the file must
/// then be left alone.
pub fn settings_text_with_hooks(text: &str, command: &str) -> (r: Option<String>)
    ensures
        is_blank(text@) ==> (r matches Some(s) && exists|doc: Json|
            s@ == json_pretty(doc) + seq!['\n'] && forall|root: Json|
                root_fields(root) == Seq::<(String, Json)>::empty() ==> #[trigger] hooks_installed(
                    root,
                    command@,
                    doc,
                )),
        !is_blank(text@) ==> match json_read(text@) {
            Some(v) => r matches Some(s) && exists|doc: Json|
                s@ == json_pretty(doc) + seq!['\n'] && hooks_installed(v, command@, doc),
            None => r is None,
        },
{
    let parsed = parse_json(text);
    match settings_with_hooks(text, parsed, command) {
        Some(doc) => {
            let mut s = render_json(&doc);
            push_char(&mut s, '\n');
            assert(s@ == json_pretty(doc) + seq!['\n']);
            Some(s)
        },
        None => None,
    }
}

} // verus!
