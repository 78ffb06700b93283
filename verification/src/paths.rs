//! Working-directory paths as the UI and notifications name them.

use vstd::prelude::*;

use crate::text::{chars_of, push_char};

verus! {

/// The position of the last `/` in `path`, or -1 where it has none.
pub open spec fn last_slash(path: Seq<char>) -> int
    decreases path.len(),
{
    if path.len() == 0 {
        -1
    } else if path.last() == '/' {
        path.len() - 1
    } else {
        last_slash(path.drop_last())
    }
}

/// The last part of `path` between slashes that is neither empty nor `.`
/// (the parts `std::path::Path` normalizes away), if it has one.
pub open spec fn last_part(path: Seq<char>) -> Option<Seq<char>>
    decreases path.len(),
{
    let s = last_slash(path);
    let tail = path.subrange(s + 1, path.len() as int);
    if tail.len() > 0 && tail != "."@ {
        Some(tail)
    } else if 0 <= s < path.len() {
        last_part(path.subrange(0, s))
    } else {
        None
    }
}

/// The final component of `path` as `std::path::Path::file_name` computes it
/// on Unix: its last part that is neither empty nor `.`, or `None` where
/// there is none (an empty path, a root, `.`) or that part is `..`.
pub open spec fn path_file_name(path: Seq<char>) -> Option<Seq<char>> {
    match last_part(path) {
        Some(part) => if part == ".."@ {
            None
        } else {
            Some(part)
        },
        None => None,
    }
}

/// `std::path::Path::file_name` of `path`, converted to a `String` (which
/// loses nothing, `path` being UTF-8): the path's final component, as
/// `path_file_name` states it.
#[verifier::external_body]
fn file_name_of(path: &str) -> (r: Option<String>)
    ensures
        match r {
            Some(name) => path_file_name(path@) == Some(name@),
            None => path_file_name(path@) is None,
        },
{
    match std::path::Path::new(path).file_name() {
        Some(name) => Some(name.to_string_lossy().into_owned()),
        None => None,
    }
}

/// A project's display name: its directory's final component, or the whole
/// path when it has none.
pub open spec fn project_name_of(cwd: Seq<char>) -> Seq<char> {
    match path_file_name(cwd) {
        Some(name) => name,
        None => cwd,
    }
}

/// A project's display name: its directory's final component, or the whole
/// path when it has none.
pub fn project_name(cwd: &str) -> (r: String)
    ensures
        r@ == project_name_of(cwd@),
{
    match file_name_of(cwd) {
        Some(name) => name,
        None => cwd.to_owned(),
    }
}

/// `part` joined onto `base` the way `std::path::Path::join` does on Unix:
/// an absolute `part` replaces `base`; otherwise a `/` separates them unless
/// `base` is empty or already ends with one.
pub open spec fn joined(base: Seq<char>, part: Seq<char>) -> Seq<char> {
    if part.len() > 0 && part[0] == '/' {
        part
    } else if base.len() == 0 || base.last() == '/' {
        base + part
    } else {
        base + seq!['/'] + part
    }
}

/// Joins `part` onto `base` as a path.
pub fn join_path(base: &str, part: &str) -> (r: String)
    ensures
        r@ == joined(base@, part@),
{
    let p = chars_of(part);
    if p.len() > 0 && p[0] == '/' {
        return part.to_owned();
    }
    let b = chars_of(base);
    let mut r = base.to_owned();
    if b.len() > 0 && b[b.len() - 1] != '/' {
        push_char(&mut r, '/');
    }
    r.append(part);
    r
}

/// The binary path to install into the launchd plist, without following
/// symlinks: `arg0` as it is when absolute, else joined onto `cwd`. Keeping
/// a symlinked path (such as a package manager's stable link) lets an
/// upgrade need only a restart, not a reinstall.
pub fn resolve_binary_path(arg0: &str, cwd: &str) -> (r: String)
    ensures
        r@ == (if arg0@.len() > 0 && arg0@[0] == '/' {
            arg0@
        } else {
            joined(cwd@, arg0@)
        }),
{
    let a = chars_of(arg0);
    if a.len() > 0 && a[0] == '/' {
        arg0.to_owned()
    } else {
        join_path(cwd, arg0)
    }
}

/// The daemon's socket under home directory `home`:
/// `~/Library/Application Support/agentmon/agentd.sock`.
pub fn default_socket_path(home: &str) -> (r: String)
    ensures
        r@ == joined(
            joined(joined(joined(home@, "Library"@), "Application Support"@), "agentmon"@),
            "agentd.sock"@,
        ),
{
    let a = join_path(home, "Library");
    let b = join_path(a.as_str(), "Application Support");
    let c = join_path(b.as_str(), "agentmon");
    join_path(c.as_str(), "agentd.sock")
}

/// The reporter's diagnostic log under home directory `home`:
/// `~/Library/Logs/agentmon/agentmon-report.log`.
pub fn report_log_path(home: &str) -> (r: String)
    ensures
        r@ == joined(
            joined(joined(joined(home@, "Library"@), "Logs"@), "agentmon"@),
            "agentmon-report.log"@,
        ),
{
    let a = join_path(home, "Library");
    let b = join_path(a.as_str(), "Logs");
    let c = join_path(b.as_str(), "agentmon");
    join_path(c.as_str(), "agentmon-report.log")
}

/// A line of the reporter's diagnostic log: `[millis] message`.
pub fn log_line(millis: u64, message: &str) -> (r: String)
    ensures
        r@ == seq!['['] + crate::text::decimal(millis as nat) + "] "@ + message@,
{
    let mut r = String::new();
    push_char(&mut r, '[');
    crate::text::push_decimal(&mut r, millis);
    r.append("] ");
    r.append(message);
    r
}

} // verus!
