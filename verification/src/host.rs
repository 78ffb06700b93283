//! Where a hook process runs: reading `ps` output lines, recognising nvim
//! and terminal emulators by process name, and walking the process
//! ancestry one step at a time.

use vstd::prelude::*;

use crate::proto::HostContext;
use crate::text::{chars_of, decimal, digit_char};

verus! {

/// How far up the process tree to look for an identifying ancestor before
/// calling it the desktop app.
pub const MAX_ANCESTOR_DEPTH: usize = 12;

/// Whether `c` has the Unicode `White_Space` property, as
/// `char::is_whitespace` documents it.
pub open spec fn is_white(c: char) -> bool {
    ||| ('\u{9}' <= c && c <= '\u{d}')
    ||| c == ' '
    ||| c == '\u{85}'
    ||| c == '\u{a0}'
    ||| c == '\u{1680}'
    ||| ('\u{2000}' <= c && c <= '\u{200a}')
    ||| c == '\u{2028}'
    ||| c == '\u{2029}'
    ||| c == '\u{202f}'
    ||| c == '\u{205f}'
    ||| c == '\u{3000}'
}

pub fn is_whitespace(c: char) -> (r: bool)
    ensures
        r == is_white(c),
{
    ('\u{9}' <= c && c <= '\u{d}') || c == ' ' || c == '\u{85}' || c == '\u{a0}' || c
        == '\u{1680}' || ('\u{2000}' <= c && c <= '\u{200a}') || c == '\u{2028}' || c
        == '\u{2029}' || c == '\u{202f}' || c == '\u{205f}' || c == '\u{3000}'
}

/// The first position at or after `i` that holds no white space (or the
/// end of `s`).
pub open spec fn skip_white(s: Seq<char>, i: int) -> int
    decreases s.len() - i,
{
    if 0 <= i < s.len() && is_white(s[i]) {
        skip_white(s, i + 1)
    } else {
        i
    }
}

/// The position just past the last character before `j` that is no white
/// space (or 0).
pub open spec fn back_white(s: Seq<char>, j: int) -> int
    decreases j,
{
    if 0 < j <= s.len() && is_white(s[j - 1]) {
        back_white(s, j - 1)
    } else {
        j
    }
}

/// `s` without leading and trailing white space, as `str::trim` gives it.
pub open spec fn trimmed(s: Seq<char>) -> Seq<char> {
    let a = skip_white(s, 0);
    let b = back_white(s, s.len() as int);
    if a <= b {
        s.subrange(a, b)
    } else {
        Seq::empty()
    }
}

/// The bounds of `trimmed(chars)` within `chars`.
fn trim_bounds(chars: &Vec<char>) -> (r: (usize, usize))
    ensures
        r.0 == skip_white(chars@, 0),
        r.1 == back_white(chars@, chars@.len() as int),
        r.0 <= chars@.len(),
        r.1 <= chars@.len(),
{
    let mut a: usize = 0;
    while a < chars.len() && is_whitespace(chars[a])
        invariant
            a <= chars@.len(),
            skip_white(chars@, 0) == skip_white(chars@, a as int),
        decreases chars@.len() - a,
    {
        a = a + 1;
    }
    let mut b: usize = chars.len();
    while b > 0 && is_whitespace(chars[b - 1])
        invariant
            b <= chars@.len(),
            back_white(chars@, chars@.len() as int) == back_white(chars@, b as int),
        decreases b,
    {
        b = b - 1;
    }
    (a, b)
}

/// The characters `chars[from..to]` as a `String`.
fn collect(chars: &Vec<char>, from: usize, to: usize) -> (r: String)
    requires
        from <= to <= chars@.len(),
    ensures
        r@ == chars@.subrange(from as int, to as int),
{
    let mut r = String::new();
    let mut k: usize = from;
    while k < to
        invariant
            from <= k <= to,
            to <= chars@.len(),
            r@ == chars@.subrange(from as int, k as int),
        decreases to - k,
    {
        crate::text::push_char(&mut r, chars[k]);
        assert(chars@.subrange(from as int, k + 1) =~= chars@.subrange(from as int, k as int).push(
            chars@[k as int],
        ));
        k = k + 1;
    }
    r
}

/// `s` with leading and trailing white space removed.
pub fn trim(s: &str) -> (r: String)
    ensures
        r@ == trimmed(s@),
{
    let chars = chars_of(s);
    let (a, b) = trim_bounds(&chars);
    if a <= b {
        collect(&chars, a, b)
    } else {
        String::new()
    }
}

/// Whether `c` is an ASCII decimal digit.
pub open spec fn is_digit(c: char) -> bool {
    '0' <= c && c <= '9'
}

/// The value of the decimal digits `d`.
pub open spec fn digits_value(d: Seq<char>) -> nat
    decreases d.len(),
{
    if d.len() == 0 {
        0
    } else {
        digits_value(d.drop_last()) * 10 + ((d.last() as int - '0' as int) as nat)
    }
}

/// Every character of `d` is an ASCII digit.
pub open spec fn all_digits(d: Seq<char>) -> bool {
    forall|i: int| 0 <= i < d.len() ==> is_digit(d[i])
}

/// `s` without a leading `+`.
pub open spec fn unsigned_digits(s: Seq<char>) -> Seq<char> {
    if s.len() > 0 && s[0] == '+' {
        s.drop_first()
    } else {
        s
    }
}

/// `s` read as a `u32` the way `str::parse::<u32>` reads it: an optional
/// `+`, then one or more ASCII digits whose value fits; `None` otherwise.
pub open spec fn parsed_u32(s: Seq<char>) -> Option<u32> {
    let d = unsigned_digits(s);
    if d.len() == 0 || !all_digits(d) {
        None
    } else if digits_value(d) <= u32::MAX {
        Some(digits_value(d) as u32)
    } else {
        None
    }
}

/// A longer run of digits is worth at least as much as its prefix.
proof fn lemma_digits_grow(d: Seq<char>, i: int)
    requires
        0 <= i <= d.len(),
        forall|k: int| 0 <= k < d.len() ==> is_digit(d[k]),
    ensures
        digits_value(d.take(i)) <= digits_value(d),
    decreases d.len() - i,
{
    if i < d.len() {
        lemma_digits_grow(d, i + 1);
        assert(d.take(i + 1).drop_last() =~= d.take(i));
    } else {
        assert(d.take(i) =~= d);
    }
}

/// Parses `chars[from..to]` as a `u32`, as `parsed_u32` reads it.
fn parse_u32(chars: &Vec<char>, from: usize, to: usize) -> (r: Option<u32>)
    requires
        from <= to <= chars@.len(),
    ensures
        r == parsed_u32(chars@.subrange(from as int, to as int)),
{
    let ghost s = chars@.subrange(from as int, to as int);
    let start: usize = if from < to && chars[from] == '+' {
        from + 1
    } else {
        from
    };
    let ghost d = chars@.subrange(start as int, to as int);
    assert(d =~= unsigned_digits(s));
    if start == to {
        return None;
    }
    let mut value: u64 = 0;
    let mut k: usize = start;
    while k < to
        invariant
            from <= start <= k <= to,
            start < to,
            to <= chars@.len(),
            s == chars@.subrange(from as int, to as int),
            d == chars@.subrange(start as int, to as int),
            d == unsigned_digits(s),
            value == digits_value(d.take(k - start)),
            value <= u32::MAX,
            forall|j: int| 0 <= j < k - start ==> is_digit(d[j]),
        decreases to - k,
    {
        let c = chars[k];
        if !('0' <= c && c <= '9') {
            assert(!is_digit(d[k - start]));
            return None;
        }
        let digit: u64 = (c as u64) - ('0' as u64);
        assert(d.take(k + 1 - start).drop_last() =~= d.take(k - start));
        let next: u64 = value * 10 + digit;
        if next > 0xffff_ffff {
            proof {
                if all_digits(d) {
                    lemma_digits_grow(d, k + 1 - start);
                }
            }
            return None;
        }
        value = next;
        k = k + 1;
    }
    assert(d.take(d.len() as int) =~= d);
    Some(value as u32)
}

/// The first position in `s` holding white space, if any.
pub open spec fn first_white(s: Seq<char>, i: int) -> bool {
    &&& 0 <= i < s.len()
    &&& is_white(s[i])
    &&& forall|j: int| 0 <= j < i ==> !is_white(s[j])
}

/// A `ps -o ppid=,comm=` line read as (parent pid, command name): the line
/// trimmed, split at its first white space into a pid and a name that may
/// itself hold spaces, the name trimmed; `None` when there is no white
/// space, the pid does not parse, or the name is empty.
pub open spec fn ppid_comm(line: Seq<char>) -> Option<(u32, Seq<char>)> {
    let t = trimmed(line);
    if exists|i: int| first_white(t, i) {
        let i = choose|i: int| first_white(t, i);
        let comm = trimmed(t.skip(i + 1));
        match parsed_u32(t.take(i)) {
            Some(ppid) => if comm.len() == 0 {
                None
            } else {
                Some((ppid, comm))
            },
            None => None,
        }
    } else {
        None
    }
}

/// Parses a line of `ps -o ppid=,comm=` output. The command name may itself
/// contain spaces (a macOS app bundle path), so everything after the leading
/// pid field is taken as the name.
pub fn parse_ppid_comm(line: &str) -> (r: Option<(u32, String)>)
    ensures
        match r {
            Some((ppid, comm)) => ppid_comm(line@) == Some((ppid, comm@)),
            None => ppid_comm(line@) is None,
        },
{
    let all = chars_of(line);
    let (a, b) = trim_bounds(&all);
    if a > b {
        assert(trimmed(line@) =~= Seq::<char>::empty());
        return None;
    }
    let chars: Vec<char> = chars_of(collect(&all, a, b).as_str());
    let ghost t = trimmed(line@);
    assert(chars@ == t);
    let mut i: usize = 0;
    while i < chars.len()
        invariant
            chars@ == t,
            i <= chars@.len(),
            forall|j: int| 0 <= j < i ==> !is_white(chars@[j]),
        ensures
            i < chars@.len() ==> is_white(chars@[i as int]),
        decreases chars@.len() - i,
    {
        if is_whitespace(chars[i]) {
            break;
        }
        i = i + 1;
    }
    if i == chars.len() {
        proof {
            if exists|j: int| first_white(t, j) {
                let c = choose|j: int| first_white(t, j);
                assert(!is_white(chars@[c]));
            }
        }
        return None;
    }
    proof {
        assert(first_white(t, i as int));
        let c = choose|j: int| first_white(t, j);
        if c < i {
            assert(!is_white(chars@[c]));
        }
        if i < c {
            assert(!is_white(t[i as int]));
        }
        assert(c == i);
        assert(chars@.subrange(0, i as int) =~= t.take(i as int));
    }
    let ppid = parse_u32(&chars, 0, i);
    let rest = collect(&chars, i + 1, chars.len());
    assert(rest@ =~= t.skip(i + 1));
    let comm = trim(rest.as_str());
    match ppid {
        Some(p) => if comm.as_str().is_empty() {
            None
        } else {
            Some((p, comm))
        },
        None => None,
    }
}

/// `needle` occurs in `haystack`.
pub open spec fn occurs_in(needle: Seq<char>, haystack: Seq<char>) -> bool {
    exists|i: int| 0 <= i <= haystack.len() - needle.len() && #[trigger] haystack.subrange(i, i + needle.len()) == needle
}

/// Whether `needle` occurs in `haystack`.
pub fn contains_text(haystack: &str, needle: &str) -> (r: bool)
    ensures
        r == occurs_in(needle@, haystack@),
{
    let h = chars_of(haystack);
    let n = chars_of(needle);
    if n.len() > h.len() {
        return false;
    }
    let mut i: usize = 0;
    while i <= h.len() - n.len()
        invariant
            h@ == haystack@,
            n@ == needle@,
            n@.len() <= h@.len(),
            i <= h@.len() - n@.len() + 1,
            forall|k: int| 0 <= k < i ==> #[trigger] h@.subrange(k, k + n@.len()) != n@,
        decreases h@.len() - n@.len() + 1 - i,
    {
        let mut j: usize = 0;
        while j < n.len()
            invariant
                h@ == haystack@,
                n@ == needle@,
                i + n.len() <= h.len(),
                j <= n.len(),
                forall|m: int| 0 <= m < j ==> h@[i + m] == n@[m],
            ensures
                j < n@.len() ==> h@[i + j] != n@[j as int],
            decreases n@.len() - j,
        {
            if h[i + j] != n[j] {
                break;
            }
            j = j + 1;
        }
        if j == n.len() {
            assert(h@.subrange(i as int, i + n@.len()) =~= n@);
            return true;
        }
        assert(h@.subrange(i as int, i + n@.len())[j as int] != n@[j as int]);
        i = i + 1;
    }
    false
}

/// What `str::to_lowercase` makes of `s`: a function of the text alone,
/// with Unicode's full case mappings, which this library does not restate.
pub uninterp spec fn lowercase_of(s: Seq<char>) -> Seq<char>;

/// `str::to_lowercase`. Its result is named `lowercase_of(s@)`: the
/// lowercase mapping of `s`, which depends on nothing but `s`.
#[verifier::external_body]
fn to_lowercase(s: &str) -> (r: String)
    ensures
        r@ == lowercase_of(s@),
{
    s.to_lowercase()
}

/// Whether a process name names nvim, ignoring case.
pub fn contains_nvim(process_name: &str) -> (r: bool)
    ensures
        r == occurs_in("nvim"@, lowercase_of(process_name@)),
{
    let lower = to_lowercase(process_name);
    contains_text(lower.as_str(), "nvim")
}

/// Process names (matched case-insensitively, as substrings) of terminal
/// emulators and multiplexers, as opposed to the desktop app.
pub open spec fn known_terminals() -> Seq<Seq<char>> {
    seq![
        "terminal"@,
        "iterm2"@,
        "iterm"@,
        "alacritty"@,
        "kitty"@,
        "wezterm"@,
        "hyper"@,
        "warp"@,
        "zellij"@,
        "tmux"@,
        "screen"@,
    ]
}

/// Whether a process name is that of a known terminal emulator or
/// multiplexer, ignoring case.
pub fn is_known_terminal_process(process_name: &str) -> (r: bool)
    ensures
        r == exists|k: int|
            0 <= k < known_terminals().len() && occurs_in(
                #[trigger] known_terminals()[k],
                lowercase_of(process_name@),
            ),
{
    let lower = to_lowercase(process_name);
    let names: Vec<&str> = vec![
        "terminal",
        "iterm2",
        "iterm",
        "alacritty",
        "kitty",
        "wezterm",
        "hyper",
        "warp",
        "zellij",
        "tmux",
        "screen",
    ];
    let ghost views = names@.map_values(|n: &str| n@);
    assert(views =~= known_terminals());
    let mut k: usize = 0;
    while k < names.len()
        invariant
            k <= names@.len(),
            views == names@.map_values(|n: &str| n@),
            views == known_terminals(),
            lower@ == lowercase_of(process_name@),
            forall|m: int| 0 <= m < k ==> !occurs_in(#[trigger] views[m], lower@),
        decreases names@.len() - k,
    {
        if contains_text(lower.as_str(), names[k]) {
            assert(occurs_in(views[k as int], lower@));
            return true;
        }
        k = k + 1;
    }
    false
}

/// What one step up the process ancestry decides.
#[derive(Debug, Clone, Copy, PartialEq, Eq, Structural)]
pub enum AncestorStep {
    /// The process identifies the host.
    Found(HostContext),
    /// The ancestry ends here without an identifying process.
    GiveUp,
    /// Look at this parent process next.
    Visit(u32),
}

/// One step of the ancestry walk, for process `pid` whose parent is `ppid`
/// and whose command name is `comm`: nvim first, then a known terminal;
/// the walk ends at pid 0 or 1 or a process that is its own parent.
pub open spec fn ancestor_step(pid: u32, ppid: u32, comm: Seq<char>) -> AncestorStep {
    if occurs_in("nvim"@, lowercase_of(comm)) {
        AncestorStep::Found(HostContext::Nvim)
    } else if exists|k: int|
        0 <= k < known_terminals().len() && occurs_in(
            #[trigger] known_terminals()[k],
            lowercase_of(comm),
        ) {
        AncestorStep::Found(HostContext::Terminal)
    } else if ppid == 0 || ppid == 1 || ppid == pid {
        AncestorStep::GiveUp
    } else {
        AncestorStep::Visit(ppid)
    }
}

/// Decides one step of the walk up the process tree that looks for nvim or
/// a known terminal emulator hosting the session.
pub fn classify_ancestor(pid: u32, ppid: u32, comm: &str) -> (r: AncestorStep)
    ensures
        r == ancestor_step(pid, ppid, comm@),
{
    if contains_nvim(comm) {
        return AncestorStep::Found(HostContext::Nvim);
    }
    if is_known_terminal_process(comm) {
        return AncestorStep::Found(HostContext::Terminal);
    }
    if ppid == 0 || ppid == 1 || ppid == pid {
        return AncestorStep::GiveUp;
    }
    AncestorStep::Visit(ppid)
}

/// Where a walk up the process ancestry stands: the process to ask `ps`
/// about next, and how many processes have been asked about already.
#[derive(Debug, Clone, Copy, PartialEq, Eq, Structural)]
pub struct AncestorWalk {
    pub pid: u32,
    pub asked: usize,
}

/// What the walk up the process ancestry does next.
#[derive(Debug, Clone, Copy, PartialEq, Eq, Structural)]
pub enum WalkStep {
    /// Ask `ps` for the parent and command name of `walk.pid`, then advance.
    Ask(AncestorWalk),
    /// The walk is over: the host it identified, if any.
    Done(Option<HostContext>),
}

/// The first step of a walk that starts at process `start_pid`.
pub open spec fn walk_start(start_pid: u32) -> WalkStep {
    if MAX_ANCESTOR_DEPTH > 0 {
        WalkStep::Ask(AncestorWalk { pid: start_pid, asked: 0 })
    } else {
        WalkStep::Done(None)
    }
}

/// The step after asking about `walk.pid`, given `ps`'s answer (its parent
/// and command name, or `None` where `ps` could not tell): a process that
/// identifies the host ends the walk with it; the end of the ancestry, a
/// failed `ps`, or `MAX_ANCESTOR_DEPTH` processes asked about ends it with
/// none; otherwise the walk moves on to the parent.
pub open spec fn walk_next(walk: AncestorWalk, answer: Option<(u32, Seq<char>)>) -> WalkStep {
    match answer {
        None => WalkStep::Done(None),
        Some((ppid, comm)) => match ancestor_step(walk.pid, ppid, comm) {
            AncestorStep::Found(host) => WalkStep::Done(Some(host)),
            AncestorStep::GiveUp => WalkStep::Done(None),
            AncestorStep::Visit(parent) => if walk.asked + 1 < MAX_ANCESTOR_DEPTH {
                WalkStep::Ask(AncestorWalk { pid: parent, asked: (walk.asked + 1) as usize })
            } else {
                WalkStep::Done(None)
            },
        },
    }
}

/// Starts a walk up the process ancestry at `start_pid`.
pub fn start_ancestor_walk(start_pid: u32) -> (r: WalkStep)
    ensures
        r == walk_start(start_pid),
{
    if MAX_ANCESTOR_DEPTH > 0 {
        WalkStep::Ask(AncestorWalk { pid: start_pid, asked: 0 })
    } else {
        WalkStep::Done(None)
    }
}

/// Advances the walk with `ps`'s answer about `walk.pid`.
pub fn advance_ancestor_walk(walk: AncestorWalk, answer: Option<(u32, String)>) -> (r: WalkStep)
    ensures
        r == walk_next(
            walk,
            match answer {
                Some((ppid, comm)) => Some((ppid, comm@)),
                None => None,
            },
        ),
{
    match answer {
        None => WalkStep::Done(None),
        Some((ppid, comm)) => match classify_ancestor(walk.pid, ppid, comm.as_str()) {
            AncestorStep::Found(host) => WalkStep::Done(Some(host)),
            AncestorStep::GiveUp => WalkStep::Done(None),
            AncestorStep::Visit(parent) => {
                if walk.asked < MAX_ANCESTOR_DEPTH - 1 {
                    WalkStep::Ask(AncestorWalk { pid: parent, asked: walk.asked + 1 })
                } else {
                    WalkStep::Done(None)
                }
            },
        },
    }
}

/// The walk asks `ps` about at most `MAX_ANCESTOR_DEPTH` processes: every
/// step that asks again has counted one more process, and stays under the
/// limit.
pub proof fn lemma_walk_is_bounded(walk: AncestorWalk, answer: Option<(u32, Seq<char>)>)
    ensures
        walk_start(walk.pid) matches WalkStep::Ask(first) ==> first.asked == 0,
        walk_next(walk, answer) matches WalkStep::Ask(next) ==> next.asked == walk.asked + 1
            && next.asked < MAX_ANCESTOR_DEPTH,
{
}

/// A decimal numeral is a run of digits worth the number it names.
proof fn lemma_decimal_reads_back(n: nat)
    ensures
        decimal(n).len() > 0,
        all_digits(decimal(n)),
        digits_value(decimal(n)) == n,
    decreases n,
{
    let s = decimal(n);
    let d = (n % 10) as int;
    if n >= 10 {
        lemma_decimal_reads_back(n / 10);
        assert(s.drop_last() =~= decimal(n / 10));
    } else {
        assert(s.drop_last() =~= Seq::<char>::empty());
        assert(d == n);
    }
    assert(s.last() == digit_char(d));
    assert(digit_char(d) as int - '0' as int == d);
    assert(digits_value(s) == digits_value(s.drop_last()) * 10 + d);
    assert((n / 10) * 10 + n % 10 == n) by (nonlinear_arith);
    assert forall|i: int| 0 <= i < s.len() implies is_digit(s[i]) by {
        if i < s.len() - 1 {
            assert(s[i] == s.drop_last()[i]);
        }
    }
}

/// White space never starts or ends `s`, so trimming keeps it whole.
proof fn lemma_trimmed_keeps(s: Seq<char>)
    requires
        s.len() > 0,
        !is_white(s[0]),
        !is_white(s.last()),
    ensures
        trimmed(s) == s,
{
    assert(skip_white(s, 0) == 0);
    assert(back_white(s, s.len() as int) == s.len());
    assert(s.subrange(0, s.len() as int) =~= s);
}

/// A `ps -o ppid=,comm=` line reads back as the parent pid and command name
/// written into it, whatever spaces the name holds inside.
#[verifier::rlimit(40)]
pub proof fn lemma_ppid_comm_reads_back(ppid: u32, comm: Seq<char>)
    requires
        comm.len() > 0,
        !is_white(comm[0]),
        !is_white(comm.last()),
    ensures
        ppid_comm(decimal(ppid as nat) + seq![' '] + comm) == Some((ppid, comm)),
{
    let digits = decimal(ppid as nat);
    let line = digits + seq![' '] + comm;
    lemma_decimal_reads_back(ppid as nat);
    assert(!is_white(line[0]));
    assert(line.last() == comm.last());
    lemma_trimmed_keeps(line);
    let i = digits.len() as int;
    assert(first_white(line, i));
    let c = choose|j: int| first_white(line, j);
    if c < i {
        assert(!is_white(line[c]));
    }
    if i < c {
        assert(!is_white(line[i]));
    }
    assert(line.take(i) =~= digits);
    assert(line.skip(i + 1) =~= comm);
    lemma_trimmed_keeps(comm);
    assert(unsigned_digits(digits) == digits);
}

/// Every documented terminal emulator and multiplexer - Terminal, iTerm2,
/// Alacritty, kitty, WezTerm, Hyper, Warp, zellij, tmux and screen - is
/// recognised by any process name that contains its name, ignoring case;
/// and a walk step at such a process (not nvim) ends the walk on the
/// terminal host.
pub proof fn lemma_documented_terminals_are_recognised(pid: u32, ppid: u32, comm: Seq<char>)
    requires
        occurs_in("terminal"@, lowercase_of(comm)) || occurs_in("iterm2"@, lowercase_of(comm)) || occurs_in("alacritty"@, lowercase_of(comm)) || occurs_in("kitty"@, lowercase_of(comm)) || occurs_in("wezterm"@, lowercase_of(comm)) || occurs_in("hyper"@, lowercase_of(comm)) || occurs_in("warp"@, lowercase_of(comm)) || occurs_in("zellij"@, lowercase_of(comm)) || occurs_in("tmux"@, lowercase_of(comm)) || occurs_in("screen"@, lowercase_of(comm)),
    ensures
        exists|k: int|
            0 <= k < known_terminals().len() && occurs_in(
                #[trigger] known_terminals()[k],
                lowercase_of(comm),
            ),
        !occurs_in("nvim"@, lowercase_of(comm)) ==> ancestor_step(pid, ppid, comm)
            == AncestorStep::Found(HostContext::Terminal),
        !occurs_in("nvim"@, lowercase_of(comm)) ==> forall|asked: usize|
            walk_next(AncestorWalk { pid, asked }, Some((ppid, comm))) == WalkStep::Done(
                Some(HostContext::Terminal),
            ),
{
    if occurs_in("terminal"@, lowercase_of(comm)) {
        assert(occurs_in(known_terminals()[0], lowercase_of(comm)));
    }
    if occurs_in("iterm2"@, lowercase_of(comm)) {
        assert(occurs_in(known_terminals()[1], lowercase_of(comm)));
    }
    if occurs_in("alacritty"@, lowercase_of(comm)) {
        assert(occurs_in(known_terminals()[3], lowercase_of(comm)));
    }
    if occurs_in("kitty"@, lowercase_of(comm)) {
        assert(occurs_in(known_terminals()[4], lowercase_of(comm)));
    }
    if occurs_in("wezterm"@, lowercase_of(comm)) {
        assert(occurs_in(known_terminals()[5], lowercase_of(comm)));
    }
    if occurs_in("hyper"@, lowercase_of(comm)) {
        assert(occurs_in(known_terminals()[6], lowercase_of(comm)));
    }
    if occurs_in("warp"@, lowercase_of(comm)) {
        assert(occurs_in(known_terminals()[7], lowercase_of(comm)));
    }
    if occurs_in("zellij"@, lowercase_of(comm)) {
        assert(occurs_in(known_terminals()[8], lowercase_of(comm)));
    }
    if occurs_in("tmux"@, lowercase_of(comm)) {
        assert(occurs_in(known_terminals()[9], lowercase_of(comm)));
    }
    if occurs_in("screen"@, lowercase_of(comm)) {
        assert(occurs_in(known_terminals()[10], lowercase_of(comm)));
    }
}

} // verus!
