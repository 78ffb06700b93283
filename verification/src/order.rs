//! Stable sorting by a key, and the lexicographic order of strings.

use vstd::prelude::*;

verus! {

/// `le` is a total preorder on every key: total and transitive.
pub open spec fn total_preorder<K>(le: spec_fn(K, K) -> bool) -> bool {
    &&& forall|a: K, b: K| #[trigger] le(a, b) || le(b, a)
    &&& forall|a: K, b: K, c: K| #[trigger] le(a, b) && #[trigger] le(b, c) ==> le(a, c)
}

/// `p` lists each position of `keys` exactly once, ordered by `le` on the
/// keys, with positions of equivalent keys kept in their input order:
/// the permutation a stable sort by `le` applies.
pub open spec fn stable_perm<K>(keys: Seq<K>, p: Seq<int>, le: spec_fn(K, K) -> bool) -> bool {
    &&& p.len() == keys.len()
    &&& forall|i: int| 0 <= i < p.len() ==> 0 <= #[trigger] p[i] < keys.len()
    &&& forall|i: int, j: int| 0 <= i < j < p.len() ==> #[trigger] p[i] != #[trigger] p[j]
    &&& forall|i: int, j: int|
        0 <= i < j < p.len() ==> le(keys[#[trigger] p[i]], keys[#[trigger] p[j]])
    &&& forall|i: int, j: int|
        0 <= i < j < p.len() && le(keys[#[trigger] p[j]], keys[#[trigger] p[i]]) ==> p[i] < p[j]
}

/// The elements of `s` in the order `p` lists their positions.
pub open spec fn permuted<T>(s: Seq<T>, p: Seq<int>) -> Seq<T> {
    p.map_values(|i: int| s[i])
}

/// `out` is `s` stably sorted by `le` on the keys `key` gives its elements.
pub open spec fn stably_sorted<T, K>(
    out: Seq<T>,
    s: Seq<T>,
    key: spec_fn(T) -> K,
    le: spec_fn(K, K) -> bool,
) -> bool {
    exists|p: Seq<int>| stable_perm(s.map_values(key), p, le) && out == permuted(s, p)
}

/// Lexicographic order of character sequences by code point - the order
/// `Ord` gives `String`, since UTF-8 preserves code-point order.
pub open spec fn lex_le(a: Seq<char>, b: Seq<char>) -> bool
    decreases a.len(),
{
    if a.len() == 0 {
        true
    } else if b.len() == 0 {
        false
    } else if a[0] != b[0] {
        (a[0] as u32) < (b[0] as u32)
    } else {
        lex_le(a.drop_first(), b.drop_first())
    }
}

/// Strict lexicographic order.
pub open spec fn lex_lt(a: Seq<char>, b: Seq<char>) -> bool {
    lex_le(a, b) && a != b
}

pub proof fn lemma_lex_total(a: Seq<char>, b: Seq<char>)
    ensures
        lex_le(a, b) || lex_le(b, a),
    decreases a.len(),
{
    if a.len() > 0 && b.len() > 0 {
        if a[0] == b[0] {
            lemma_lex_total(a.drop_first(), b.drop_first());
        } else {
            vstd::utf8::char_u32_cast(a[0], a[0] as u32);
            vstd::utf8::char_u32_cast(b[0], b[0] as u32);
            assert((a[0] as u32) != (b[0] as u32));
        }
    }
}

pub proof fn lemma_lex_transitive(a: Seq<char>, b: Seq<char>, c: Seq<char>)
    requires
        lex_le(a, b),
        lex_le(b, c),
    ensures
        lex_le(a, c),
    decreases a.len(),
{
    if a.len() > 0 && b.len() > 0 && c.len() > 0 && a[0] == b[0] && b[0] == c[0] {
        lemma_lex_transitive(a.drop_first(), b.drop_first(), c.drop_first());
    }
}

pub proof fn lemma_lex_antisymmetric(a: Seq<char>, b: Seq<char>)
    requires
        lex_le(a, b),
        lex_le(b, a),
    ensures
        a == b,
    decreases a.len(),
{
    if a.len() > 0 && b.len() > 0 {
        lemma_lex_antisymmetric(a.drop_first(), b.drop_first());
        assert(a =~= seq![a[0]] + a.drop_first());
        assert(b =~= seq![b[0]] + b.drop_first());
    }
}

pub proof fn lemma_lex_reflexive(a: Seq<char>)
    ensures
        lex_le(a, a),
    decreases a.len(),
{
    if a.len() > 0 {
        lemma_lex_reflexive(a.drop_first());
    }
}

/// `lex_le` is a total preorder.
pub proof fn lemma_lex_total_preorder()
    ensures
        total_preorder(|a: Seq<char>, b: Seq<char>| lex_le(a, b)),
{
    assert forall|a: Seq<char>, b: Seq<char>| lex_le(a, b) || lex_le(b, a) by {
        lemma_lex_total(a, b);
    }
    assert forall|a: Seq<char>, b: Seq<char>, c: Seq<char>|
        lex_le(a, b) && lex_le(b, c) implies lex_le(a, c) by {
        lemma_lex_transitive(a, b, c);
    }
}

/// Whether `a` comes no later than `b` in lexicographic code-point order.
pub fn lex_le_exec(a: &Vec<char>, b: &Vec<char>) -> (r: bool)
    ensures
        r == lex_le(a@, b@),
{
    let mut i: usize = 0;
    assert(a@.skip(0) =~= a@);
    assert(b@.skip(0) =~= b@);
    while i < a.len() && i < b.len() && a[i] == b[i]
        invariant
            i <= a@.len(),
            i <= b@.len(),
            a@.take(i as int) == b@.take(i as int),
            lex_le(a@, b@) == lex_le(a@.skip(i as int), b@.skip(i as int)),
        decreases a@.len() - i,
    {
        proof {
            assert(a@.skip(i as int).drop_first() =~= a@.skip(i + 1));
            assert(b@.skip(i as int).drop_first() =~= b@.skip(i + 1));
            assert(a@.take(i + 1) =~= a@.take(i as int).push(a@[i as int]));
            assert(b@.take(i + 1) =~= b@.take(i as int).push(b@[i as int]));
        }
        i = i + 1;
    }
    if i == a.len() {
        true
    } else if i == b.len() {
        false
    } else {
        (a[i] as u32) < (b[i] as u32)
    }
}

/// Inserting position `k` (larger than every listed position) at `pos` - the
/// first place whose key `le` does not put before `keys[k]` - into a stable
/// sorting permutation of `0..k` gives one of `0..k + 1`.
proof fn lemma_insert_stable<K>(keys: Seq<K>, p: Seq<int>, k: int, pos: int, le: spec_fn(K, K) -> bool)
    requires
        total_preorder(le),
        0 <= k < keys.len(),
        stable_perm(keys.take(k), p, le),
        0 <= pos <= p.len(),
        forall|i: int| 0 <= i < pos ==> le(keys[#[trigger] p[i]], keys[k]),
        pos < p.len() ==> !le(keys[p[pos]], keys[k]),
    ensures
        stable_perm(keys.take(k + 1), p.insert(pos, k), le),
{
    let q = p.insert(pos, k);
    let ks = keys.take(k);
    let ks1 = keys.take(k + 1);
    assert forall|i: int| 0 <= i < p.len() implies keys[#[trigger] p[i]] == ks[p[i]] by {}
    assert forall|m: int| pos <= m < p.len() implies !le(keys[#[trigger] p[m]], keys[k]) by {
        if le(keys[p[m]], keys[k]) {
            assert(le(ks[p[pos]], ks[p[m]]) || pos == m);
            assert(le(keys[p[pos]], keys[p[m]]));
        }
    }
    assert forall|i: int| 0 <= i < q.len() implies 0 <= #[trigger] q[i] < ks1.len() by {
        if i < pos {
            assert(q[i] == p[i]);
        } else if i > pos {
            assert(q[i] == p[i - 1]);
        }
    }
    assert forall|i: int, j: int| 0 <= i < j < q.len() implies #[trigger] q[i] != #[trigger] q[j] by {
        if i < pos && j < pos {
            assert(q[i] == p[i] && q[j] == p[j]);
        } else if i < pos && j == pos {
            assert(q[i] == p[i]);
        } else if i < pos {
            assert(q[i] == p[i] && q[j] == p[j - 1]);
        } else if i == pos {
            assert(q[j] == p[j - 1]);
        } else {
            assert(q[i] == p[i - 1] && q[j] == p[j - 1]);
        }
    }
    assert forall|i: int, j: int|
        0 <= i < j < q.len() implies le(ks1[#[trigger] q[i]], ks1[#[trigger] q[j]]) by {
        if i < pos && j < pos {
            assert(q[i] == p[i] && q[j] == p[j]);
            assert(le(ks[p[i]], ks[p[j]]));
        } else if i < pos && j == pos {
            assert(q[i] == p[i]);
        } else if i < pos {
            assert(q[i] == p[i] && q[j] == p[j - 1]);
            assert(le(ks[p[i]], ks[p[j - 1]]));
        } else if i == pos {
            assert(q[j] == p[j - 1]);
            assert(!le(keys[p[j - 1]], keys[k]));
        } else {
            assert(q[i] == p[i - 1] && q[j] == p[j - 1]);
            assert(le(ks[p[i - 1]], ks[p[j - 1]]));
        }
    }
    assert forall|i: int, j: int|
        0 <= i < j < q.len() && le(ks1[#[trigger] q[j]], ks1[#[trigger] q[i]]) implies q[i]
        < q[j] by {
        if i < pos && j < pos {
            assert(q[i] == p[i] && q[j] == p[j]);
            assert(le(ks[p[j]], ks[p[i]]));
        } else if i < pos && j == pos {
            assert(q[i] == p[i]);
        } else if i < pos {
            assert(q[i] == p[i] && q[j] == p[j - 1]);
            assert(le(ks[p[j - 1]], ks[p[i]]));
        } else if i == pos {
            assert(q[j] == p[j - 1]);
            assert(!le(keys[p[j - 1]], keys[k]));
        } else {
            assert(q[i] == p[i - 1] && q[j] == p[j - 1]);
            assert(le(ks[p[j - 1]], ks[p[i - 1]]));
        }
    }
}

/// The positions of `v`, as integers.
pub open spec fn positions(v: Seq<usize>) -> Seq<int> {
    v.map_values(|i: usize| i as int)
}

/// The permutation a stable sort of `n` keys by `le` applies, where
/// `before(a, b)` computes `le(keys[a], keys[b])`.
pub fn stable_sort_perm<K, F: Fn(usize, usize) -> bool>(
    n: usize,
    Ghost(keys): Ghost<Seq<K>>,
    Ghost(le): Ghost<spec_fn(K, K) -> bool>,
    before: F,
) -> (p: Vec<usize>)
    requires
        keys.len() == n,
        total_preorder(le),
        forall|a: usize, b: usize| a < n && b < n ==> #[trigger] before.requires((a, b)),
        forall|a: usize, b: usize, r: bool|
            a < n && b < n && #[trigger] before.ensures((a, b), r) ==> r == le(
                keys[a as int],
                keys[b as int],
            ),
    ensures
        stable_perm(keys, positions(p@), le),
{
    let mut p: Vec<usize> = Vec::new();
    let mut k: usize = 0;
    proof {
        assert(positions(p@) =~= Seq::<int>::empty());
    }
    while k < n
        invariant
            k <= n,
            keys.len() == n,
            total_preorder(le),
            forall|a: usize, b: usize| a < n && b < n ==> #[trigger] before.requires((a, b)),
            forall|a: usize, b: usize, r: bool|
                a < n && b < n && #[trigger] before.ensures((a, b), r) ==> r == le(
                    keys[a as int],
                    keys[b as int],
                ),
            stable_perm(keys.take(k as int), positions(p@), le),
        decreases n - k,
    {
        let mut pos: usize = 0;
        proof {
            assert forall|i: int| 0 <= i < p@.len() implies p@[i] < k by {
                assert(positions(p@)[i] == p@[i] as int);
            }
        }
        while pos < p.len() && before(p[pos], k)
            invariant
                forall|i: int| 0 <= i < p@.len() ==> p@[i] < k,
                k < n,
                keys.len() == n,
                pos <= p@.len(),
                p@.len() == k,
                forall|a: usize, b: usize| a < n && b < n ==> #[trigger] before.requires((a, b)),
                forall|a: usize, b: usize, r: bool|
                    a < n && b < n && #[trigger] before.ensures((a, b), r) ==> r == le(
                        keys[a as int],
                        keys[b as int],
                    ),
                stable_perm(keys.take(k as int), positions(p@), le),
                forall|i: int| 0 <= i < pos ==> le(keys[#[trigger] positions(p@)[i]], keys[k as int]),
            decreases p@.len() - pos,
        {
            assert(positions(p@)[pos as int] == p@[pos as int] as int);
            pos = pos + 1;
        }
        proof {
            if pos < p@.len() {
                assert(positions(p@)[pos as int] == p@[pos as int] as int);
            }
            lemma_insert_stable(keys, positions(p@), k as int, pos as int, le);
        }
        let ghost pp = positions(p@);
        p.insert(pos, k);
        proof {
            assert(positions(p@) =~= pp.insert(pos as int, k as int));
        }
        k = k + 1;
    }
    proof {
        assert(keys.take(n as int) =~= keys);
    }
    p
}

} // verus!

verus! {

/// Newest first: descending timestamps.
pub open spec fn by_newest() -> spec_fn(u64, u64) -> bool {
    |a: u64, b: u64| a >= b
}

/// Lexicographic code-point order.
pub open spec fn by_lex() -> spec_fn(Seq<char>, Seq<char>) -> bool {
    |a: Seq<char>, b: Seq<char>| lex_le(a, b)
}

/// The permutation that stably sorts `keys` newest first.
pub fn sort_newest_first(keys: &Vec<u64>) -> (p: Vec<usize>)
    ensures
        stable_perm(keys@, positions(p@), by_newest()),
{
    let n = keys.len();
    let before = |a: usize, b: usize| -> (r: bool)
        requires
            a < keys@.len(),
            b < keys@.len(),
        ensures
            r == (keys@[a as int] >= keys@[b as int]),
        { keys[a] >= keys[b] };
    stable_sort_perm::<u64, _>(n, Ghost(keys@), Ghost(by_newest()), before)
}

/// The contents of each character vector, in order.
pub open spec fn char_views(v: Seq<Vec<char>>) -> Seq<Seq<char>> {
    v.map_values(|x: Vec<char>| x@)
}

/// The permutation that stably sorts `keys` in lexicographic order.
pub fn sort_lexicographic(keys: &Vec<Vec<char>>) -> (p: Vec<usize>)
    ensures
        stable_perm(char_views(keys@), positions(p@), by_lex()),
{
    let n = keys.len();
    proof {
        lemma_lex_total_preorder();
        assert(by_lex() == |a: Seq<char>, b: Seq<char>| lex_le(a, b));
    }
    let before = |a: usize, b: usize| -> (r: bool)
        requires
            a < keys@.len(),
            b < keys@.len(),
        ensures
            r == lex_le(keys@[a as int]@, keys@[b as int]@),
        { lex_le_exec(&keys[a], &keys[b]) };
    stable_sort_perm::<Seq<char>, _>(n, Ghost(char_views(keys@)), Ghost(by_lex()), before)
}

} // verus!

verus! {

/// Strict lexicographic order is transitive.
pub proof fn lemma_lex_lt_transitive(a: Seq<char>, b: Seq<char>, c: Seq<char>)
    requires
        lex_lt(a, b),
        lex_le(b, c),
    ensures
        lex_lt(a, c),
{
    lemma_lex_transitive(a, b, c);
    if a == c {
        lemma_lex_antisymmetric(a, b);
    }
}

/// Every pair of words is ordered strictly one way, or equal.
pub proof fn lemma_lex_trichotomy(a: Seq<char>, b: Seq<char>)
    ensures
        lex_lt(a, b) || a == b || lex_lt(b, a),
        !(lex_lt(a, b) && lex_le(b, a)),
{
    lemma_lex_total(a, b);
    if lex_lt(a, b) && lex_le(b, a) {
        lemma_lex_antisymmetric(a, b);
    }
}

/// A stable sort's permutation lists every position: each `j` of `keys` is
/// some `p[m]`.
pub proof fn lemma_perm_covers<K>(keys: Seq<K>, p: Seq<int>, le: spec_fn(K, K) -> bool, j: int)
    requires
        stable_perm(keys, p, le),
        0 <= j < keys.len(),
    ensures
        exists|m: int| 0 <= m < p.len() && p[m] == j,
{
    broadcast use vstd::seq_lib::group_seq_properties;
    broadcast use vstd::set::group_set_axioms;

    let n = keys.len() as int;
    assert forall|a: int, b: int| 0 <= a < p.len() && 0 <= b < p.len() && a != b implies p[a]
        != p[b] by {
        if a < b {
            assert(p[a] != p[b]);
        } else {
            assert(p[b] != p[a]);
        }
    }
    assert(p.no_duplicates());
    p.unique_seq_to_set();
    vstd::set_lib::lemma_int_range(0, n);
    let range = vstd::set_lib::set_int_range(0, n);
    assert forall|x: int| p.to_set().contains(x) implies range.contains(x) by {
        assert(p.contains(x));
        let m = choose|m: int| 0 <= m < p.len() && p[m] == x;
    }
    assert(p.to_set().subset_of(range));
    vstd::set_lib::lemma_subset_equality(p.to_set(), range);
    assert(range.contains(j));
    assert(p.to_set().contains(j));
    assert(p.contains(j));
}

} // verus!
