//! Exact copies and reorderings of vectors.

use vstd::prelude::*;

use crate::order::{permuted, positions};
use crate::proto::Duplicate;

verus! {

/// Exact copies of every element of `v`, in order.
pub fn copy_all<T: Duplicate>(v: &Vec<T>) -> (r: Vec<T>)
    ensures
        r@ == v@,
{
    let mut r: Vec<T> = Vec::new();
    let mut i: usize = 0;
    while i < v.len()
        invariant
            i <= v@.len(),
            r@ == v@.take(i as int),
        decreases v@.len() - i,
    {
        r.push(v[i].duplicate());
        assert(v@.take(i + 1) =~= v@.take(i as int).push(v@[i as int]));
        i = i + 1;
    }
    assert(v@.take(v@.len() as int) =~= v@);
    r
}

/// Copies of the elements of `v` in the order `p` lists their positions.
pub fn permute<T: Duplicate>(v: &Vec<T>, p: &Vec<usize>) -> (r: Vec<T>)
    requires
        forall|i: int| 0 <= i < p@.len() ==> #[trigger] p@[i] < v@.len(),
    ensures
        r@ == permuted(v@, positions(p@)),
{
    let mut r: Vec<T> = Vec::new();
    let mut i: usize = 0;
    while i < p.len()
        invariant
            i <= p@.len(),
            forall|j: int| 0 <= j < p@.len() ==> #[trigger] p@[j] < v@.len(),
            r@ == permuted(v@, positions(p@)).take(i as int),
        decreases p@.len() - i,
    {
        r.push(v[p[i]].duplicate());
        assert(permuted(v@, positions(p@)).take(i + 1) =~= permuted(v@, positions(p@)).take(
            i as int,
        ).push(v@[p@[i as int] as int]));
        i = i + 1;
    }
    assert(permuted(v@, positions(p@)).take(p@.len() as int) =~= permuted(v@, positions(p@)));
    r
}

} // verus!
