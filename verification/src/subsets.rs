//! Enumeration of the `k`-element variable subsets of `{0, ..., n-1}`,
//! supplied by an outside crate.

use vstd::prelude::*;

verus! {

use crate::props::is_index_subset;

/// The identity list `0, 1, ..., n-1` of variable indices.
pub fn index_positions(n: usize) -> (r: Vec<usize>)
    ensures
        r@.len() == n,
        forall|i: int| 0 <= i < n ==> r@[i] == i,
{
    let mut r: Vec<usize> = Vec::new();
    let mut i: usize = 0;
    while i < n
        invariant
            i <= n,
            r@.len() == i,
            forall|j: int| 0 <= j < i ==> r@[j] == j,
        decreases n - i,
    {
        r.push(i);
        i = i + 1;
    }
    r
}

/// Relies on gen_combinations::CombinationIterator: over the identity list
/// `0, ..., n-1` it yields exactly the strictly increasing `k`-element lists
/// of indices below `n`, each of them once, and none at all when `k` is 0 or
/// exceeds `n`.
#[verifier::external_body]
pub(crate) fn k_index_subsets(positions: &Vec<usize>, k: usize) -> (r: Vec<Vec<usize>>)
    requires
        forall|i: int| 0 <= i < positions@.len() ==> positions@[i] == i,
    ensures
        forall|i: int|
            0 <= i < r@.len() ==> is_index_subset(
                (#[trigger] r@[i])@,
                positions@.len() as nat,
                k as nat,
            ),
        k >= 1 ==> forall|s: Seq<usize>|
            is_index_subset(s, positions@.len() as nat, k as nat) ==> exists|i: int|
                0 <= i < r@.len() && (#[trigger] r@[i])@ == s,
{
    gen_combinations::CombinationIterator::new(positions.as_slice(), k)
        .map(|combo| combo.into_iter().copied().collect())
        .collect()
}

} // verus!
