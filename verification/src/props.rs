//! Structural properties of a truth table: balance, the strict avalanche
//! criterion, propagation criteria of arbitrary degree, and linearity.

use vstd::prelude::*;

verus! {

use vstd::arithmetic::power2::pow2;
use vstd::arithmetic::power2::lemma_pow2_adds;
use vstd::arithmetic::power2::lemma2_to64;
use crate::bits::count_true;
use crate::bits::weight;
use crate::bits::seq_not;
use crate::bits::single_bit;
use crate::bits::idx_bit;

/// A balanced table has exactly half of its `2^n` entries set.
pub open spec fn balanced_spec(t: Seq<bool>, n: nat) -> bool {
    weight(t) == pow2((n - 1) as nat)
}

/// Number of inputs `x < k` on which the table agrees with its shift by the
/// flip mask `c`.
pub open spec fn agree_count(t: Seq<bool>, c: u32, k: nat) -> nat
    decreases k,
{
    if k == 0 {
        0
    } else {
        agree_count(t, c, (k - 1) as nat) + (if t[k - 1] == t[(((k - 1) as u32) ^ c) as int] {
            1nat
        } else {
            0nat
        })
    }
}

/// The strict avalanche criterion: flipping any single input bit leaves the
/// output unchanged on exactly half of all inputs.
pub open spec fn sac_spec(t: Seq<bool>, n: nat) -> bool {
    forall|j: nat| j < n ==> agree_count(t, #[trigger] single_bit(j), pow2(n)) == pow2(
        (n - 1) as nat,
    )
}

/// A strictly increasing list of `d` variable indices below `n`.
pub open spec fn is_index_subset(s: Seq<usize>, n: nat, d: nat) -> bool {
    &&& s.len() == d
    &&& forall|i: int| 0 <= i < s.len() ==> (#[trigger] s[i]) < n
    &&& forall|i: int| 0 < i < s.len() ==> s[i - 1] < (#[trigger] s[i])
}

/// The XOR of the single-bit flips named by a list of variable indices.
pub open spec fn mask_of(s: Seq<usize>) -> u32
    decreases s.len(),
{
    if s.len() == 0 {
        0u32
    } else {
        mask_of(s.drop_last()) | single_bit(s.last() as nat)
    }
}

/// The propagation criterion of degree `k`: trivial for `k == 0`; for
/// `k >= 1` the strict avalanche criterion must hold, and every flip built
/// from a subset of 2 up to `k` variables must leave the output unchanged on
/// exactly half of all inputs.
pub open spec fn prop_spec(t: Seq<bool>, n: nat, k: nat) -> bool {
    if k == 0 {
        true
    } else {
        &&& sac_spec(t, n)
        &&& forall|d: nat, s: Seq<usize>|
            2 <= d <= k && #[trigger] is_index_subset(s, n, d) ==> agree_count(
                t,
                mask_of(s),
                pow2(n),
            ) == pow2((n - 1) as nat)
    }
}

/// Bit `i` of the linear reconstruction built from the single-variable
/// coefficients of `c`: the XOR, over variables `j < bound` whose coefficient
/// bit `c[2^j]` is set, of the test "bit `j` of `i` is zero".
pub open spec fn recon_bit(c: Seq<bool>, bound: nat, i: int) -> bool
    decreases bound,
{
    if bound == 0 {
        false
    } else {
        recon_bit(c, (bound - 1) as nat, i) != (c[single_bit((bound - 1) as nat) as int]
            && !idx_bit(i, (bound - 1) as nat))
    }
}

/// The linear-by-construction table whose single-variable coefficients are
/// read from `c`.
pub open spec fn xor_recon(c: Seq<bool>, n: nat) -> Seq<bool> {
    Seq::new(pow2(n), |i: int| recon_bit(c, n, i))
}

/// One candidate matches when it equals its reconstruction or that
/// reconstruction's complement.
pub open spec fn linear_candidate_matches(c: Seq<bool>, n: nat) -> bool {
    c == xor_recon(c, n) || c == seq_not(xor_recon(c, n))
}

/// A table is linear when it or its complement matches its own
/// reconstruction up to complement.
pub open spec fn linear_spec(t: Seq<bool>, n: nat) -> bool {
    linear_candidate_matches(t, n) || linear_candidate_matches(seq_not(t), n)
}

/// In a strictly increasing index list, the entry at `i` is at least `i`.
pub proof fn lemma_subset_lower(s: Seq<usize>, i: int)
    requires
        forall|j: int| 0 < j < s.len() ==> s[j - 1] < (#[trigger] s[j]),
        0 <= i < s.len(),
    ensures
        s[i] >= i,
    decreases i,
{
    if i > 0 {
        lemma_subset_lower(s, i - 1);
    }
}

/// No strictly increasing list of indices below `n` has more than `n`
/// entries.
pub proof fn lemma_index_subset_le(s: Seq<usize>, n: nat, d: nat)
    requires
        is_index_subset(s, n, d),
        d >= 1,
    ensures
        d <= n,
{
    lemma_subset_lower(s, d - 1);
}

/// The flip mask of an index list below `n` stays below `pow2(n)`.
pub proof fn lemma_mask_of_bound(s: Seq<usize>, n: nat)
    requires
        n <= 31,
        forall|i: int| 0 <= i < s.len() ==> ((#[trigger] s[i]) as nat) < n,
    ensures
        mask_of(s) < pow2(n),
    decreases s.len(),
{
    vstd::bits::lemma_u32_pow2_no_overflow(n);
    vstd::arithmetic::power2::lemma_pow2_pos(n);
    if s.len() > 0 {
        lemma_mask_of_bound(s.drop_last(), n);
        crate::bits::lemma_single_bit_is_pow2(s.last() as nat);
        vstd::arithmetic::power2::lemma_pow2_strictly_increases(s.last() as nat, n);
        let a = mask_of(s.drop_last());
        let b = single_bit(s.last() as nat);
        let nn = n as u32;
        vstd::bits::lemma_u32_shl_is_mul(1u32, nn);
        assert(a < (1u32 << nn) && b < (1u32 << nn) ==> (a | b) < (1u32 << nn)) by (bit_vector)
            requires
                nn < 32u32,
        ;
    }
}

/// Complementing a table complements each counted entry.
pub proof fn lemma_count_true_not(t: Seq<bool>, k: nat)
    requires
        k <= t.len(),
    ensures
        count_true(seq_not(t), k) == k - count_true(t, k),
    decreases k,
{
    if k > 0 {
        lemma_count_true_not(t, (k - 1) as nat);
    }
}

/// Balance is symmetric under complement: a table is balanced exactly when
/// its complement is.
pub proof fn lemma_balance_complement(t: Seq<bool>, n: nat)
    requires
        t.len() == pow2(n),
        n >= 1,
    ensures
        balanced_spec(t, n) == balanced_spec(seq_not(t), n),
{
    lemma_count_true_not(t, t.len());
    lemma_pow2_adds((n - 1) as nat, 1);
    lemma2_to64();
    assert(pow2(n) == 2 * pow2((n - 1) as nat));
}

/// Propagation criteria are monotone: a table that satisfies degree `k`
/// satisfies every smaller degree as well.
pub proof fn lemma_prop_monotonic(t: Seq<bool>, n: nat, k: nat, j: nat)
    requires
        prop_spec(t, n, k),
        j <= k,
    ensures
        prop_spec(t, n, j),
{
    if j > 0 {
        assert forall|d: nat, s: Seq<usize>|
            2 <= d <= j && #[trigger] is_index_subset(s, n, d) implies agree_count(
            t,
            mask_of(s),
            pow2(n),
        ) == pow2((n - 1) as nat) by {
            assert(2 <= d <= k);
        }
    }
}

} // verus!
