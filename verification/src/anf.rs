//! The algebraic normal form transform: an XOR convolution over the boolean
//! lattice, performed in `n` passes of doubling block size, together with its
//! central laws (it is an involution, and the algebraic degree it induces is
//! bounded by the number of variables).

use vstd::prelude::*;

verus! {

use vstd::arithmetic::power2::pow2;
use vstd::arithmetic::power2::lemma_pow2_adds;
use vstd::arithmetic::power2::lemma_pow2_pos;
use vstd::arithmetic::power2::lemma_pow2_strictly_increases;
use vstd::arithmetic::power2::lemma2_to64;
use vstd::arithmetic::power2::lemma2_to64_rest;
use vstd::arithmetic::div_mod::lemma_fundamental_div_mod;
use vstd::arithmetic::div_mod::lemma_div_pos_is_pos;
use vstd::arithmetic::div_mod::lemma_mod_mod;
use vstd::arithmetic::div_mod::lemma_mod_self_0;
use crate::bits::idx_bit;
use crate::bits::seq_xor;
use crate::bits::const_seq;
use crate::bits::popcount;
use crate::bits::lemma_idx_bit_ge;
use crate::bits::lemma_idx_bit_low;
use crate::bits::lemma_idx_bit_high;
use crate::bits::lemma_idx_bit_add_multiple;
use crate::bits::lemma_popcount_bound;
use crate::bits::lemma_popcount_zero;

/// One pass of the transform at block exponent `p`: every position with bit
/// `p` set absorbs, by XOR, the paired position with bit `p` clear.
pub open spec fn anf_pass(t: Seq<bool>, p: nat) -> Seq<bool> {
    Seq::new(
        t.len(),
        |x: int|
            if idx_bit(x, p) {
                t[x] != t[x - pow2(p)]
            } else {
                t[x]
            },
    )
}

/// The first `q` passes of the transform, pass 0 first.
pub open spec fn anf_passes(t: Seq<bool>, q: nat) -> Seq<bool>
    decreases q,
{
    if q == 0 {
        t
    } else {
        anf_pass(anf_passes(t, (q - 1) as nat), (q - 1) as nat)
    }
}

/// The algebraic normal form of a truth table over `n` variables.
pub open spec fn anf_spec(t: Seq<bool>, n: nat) -> Seq<bool> {
    anf_passes(t, n)
}

/// The sequence that is `true` exactly at position 0.
pub open spec fn delta_seq(len: nat) -> Seq<bool> {
    Seq::new(len, |x: int| x == 0)
}

pub proof fn lemma_anf_passes_len(t: Seq<bool>, q: nat)
    ensures
        anf_passes(t, q).len() == t.len(),
    decreases q,
{
    if q > 0 {
        lemma_anf_passes_len(t, (q - 1) as nat);
    }
}

/// A pass distributes over pointwise XOR.
pub proof fn lemma_anf_pass_linear(a: Seq<bool>, b: Seq<bool>, p: nat)
    requires
        a.len() == b.len(),
    ensures
        anf_pass(seq_xor(a, b), p) == seq_xor(anf_pass(a, p), anf_pass(b, p)),
{
    let lhs = anf_pass(seq_xor(a, b), p);
    let rhs = seq_xor(anf_pass(a, p), anf_pass(b, p));
    lemma_pow2_pos(p);
    assert forall|x: int| 0 <= x < a.len() implies lhs[x] == rhs[x] by {
        if idx_bit(x, p) {
            lemma_idx_bit_ge(x, p);
        }
    }
    assert(lhs =~= rhs);
}

/// All passes distribute over pointwise XOR.
pub proof fn lemma_anf_passes_linear(a: Seq<bool>, b: Seq<bool>, q: nat)
    requires
        a.len() == b.len(),
    ensures
        anf_passes(seq_xor(a, b), q) == seq_xor(anf_passes(a, q), anf_passes(b, q)),
    decreases q,
{
    if q > 0 {
        let q1 = (q - 1) as nat;
        lemma_anf_passes_linear(a, b, q1);
        lemma_anf_passes_len(a, q1);
        lemma_anf_passes_len(b, q1);
        lemma_anf_pass_linear(anf_passes(a, q1), anf_passes(b, q1), q1);
    }
}

/// A pass at exponent `p` acts independently on the two halves of a
/// concatenation whose halves are aligned to `pow2(p + 1)`.
pub proof fn lemma_anf_pass_concat(a: Seq<bool>, b: Seq<bool>, p: nat)
    requires
        a.len() == b.len(),
        a.len() % pow2((p + 1) as nat) == 0,
    ensures
        anf_pass(a + b, p) == anf_pass(a, p) + anf_pass(b, p),
{
    let len = a.len() as int;
    let d = pow2(p) as int;
    let dd = pow2((p + 1) as nat) as int;
    lemma_pow2_pos(p);
    lemma_pow2_pos((p + 1) as nat);
    lemma_pow2_adds(p, 1);
    lemma2_to64();
    assert(dd == 2 * d);
    let lhs = anf_pass(a + b, p);
    let rhs = anf_pass(a, p) + anf_pass(b, p);
    assert forall|x: int| 0 <= x < 2 * len implies lhs[x] == rhs[x] by {
        if x < len {
            if idx_bit(x, p) {
                lemma_idx_bit_ge(x, p);
            }
        } else {
            let y = x - len;
            let m = len / dd;
            lemma_div_pos_is_pos(len, dd);
            lemma_fundamental_div_mod(len, dd);
            assert(len == dd * m);
            assert(y + m * dd == x) by (nonlinear_arith)
                requires
                    len == dd * m && y == x - len,
            ;
            lemma_idx_bit_add_multiple(y, p, m);
            assert(idx_bit(x, p) == idx_bit(y, p));
            if idx_bit(y, p) {
                lemma_idx_bit_ge(y, p);
            }
        }
    }
    assert(lhs =~= rhs);
}

/// All of the first `q` passes act independently on the halves of a
/// concatenation whose halves are aligned to `pow2(q)`.
pub proof fn lemma_anf_passes_concat(a: Seq<bool>, b: Seq<bool>, q: nat)
    requires
        a.len() == b.len(),
        a.len() % pow2(q) == 0,
    ensures
        anf_passes(a + b, q) == anf_passes(a, q) + anf_passes(b, q),
    decreases q,
{
    if q > 0 {
        let q1 = (q - 1) as nat;
        lemma_pow2_pos(q1);
        lemma_pow2_adds(q1, 1);
        lemma2_to64();
        assert(a.len() % pow2(q1) == 0) by {
            assert(pow2(q) == pow2(q1) * 2);
            lemma_mod_mod(a.len() as int, pow2(q1) as int, 2);
            assert((a.len() as int % (pow2(q1) as int * 2)) % (pow2(q1) as int) == a.len() as int
                % (pow2(q1) as int));
            assert(pow2(q1) as int * 2 == pow2(q) as int);
            assert(a.len() as int % (pow2(q) as int) == 0);
            vstd::arithmetic::div_mod::lemma_small_mod(0, pow2(q1));
        }
        lemma_anf_passes_concat(a, b, q1);
        lemma_anf_passes_len(a, q1);
        lemma_anf_passes_len(b, q1);
        lemma_anf_pass_concat(anf_passes(a, q1), anf_passes(b, q1), q1);
    }
}

/// On a pair of aligned halves of length `pow2(p)`, the pass at exponent `p`
/// keeps the low half and XORs it into the high half.
pub proof fn lemma_anf_pass_top(a: Seq<bool>, b: Seq<bool>, p: nat)
    requires
        a.len() == pow2(p),
        b.len() == pow2(p),
    ensures
        anf_pass(a + b, p) == a + seq_xor(a, b),
{
    let h = pow2(p) as int;
    lemma_pow2_pos(p);
    let lhs = anf_pass(a + b, p);
    let rhs = a + seq_xor(a, b);
    assert forall|x: int| 0 <= x < 2 * h implies lhs[x] == rhs[x] by {
        if x < h {
            lemma_idx_bit_low(x, p);
        } else {
            lemma_idx_bit_high(x, p);
        }
    }
    assert(lhs =~= rhs);
}

/// The transform is an involution: applying all `n` passes twice returns the
/// original table.
pub proof fn lemma_anf_involution(t: Seq<bool>, n: nat)
    requires
        t.len() == pow2(n),
    ensures
        anf_spec(anf_spec(t, n), n) == t,
    decreases n,
{
    if n == 0 {
    } else {
        let n1 = (n - 1) as nat;
        let h = pow2(n1) as int;
        lemma_pow2_pos(n1);
        lemma_pow2_adds(n1, 1);
        lemma2_to64();
        let lo = t.subrange(0, h);
        let hi = t.subrange(h, 2 * h);
        assert(t =~= lo + hi);
        lemma_mod_self_0(h);
        let pl = anf_passes(lo, n1);
        let ph = anf_passes(hi, n1);
        lemma_anf_passes_len(lo, n1);
        lemma_anf_passes_len(hi, n1);
        lemma_anf_passes_concat(lo, hi, n1);
        assert(anf_passes(t, n1) == pl + ph);
        assert(anf_passes(t, n) == anf_pass(pl + ph, n1));
        lemma_anf_pass_top(pl, ph, n1);
        let u = anf_passes(t, n);
        let uhi = seq_xor(pl, ph);
        assert(u == pl + uhi);
        // Apply the passes a second time.
        lemma_anf_passes_concat(pl, uhi, n1);
        assert(anf_passes(u, n1) == anf_passes(pl, n1) + anf_passes(uhi, n1));
        lemma_anf_passes_linear(pl, ph, n1);
        assert(anf_passes(uhi, n1) == seq_xor(anf_passes(pl, n1), anf_passes(ph, n1)));
        lemma_anf_involution(lo, n1);
        lemma_anf_involution(hi, n1);
        assert(anf_passes(pl, n1) == lo);
        assert(anf_passes(ph, n1) == hi);
        lemma_anf_passes_len(pl, n1);
        lemma_anf_passes_len(uhi, n1);
        lemma_anf_pass_top(lo, seq_xor(lo, hi), n1);
        assert(anf_passes(u, n) == anf_pass(lo + seq_xor(lo, hi), n1));
        assert(anf_passes(u, n) == lo + seq_xor(lo, seq_xor(lo, hi)));
        assert(seq_xor(lo, seq_xor(lo, hi)) =~= hi);
        assert(anf_passes(u, n) == lo + hi);
    }
}

/// A pass leaves the all-`false` table unchanged.
pub proof fn lemma_anf_pass_const_false(len: nat, p: nat)
    ensures
        anf_pass(const_seq(len, false), p) == const_seq(len, false),
{
    lemma_pow2_pos(p);
    let z = const_seq(len, false);
    assert forall|x: int| 0 <= x < len implies anf_pass(z, p)[x] == z[x] by {
        if idx_bit(x, p) {
            lemma_idx_bit_ge(x, p);
        }
    }
    assert(anf_pass(z, p) =~= z);
}

/// The transform of the all-`false` table is all `false`.
pub proof fn lemma_anf_zeros(len: nat, q: nat)
    ensures
        anf_passes(const_seq(len, false), q) == const_seq(len, false),
    decreases q,
{
    if q > 0 {
        let q1 = (q - 1) as nat;
        lemma_anf_zeros(len, q1);
        lemma_anf_pass_const_false(len, q1);
    }
}

/// The transform of the all-`true` table has only the constant monomial.
pub proof fn lemma_anf_ones(n: nat)
    ensures
        anf_passes(const_seq(pow2(n), true), n) == delta_seq(pow2(n)),
    decreases n,
{
    if n == 0 {
        lemma2_to64();
        assert(const_seq(pow2(0), true) =~= delta_seq(pow2(0)));
    } else {
        let n1 = (n - 1) as nat;
        let h = pow2(n1) as int;
        lemma_pow2_pos(n1);
        lemma_pow2_adds(n1, 1);
        lemma2_to64();
        let ones = const_seq(pow2(n), true);
        let oh = const_seq(pow2(n1), true);
        assert(ones =~= oh + oh);
        lemma_mod_self_0(h);
        lemma_anf_passes_concat(oh, oh, n1);
        lemma_anf_ones(n1);
        let dh = delta_seq(pow2(n1));
        assert(anf_passes(ones, n1) == dh + dh);
        lemma_anf_passes_len(oh, n1);
        lemma_anf_pass_top(dh, dh, n1);
        assert(anf_passes(ones, n) == dh + seq_xor(dh, dh));
        assert(dh + seq_xor(dh, dh) =~= delta_seq(pow2(n)));
    }
}

/// The largest Hamming weight among the first `k` monomial indices whose ANF
/// coefficient is set; 0 when none is set.
pub open spec fn deg_scan(a: Seq<bool>, k: nat) -> nat
    decreases k,
{
    if k == 0 {
        0
    } else {
        let rest = deg_scan(a, (k - 1) as nat);
        if a[k - 1] && popcount((k - 1) as u32) > rest {
            popcount((k - 1) as u32)
        } else {
            rest
        }
    }
}

/// The algebraic degree of a truth table over `n` variables.
pub open spec fn degree_spec(t: Seq<bool>, n: nat) -> nat {
    deg_scan(anf_spec(t, n), pow2(n))
}





pub proof fn lemma_deg_scan_bound(a: Seq<bool>, k: nat, n: nat)
    requires
        k <= pow2(n),
        n <= 32,
    ensures
        deg_scan(a, k) <= n,
    decreases k,
{
    if k > 0 {
        let k1 = (k - 1) as nat;
        lemma_deg_scan_bound(a, k1, n);
        if a[k1 as int] {
            lemma2_to64();
            vstd::arithmetic::power2::lemma_pow2(n);
            vstd::arithmetic::power2::lemma_pow2(32);
            if n < 32 {
                lemma_pow2_strictly_increases(n, 32);
            }
            assert(k1 < pow2(32));
            assert(pow2(32) == 0x100000000) by {
                lemma2_to64_rest();
            }
            assert((k1 as u32) as nat == k1);
            lemma_popcount_bound(k1 as u32, n);
        }
    }
}

/// A scan over coefficients that are all `false` reports degree 0.
pub proof fn lemma_deg_scan_zeros(a: Seq<bool>, k: nat)
    requires
        forall|x: int| 0 <= x < k ==> !a[x],
    ensures
        deg_scan(a, k) == 0,
    decreases k,
{
    if k > 0 {
        lemma_deg_scan_zeros(a, (k - 1) as nat);
    }
}

/// A scan over coefficients set at most at index 0 reports degree 0.
pub proof fn lemma_deg_scan_delta(a: Seq<bool>, k: nat)
    requires
        forall|x: int| 0 < x < k ==> !a[x],
    ensures
        deg_scan(a, k) == 0,
    decreases k,
{
    if k > 0 {
        lemma_deg_scan_delta(a, (k - 1) as nat);
        if k == 1 {
            lemma_popcount_zero(32);
        }
    }
}

/// The algebraic degree never exceeds the number of variables.
pub proof fn lemma_degree_bound(t: Seq<bool>, n: nat)
    requires
        n <= 32,
    ensures
        degree_spec(t, n) <= n,
{
    lemma_deg_scan_bound(anf_spec(t, n), pow2(n), n);
}

/// The all-`false` and all-`true` tables both have degree 0.
pub proof fn lemma_degree_const(n: nat)
    ensures
        degree_spec(const_seq(pow2(n), false), n) == 0,
        degree_spec(const_seq(pow2(n), true), n) == 0,
{
    lemma_anf_zeros(pow2(n), n);
    lemma_deg_scan_zeros(const_seq(pow2(n), false), pow2(n));
    lemma_anf_ones(n);
    lemma_deg_scan_delta(delta_seq(pow2(n)), pow2(n));
}

} // verus!
