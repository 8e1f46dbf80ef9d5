//! Bit-level model shared by every truth-table width: bits of an integer
//! index, population counts, and pointwise operations on boolean sequences.

use vstd::prelude::*;

verus! {

use vstd::arithmetic::power2::pow2;
use vstd::arithmetic::power2::lemma_pow2_adds;
use vstd::arithmetic::power2::lemma_pow2_pos;
use vstd::arithmetic::power2::lemma_pow2_strictly_increases;
use vstd::arithmetic::power2::lemma2_to64;
use vstd::arithmetic::div_mod::lemma_basic_div;
use vstd::arithmetic::div_mod::lemma_fundamental_div_mod_converse;
use vstd::arithmetic::div_mod::lemma_hoist_over_denominator;
use vstd::arithmetic::div_mod::lemma_mod_multiples_vanish;
use vstd::bits::lemma_u32_shr_is_div;

/// Number of set bits among the low `k` bits of `v`.
pub open spec fn pop_bits(v: u32, k: nat) -> nat
    decreases k,
{
    if k == 0 {
        0
    } else {
        pop_bits(v, (k - 1) as nat) + (if (v >> ((k - 1) as u32)) & 1u32 == 1u32 {
            1nat
        } else {
            0nat
        })
    }
}

/// Number of set bits of a 32-bit value.
pub open spec fn popcount(v: u32) -> nat {
    pop_bits(v, 32)
}

/// Bit `p` of the nonnegative integer `x`.
pub open spec fn idx_bit(x: int, p: nat) -> bool {
    (x / pow2(p) as int) % 2 == 1
}

/// The mask with only bit `j` set.
pub open spec fn single_bit(j: nat) -> u32 {
    1u32 << (j as u32)
}

/// The truth table packed into a 32-bit function number: entry `x` is bit `x`.
pub open spec fn u32_table(r: u32) -> Seq<bool> {
    Seq::new(32, |x: int| (r >> (x as u32)) & 1u32 == 1u32)
}

/// Pointwise exclusive or of two equal-length boolean sequences.
pub open spec fn seq_xor(a: Seq<bool>, b: Seq<bool>) -> Seq<bool> {
    Seq::new(a.len(), |i: int| a[i] != b[i])
}

/// Pointwise negation of a boolean sequence.
pub open spec fn seq_not(a: Seq<bool>) -> Seq<bool> {
    Seq::new(a.len(), |i: int| !a[i])
}

/// The constant sequence of the given length.
pub open spec fn const_seq(len: nat, v: bool) -> Seq<bool> {
    Seq::new(len, |i: int| v)
}

/// Number of `true` entries among the first `k` entries of `t`.
pub open spec fn count_true(t: Seq<bool>, k: nat) -> nat
    decreases k,
{
    if k == 0 {
        0
    } else {
        count_true(t, (k - 1) as nat) + (if t[k - 1] {
            1nat
        } else {
            0nat
        })
    }
}

/// Number of `true` entries of `t`.
pub open spec fn weight(t: Seq<bool>) -> nat {
    count_true(t, t.len())
}

/// A set bit at position `p` forces the integer to be at least `pow2(p)`.
pub proof fn lemma_idx_bit_ge(x: int, p: nat)
    requires
        x >= 0,
        idx_bit(x, p),
    ensures
        x >= pow2(p),
{
    lemma_pow2_pos(p);
    if x < pow2(p) {
        lemma_basic_div(x, pow2(p) as int);
    }
}

/// Values below `pow2(p)` have bit `p` clear.
pub proof fn lemma_idx_bit_low(x: int, p: nat)
    requires
        0 <= x < pow2(p),
    ensures
        !idx_bit(x, p),
{
    lemma_pow2_pos(p);
    lemma_basic_div(x, pow2(p) as int);
}

/// Values in the upper half of a `pow2(p + 1)` block have bit `p` set.
pub proof fn lemma_idx_bit_high(x: int, p: nat)
    requires
        pow2(p) <= x < 2 * pow2(p),
    ensures
        idx_bit(x, p),
{
    lemma_pow2_pos(p);
    lemma_fundamental_div_mod_converse(x, pow2(p) as int, 1, x - pow2(p));
}

/// Adding a multiple of `pow2(p + 1)` leaves bit `p` unchanged.
pub proof fn lemma_idx_bit_add_multiple(x: int, p: nat, m: int)
    requires
        x >= 0,
        m >= 0,
    ensures
        idx_bit(x + m * pow2((p + 1) as nat), p) == idx_bit(x, p),
{
    let d = pow2(p) as int;
    lemma_pow2_pos(p);
    lemma_pow2_adds(p, 1);
    lemma2_to64();
    assert(pow2((p + 1) as nat) == 2 * d);
    assert(x + m * pow2((p + 1) as nat) == x + (2 * m) * d) by {
        assert(m * (2 * d) == (2 * m) * d) by (nonlinear_arith);
    }
    lemma_hoist_over_denominator(x, 2 * m, pow2(p));
    assert((x + (2 * m) * d) / d == x / d + 2 * m);
    lemma_mod_multiples_vanish(m, x / d, 2);
}

/// The bit test on a `u32` agrees with the arithmetic bit of its value.
pub proof fn lemma_u32_bit_is_idx_bit(r: u32, x: nat)
    requires
        x < 32,
    ensures
        ((r >> (x as u32)) & 1u32 == 1u32) == idx_bit(r as int, x),
{
    lemma_u32_shr_is_div(r, x as u32);
    let y = r >> (x as u32);
    assert((y & 1u32 == 1u32) == (y % 2 == 1)) by (bit_vector);
    lemma_pow2_pos(x);
    assert(y == r as nat / pow2(x));
    assert(r as int / pow2(x) as int == (r as nat / pow2(x)) as int);
}

/// For `j < 32` the single-bit mask has the value `pow2(j)`.
pub proof fn lemma_single_bit_is_pow2(j: nat)
    requires
        j < 32,
    ensures
        single_bit(j) == pow2(j),
{
    vstd::bits::lemma_u32_pow2_no_overflow(j);
    vstd::bits::lemma_u32_shl_is_mul(1u32, j as u32);
}

/// The bit test on a `u64` agrees with the arithmetic bit of its value.
pub proof fn lemma_u64_bit_is_idx_bit(r: u64, x: nat)
    requires
        x < 64,
    ensures
        ((r >> (x as u64)) & 1u64 == 1u64) == idx_bit(r as int, x),
{
    vstd::bits::lemma_u64_shr_is_div(r, x as u64);
    let y = r >> (x as u64);
    assert((y & 1u64 == 1u64) == (y % 2 == 1)) by (bit_vector);
    lemma_pow2_pos(x);
    assert(y == r as nat / pow2(x));
    assert(r as int / pow2(x) as int == (r as nat / pow2(x)) as int);
}

/// The bit test on a `usize` agrees with the arithmetic bit of its value.
pub proof fn lemma_usize_bit_is_idx_bit(r: usize, x: nat)
    requires
        x < usize::BITS,
    ensures
        ((r >> (x as usize)) & 1usize == 1usize) == idx_bit(r as int, x),
{
    vstd::bits::lemma_usize_shr_is_div(r, x as usize);
    let y = r >> (x as usize);
    assert((y & 1usize == 1usize) == (y % 2 == 1)) by (bit_vector);
    lemma_pow2_pos(x);
    assert(y == r as nat / pow2(x));
    assert(r as int / pow2(x) as int == (r as nat / pow2(x)) as int);
}

pub proof fn lemma_count_true_le(t: Seq<bool>, k: nat)
    ensures
        count_true(t, k) <= k,
    decreases k,
{
    if k > 0 {
        lemma_count_true_le(t, (k - 1) as nat);
    }
}

/// XOR keeps values inside a power-of-two domain.
pub proof fn lemma_xor_bound(x: u32, w: u32, n: nat)
    requires
        n < 32,
        x < pow2(n),
        w < pow2(n),
    ensures
        (x ^ w) < pow2(n),
{
    vstd::bits::lemma_u32_pow2_no_overflow(n);
    vstd::bits::lemma_u32_shl_is_mul(1u32, n as u32);
    let nn = n as u32;
    assert(x < (1u32 << nn) && w < (1u32 << nn) ==> (x ^ w) < (1u32 << nn)) by (bit_vector)
        requires
            nn < 32u32,
    ;
}

pub proof fn lemma_pop_bits_le(v: u32, k: nat)
    ensures
        pop_bits(v, k) <= k,
    decreases k,
{
    if k > 0 {
        lemma_pop_bits_le(v, (k - 1) as nat);
    }
}

/// Bits at or above `n` of a value below `pow2(n)` contribute nothing.
pub proof fn lemma_pop_bits_high_zero(v: u32, n: nat, k: nat)
    requires
        v < pow2(n),
        n <= k <= 32,
    ensures
        pop_bits(v, k) == pop_bits(v, n),
    decreases k,
{
    if k > n {
        let k1 = (k - 1) as nat;
        lemma_pop_bits_high_zero(v, n, k1);
        lemma_u32_shr_is_div(v, k1 as u32);
        if n < k1 {
            lemma_pow2_strictly_increases(n, k1);
        }
        lemma_basic_div(v as int, pow2(k1) as int);
        assert(v >> (k1 as u32) == 0);
        assert((0u32 & 1u32) == 0u32) by (bit_vector);
    }
}

/// A monomial index below `pow2(n)` names at most `n` variables.
pub proof fn lemma_popcount_bound(v: u32, n: nat)
    requires
        v < pow2(n),
        n <= 32,
    ensures
        popcount(v) <= n,
{
    lemma_pop_bits_high_zero(v, n, 32);
    lemma_pop_bits_le(v, n);
}

/// The population count splits over values with no set bit in common.
pub proof fn lemma_pop_bits_disjoint(a: u32, b: u32, k: nat)
    requires
        a & b == 0,
        k <= 32,
    ensures
        pop_bits(a | b, k) == pop_bits(a, k) + pop_bits(b, k),
    decreases k,
{
    if k > 0 {
        let k1 = (k - 1) as nat;
        lemma_pop_bits_disjoint(a, b, k1);
        let j = k1 as u32;
        assert(a & b == 0 ==> ((((a | b) >> j) & 1u32 == 1u32) <==> (((a >> j) & 1u32 == 1u32)
            || ((b >> j) & 1u32 == 1u32))) && !(((a >> j) & 1u32 == 1u32) && ((b >> j) & 1u32
            == 1u32))) by (bit_vector);
    }
}

/// A value whose low `k` bits are all clear contributes nothing there.
pub proof fn lemma_pop_bits_zero_range(v: u32, k: nat)
    requires
        forall|j: u32| j < k ==> (v >> j) & 1u32 == 0u32,
    ensures
        pop_bits(v, k) == 0,
    decreases k,
{
    if k > 0 {
        let k1 = (k - 1) as nat;
        assert((v >> (k1 as u32)) & 1u32 == 0u32);
        lemma_pop_bits_zero_range(v, k1);
    }
}

/// A single-bit value has population count 1.
pub proof fn lemma_pop_bits_single(m: nat)
    requires
        m < 32,
    ensures
        pop_bits(1u32 << (m as u32), 32) == 1,
{
    let v = 1u32 << (m as u32);
    let mm = m as u32;
    vstd::bits::lemma_u32_pow2_no_overflow(m);
    vstd::bits::lemma_u32_shl_is_mul(1u32, mm);
    if m + 1 < 32 {
        lemma_pow2_strictly_increases(m, m + 1);
        lemma_pop_bits_high_zero(v, m + 1, 32);
    }
    assert((v >> mm) & 1u32 == 1u32) by (bit_vector)
        requires
            v == 1u32 << mm && mm < 32u32,
    ;
    assert forall|j: u32| j < mm implies (v >> j) & 1u32 == 0u32 by {
        assert(j < mm && mm < 32u32 && v == 1u32 << mm ==> (v >> j) & 1u32 == 0u32)
            by (bit_vector);
    }
    lemma_pop_bits_zero_range(v, m);
    assert(pop_bits(v, (m + 1) as nat) == pop_bits(v, m) + 1);
}

pub proof fn lemma_popcount_zero(k: nat)
    ensures
        pop_bits(0u32, k) == 0,
    decreases k,
{
    if k > 0 {
        let k1 = (k - 1) as nat;
        lemma_popcount_zero(k1);
        let s = k1 as u32;
        assert((0u32 >> s) & 1u32 == 0u32) by (bit_vector);
    }
}

} // verus!
