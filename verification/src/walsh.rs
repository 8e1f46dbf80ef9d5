//! Walsh–Hadamard and autocorrelation transforms: signed sums over the whole
//! input domain, their absolute-value spectra, and the laws that bound them.

use vstd::prelude::*;

verus! {

use vstd::arithmetic::power2::pow2;
use vstd::arithmetic::power2::lemma_pow2_adds;
use vstd::arithmetic::power2::lemma_pow2_pos;
use vstd::arithmetic::power2::lemma2_to64;
use vstd::arithmetic::div_mod::lemma_basic_div;
use vstd::arithmetic::div_mod::lemma_fundamental_div_mod_converse;
use vstd::bits::lemma_u32_shr_is_div;
use vstd::bits::lemma_u32_shl_is_mul;
use vstd::bits::lemma_u32_pow2_no_overflow;
use vstd::math::abs;
use crate::bits::popcount;
use crate::bits::count_true;
use crate::bits::single_bit;
use crate::bits::lemma_popcount_zero;
use crate::bits::lemma_pop_bits_disjoint;
use crate::bits::lemma_pop_bits_single;

/// Parity of the bitwise dot product of a frequency and an input index.
pub open spec fn dot(w: u32, x: u32) -> bool {
    popcount(w & x) % 2 == 1
}

/// Contribution of input `x` to the Walsh coefficient at `w`: +1 when the
/// table agrees with the linear form given by `w`, -1 otherwise.
pub open spec fn walsh_term(t: Seq<bool>, w: u32, x: nat) -> int {
    if t[x as int] == dot(w, x as u32) {
        1
    } else {
        -1
    }
}

/// Sum of the Walsh contributions of the first `k` inputs.
pub open spec fn walsh_sum(t: Seq<bool>, w: u32, k: nat) -> int
    decreases k,
{
    if k == 0 {
        0
    } else {
        walsh_sum(t, w, (k - 1) as nat) + walsh_term(t, w, (k - 1) as nat)
    }
}

/// The Walsh coefficient of a table over `n` variables at frequency `w`.
pub open spec fn walsh_spec(t: Seq<bool>, n: nat, w: u32) -> int {
    walsh_sum(t, w, pow2(n))
}

/// Contribution of input `x` to the autocorrelation at offset `w`: +1 when
/// the table agrees with its shift, -1 otherwise.
pub open spec fn ac_term(t: Seq<bool>, w: u32, x: nat) -> int {
    if t[x as int] == t[((x as u32) ^ w) as int] {
        1
    } else {
        -1
    }
}

/// Sum of the autocorrelation contributions of the first `k` inputs.
pub open spec fn ac_sum(t: Seq<bool>, w: u32, k: nat) -> int
    decreases k,
{
    if k == 0 {
        0
    } else {
        ac_sum(t, w, (k - 1) as nat) + ac_term(t, w, (k - 1) as nat)
    }
}

/// The autocorrelation of a table over `n` variables at offset `w`.
pub open spec fn ac_spec(t: Seq<bool>, n: nat, w: u32) -> int {
    ac_sum(t, w, pow2(n))
}

/// All Walsh coefficients of a table, indexed by frequency.
pub open spec fn walsh_values(t: Seq<bool>, n: nat) -> Seq<int> {
    Seq::new(pow2(n), |w: int| walsh_spec(t, n, w as u32))
}

/// All autocorrelation values of a table, indexed by offset.
pub open spec fn ac_values(t: Seq<bool>, n: nat) -> Seq<int> {
    Seq::new(pow2(n), |w: int| ac_spec(t, n, w as u32))
}

/// Number of positions `w < k` whose value has absolute value `v`.
pub open spec fn abs_count(vals: Seq<int>, v: u32, k: nat) -> nat
    decreases k,
{
    if k == 0 {
        0
    } else {
        abs_count(vals, v, (k - 1) as nat) + (if abs(vals[k - 1]) == v {
            1nat
        } else {
            0nat
        })
    }
}

/// The spectrum of a value sequence: each absolute value that occurs, mapped
/// to the number of positions at which it occurs.
pub open spec fn abs_spectrum(vals: Seq<int>) -> Map<u32, usize> {
    Map::new(
        |v: u32| exists|w: int| 0 <= w < vals.len() && abs(#[trigger] vals[w]) == v,
        |v: u32| abs_count(vals, v, vals.len()) as usize,
    )
}

/// First-order correlation immunity: every single-variable Walsh coefficient
/// vanishes.
pub open spec fn ci1_spec(t: Seq<bool>, n: nat) -> bool {
    forall|j: nat| j < n ==> walsh_spec(t, n, #[trigger] single_bit(j)) == 0
}

/// A Walsh partial sum over `k` inputs lies in `[-k, k]` and has the parity
/// of `k`.
pub proof fn lemma_walsh_sum_bounds(t: Seq<bool>, w: u32, k: nat)
    ensures
        -(k as int) <= walsh_sum(t, w, k) <= k as int,
        (walsh_sum(t, w, k) - k) % 2 == 0,
    decreases k,
{
    if k > 0 {
        lemma_walsh_sum_bounds(t, w, (k - 1) as nat);
    }
}

/// An autocorrelation partial sum over `k` inputs lies in `[-k, k]` and has
/// the parity of `k`.
pub proof fn lemma_ac_sum_bounds(t: Seq<bool>, w: u32, k: nat)
    ensures
        -(k as int) <= ac_sum(t, w, k) <= k as int,
        (ac_sum(t, w, k) - k) % 2 == 0,
    decreases k,
{
    if k > 0 {
        lemma_ac_sum_bounds(t, w, (k - 1) as nat);
    }
}

/// The Walsh coefficient lies in `[-2^n, 2^n]` and has the parity of `2^n`.
pub proof fn lemma_walsh_range(t: Seq<bool>, n: nat, w: u32)
    ensures
        -(pow2(n) as int) <= walsh_spec(t, n, w) <= pow2(n) as int,
        (walsh_spec(t, n, w) - pow2(n)) % 2 == 0,
{
    lemma_walsh_sum_bounds(t, w, pow2(n));
}

/// At frequency 0 every input scores by its table entry alone, so the Walsh
/// coefficient is the domain size minus twice the weight of the table.
pub proof fn lemma_walsh_zero_freq_sum(t: Seq<bool>, k: nat)
    ensures
        walsh_sum(t, 0u32, k) == k - 2 * count_true(t, k),
    decreases k,
{
    if k > 0 {
        let k1 = (k - 1) as nat;
        lemma_walsh_zero_freq_sum(t, k1);
        assert(0u32 & (k1 as u32) == 0u32) by (bit_vector);
        lemma_popcount_zero(32);
        assert(!dot(0u32, k1 as u32));
    }
}

/// `walsh(f, 0) == 2^n - 2 * popcount(f)`.
pub proof fn lemma_walsh_zero_freq(t: Seq<bool>, n: nat)
    requires
        t.len() == pow2(n),
    ensures
        walsh_spec(t, n, 0u32) == pow2(n) - 2 * crate::bits::weight(t),
{
    lemma_walsh_zero_freq_sum(t, pow2(n));
}

pub proof fn lemma_abs_count_le(vals: Seq<int>, v: u32, k: nat)
    ensures
        abs_count(vals, v, k) <= k,
    decreases k,
{
    if k > 0 {
        lemma_abs_count_le(vals, v, (k - 1) as nat);
    }
}

/// Every Walsh coefficient has absolute value at most `2^n`.
pub proof fn lemma_walsh_values_bounded(t: Seq<bool>, n: nat)
    ensures
        forall|w: int|
            0 <= w < pow2(n) ==> abs(#[trigger] walsh_values(t, n)[w]) <= pow2(n),
{
    assert forall|w: int| 0 <= w < pow2(n) implies abs(#[trigger] walsh_values(t, n)[w]) <= pow2(
        n,
    ) by {
        lemma_walsh_sum_bounds(t, w as u32, pow2(n));
    }
}

/// The autocorrelation lies in `[-2^n, 2^n]` and has the parity of `2^n`.
pub proof fn lemma_ac_range(t: Seq<bool>, n: nat, w: u32)
    ensures
        -(pow2(n) as int) <= ac_spec(t, n, w) <= pow2(n) as int,
        (ac_spec(t, n, w) - pow2(n)) % 2 == 0,
{
    lemma_ac_sum_bounds(t, w, pow2(n));
}

/// The spectrum accumulated over the first `k` positions, as a fold that
/// inserts one absolute value at a time.
pub open spec fn spectrum_upto(vals: Seq<int>, k: nat) -> Map<u32, usize>
    decreases k,
{
    if k == 0 {
        Map::empty()
    } else {
        let m = spectrum_upto(vals, (k - 1) as nat);
        let v = abs(vals[k - 1]) as u32;
        let c: usize = if m.contains_key(v) {
            (m[v] + 1) as usize
        } else {
            1usize
        };
        m.insert(v, c)
    }
}

/// The accumulated spectrum contains exactly the absolute values seen so far,
/// each mapped to its number of occurrences.
pub proof fn lemma_spectrum_upto_char(vals: Seq<int>, k: nat)
    requires
        k <= usize::MAX,
        forall|w: int| 0 <= w < k ==> abs(#[trigger] vals[w]) <= u32::MAX,
    ensures
        forall|v: u32|
            spectrum_upto(vals, k).contains_key(v) <==> exists|w: int|
                0 <= w < k && abs(#[trigger] vals[w]) == v,
        forall|v: u32| #[trigger]
            spectrum_upto(vals, k).contains_key(v) ==> spectrum_upto(vals, k)[v] == abs_count(
                vals,
                v,
                k,
            ),
    decreases k,
{
    if k > 0 {
        let k1 = (k - 1) as nat;
        lemma_spectrum_upto_char(vals, k1);
        let m1 = spectrum_upto(vals, k1);
        let m = spectrum_upto(vals, k);
        let v0 = abs(vals[k1 as int]) as u32;
        assert(abs(vals[k1 as int]) == v0);
        assert forall|v: u32|
            m.contains_key(v) <==> exists|w: int|
                0 <= w < k && abs(#[trigger] vals[w]) == v by {
            if m.contains_key(v) {
                if v == v0 {
                    assert(abs(vals[k1 as int]) == v);
                } else {
                    assert(m1.contains_key(v));
                }
            }
            if exists|w: int| 0 <= w < k && abs(#[trigger] vals[w]) == v {
                let w = choose|w: int| 0 <= w < k && abs(#[trigger] vals[w]) == v;
                if w < k1 {
                    assert(m1.contains_key(v));
                }
            }
        }
        assert forall|v: u32| #[trigger] m.contains_key(v) implies m[v] == abs_count(vals, v, k) by {
            lemma_abs_count_le(vals, v, k1);
            if v == v0 {
                if m1.contains_key(v) {
                    assert(m1[v] == abs_count(vals, v, k1));
                } else {
                    assert(!(exists|w: int| 0 <= w < k1 && abs(#[trigger] vals[w]) == v));
                    lemma_abs_count_none(vals, v, k1);
                }
            } else {
                assert(m1.contains_key(v));
            }
        }
    }
}

/// A value that occurs nowhere among the first `k` positions has count 0.
pub proof fn lemma_abs_count_none(vals: Seq<int>, v: u32, k: nat)
    requires
        forall|w: int| 0 <= w < k ==> abs(#[trigger] vals[w]) != v,
    ensures
        abs_count(vals, v, k) == 0,
    decreases k,
{
    if k > 0 {
        lemma_abs_count_none(vals, v, (k - 1) as nat);
    }
}

/// Whether bit `m` of a frequency is set.
pub open spec fn freq_bit(w: u32, m: nat) -> bool {
    (w >> (m as u32)) & 1u32 == 1u32
}

/// The dot product is symmetric in its two arguments.
pub proof fn lemma_dot_symmetric(a: u32, b: u32)
    ensures
        dot(a, b) == dot(b, a),
{
    assert(a & b == b & a) by (bit_vector);
}

pub proof fn lemma_freq_bit_low(w: u32, m: nat)
    requires
        m < 32,
        w < pow2(m),
    ensures
        !freq_bit(w, m),
{
    lemma_u32_shr_is_div(w, m as u32);
    lemma_pow2_pos(m);
    lemma_basic_div(w as int, pow2(m) as int);
    assert((0u32 & 1u32) != 1u32) by (bit_vector);
}

pub proof fn lemma_freq_bit_high(w: u32, m: nat)
    requires
        m < 32,
        pow2(m) <= w < 2 * pow2(m),
    ensures
        freq_bit(w, m),
{
    lemma_u32_shr_is_div(w, m as u32);
    lemma_pow2_pos(m);
    lemma_fundamental_div_mod_converse(w as int, pow2(m) as int, 1, w - pow2(m));
    assert((1u32 & 1u32) == 1u32) by (bit_vector);
}

/// Adding `pow2(m)` to an input below `pow2(m)` flips the dot product
/// exactly when bit `m` of the frequency is set.
pub proof fn lemma_dot_add_high(w: u32, x: u32, m: nat)
    requires
        m < 32,
        x < pow2(m),
    ensures
        dot(w, (x + pow2(m)) as u32) == (dot(w, x) != freq_bit(w, m)),
{
    let mm = m as u32;
    lemma_u32_pow2_no_overflow(m);
    lemma_u32_shl_is_mul(1u32, mm);
    let h: u32 = 1u32 << mm;
    assert(h == pow2(m));
    let y: u32 = (x + pow2(m)) as u32;
    assert(x < h ==> x + h <= 0xffffffffu32) by (bit_vector)
        requires
            h == 1u32 << mm && mm < 32u32,
    ;
    assert(y == x + h);
    assert(x < h ==> (x | h) == x + h) by (bit_vector)
        requires
            h == 1u32 << mm && mm < 32u32,
    ;
    assert(y == (x | h));
    assert(x < h ==> (w & (x | h)) == ((w & x) | (w & h)) && ((w & x) & (w & h)) == 0u32)
        by (bit_vector)
        requires
            h == 1u32 << mm && mm < 32u32,
    ;
    lemma_pop_bits_disjoint(w & x, w & h, 32);
    if freq_bit(w, m) {
        assert((w & h) == h) by (bit_vector)
            requires
                h == 1u32 << mm && mm < 32u32 && (w >> mm) & 1u32 == 1u32,
        ;
        lemma_pop_bits_single(m);
        assert(popcount(w & y) == popcount(w & x) + 1);
    } else {
        assert((w & h) == 0u32) by (bit_vector)
            requires
                h == 1u32 << mm && mm < 32u32 && (w >> mm) & 1u32 != 1u32,
        ;
        lemma_popcount_zero(32);
        assert(popcount(w & y) == popcount(w & x));
    }
}

/// Sum of Walsh contributions of the inputs `base .. base + k`.
pub open spec fn walsh_term_sum(t: Seq<bool>, w: u32, base: nat, k: nat) -> int
    decreases k,
{
    if k == 0 {
        0
    } else {
        walsh_term_sum(t, w, base, (k - 1) as nat) + walsh_term(t, w, (base + k - 1) as nat)
    }
}

pub proof fn lemma_walsh_sum_split(t: Seq<bool>, w: u32, base: nat, k: nat)
    ensures
        walsh_sum(t, w, base + k) == walsh_sum(t, w, base) + walsh_term_sum(t, w, base, k),
    decreases k,
{
    if k > 0 {
        lemma_walsh_sum_split(t, w, base, (k - 1) as nat);
    }
}

/// Two tables and frequencies with pointwise equal entries and dot products
/// have equal Walsh partial sums.
pub proof fn lemma_walsh_sum_agree(t1: Seq<bool>, w1: u32, t2: Seq<bool>, w2: u32, k: nat)
    requires
        forall|x: int| 0 <= x < k ==> t1[x] == t2[x],
        forall|x: u32| x < k ==> dot(w1, x) == dot(w2, x),
    ensures
        walsh_sum(t1, w1, k) == walsh_sum(t2, w2, k),
    decreases k,
{
    if k > 0 {
        lemma_walsh_sum_agree(t1, w1, t2, w2, (k - 1) as nat);
    }
}

/// The upper-half contributions at a frequency are the lower table's
/// contributions, negated exactly when bit `m` of the frequency is set.
pub proof fn lemma_walsh_hi_sum(t: Seq<bool>, w: u32, m: nat, k: nat)
    requires
        m < 31,
        t.len() == 2 * pow2(m),
        k <= pow2(m),
    ensures
        walsh_term_sum(t, w, pow2(m), k) == (if freq_bit(w, m) {
            -walsh_sum(t.subrange(pow2(m) as int, 2 * pow2(m) as int), w, k)
        } else {
            walsh_sum(t.subrange(pow2(m) as int, 2 * pow2(m) as int), w, k)
        }),
    decreases k,
{
    lemma_u32_pow2_no_overflow(m);
    vstd::arithmetic::power2::lemma_pow2_strictly_increases(m, 31);
    lemma2_to64();
    assert(pow2(m) < 0x80000000);
    if k > 0 {
        let j = (k - 1) as nat;
        lemma_walsh_hi_sum(t, w, m, j);
        lemma_dot_add_high(w, j as u32, m);
        assert((j as u32) as int == j as int);
        assert(((j as u32) + pow2(m)) as u32 as int == pow2(m) + j);
        assert(((pow2(m) + k - 1) as nat) as u32 as int == pow2(m) + j);
    }
}

/// For frequencies below `pow2(m)`, the Walsh coefficient of a double-width
/// table is the sum of its halves' coefficients; at the frequency shifted by
/// `pow2(m)` it is their difference.
pub proof fn lemma_walsh_butterfly(t: Seq<bool>, m: nat, w: u32)
    requires
        m < 31,
        t.len() == 2 * pow2(m),
        w < pow2(m),
    ensures
        walsh_spec(t, (m + 1) as nat, w) == walsh_spec(t.subrange(0, pow2(m) as int), m, w)
            + walsh_spec(t.subrange(pow2(m) as int, 2 * pow2(m) as int), m, w),
        walsh_spec(t, (m + 1) as nat, (w + pow2(m)) as u32) == walsh_spec(
            t.subrange(0, pow2(m) as int),
            m,
            w,
        ) - walsh_spec(t.subrange(pow2(m) as int, 2 * pow2(m) as int), m, w),
{
    let np = (m + 1) as nat;
    let nn = pow2(m);
    lemma_pow2_adds(m, 1);
    lemma2_to64();
    lemma_u32_pow2_no_overflow(m);
    assert(pow2(np) == 2 * nn);
    let a = t.subrange(0, nn as int);
    let b = t.subrange(nn as int, 2 * nn as int);
    // Low frequency.
    lemma_walsh_sum_split(t, w, nn, nn);
    lemma_walsh_sum_agree(t, w, a, w, nn);
    lemma_walsh_hi_sum(t, w, m, nn);
    lemma_freq_bit_low(w, m);
    // High frequency.
    let wh: u32 = (w + pow2(m)) as u32;
    assert forall|x: u32| x < nn implies dot(wh, x) == dot(w, x) by {
        lemma_dot_symmetric(wh, x);
        lemma_dot_symmetric(w, x);
        lemma_dot_add_high(x, w, m);
        lemma_freq_bit_low(x, m);
    }
    lemma_walsh_sum_split(t, wh, nn, nn);
    lemma_walsh_sum_agree(t, wh, a, w, nn);
    lemma_walsh_hi_sum(t, wh, m, nn);
    lemma_freq_bit_high(wh, m);
    lemma_walsh_sum_agree(b, wh, b, w, nn);
}

/// Sum of squared Walsh coefficients over the frequencies
/// `base .. base + k`.
pub open spec fn walsh_sq_sum_from(t: Seq<bool>, n: nat, base: nat, k: nat) -> int
    decreases k,
{
    if k == 0 {
        0
    } else {
        let w = walsh_spec(t, n, #[verifier::truncate] ((base + k - 1) as u32));
        walsh_sq_sum_from(t, n, base, (k - 1) as nat) + w * w
    }
}

/// Sum of squared Walsh coefficients over all frequencies below `k`.
pub open spec fn walsh_sq_sum(t: Seq<bool>, n: nat, k: nat) -> int {
    walsh_sq_sum_from(t, n, 0, k)
}

pub proof fn lemma_walsh_sq_split(t: Seq<bool>, n: nat, base: nat, k: nat)
    ensures
        walsh_sq_sum_from(t, n, 0, base + k) == walsh_sq_sum_from(t, n, 0, base)
            + walsh_sq_sum_from(t, n, base, k),
    decreases k,
{
    if k > 0 {
        lemma_walsh_sq_split(t, n, base, (k - 1) as nat);
    }
}

/// Both frequency halves together: the squares at `w` and `w + pow2(m)` sum
/// to twice the squares of the halves' coefficients at `w`.
pub proof fn lemma_parseval_halves(t: Seq<bool>, m: nat, k: nat)
    requires
        m < 31,
        t.len() == 2 * pow2(m),
        k <= pow2(m),
    ensures
        walsh_sq_sum_from(t, (m + 1) as nat, 0, k) + walsh_sq_sum_from(
            t,
            (m + 1) as nat,
            pow2(m),
            k,
        ) == 2 * walsh_sq_sum_from(t.subrange(0, pow2(m) as int), m, 0, k) + 2
            * walsh_sq_sum_from(t.subrange(pow2(m) as int, 2 * pow2(m) as int), m, 0, k),
    decreases k,
{
    lemma_u32_pow2_no_overflow(m);
    vstd::arithmetic::power2::lemma_pow2_strictly_increases(m, 31);
    lemma2_to64();
    assert(pow2(m) < 0x80000000);
    if k > 0 {
        lemma_parseval_halves(t, m, (k - 1) as nat);
        let w = #[verifier::truncate] ((k - 1) as u32);
        assert(w as int == k - 1);
        lemma_walsh_butterfly(t, m, w);
        let va = walsh_spec(t.subrange(0, pow2(m) as int), m, w);
        let vb = walsh_spec(t.subrange(pow2(m) as int, 2 * pow2(m) as int), m, w);
        assert((va + vb) * (va + vb) + (va - vb) * (va - vb) == 2 * (va * va) + 2 * (vb * vb))
            by (nonlinear_arith);
        assert((w + pow2(m)) as u32 as int == pow2(m) + k - 1);
        assert(((pow2(m) + k - 1) as nat) as u32 as int == pow2(m) + k - 1);
    }
}

/// The spectrum conserves total mass: over all `2^n` frequencies the squared
/// Walsh coefficients sum to `2^(2n)`.
pub proof fn lemma_walsh_parseval(t: Seq<bool>, n: nat)
    requires
        t.len() == pow2(n),
        n <= 31,
    ensures
        walsh_sq_sum(t, n, pow2(n)) == pow2(n) * pow2(n),
    decreases n,
{
    if n == 0 {
        lemma2_to64();
        let w0 = walsh_spec(t, 0, 0u32);
        assert(walsh_sum(t, 0u32, 0) == 0);
        assert(walsh_sum(t, 0u32, 1) == walsh_term(t, 0u32, 0));
        assert(w0 == 1 || w0 == -1);
        assert(walsh_sq_sum_from(t, 0, 0, 0) == 0);
        assert(walsh_sq_sum_from(t, 0, 0, 1) == w0 * w0);
        assert(w0 * w0 == 1) by (nonlinear_arith)
            requires
                w0 == 1 || w0 == -1,
        ;
    } else {
        let m = (n - 1) as nat;
        let nn = pow2(m);
        lemma_pow2_adds(m, 1);
        lemma2_to64();
        let a = t.subrange(0, nn as int);
        let b = t.subrange(nn as int, 2 * nn as int);
        lemma_walsh_sq_split(t, n, nn, nn);
        lemma_parseval_halves(t, m, nn);
        lemma_walsh_parseval(a, m);
        lemma_walsh_parseval(b, m);
        assert(pow2(n) * pow2(n) == 4 * (nn * nn)) by (nonlinear_arith)
            requires
                pow2(n) == 2 * nn,
        ;
    }
}

/// Direct sum of squares of the first `k` values.
pub open spec fn sq_sum(vals: Seq<int>, k: nat) -> int
    decreases k,
{
    if k == 0 {
        0
    } else {
        sq_sum(vals, (k - 1) as nat) + vals[k - 1] * vals[k - 1]
    }
}

/// Sum over magnitudes `v < vmax` of `count(v) * v^2`, the count taken over
/// the first `k` values: the spectrum's mass regrouped by magnitude.
pub open spec fn spectrum_mass(vals: Seq<int>, k: nat, vmax: nat) -> int
    decreases vmax,
{
    if vmax == 0 {
        0
    } else {
        let v = (vmax - 1) as nat;
        spectrum_mass(vals, k, v) + abs_count(vals, #[verifier::truncate] (v as u32), k) * v * v
    }
}

pub proof fn lemma_spectrum_mass_empty(vals: Seq<int>, vmax: nat)
    ensures
        spectrum_mass(vals, 0, vmax) == 0,
    decreases vmax,
{
    if vmax > 0 {
        lemma_spectrum_mass_empty(vals, (vmax - 1) as nat);
        let v = (vmax - 1) as nat;
        assert(abs_count(vals, #[verifier::truncate] (v as u32), 0) * v * v == 0)
            by (nonlinear_arith);
    }
}

/// Taking one more value into the counts adds that value's squared
/// magnitude to the regrouped mass.
pub proof fn lemma_spectrum_mass_step(vals: Seq<int>, k: nat, vmax: nat)
    requires
        k >= 1,
        vmax <= 0x100000000,
    ensures
        spectrum_mass(vals, k, vmax) == spectrum_mass(vals, (k - 1) as nat, vmax) + (if abs(
            vals[k - 1],
        ) < vmax {
            abs(vals[k - 1]) * abs(vals[k - 1]) as int
        } else {
            0int
        }),
    decreases vmax,
{
    if vmax > 0 {
        lemma_spectrum_mass_step(vals, k, (vmax - 1) as nat);
        let v = (vmax - 1) as nat;
        let vu = #[verifier::truncate] (v as u32);
        assert(vu as nat == v);
        let c = abs_count(vals, vu, (k - 1) as nat);
        if abs(vals[k - 1]) == v {
            assert(abs_count(vals, vu, k) == c + 1);
            assert((c + 1) * v * v == c * v * v + v * v) by (nonlinear_arith);
        } else {
            assert(abs_count(vals, vu, k) == c);
        }
    }
}

/// Regrouping the sum of squares by magnitude changes nothing: the mass by
/// magnitude equals the direct sum of squares.
pub proof fn lemma_spectrum_mass_regroup(vals: Seq<int>, k: nat, vmax: nat)
    requires
        vmax <= 0x100000000,
        forall|w: int| 0 <= w < k ==> abs(#[trigger] vals[w]) < vmax,
    ensures
        spectrum_mass(vals, k, vmax) == sq_sum(vals, k),
    decreases k,
{
    if k == 0 {
        lemma_spectrum_mass_empty(vals, vmax);
    } else {
        lemma_spectrum_mass_regroup(vals, (k - 1) as nat, vmax);
        lemma_spectrum_mass_step(vals, k, vmax);
        let x = vals[k - 1];
        assert(abs(x) * abs(x) == x * x) by (nonlinear_arith);
    }
}

pub proof fn lemma_sq_sum_is_walsh(t: Seq<bool>, n: nat, k: nat)
    requires
        k <= pow2(n),
    ensures
        sq_sum(walsh_values(t, n), k) == walsh_sq_sum(t, n, k),
    decreases k,
{
    if k > 0 {
        lemma_sq_sum_is_walsh(t, n, (k - 1) as nat);
    }
}

/// Mass conservation over the Walsh spectrum: summing `count * magnitude^2`
/// over every magnitude that can occur yields exactly `2^(2n)`.
pub proof fn lemma_walsh_spectrum_mass(t: Seq<bool>, n: nat)
    requires
        t.len() == pow2(n),
        n <= 16,
    ensures
        spectrum_mass(walsh_values(t, n), pow2(n), pow2(n) + 1) == pow2(n) * pow2(n),
{
    lemma_walsh_parseval(t, n);
    lemma_walsh_values_bounded(t, n);
    lemma_sq_sum_is_walsh(t, n, pow2(n));
    lemma2_to64();
    vstd::arithmetic::power2::lemma_pow2_strictly_increases(n, 31);
    lemma_spectrum_mass_regroup(walsh_values(t, n), pow2(n), pow2(n) + 1);
}

/// Accumulating over the whole value sequence yields its spectrum.
pub proof fn lemma_spectrum_upto_full(vals: Seq<int>)
    requires
        vals.len() <= usize::MAX,
        forall|w: int| 0 <= w < vals.len() ==> abs(#[trigger] vals[w]) <= u32::MAX,
    ensures
        spectrum_upto(vals, vals.len()) == abs_spectrum(vals),
{
    lemma_spectrum_upto_char(vals, vals.len());
    let m = spectrum_upto(vals, vals.len());
    let s = abs_spectrum(vals);
    assert forall|v: u32| m.contains_key(v) implies s.contains_key(v) && m[v] == s[v] by {
        assert(exists|w: int| 0 <= w < vals.len() && abs(#[trigger] vals[w]) == v);
    }
    assert forall|v: u32| s.contains_key(v) implies m.contains_key(v) by {
        assert(exists|w: int| 0 <= w < vals.len() && abs(#[trigger] vals[w]) == v);
    }
    assert(m =~= s);
}

} // verus!
