//! The width-generic property engine: every algorithm runs on a truth table
//! held as a vector of `2^n` booleans, so the same verified code serves both
//! the 32-bit and the 512-bit testers.

use vstd::prelude::*;

verus! {

use vstd::arithmetic::power2::pow2;
use vstd::arithmetic::power2::lemma_pow2_pos;
use vstd::arithmetic::power2::lemma_pow2_adds;
use vstd::arithmetic::power2::lemma_pow2_strictly_increases;
use vstd::arithmetic::power2::lemma2_to64;
use vstd::bits::lemma_usize_shl_is_mul;
use vstd::bits::lemma_usize_pow2_no_overflow;
use crate::bits::u32_table;
use crate::bits::popcount;
use crate::bits::pop_bits;
use crate::bits::count_true;
use crate::bits::weight;
use crate::bits::seq_not;
use crate::bits::single_bit;
use crate::bits::idx_bit;
use crate::bits::lemma_count_true_le;
use crate::bits::lemma_xor_bound;
use crate::bits::lemma_u32_bit_is_idx_bit;
use crate::bits::lemma_single_bit_is_pow2;
use crate::bits::lemma_idx_bit_ge;
use crate::anf::anf_pass;
use crate::anf::anf_passes;
use crate::anf::anf_spec;
use crate::anf::deg_scan;
use crate::walsh::dot;
use crate::walsh::walsh_sum;
use crate::walsh::walsh_spec;
use crate::walsh::ac_sum;
use crate::walsh::ac_spec;
use crate::props::agree_count;
use crate::props::mask_of;
use crate::props::is_index_subset;
use crate::walsh::walsh_values;
use crate::walsh::ac_values;
use crate::walsh::abs_spectrum;
use crate::walsh::abs_count;
use crate::walsh::spectrum_upto;
use crate::walsh::lemma_spectrum_upto_char;
use crate::walsh::lemma_spectrum_upto_full;
use crate::walsh::lemma_abs_count_le;
use crate::props::recon_bit;
use crate::props::xor_recon;
use vstd::math::abs;
use std::collections::HashMap;

broadcast use vstd::std_specs::hash::group_hash_axioms;

/// The transform values of a vector, widened to mathematical integers.
pub open spec fn int_values(vals: Seq<i32>) -> Seq<int> {
    Seq::new(vals.len(), |i: int| vals[i] as int)
}

/// A well-formed table for `n` variables: `2^n` entries, with `n` small
/// enough that every index fits comfortably in the machine types used here.
pub open spec fn table_wf(t: Seq<bool>, n: nat) -> bool {
    t.len() == pow2(n) && 1 <= n <= 16
}

/// The domain size `2^n` is small on any platform this library targets.
pub proof fn lemma_table_size(n: nat)
    requires
        1 <= n <= 16,
    ensures
        0 < pow2(n) <= 65536,
{
    lemma_pow2_pos(n);
    lemma2_to64();
    if n < 16 {
        lemma_pow2_strictly_increases(n, 16);
    }
}

/// An independent copy of a table.
pub fn copy_table(t: &Vec<bool>) -> (r: Vec<bool>)
    ensures
        r@ == t@,
{
    let mut r: Vec<bool> = Vec::new();
    let mut i: usize = 0;
    while i < t.len()
        invariant
            i <= t@.len(),
            r@.len() == i,
            forall|j: int| 0 <= j < i ==> r@[j] == t@[j],
        decreases t@.len() - i,
    {
        r.push(t[i]);
        i = i + 1;
    }
    assert(r@ =~= t@);
    r
}

/// Unpacks a 32-bit function number into its truth table.
pub fn u32_to_table(r: u32) -> (t: Vec<bool>)
    ensures
        t@ == u32_table(r),
{
    let mut t: Vec<bool> = Vec::new();
    let mut x: u32 = 0;
    while x < 32
        invariant
            x <= 32,
            t@.len() == x,
            forall|i: int| 0 <= i < x ==> t@[i] == u32_table(r)[i],
        decreases 32 - x,
    {
        t.push((r >> x) & 1u32 == 1u32);
        x = x + 1;
    }
    assert(t@ =~= u32_table(r));
    t
}

/// Looks a table entry up, masking the input into the domain: the entry at
/// `x` modulo the table size.
pub fn evaluate_table(t: &Vec<bool>, x: usize) -> (b: bool)
    requires
        t@.len() >= 1,
    ensures
        b == t@[(x as int) % (t@.len() as int)],
{
    t[x % t.len()]
}

/// Number of set entries of a table.
pub fn weight_table(t: &Vec<bool>) -> (c: usize)
    ensures
        c == weight(t@),
{
    let mut c: usize = 0;
    let mut i: usize = 0;
    while i < t.len()
        invariant
            i <= t@.len(),
            c == count_true(t@, i as nat),
        decreases t@.len() - i,
    {
        proof {
            lemma_count_true_le(t@, i as nat);
        }
        if t[i] {
            c = c + 1;
        }
        i = i + 1;
    }
    c
}

/// Number of set bits of a 32-bit value.
pub fn popcount32(v: u32) -> (c: u32)
    ensures
        c == popcount(v),
{
    let mut c: u32 = 0;
    let mut j: u32 = 0;
    while j < 32
        invariant
            j <= 32,
            c == pop_bits(v, j as nat),
            c <= j,
        decreases 32 - j,
    {
        if (v >> j) & 1u32 == 1u32 {
            c = c + 1;
        }
        j = j + 1;
    }
    c
}

/// The Walsh coefficient of the table at frequency `w`: the signed count of
/// inputs on which the table agrees with the linear form given by `w`.
pub fn walsh_table(t: &Vec<bool>, n: usize, w: u32) -> (r: i32)
    requires
        table_wf(t@, n as nat),
    ensures
        r == walsh_spec(t@, n as nat, w),
{
    proof {
        lemma_table_size(n as nat);
    }
    let len = t.len();
    let mut r: i32 = 0;
    let mut x: usize = 0;
    while x < len
        invariant
            table_wf(t@, n as nat),
            len == t@.len(),
            len <= 65536,
            x <= len,
            -(x as int) <= r as int <= x as int,
            r == walsh_sum(t@, w, x as nat),
        decreases len - x,
    {
        let p = popcount32(w & (x as u32));
        let agree = t[x] == (p % 2 == 1);
        proof {
            assert((x as u32) as int == x as int);
            assert(dot(w, x as u32) == (popcount(w & (x as u32)) % 2 == 1));
        }
        if agree {
            r = r + 1;
        } else {
            r = r - 1;
        }
        x = x + 1;
    }
    r
}

/// The autocorrelation of the table at offset `w`: the signed count of
/// inputs on which the table agrees with its shift by `w`.
pub fn autocorrelation_table(t: &Vec<bool>, n: usize, w: u32) -> (r: i32)
    requires
        table_wf(t@, n as nat),
        w < pow2(n as nat),
    ensures
        r == ac_spec(t@, n as nat, w),
{
    proof {
        lemma_table_size(n as nat);
    }
    let len = t.len();
    let mut r: i32 = 0;
    let mut x: usize = 0;
    while x < len
        invariant
            table_wf(t@, n as nat),
            w < pow2(n as nat),
            len == t@.len(),
            len <= 65536,
            x <= len,
            -(x as int) <= r as int <= x as int,
            r == ac_sum(t@, w, x as nat),
        decreases len - x,
    {
        proof {
            lemma_xor_bound(x as u32, w, n as nat);
        }
        let y = ((x as u32) ^ w) as usize;
        let agree = t[x] == t[y];
        if agree {
            r = r + 1;
        } else {
            r = r - 1;
        }
        x = x + 1;
    }
    r
}

/// The ANF transform: `n` passes of the XOR convolution, each pass rebuilt
/// from the previous one on an independent working copy.
pub fn anf_transform_table(t: &Vec<bool>, n: usize) -> (r: Vec<bool>)
    requires
        table_wf(t@, n as nat),
    ensures
        r@ == anf_spec(t@, n as nat),
{
    proof {
        lemma_table_size(n as nat);
    }
    let len = t.len();
    let mut cur = copy_table(t);
    let mut p: usize = 0;
    while p < n
        invariant
            table_wf(t@, n as nat),
            len == t@.len(),
            len <= 65536,
            p <= n,
            cur@ == anf_passes(t@, p as nat),
            cur@.len() == len,
        decreases n - p,
    {
        proof {
            lemma_usize_pow2_no_overflow(p as nat);
            lemma_usize_shl_is_mul(1usize, p as usize);
        }
        let block = 1usize << p;
        assert(block == pow2(p as nat));
        let mut next: Vec<bool> = Vec::new();
        let mut x: usize = 0;
        while x < len
            invariant
                len == cur@.len(),
                len <= 65536,
                x <= len,
                p < n <= 16,
                block == pow2(p as nat),
                next@.len() == x,
                forall|i: int| 0 <= i < x ==> next@[i] == anf_pass(cur@, p as nat)[i],
            decreases len - x,
        {
            proof {
                lemma_u32_bit_is_idx_bit(x as u32, p as nat);
                assert((x as u32) as int == x as int);
                if idx_bit(x as int, p as nat) {
                    lemma_idx_bit_ge(x as int, p as nat);
                }
            }
            let bit = if ((x as u32) >> (p as u32)) & 1u32 == 1u32 {
                cur[x] != cur[x - block]
            } else {
                cur[x]
            };
            next.push(bit);
            x = x + 1;
        }
        assert(next@ =~= anf_pass(cur@, p as nat));
        cur = next;
        p = p + 1;
    }
    cur
}

/// The largest Hamming weight among monomial indices with a set ANF
/// coefficient; 0 when the coefficient table is all clear.
pub fn deg_scan_table(a: &Vec<bool>, n: usize) -> (d: usize)
    requires
        table_wf(a@, n as nat),
    ensures
        d == deg_scan(a@, pow2(n as nat)),
{
    proof {
        lemma_table_size(n as nat);
    }
    let len = a.len();
    let mut d: usize = 0;
    let mut m: usize = 0;
    while m < len
        invariant
            table_wf(a@, n as nat),
            len == a@.len(),
            len <= 65536,
            m <= len,
            d == deg_scan(a@, m as nat),
        decreases len - m,
    {
        if a[m] {
            let p = popcount32(m as u32);
            proof {
                assert((m as u32) as nat == m as nat);
                crate::bits::lemma_pop_bits_le(m as u32, 32);
            }
            if p as usize > d {
                d = p as usize;
            }
        }
        m = m + 1;
    }
    d
}

/// The pointwise complement of a table.
pub fn complement_table(t: &Vec<bool>) -> (r: Vec<bool>)
    ensures
        r@ == seq_not(t@),
{
    let mut r: Vec<bool> = Vec::new();
    let mut i: usize = 0;
    while i < t.len()
        invariant
            i <= t@.len(),
            r@.len() == i,
            forall|j: int| 0 <= j < i ==> r@[j] == !t@[j],
        decreases t@.len() - i,
    {
        r.push(!t[i]);
        i = i + 1;
    }
    assert(r@ =~= seq_not(t@));
    r
}

/// Whether two equal-length tables hold the same entries.
pub fn tables_equal(a: &Vec<bool>, b: &Vec<bool>) -> (r: bool)
    requires
        a@.len() == b@.len(),
    ensures
        r == (a@ == b@),
{
    let mut i: usize = 0;
    while i < a.len()
        invariant
            i <= a@.len(),
            a@.len() == b@.len(),
            forall|j: int| 0 <= j < i ==> a@[j] == b@[j],
        decreases a@.len() - i,
    {
        if a[i] != b[i] {
            return false;
        }
        i = i + 1;
    }
    assert(a@ =~= b@);
    true
}

/// Number of inputs on which the table agrees with its shift by the flip
/// mask `c`.
pub fn agree_count_table(t: &Vec<bool>, n: usize, c: u32) -> (cnt: usize)
    requires
        table_wf(t@, n as nat),
        c < pow2(n as nat),
    ensures
        cnt == agree_count(t@, c, pow2(n as nat)),
{
    proof {
        lemma_table_size(n as nat);
    }
    let len = t.len();
    let mut cnt: usize = 0;
    let mut x: usize = 0;
    while x < len
        invariant
            table_wf(t@, n as nat),
            c < pow2(n as nat),
            len == t@.len(),
            len <= 65536,
            x <= len,
            cnt <= x,
            cnt == agree_count(t@, c, x as nat),
        decreases len - x,
    {
        proof {
            lemma_xor_bound(x as u32, c, n as nat);
        }
        let y = ((x as u32) ^ c) as usize;
        if t[x] == t[y] {
            cnt = cnt + 1;
        }
        x = x + 1;
    }
    cnt
}

/// Half of the table's domain, the agreement count a balanced derivative
/// must reach.
pub fn half_domain(t: &Vec<bool>, n: usize) -> (h: usize)
    requires
        table_wf(t@, n as nat),
    ensures
        h == pow2((n - 1) as nat),
{
    proof {
        lemma_table_size(n as nat);
        lemma_pow2_adds((n - 1) as nat, 1);
        lemma2_to64();
        assert(pow2(n as nat) == pow2((n - 1) as nat) * 2);
    }
    t.len() / 2
}

/// The strict avalanche criterion: every single-bit flip leaves the output
/// unchanged on exactly half of all inputs.
pub fn sac_table(t: &Vec<bool>, n: usize) -> (r: bool)
    requires
        table_wf(t@, n as nat),
    ensures
        r == crate::props::sac_spec(t@, n as nat),
{
    let half = half_domain(t, n);
    let mut j: usize = 0;
    while j < n
        invariant
            table_wf(t@, n as nat),
            half == pow2((n - 1) as nat),
            j <= n,
            forall|jj: nat|
                jj < j ==> agree_count(t@, #[trigger] single_bit(jj), pow2(n as nat)) == pow2(
                    (n - 1) as nat,
                ),
        decreases n - j,
    {
        proof {
            lemma_single_bit_is_pow2(j as nat);
            lemma_pow2_strictly_increases(j as nat, n as nat);
        }
        let c = 1u32 << (j as u32);
        assert(c == single_bit(j as nat));
        let cnt = agree_count_table(t, n, c);
        if cnt != half {
            assert(!crate::props::sac_spec(t@, n as nat)) by {
                assert(agree_count(t@, single_bit(j as nat), pow2(n as nat)) != pow2(
                    (n - 1) as nat,
                ));
            }
            return false;
        }
        j = j + 1;
    }
    true
}

/// The absolute-value spectrum of a vector of transform values: each
/// magnitude that occurs, mapped to its number of occurrences.
pub fn abs_spectrum_exec(vals: &Vec<i32>) -> (m: HashMap<u32, usize>)
    ensures
        m@ == abs_spectrum(int_values(vals@)),
{
    let ghost ivals = int_values(vals@);
    let mut m: HashMap<u32, usize> = HashMap::new();
    let mut w: usize = 0;
    while w < vals.len()
        invariant
            w <= vals@.len(),
            ivals == int_values(vals@),
            m@ == spectrum_upto(ivals, w as nat),
        decreases vals@.len() - w,
    {
        let v = vals[w];
        let vabs: u32 = if v >= 0 {
            v as u32
        } else {
            (-(v as i64)) as u32
        };
        proof {
            assert(ivals[w as int] == v as int);
            assert(vabs == abs(ivals[w as int]) as u32);
            assert(forall|i: int| 0 <= i < w ==> abs(#[trigger] ivals[i]) <= u32::MAX);
            lemma_spectrum_upto_char(ivals, w as nat);
        }
        let prev = m.get(&vabs);
        match prev {
            Some(c) => {
                let c0 = *c;
                proof {
                    assert(m@.contains_key(vabs));
                    assert(c0 == m@[vabs]);
                    assert(c0 == abs_count(ivals, vabs, w as nat));
                    lemma_abs_count_le(ivals, vabs, w as nat);
                }
                m.insert(vabs, c0 + 1);
            },
            None => {
                proof {
                    assert(!m@.contains_key(vabs));
                }
                m.insert(vabs, 1);
            },
        }
        w = w + 1;
    }
    proof {
        assert(forall|i: int|
            0 <= i < ivals.len() ==> abs(#[trigger] ivals[i]) <= u32::MAX);
        lemma_spectrum_upto_full(ivals);
    }
    m
}

/// The absolute Walsh spectrum of a table: the multiset of magnitudes of all
/// `2^n` Walsh coefficients.
pub fn walsh_spectrum_table(t: &Vec<bool>, n: usize) -> (m: HashMap<u32, usize>)
    requires
        table_wf(t@, n as nat),
    ensures
        m@ == abs_spectrum(walsh_values(t@, n as nat)),
{
    proof {
        lemma_table_size(n as nat);
    }
    let len = t.len();
    let mut vals: Vec<i32> = Vec::new();
    let mut w: usize = 0;
    while w < len
        invariant
            table_wf(t@, n as nat),
            len == t@.len(),
            len <= 65536,
            w <= len,
            vals@.len() == w,
            forall|i: int| 0 <= i < w ==> vals@[i] as int == walsh_values(t@, n as nat)[i],
        decreases len - w,
    {
        let wv = walsh_table(t, n, w as u32);
        vals.push(wv);
        w = w + 1;
    }
    assert(int_values(vals@) =~= walsh_values(t@, n as nat));
    abs_spectrum_exec(&vals)
}

/// The absolute autocorrelation spectrum of a table: the multiset of
/// magnitudes of all `2^n` autocorrelation values.
pub fn ac_spectrum_table(t: &Vec<bool>, n: usize) -> (m: HashMap<u32, usize>)
    requires
        table_wf(t@, n as nat),
    ensures
        m@ == abs_spectrum(ac_values(t@, n as nat)),
{
    proof {
        lemma_table_size(n as nat);
    }
    let len = t.len();
    let mut vals: Vec<i32> = Vec::new();
    let mut w: usize = 0;
    while w < len
        invariant
            table_wf(t@, n as nat),
            len == t@.len(),
            len <= 65536,
            w <= len,
            vals@.len() == w,
            forall|i: int| 0 <= i < w ==> vals@[i] as int == ac_values(t@, n as nat)[i],
        decreases len - w,
    {
        let av = autocorrelation_table(t, n, w as u32);
        vals.push(av);
        w = w + 1;
    }
    assert(int_values(vals@) =~= ac_values(t@, n as nat));
    abs_spectrum_exec(&vals)
}

/// Builds the linear-by-construction table whose single-variable
/// coefficients are read from `c`, and compares `c` with it and with its
/// complement.
fn linear_candidate(c: &Vec<bool>, n: usize) -> (r: bool)
    requires
        table_wf(c@, n as nat),
    ensures
        r == crate::props::linear_candidate_matches(c@, n as nat),
{
    proof {
        lemma_table_size(n as nat);
    }
    let len = c.len();
    let mut recon: Vec<bool> = Vec::new();
    let mut i: usize = 0;
    while i < len
        invariant
            table_wf(c@, n as nat),
            len == c@.len(),
            len <= 65536,
            i <= len,
            recon@.len() == i,
            forall|ii: int| 0 <= ii < i ==> recon@[ii] == xor_recon(c@, n as nat)[ii],
        decreases len - i,
    {
        let mut acc = false;
        let mut j: usize = 0;
        while j < n
            invariant
                table_wf(c@, n as nat),
                len == c@.len(),
                len <= 65536,
                i < len,
                j <= n,
                acc == recon_bit(c@, j as nat, i as int),
            decreases n - j,
        {
            proof {
                lemma_single_bit_is_pow2(j as nat);
                lemma_pow2_strictly_increases(j as nat, n as nat);
                lemma_usize_pow2_no_overflow(j as nat);
                lemma_usize_shl_is_mul(1usize, j);
                lemma_u32_bit_is_idx_bit(i as u32, j as nat);
                assert((i as u32) as int == i as int);
            }
            let cj = c[1usize << j];
            let clear = ((i as u32) >> (j as u32)) & 1u32 != 1u32;
            acc = acc != (cj && clear);
            j = j + 1;
        }
        recon.push(acc);
        i = i + 1;
    }
    assert(recon@ =~= xor_recon(c@, n as nat));
    if tables_equal(c, &recon) {
        return true;
    }
    let nrecon = complement_table(&recon);
    tables_equal(c, &nrecon)
}

/// Whether the table is linear: it or its complement equals its own
/// reconstruction from single-variable coefficients, up to complement.
pub fn linear_table(t: &Vec<bool>, n: usize) -> (r: bool)
    requires
        table_wf(t@, n as nat),
    ensures
        r == crate::props::linear_spec(t@, n as nat),
{
    if linear_candidate(t, n) {
        return true;
    }
    let comp = complement_table(t);
    linear_candidate(&comp, n)
}

/// The propagation criterion of degree `k`: trivial for `k == 0`, the strict
/// avalanche criterion for `k == 1`, and for larger `k` the avalanche check
/// followed by the balanced-derivative check for every flip built from 2 up
/// to `k` variables.
pub fn prop_criterion_table(t: &Vec<bool>, n: usize, k: usize) -> (r: bool)
    requires
        table_wf(t@, n as nat),
    ensures
        r == crate::props::prop_spec(t@, n as nat, k as nat),
{
    if k == 0 {
        return true;
    }
    let sac = sac_table(t, n);
    if k == 1 {
        return sac;
    }
    if !sac {
        return false;
    }
    let half = half_domain(t, n);
    let positions = crate::subsets::index_positions(n);
    let mut d: usize = 2;
    while d <= k && d <= n
        invariant
            table_wf(t@, n as nat),
            k >= 2,
            half == pow2((n - 1) as nat),
            positions@.len() == n,
            forall|i: int| 0 <= i < n ==> positions@[i] == i,
            2 <= d <= k + 1,
            d <= n + 1,
            crate::props::sac_spec(t@, n as nat),
            forall|dd: nat, s: Seq<usize>|
                2 <= dd < d && #[trigger] is_index_subset(s, n as nat, dd) ==> agree_count(
                    t@,
                    mask_of(s),
                    pow2(n as nat),
                ) == pow2((n - 1) as nat),
        decreases k + 1 - d,
    {
        let combos = crate::subsets::k_index_subsets(&positions, d);
        let mut ci: usize = 0;
        while ci < combos.len()
            invariant
                table_wf(t@, n as nat),
                half == pow2((n - 1) as nat),
                2 <= d <= n <= 16,
                d <= k,
                ci <= combos@.len(),
                forall|i: int|
                    0 <= i < combos@.len() ==> is_index_subset(
                        (#[trigger] combos@[i])@,
                        n as nat,
                        d as nat,
                    ),
                forall|j: int|
                    0 <= j < ci ==> agree_count(
                        t@,
                        mask_of((#[trigger] combos@[j])@),
                        pow2(n as nat),
                    ) == pow2((n - 1) as nat),
            decreases combos@.len() - ci,
        {
            let combo = &combos[ci];
            assert(is_index_subset(combo@, n as nat, d as nat));
            let mut mask: u32 = 0;
            let mut mi: usize = 0;
            assert(combo@.take(0) =~= Seq::<usize>::empty());
            while mi < combo.len()
                invariant
                    is_index_subset(combo@, n as nat, d as nat),
                    d <= n <= 16,
                    mi <= combo@.len(),
                    mask == mask_of(combo@.take(mi as int)),
                decreases combo@.len() - mi,
            {
                proof {
                    assert(combo@.take(mi as int + 1).drop_last() =~= combo@.take(mi as int));
                    assert(combo@.take(mi as int + 1).last() == combo@[mi as int]);
                }
                let b = combo[mi];
                assert(b < n);
                mask = mask | (1u32 << (b as u32));
                mi = mi + 1;
            }
            assert(combo@.take(combo@.len() as int) =~= combo@);
            proof {
                crate::props::lemma_mask_of_bound(combo@, n as nat);
            }
            let cnt = agree_count_table(t, n, mask);
            if cnt != half {
                assert(!crate::props::prop_spec(t@, n as nat, k as nat)) by {
                    assert(is_index_subset(combo@, n as nat, d as nat));
                    assert(agree_count(t@, mask_of(combo@), pow2(n as nat)) != pow2(
                        (n - 1) as nat,
                    ));
                }
                return false;
            }
            ci = ci + 1;
        }
        proof {
            assert forall|s: Seq<usize>| is_index_subset(s, n as nat, d as nat) implies agree_count(
                t@,
                mask_of(s),
                pow2(n as nat),
            ) == pow2((n - 1) as nat) by {
                let i = choose|i: int|
                    0 <= i < combos@.len() && (#[trigger] combos@[i])@ == s;
                assert(agree_count(t@, mask_of(combos@[i]@), pow2(n as nat)) == pow2(
                    (n - 1) as nat,
                ));
            }
        }
        d = d + 1;
    }
    proof {
        assert forall|dd: nat, s: Seq<usize>|
            2 <= dd <= k && #[trigger] is_index_subset(s, n as nat, dd) implies agree_count(
            t@,
            mask_of(s),
            pow2(n as nat),
        ) == pow2((n - 1) as nat) by {
            if dd >= d {
                crate::props::lemma_index_subset_le(s, n as nat, dd);
                assert(d > n);
                assert(false);
            }
        }
    }
    true
}

/// First-order correlation immunity: every single-variable Walsh coefficient
/// vanishes.
pub fn ci1_table(t: &Vec<bool>, n: usize) -> (r: bool)
    requires
        table_wf(t@, n as nat),
    ensures
        r == crate::walsh::ci1_spec(t@, n as nat),
{
    let mut j: usize = 0;
    while j < n
        invariant
            table_wf(t@, n as nat),
            j <= n,
            forall|jj: nat|
                jj < j ==> walsh_spec(t@, n as nat, #[trigger] single_bit(jj)) == 0,
        decreases n - j,
    {
        let c = 1u32 << (j as u32);
        assert(c == single_bit(j as nat));
        let wv = walsh_table(t, n, c);
        if wv != 0 {
            assert(!crate::walsh::ci1_spec(t@, n as nat)) by {
                assert(walsh_spec(t@, n as nat, single_bit(j as nat)) != 0);
            }
            return false;
        }
        j = j + 1;
    }
    true
}

} // verus!
