//! The ring extension: a 5-variable rule applied as a local update to every
//! cell of a nine-cell ring for two synchronous rounds; reading one fixed
//! cell over all `2^9` initial rings yields a 9-variable function.

use vstd::prelude::*;

verus! {

use vstd::arithmetic::power2::pow2;
use vstd::arithmetic::power2::lemma_pow2_adds;
use vstd::arithmetic::power2::lemma_pow2_pos;
use vstd::arithmetic::power2::lemma2_to64;
use vstd::bits::lemma_usize_shl_is_mul;
use vstd::bits::lemma_usize_pow2_no_overflow;
use crate::bits::u32_table;
use crate::bits::idx_bit;
use crate::bits::lemma_usize_bit_is_idx_bit;
use crate::wide_uint::U512;

/// The five-bit neighbourhood of ring cell `p`, most significant bit first
/// from relative offsets -2, -1, 0, +1, +2, indices taken cyclically.
pub open spec fn neighborhood_index(ring: Seq<bool>, p: int) -> int {
    let len = ring.len() as int;
    (if ring[(p + len - 2) % len] {
        16int
    } else {
        0int
    }) + (if ring[(p + len - 1) % len] {
        8int
    } else {
        0int
    }) + (if ring[p] {
        4int
    } else {
        0int
    }) + (if ring[(p + 1) % len] {
        2int
    } else {
        0int
    }) + (if ring[(p + 2) % len] {
        1int
    } else {
        0int
    })
}

/// One synchronous round: every cell is replaced by the rule's output on its
/// neighbourhood, all cells read from the pre-round ring.
pub open spec fn next_ring_spec(rule: Seq<bool>, ring: Seq<bool>) -> Seq<bool> {
    Seq::new(ring.len(), |p: int| rule[neighborhood_index(ring, p)])
}

/// Truth-table index `i` decoded into ring cells, least significant bit
/// first.
pub open spec fn ring_of_index(i: int, len: nat) -> Seq<bool> {
    Seq::new(len as nat, |j: int| idx_bit(i, j as nat))
}

/// The packed value of a cell list, least significant bit first.
pub open spec fn index_of_bits(s: Seq<bool>) -> int
    decreases s.len(),
{
    if s.len() == 0 {
        0
    } else {
        index_of_bits(s.drop_last()) + (if s.last() {
            pow2((s.len() - 1) as nat) as int
        } else {
            0int
        })
    }
}

/// The 9-variable function obtained by running the 5-variable rule for two
/// rounds over every initial nine-cell ring and reading the middle cell.
pub open spec fn extend_spec(rule: Seq<bool>) -> Seq<bool> {
    Seq::new(
        512,
        |i: int| next_ring_spec(rule, next_ring_spec(rule, ring_of_index(i, 9)))[4],
    )
}

/// The rule's output bit for one packed five-bit neighbourhood.
pub fn compute_ca_rule(rule_number: u32, input_bits: u8) -> (b: bool)
    requires
        input_bits < 32,
    ensures
        b == u32_table(rule_number)[input_bits as int],
{
    let b = (rule_number & (1u32 << (input_bits as u32))) != 0;
    proof {
        let x = input_bits as u32;
        let v = rule_number;
        assert(((v & (1u32 << x)) != 0) == ((v >> x) & 1u32 == 1u32)) by (bit_vector)
            requires
                x < 32u32,
        ;
    }
    b
}

/// One synchronous update round of the nine-cell ring.
pub fn get_new_ring(ring: &Vec<bool>, rule_number: u32) -> (new_ring: Vec<bool>)
    requires
        ring@.len() == 9,
    ensures
        new_ring@ == next_ring_spec(u32_table(rule_number), ring@),
{
    let mut new_ring: Vec<bool> = Vec::new();
    let mut p: usize = 0;
    while p < 9
        invariant
            ring@.len() == 9,
            p <= 9,
            new_ring@.len() == p,
            forall|q: int|
                0 <= q < p ==> new_ring@[q] == next_ring_spec(u32_table(rule_number), ring@)[q],
        decreases 9 - p,
    {
        let mut input_bits: u8 = 0;
        if ring[(p + 7) % 9] {
            input_bits = input_bits + 16;
        }
        if ring[(p + 8) % 9] {
            input_bits = input_bits + 8;
        }
        if ring[p] {
            input_bits = input_bits + 4;
        }
        if ring[(p + 1) % 9] {
            input_bits = input_bits + 2;
        }
        if ring[(p + 2) % 9] {
            input_bits = input_bits + 1;
        }
        assert(input_bits as int == neighborhood_index(ring@, p as int));
        new_ring.push(compute_ca_rule(rule_number, input_bits));
        p = p + 1;
    }
    assert(new_ring@ =~= next_ring_spec(u32_table(rule_number), ring@));
    new_ring
}

/// Decodes the low `len` bits of a number into a cell list, least
/// significant bit first.
pub fn unsigned_to_bool_array(number: usize, len: usize) -> (bits: Vec<bool>)
    requires
        len < 32,
    ensures
        bits@ == ring_of_index(number as int, len as nat),
{
    let mut bits: Vec<bool> = Vec::new();
    let mut i: usize = 0;
    while i < len
        invariant
            len < 32,
            i <= len,
            bits@.len() == i,
            forall|j: int| 0 <= j < i ==> bits@[j] == idx_bit(number as int, j as nat),
        decreases len - i,
    {
        proof {
            lemma_usize_bit_is_idx_bit(number, i as nat);
        }
        bits.push((number >> i) & 1usize == 1usize);
        i = i + 1;
    }
    assert(bits@ =~= ring_of_index(number as int, len as nat));
    bits
}

/// Packs a cell list back into a number, least significant bit first.
pub fn bool_array_to_unsigned(bits: &Vec<bool>) -> (number: usize)
    requires
        bits@.len() < 32,
    ensures
        number as int == index_of_bits(bits@),
{
    let mut number: usize = 0;
    let mut i: usize = 0;
    proof {
        lemma_pow2_pos(0);
    }
    while i < bits.len()
        invariant
            bits@.len() < 32,
            i <= bits@.len(),
            number as int == index_of_bits(bits@.take(i as int)),
            number < pow2(i as nat),
        decreases bits@.len() - i,
    {
        proof {
            assert(bits@.take(i as int + 1).drop_last() =~= bits@.take(i as int));
            assert(bits@.take(i as int + 1).last() == bits@[i as int]);
            lemma_usize_pow2_no_overflow(i as nat);
            lemma_usize_shl_is_mul(1usize, i);
            lemma_pow2_adds(i as nat, 1);
            lemma2_to64();
            assert(pow2((i + 1) as nat) == pow2(i as nat) * 2);
        }
        if bits[i] {
            number = number + (1usize << i);
        }
        i = i + 1;
    }
    assert(bits@.take(bits@.len() as int) =~= bits@);
    number
}

/// Extends a 5-variable rule to the 9-variable function read off the ring:
/// bit `i` of the result is the middle cell after two rounds on the ring
/// decoded from `i`. The result is a pure function of the rule alone, so two
/// calls on the same rule yield bit-identical values.
pub fn extend_rule_5_to_9(rule_number: u32) -> (out: U512)
    ensures
        out@ == extend_spec(u32_table(rule_number)),
{
    let mut out_bits: Vec<bool> = Vec::new();
    let mut i: usize = 0;
    while i < 512
        invariant
            i <= 512,
            out_bits@.len() == i,
            forall|ii: int|
                0 <= ii < i ==> out_bits@[ii] == extend_spec(u32_table(rule_number))[ii],
        decreases 512 - i,
    {
        let input_bits = unsigned_to_bool_array(i, 9);
        let round_1 = get_new_ring(&input_bits, rule_number);
        let round_2 = get_new_ring(&round_1, rule_number);
        out_bits.push(round_2[4]);
        i = i + 1;
    }
    assert(out_bits@ =~= extend_spec(u32_table(rule_number)));
    U512::from_table(out_bits)
}

} // verus!
