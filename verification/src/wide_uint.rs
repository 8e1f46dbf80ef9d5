//! A 512-bit function number held as its own truth table, wide enough for
//! the 9-variable functions that the ring extension produces.

use vstd::prelude::*;

verus! {

use crate::bits::const_seq;
use crate::bits::seq_not;
use crate::bits::idx_bit;
use crate::bits::lemma_u64_bit_is_idx_bit;

/// A 512-bit unsigned value, stored bit by bit: entry `x` is bit `x`.
#[derive(Debug, PartialEq, Eq)]
pub struct U512 {
    bits: Vec<bool>,
}

impl View for U512 {
    type V = Seq<bool>;

    closed spec fn view(&self) -> Seq<bool> {
        self.bits@
    }
}

impl U512 {
    /// Every value holds exactly 512 bits.
    #[verifier::type_invariant]
    pub closed spec fn wf(&self) -> bool {
        self.bits@.len() == 512
    }

    /// The all-zero value.
    pub fn zero() -> (r: U512)
        ensures
            r@ == const_seq(512, false),
    {
        let mut bits: Vec<bool> = Vec::new();
        let mut i: usize = 0;
        while i < 512
            invariant
                i <= 512,
                bits@.len() == i,
                forall|j: int| 0 <= j < i ==> !bits@[j],
            decreases 512 - i,
        {
            bits.push(false);
            i = i + 1;
        }
        assert(bits@ =~= const_seq(512, false));
        U512 { bits }
    }

    /// The all-ones value.
    pub fn max_value() -> (r: U512)
        ensures
            r@ == const_seq(512, true),
    {
        let mut bits: Vec<bool> = Vec::new();
        let mut i: usize = 0;
        while i < 512
            invariant
                i <= 512,
                bits@.len() == i,
                forall|j: int| 0 <= j < i ==> bits@[j],
            decreases 512 - i,
        {
            bits.push(true);
            i = i + 1;
        }
        assert(bits@ =~= const_seq(512, true));
        U512 { bits }
    }

    /// Packs eight 64-bit words, least significant first, into a value.
    pub fn from_words(words: &Vec<u64>) -> (r: U512)
        requires
            words@.len() == 8,
        ensures
            r@.len() == 512,
            forall|i: int|
                0 <= i < 512 ==> r@[i] == idx_bit(words@[i / 64] as int, (i % 64) as nat),
    {
        let mut bits: Vec<bool> = Vec::new();
        let mut w: usize = 0;
        while w < 8
            invariant
                words@.len() == 8,
                w <= 8,
                bits@.len() == 64 * w,
                forall|i: int|
                    0 <= i < 64 * w ==> bits@[i] == idx_bit(words@[i / 64] as int, (i % 64) as nat),
            decreases 8 - w,
        {
            let word = words[w];
            let mut j: usize = 0;
            while j < 64
                invariant
                    words@.len() == 8,
                    w < 8,
                    word == words@[w as int],
                    j <= 64,
                    bits@.len() == 64 * w + j,
                    forall|i: int|
                        0 <= i < 64 * w ==> bits@[i] == idx_bit(
                            words@[i / 64] as int,
                            (i % 64) as nat,
                        ),
                    forall|i: int|
                        64 * w <= i < 64 * w + j ==> bits@[i] == idx_bit(
                            word as int,
                            (i - 64 * w) as nat,
                        ),
                decreases 64 - j,
            {
                proof {
                    lemma_u64_bit_is_idx_bit(word, j as nat);
                }
                bits.push((word >> (j as u64)) & 1u64 == 1u64);
                j = j + 1;
            }
            proof {
                assert forall|i: int| 64 * w <= i < 64 * (w + 1) implies bits@[i] == idx_bit(
                    words@[i / 64] as int,
                    (i % 64) as nat,
                ) by {
                    vstd::arithmetic::div_mod::lemma_fundamental_div_mod_converse(
                        i,
                        64,
                        w as int,
                        i - 64 * w,
                    );
                }
            }
            w = w + 1;
        }
        U512 { bits }
    }

    /// Wraps a full 512-entry truth table.
    pub fn from_table(bits: Vec<bool>) -> (r: U512)
        requires
            bits@.len() == 512,
        ensures
            r@ == bits@,
    {
        U512 { bits }
    }

    /// The truth table held by this value: always 512 entries.
    pub fn table(&self) -> (t: &Vec<bool>)
        ensures
            t@ == self@,
            t@.len() == 512,
    {
        proof {
            use_type_invariant(self);
        }
        &self.bits
    }

    /// The bitwise complement.
    pub fn complement(&self) -> (r: U512)
        ensures
            r@ == seq_not(self@),
    {
        proof {
            use_type_invariant(self);
        }
        let bits = crate::engine::complement_table(&self.bits);
        U512 { bits }
    }
}

} // verus!
