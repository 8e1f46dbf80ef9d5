//! The property tester for 5-variable functions, whose truth tables pack
//! into a single 32-bit function number.

use vstd::prelude::*;

verus! {

use std::collections::HashMap;
use vstd::arithmetic::power2::lemma2_to64;
use crate::BooleanFunctionTester;
use crate::bits::u32_table;
use crate::bits::seq_not;
use crate::anf::anf_spec;
use crate::walsh::ac_spec;
use crate::walsh::ac_values;
use crate::walsh::abs_spectrum;
use crate::engine::u32_to_table;

pub struct U32Tester;

/// Relies on fast_boolean_anf_transform::fast_bool_anf_transform_unsigned:
/// called on a `u32` with five variables, it performs over the 32 bit
/// positions exactly the blockwise XOR convolution of `anf_spec` — `n`
/// passes of doubling block size, the source half of each block XORed into
/// the target half — and no release-mode input can make it panic.
#[verifier::external_body]
fn anf_transform_u32(rule_number: u32, num_variables_function: usize) -> (r: u32)
    requires
        num_variables_function == 5,
    ensures
        u32_table(r) == anf_spec(u32_table(rule_number), 5),
{
    fast_boolean_anf_transform::fast_bool_anf_transform_unsigned(
        rule_number,
        num_variables_function,
    )
}

impl BooleanFunctionTester for U32Tester {
    type UnsignedRepr = u32;

    open spec fn spec_num_variables() -> nat {
        5
    }

    open spec fn spec_table(rule_number: &u32) -> Seq<bool> {
        u32_table(*rule_number)
    }

    fn fast_bool_anf_transform_unsigned(rule_number: &u32, num_variables_function: usize) -> (r:
        u32) {
        anf_transform_u32(*rule_number, num_variables_function)
    }

    fn get_function_degree(rule_number: &u32) -> (d: usize) {
        let anf_form = Self::fast_bool_anf_transform_unsigned(rule_number, 5);
        let anf_table = u32_to_table(anf_form);
        proof {
            lemma2_to64();
        }
        crate::engine::deg_scan_table(&anf_table, 5)
    }

    fn is_strict_avalanche_criterion_ok(rule_number: &u32) -> (b: bool) {
        let t = u32_to_table(*rule_number);
        proof {
            lemma2_to64();
        }
        crate::engine::sac_table(&t, 5)
    }

    fn compute_cellular_automata_rule(rule_number: &u32, input_bits: u32) -> (b: bool) {
        let t = u32_to_table(*rule_number);
        proof {
            lemma2_to64();
        }
        crate::engine::evaluate_table(&t, input_bits as usize)
    }

    fn is_function_balanced(rule_number: &u32) -> (b: bool) {
        let t = u32_to_table(*rule_number);
        let w = crate::engine::weight_table(&t);
        proof {
            lemma2_to64();
        }
        w == 16
    }

    fn is_first_order_correlation_immune(rule_number: &u32) -> (b: bool) {
        let t = u32_to_table(*rule_number);
        proof {
            lemma2_to64();
        }
        crate::engine::ci1_table(&t, 5)
    }

    fn fast_walsh_transform(rule_number: &u32, w: u32) -> (r: i32) {
        let t = u32_to_table(*rule_number);
        proof {
            lemma2_to64();
        }
        crate::engine::walsh_table(&t, 5, w)
    }

    fn absolute_walsh_spectrum(rule_number: &u32) -> (m: HashMap<u32, usize>) {
        let t = u32_to_table(*rule_number);
        proof {
            lemma2_to64();
        }
        crate::engine::walsh_spectrum_table(&t, 5)
    }

    fn is_propagation_criterion_deg_k_ok(rule_number: &u32, k: usize) -> (b: bool) {
        let t = u32_to_table(*rule_number);
        proof {
            lemma2_to64();
        }
        crate::engine::prop_criterion_table(&t, 5, k)
    }

    fn is_function_linear(rule_number: &u32) -> (b: bool) {
        let t = u32_to_table(*rule_number);
        proof {
            lemma2_to64();
        }
        crate::engine::linear_table(&t, 5)
    }
}

impl U32Tester {
    /// The autocorrelation of the function at offset `w`: the signed count
    /// of inputs on which the function agrees with its shift by `w`.
    pub fn fast_auto_correlation_transform(rule_number: &u32, w: u32) -> (r: i32)
        requires
            w < 32,
        ensures
            r == ac_spec(u32_table(*rule_number), 5, w),
    {
        let t = u32_to_table(*rule_number);
        proof {
            lemma2_to64();
        }
        crate::engine::autocorrelation_table(&t, 5, w)
    }

    /// The multiset of absolute autocorrelation values over all offsets, as
    /// a map from magnitude to count.
    pub fn absolute_autocorrelation_spectrum(rule_number: &u32) -> (m: HashMap<u32, usize>)
        ensures
            m@ == abs_spectrum(ac_values(u32_table(*rule_number), 5)),
    {
        let t = u32_to_table(*rule_number);
        proof {
            lemma2_to64();
        }
        crate::engine::ac_spectrum_table(&t, 5)
    }

    /// The bitwise complement of a function number.
    pub fn reverse_function(rule_number: u32) -> (r: u32)
        ensures
            u32_table(r) == seq_not(u32_table(rule_number)),
    {
        let r = !rule_number;
        proof {
            assert forall|i: int| 0 <= i < 32 implies u32_table(r)[i] == !u32_table(rule_number)[i]
                by {
                let j = i as u32;
                let v = rule_number;
                assert((((!v) >> j) & 1u32 == 1u32) == !((v >> j) & 1u32 == 1u32))
                    by (bit_vector)
                    requires
                        j < 32u32,
                ;
            }
            assert(u32_table(r) =~= seq_not(u32_table(rule_number)));
        }
        r
    }
}

} // verus!

