//! The property tester for 9-variable functions, whose truth tables need a
//! 512-bit function number.

use vstd::prelude::*;

verus! {

use std::collections::HashMap;
use vstd::arithmetic::power2::lemma2_to64;
use crate::BooleanFunctionTester;
use crate::bits::seq_not;
use crate::walsh::ac_spec;
use crate::walsh::ac_values;
use crate::walsh::abs_spectrum;
use crate::wide_uint::U512;

pub struct U512Tester;

impl BooleanFunctionTester for U512Tester {
    type UnsignedRepr = U512;

    open spec fn spec_num_variables() -> nat {
        9
    }

    open spec fn spec_table(rule_number: &U512) -> Seq<bool> {
        rule_number@
    }

    fn fast_bool_anf_transform_unsigned(rule_number: &U512, num_variables_function: usize) -> (r:
        U512) {
        let t = rule_number.table();
        proof {
            lemma2_to64();
        }
        let anf_table = crate::engine::anf_transform_table(t, 9);
        proof {
            crate::anf::lemma_anf_passes_len(t@, 9);
        }
        U512::from_table(anf_table)
    }

    fn get_function_degree(rule_number: &U512) -> (d: usize) {
        let anf_form = Self::fast_bool_anf_transform_unsigned(rule_number, 9);
        let anf_table = anf_form.table();
        proof {
            lemma2_to64();
        }
        crate::engine::deg_scan_table(anf_table, 9)
    }

    fn is_strict_avalanche_criterion_ok(rule_number: &U512) -> (b: bool) {
        let t = rule_number.table();
        proof {
            lemma2_to64();
        }
        crate::engine::sac_table(t, 9)
    }

    fn compute_cellular_automata_rule(rule_number: &U512, input_bits: u32) -> (b: bool) {
        let t = rule_number.table();
        proof {
            lemma2_to64();
        }
        crate::engine::evaluate_table(t, input_bits as usize)
    }

    fn is_function_balanced(rule_number: &U512) -> (b: bool) {
        let t = rule_number.table();
        let w = crate::engine::weight_table(t);
        proof {
            lemma2_to64();
        }
        w == 256
    }

    fn is_first_order_correlation_immune(rule_number: &U512) -> (b: bool) {
        let t = rule_number.table();
        proof {
            lemma2_to64();
        }
        crate::engine::ci1_table(t, 9)
    }

    fn fast_walsh_transform(rule_number: &U512, w: u32) -> (r: i32) {
        let t = rule_number.table();
        proof {
            lemma2_to64();
        }
        crate::engine::walsh_table(t, 9, w)
    }

    fn absolute_walsh_spectrum(rule_number: &U512) -> (m: HashMap<u32, usize>) {
        let t = rule_number.table();
        proof {
            lemma2_to64();
        }
        crate::engine::walsh_spectrum_table(t, 9)
    }

    fn is_propagation_criterion_deg_k_ok(rule_number: &U512, k: usize) -> (b: bool) {
        let t = rule_number.table();
        proof {
            lemma2_to64();
        }
        crate::engine::prop_criterion_table(t, 9, k)
    }

    fn is_function_linear(rule_number: &U512) -> (b: bool) {
        let t = rule_number.table();
        proof {
            lemma2_to64();
        }
        crate::engine::linear_table(t, 9)
    }
}

impl U512Tester {
    /// The autocorrelation of the function at offset `w`.
    pub fn fast_auto_correlation_transform(rule_number: &U512, w: u32) -> (r: i32)
        requires
            w < 512,
        ensures
            r == ac_spec(rule_number@, 9, w),
    {
        let t = rule_number.table();
        proof {
            lemma2_to64();
        }
        crate::engine::autocorrelation_table(t, 9, w)
    }

    /// The multiset of absolute autocorrelation values over all offsets.
    pub fn absolute_autocorrelation_spectrum(rule_number: &U512) -> (m: HashMap<u32, usize>)
        ensures
            m@ == abs_spectrum(ac_values(rule_number@, 9)),
    {
        let t = rule_number.table();
        proof {
            lemma2_to64();
        }
        crate::engine::ac_spectrum_table(t, 9)
    }

    /// The bitwise complement of a function number.
    pub fn reverse_function(rule_number: &U512) -> (r: U512)
        ensures
            r@ == seq_not(rule_number@),
    {
        rule_number.complement()
    }
}

} // verus!
