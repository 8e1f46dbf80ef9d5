//! A property tester for Boolean functions held as packed truth tables:
//! algebraic degree, balance, avalanche and propagation criteria, correlation
//! immunity, Walsh and autocorrelation spectra, linearity, and a
//! deterministic ring extension from 5-variable to 9-variable functions.

pub mod anf;
pub mod bits;
pub mod engine;
pub mod extension;
pub mod props;
pub mod subsets;
pub mod u32_tester;
pub mod u512_tester;
pub mod walsh;
pub mod wide_uint;

use vstd::prelude::*;

verus! {

use std::collections::HashMap;
use vstd::arithmetic::power2::pow2;
use crate::bits::popcount;
use crate::anf::anf_spec;
use crate::anf::degree_spec;
use crate::walsh::walsh_spec;
use crate::walsh::walsh_values;
use crate::walsh::abs_spectrum;
use crate::walsh::ci1_spec;
use crate::props::balanced_spec;
use crate::props::sac_spec;
use crate::props::prop_spec;
use crate::props::linear_spec;

/// The property-testing contract, implemented once per truth-table width.
/// A function number packs the truth table of a Boolean function over
/// `spec_num_variables()` inputs; `spec_table` reads that table back, and
/// every method's contract is stated against it.
pub trait BooleanFunctionTester {
    type UnsignedRepr;

    /// Number of input variables of this implementation's functions.
    spec fn spec_num_variables() -> nat;

    /// The truth table packed into a function number.
    spec fn spec_table(rule_number: &Self::UnsignedRepr) -> Seq<bool>;

    /// The algebraic normal form of the function, as a function number of
    /// the same width.
    fn fast_bool_anf_transform_unsigned(
        rule_number: &Self::UnsignedRepr,
        num_variables_function: usize,
    ) -> (r: Self::UnsignedRepr)
        requires
            num_variables_function == Self::spec_num_variables(),
        ensures
            Self::spec_table(&r) == anf_spec(
                Self::spec_table(rule_number),
                Self::spec_num_variables(),
            ),
    ;

    /// The algebraic degree: the largest number of variables in a monomial
    /// of the algebraic normal form, 0 for a constant function.
    fn get_function_degree(rule_number: &Self::UnsignedRepr) -> (d: usize)
        ensures
            d == degree_spec(Self::spec_table(rule_number), Self::spec_num_variables()),
    ;

    /// The strict avalanche criterion: every single-bit input flip changes
    /// the output on exactly half of all inputs.
    fn is_strict_avalanche_criterion_ok(rule_number: &Self::UnsignedRepr) -> (b: bool)
        ensures
            b == sac_spec(Self::spec_table(rule_number), Self::spec_num_variables()),
    ;

    /// The output of the function on one input, the input masked into the
    /// domain.
    fn compute_cellular_automata_rule(rule_number: &Self::UnsignedRepr, input_bits: u32) -> (b:
        bool)
        ensures
            b == Self::spec_table(rule_number)[(input_bits as int) % (pow2(
                Self::spec_num_variables(),
            ) as int)],
    ;

    /// Whether exactly half of all outputs are 1.
    fn is_function_balanced(rule_number: &Self::UnsignedRepr) -> (b: bool)
        ensures
            b == balanced_spec(Self::spec_table(rule_number), Self::spec_num_variables()),
    ;

    /// First-order correlation immunity: the Walsh coefficient of every
    /// single-variable frequency vanishes.
    fn is_first_order_correlation_immune(rule_number: &Self::UnsignedRepr) -> (b: bool)
        ensures
            b == ci1_spec(Self::spec_table(rule_number), Self::spec_num_variables()),
    ;

    /// The Walsh coefficient at frequency `w`: the signed count of inputs on
    /// which the function agrees with the linear form given by `w`.
    fn fast_walsh_transform(rule_number: &Self::UnsignedRepr, w: u32) -> (r: i32)
        requires
            w < pow2(Self::spec_num_variables()),
        ensures
            r == walsh_spec(Self::spec_table(rule_number), Self::spec_num_variables(), w),
    ;

    /// The multiset of absolute Walsh coefficients over all frequencies,
    /// as a map from magnitude to count.
    fn absolute_walsh_spectrum(rule_number: &Self::UnsignedRepr) -> (m: HashMap<u32, usize>)
        ensures
            m@ == abs_spectrum(
                walsh_values(Self::spec_table(rule_number), Self::spec_num_variables()),
            ),
    ;

    /// The propagation criterion of degree `k`: trivial at degree 0, the
    /// strict avalanche criterion at degree 1, and at higher degrees the
    /// balanced-derivative check for every flip of 2 up to `k` variables.
    fn is_propagation_criterion_deg_k_ok(rule_number: &Self::UnsignedRepr, k: usize) -> (b: bool)
        ensures
            b == prop_spec(Self::spec_table(rule_number), Self::spec_num_variables(), k as nat),
    ;

    /// Whether the function equals, up to complement, an XOR of a subset of
    /// its input variables.
    fn is_function_linear(rule_number: &Self::UnsignedRepr) -> (b: bool)
        ensures
            b == linear_spec(Self::spec_table(rule_number), Self::spec_num_variables()),
    ;

    /// Population count of the bitwise AND of two index vectors.
    fn fast_binary_dot_product(a: u32, b: u32) -> (r: u32)
        ensures
            r == popcount(a & b),
    {
        crate::engine::popcount32(a & b)
    }
}

} // verus!
