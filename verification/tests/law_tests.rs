use boolean_function_extender::BooleanFunctionTester;
use boolean_function_extender::u32_tester::U32Tester;
use boolean_function_extender::u512_tester::U512Tester;
use boolean_function_extender::wide_uint::U512;

#[test]
fn test_anf_involution_u32() {
    for f in [0u32, 1, 12345, 0xAA55AA55, 3755921403, 3755921407, 0xFFFFFFFF] {
        let once = U32Tester::fast_bool_anf_transform_unsigned(&f, 5);
        let twice = U32Tester::fast_bool_anf_transform_unsigned(&once, 5);
        assert_eq!(twice, f);
    }
}

#[test]
fn test_degree_bounds() {
    for f in [0u32, 1, 2, 12345, 0xAA55AA55, 3755921403, 3755921407, 0xFFFFFFFF] {
        let d = U32Tester::get_function_degree(&f);
        assert!(d <= 5);
    }
    assert_eq!(U32Tester::get_function_degree(&0), 0);
    assert_eq!(U32Tester::get_function_degree(&0xFFFFFFFF), 0);
    assert_eq!(U512Tester::get_function_degree(&U512::zero()), 0);
    assert_eq!(U512Tester::get_function_degree(&U512::max_value()), 0);
}

#[test]
fn test_balance_symmetry() {
    for f in [0u32, 1, 0xFFFF, 0xAA55AA55, 3755921403, 1660250124, 0xFFFFFFFF] {
        assert_eq!(
            U32Tester::is_function_balanced(&f),
            U32Tester::is_function_balanced(&U32Tester::reverse_function(f))
        );
    }
}

#[test]
fn test_walsh_range_and_parity() {
    for f in [0u32, 0xAA55AA55, 3755921403, 1660250124] {
        for w in 0..32u32 {
            let v = U32Tester::fast_walsh_transform(&f, w);
            assert!(-32 <= v && v <= 32);
            assert_eq!(v.rem_euclid(2), 0);
        }
        let v0 = U32Tester::fast_walsh_transform(&f, 0);
        assert_eq!(v0, 32 - 2 * (f.count_ones() as i32));
    }
}

#[test]
fn test_spectrum_mass_conservation() {
    for f in [0u32, 0xAA55AA55, 3755921403, 3755921407, 1660250124, 0xFFFFFFFF] {
        let spectrum = U32Tester::absolute_walsh_spectrum(&f);
        let mass: u64 = spectrum
            .iter()
            .map(|(magnitude, count)| (*count as u64) * (*magnitude as u64) * (*magnitude as u64))
            .sum();
        assert_eq!(mass, 1024);
    }
    let spectrum = U512Tester::absolute_walsh_spectrum(&U512::zero());
    let mass: u64 = spectrum
        .iter()
        .map(|(magnitude, count)| (*count as u64) * (*magnitude as u64) * (*magnitude as u64))
        .sum();
    assert_eq!(mass, 262144);
}

#[test]
fn test_propagation_monotonicity() {
    // 1660250124 satisfies the avalanche criterion (degree 1) but not
    // degree 2, so every degree below a satisfied one is satisfied too.
    let f = 1660250124u32;
    assert!(U32Tester::is_propagation_criterion_deg_k_ok(&f, 0));
    assert!(U32Tester::is_propagation_criterion_deg_k_ok(&f, 1));
    assert!(!U32Tester::is_propagation_criterion_deg_k_ok(&f, 2));
    assert!(!U32Tester::is_propagation_criterion_deg_k_ok(&f, 3));
    for g in [0u32, 0xAA55AA55, 3755921403] {
        for k in (0..4usize).rev() {
            if U32Tester::is_propagation_criterion_deg_k_ok(&g, k + 1) {
                assert!(U32Tester::is_propagation_criterion_deg_k_ok(&g, k));
            }
        }
    }
}

#[test]
fn test_propagation_degree_one_is_avalanche() {
    for f in [0u32, 0xAA55AA55, 1660250124, 3755921403] {
        assert_eq!(
            U32Tester::is_propagation_criterion_deg_k_ok(&f, 1),
            U32Tester::is_strict_avalanche_criterion_ok(&f)
        );
    }
}

#[test]
fn test_linearity_preserved_by_extension() {
    // The ring extension of a linear 5-variable function stays linear here.
    let extended = boolean_function_extender::extension::extend_rule_5_to_9(0xAA55AA55);
    assert!(U32Tester::is_function_linear(&0xAA55AA55));
    assert!(U512Tester::is_function_linear(&extended));
}
