use std::collections::HashMap;
use boolean_function_extender::BooleanFunctionTester;
use boolean_function_extender::u32_tester::U32Tester;

#[test]
fn u32_tester_test_get_function_degree() {
    assert_eq!(U32Tester::get_function_degree(&0), 0);
    assert_eq!(U32Tester::get_function_degree(&3755921403), 4);
    assert_eq!(U32Tester::get_function_degree(&3755921407), 5);
    assert_eq!(U32Tester::get_function_degree(&4294967295), 0);
}

#[test]
fn u32_tester_test_absolute_walsh_spectrum() {
    assert_eq!(
        U32Tester::absolute_walsh_spectrum(&0),
        HashMap::from([(32, 1), (0, 31)])
    );
    assert_eq!(
        U32Tester::absolute_walsh_spectrum(&3755921403),
        HashMap::from([(20, 1), (0, 10), (8, 6), (4, 15)])
    );
    assert_eq!(
        U32Tester::absolute_walsh_spectrum(&3755921407),
        HashMap::from([(22, 1), (2, 20), (10, 1), (6, 10)])
    );
    assert_eq!(
        U32Tester::absolute_walsh_spectrum(&4294967295),
        HashMap::from([(32, 1), (0, 31)])
    );
}

#[test]
fn test_absolute_autocorrelation_spectrum() {
    assert_eq!(
        U32Tester::absolute_autocorrelation_spectrum(&0),
        HashMap::from([(32, 32)])
    );
    assert_eq!(
        U32Tester::absolute_autocorrelation_spectrum(&3755921403),
        HashMap::from([(32, 1), (16, 15), (8, 16)])
    );
    assert_eq!(
        U32Tester::absolute_autocorrelation_spectrum(&3755921407),
        HashMap::from([(32, 1), (20, 10), (12, 21)])
    );
    assert_eq!(
        U32Tester::absolute_autocorrelation_spectrum(&4294967295),
        HashMap::from([(32, 32)])
    );
}

#[test]
fn test_compute_cellular_automata_rule_reads_bits() {
    // 0b...0110: bit 1 and bit 2 set.
    assert!(!U32Tester::compute_cellular_automata_rule(&6, 0));
    assert!(U32Tester::compute_cellular_automata_rule(&6, 1));
    assert!(U32Tester::compute_cellular_automata_rule(&6, 2));
    assert!(!U32Tester::compute_cellular_automata_rule(&6, 3));
    for x in 0..32 {
        assert_eq!(
            U32Tester::compute_cellular_automata_rule(&3755921403u32, x),
            (3755921403u32 >> x) & 1 == 1
        );
    }
}

#[test]
fn test_is_function_balanced_iff_popcount_16() {
    for f in [0u32, 1, 0xFFFF, 0xFFFFFFFF, 0xAA55AA55, 3755921403, 1660250124] {
        assert_eq!(U32Tester::is_function_balanced(&f), f.count_ones() == 16);
    }
}

#[test]
fn test_fast_walsh_transform_values() {
    assert_eq!(U32Tester::fast_walsh_transform(&0, 0), 32);
    assert_eq!(U32Tester::fast_walsh_transform(&3755921403, 0), -20);
    assert_eq!(U32Tester::fast_walsh_transform(&3755921407, 0), -22);
    assert_eq!(U32Tester::fast_walsh_transform(&3755921403, 5), 8);
    assert_eq!(U32Tester::fast_walsh_transform(&3755921403, 31), -4);
}

#[test]
fn test_fast_auto_correlation_transform_values() {
    assert_eq!(U32Tester::fast_auto_correlation_transform(&3755921403, 0), 32);
    assert_eq!(U32Tester::fast_auto_correlation_transform(&3755921403, 1), 16);
    assert_eq!(U32Tester::fast_auto_correlation_transform(&0, 7), 32);
}

#[test]
fn test_strict_avalanche_criterion() {
    assert!(U32Tester::is_strict_avalanche_criterion_ok(&1660250124));
    assert!(!U32Tester::is_strict_avalanche_criterion_ok(&0xAA55AA55));
    assert!(!U32Tester::is_strict_avalanche_criterion_ok(&3755921403));
}

#[test]
fn test_first_order_correlation_immunity() {
    assert!(U32Tester::is_first_order_correlation_immune(&0xAA55AA55));
    assert!(U32Tester::is_first_order_correlation_immune(&0));
    assert!(!U32Tester::is_first_order_correlation_immune(&0x6996966A));
    assert!(!U32Tester::is_first_order_correlation_immune(&3755921403));
}

#[test]
fn test_is_function_linear_matches_low_degree() {
    // Linear functions have algebraic degree at most 1 and conversely.
    for f in [0u32, 0xFFFFFFFF, 0xAA55AA55, 0x96696996, 0x6996966A, 3755921403, 1660250124] {
        assert_eq!(
            U32Tester::is_function_linear(&f),
            U32Tester::get_function_degree(&f) <= 1
        );
    }
    assert!(U32Tester::is_function_linear(&0xAA55AA55));
    assert!(!U32Tester::is_function_linear(&0x6996966A));
}

#[test]
fn test_fast_binary_dot_product() {
    assert_eq!(U32Tester::fast_binary_dot_product(0b1010, 0b0110), 1);
    assert_eq!(U32Tester::fast_binary_dot_product(0xFFFFFFFF, 0xFFFFFFFF), 32);
    assert_eq!(U32Tester::fast_binary_dot_product(0xF0F0F0F0, 0x0F0F0F0F), 0);
}

#[test]
fn test_reverse_function_complements() {
    assert_eq!(U32Tester::reverse_function(0), 0xFFFFFFFF);
    assert_eq!(U32Tester::reverse_function(0xAA55AA55), 0x55AA55AA);
}
