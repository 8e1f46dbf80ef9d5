use std::collections::HashMap;
use boolean_function_extender::BooleanFunctionTester;
use boolean_function_extender::u512_tester::U512Tester;
use boolean_function_extender::wide_uint::U512;

/// The 512-bit value 134078079299425970988471863172332032075677741936171104700
/// 60917943962159749266320668916332720419656517166240687192852651607093788182
/// 615166684716733579591935, as eight little-endian 64-bit words.
fn value_a() -> U512 {
    U512::from_words(&vec![
        18374967954648269055,
        18446744073709551360,
        1099511627775,
        18446744073709551615,
        18374967954648269055,
        18446744073709551360,
        1099511627775,
        18446744073709551615,
    ])
}

/// The 512-bit value 134078079299425970988471863172332032075677741936171104706
/// 05594638121991820277051203989568509643346170367187143529348261601759818256
/// 683210860310861684080895, as eight little-endian 64-bit words.
fn value_b() -> U512 {
    U512::from_words(&vec![
        18374967954648269055,
        18446744073709551615,
        1099511627775,
        18446744073709551615,
        18374967954648269055,
        18446744073709551615,
        1099511627775,
        18446744073709551615,
    ])
}

#[test]
fn u512_tester_test_get_function_degree() {
    assert_eq!(U512Tester::get_function_degree(&U512::zero()), 0);
    assert_eq!(U512Tester::get_function_degree(&value_a()), 4);
    assert_eq!(U512Tester::get_function_degree(&value_b()), 5);
    assert_eq!(U512Tester::get_function_degree(&U512::max_value()), 0);
}

#[test]
fn u512_tester_test_absolute_walsh_spectrum() {
    assert_eq!(
        U512Tester::absolute_walsh_spectrum(&U512::zero()),
        HashMap::from([(512, 1), (0, 511)])
    );
    assert_eq!(
        U512Tester::absolute_walsh_spectrum(&value_a()),
        HashMap::from([(320, 1), (0, 490), (64, 15), (128, 6)])
    );
    assert_eq!(
        U512Tester::absolute_walsh_spectrum(&value_b()),
        HashMap::from([(352, 1), (0, 480), (32, 20), (96, 10), (160, 1)])
    );
    assert_eq!(
        U512Tester::absolute_walsh_spectrum(&U512::max_value()),
        HashMap::from([(512, 1), (0, 511)])
    );
}

#[test]
fn test_u512_balance() {
    assert!(!U512Tester::is_function_balanced(&U512::zero()));
    assert!(!U512Tester::is_function_balanced(&U512::max_value()));
    // 416 of 512 bits are set: not balanced.
    assert!(!U512Tester::is_function_balanced(&value_a()));
}

#[test]
fn test_u512_walsh_transform_at_zero() {
    assert_eq!(U512Tester::fast_walsh_transform(&U512::zero(), 0), 512);
    assert_eq!(U512Tester::fast_walsh_transform(&U512::max_value(), 0), -512);
    // 512 - 2 * 416
    assert_eq!(U512Tester::fast_walsh_transform(&value_a(), 0), -320);
}

#[test]
fn test_u512_linear() {
    assert!(U512Tester::is_function_linear(&U512::zero()));
    assert!(U512Tester::is_function_linear(&U512::max_value()));
    assert!(!U512Tester::is_function_linear(&value_a()));
}

#[test]
fn test_u512_reverse_function() {
    let r = U512Tester::reverse_function(&U512::zero());
    assert_eq!(r, U512::max_value());
    let rr = U512Tester::reverse_function(&r);
    assert_eq!(rr, U512::zero());
}

#[test]
fn test_u512_anf_involution() {
    let a = value_a();
    let once = U512Tester::fast_bool_anf_transform_unsigned(&a, 9);
    let twice = U512Tester::fast_bool_anf_transform_unsigned(&once, 9);
    assert_eq!(twice, value_a());
}
