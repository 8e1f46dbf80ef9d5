use boolean_function_extender::extension::bool_array_to_unsigned;
use boolean_function_extender::extension::compute_ca_rule;
use boolean_function_extender::extension::extend_rule_5_to_9;
use boolean_function_extender::extension::get_new_ring;
use boolean_function_extender::extension::unsigned_to_bool_array;
use boolean_function_extender::wide_uint::U512;

#[test]
fn test_extension_determinism() {
    let first = extend_rule_5_to_9(3755921403);
    let second = extend_rule_5_to_9(3755921403);
    assert_eq!(first, second);
}

#[test]
fn test_extension_known_values() {
    // Extending the two reference 5-variable functions yields exactly the
    // 9-variable reference values of the 512-bit tests.
    let a = extend_rule_5_to_9(3755921403);
    assert_eq!(
        a,
        U512::from_words(&vec![
            18374967954648269055,
            18446744073709551360,
            1099511627775,
            18446744073709551615,
            18374967954648269055,
            18446744073709551360,
            1099511627775,
            18446744073709551615,
        ])
    );
    let b = extend_rule_5_to_9(3755921407);
    assert_eq!(
        b,
        U512::from_words(&vec![
            18374967954648269055,
            18446744073709551615,
            1099511627775,
            18446744073709551615,
            18374967954648269055,
            18446744073709551615,
            1099511627775,
            18446744073709551615,
        ])
    );
}

#[test]
fn test_extension_of_constants() {
    assert_eq!(extend_rule_5_to_9(0), U512::zero());
    assert_eq!(extend_rule_5_to_9(0xFFFFFFFF), U512::max_value());
}

#[test]
fn test_compute_ca_rule_reads_bits() {
    for x in 0..32u8 {
        assert_eq!(compute_ca_rule(0x9E375A1Bu32, x), (0x9E375A1Bu32 >> x) & 1 == 1);
    }
}

#[test]
fn test_bool_array_round_trip() {
    for number in [0usize, 1, 5, 255, 256, 511] {
        let bits = unsigned_to_bool_array(number, 9);
        assert_eq!(bits.len(), 9);
        assert_eq!(bool_array_to_unsigned(&bits), number);
    }
}

#[test]
fn test_get_new_ring_all_zero_rule() {
    // The zero rule maps every neighbourhood to 0.
    let ring = unsigned_to_bool_array(0b101010101, 9);
    let next = get_new_ring(&ring, 0);
    assert_eq!(next, vec![false; 9]);
    // Rule with only bit 0 set: a cell becomes 1 exactly when its whole
    // neighbourhood was 0.
    let all_zero = unsigned_to_bool_array(0, 9);
    let next2 = get_new_ring(&all_zero, 1);
    assert_eq!(next2, vec![true; 9]);
}
