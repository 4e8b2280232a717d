use auth_core::digits::{dec_to_u64, u64_to_dec};

#[test]
fn renders_canonical_decimal() {
    assert_eq!(u64_to_dec(0), "0");
    assert_eq!(u64_to_dec(7), "7");
    assert_eq!(u64_to_dec(10), "10");
    assert_eq!(u64_to_dec(1234567890), "1234567890");
    assert_eq!(u64_to_dec(u64::MAX), "18446744073709551615");
}

#[test]
fn parses_what_it_renders() {
    for n in [0u64, 1, 9, 10, 99, 100, 4096, 1_000_000_007, u64::MAX] {
        assert_eq!(dec_to_u64(&u64_to_dec(n)), Some(n));
    }
}

#[test]
fn rejects_non_canonical_strings() {
    assert_eq!(dec_to_u64(""), None);
    assert_eq!(dec_to_u64("abc"), None);
    assert_eq!(dec_to_u64("12x"), None);
    assert_eq!(dec_to_u64("007"), None);
    assert_eq!(dec_to_u64("-1"), None);
    assert_eq!(dec_to_u64("1 "), None);
}

#[test]
fn rejects_values_out_of_range() {
    // one past u64::MAX, and something far larger
    assert_eq!(dec_to_u64("18446744073709551616"), None);
    assert_eq!(dec_to_u64("99999999999999999999999"), None);
}
