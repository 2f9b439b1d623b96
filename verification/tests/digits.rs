use yew_nested_router::digits::{dec_to_u64, u64_to_dec};

#[test]
fn renders_zero() {
    assert_eq!(u64_to_dec(0), "0");
}

#[test]
fn renders_decimal_digits_most_significant_first() {
    assert_eq!(u64_to_dec(42), "42");
    assert_eq!(u64_to_dec(1000), "1000");
}

#[test]
fn renders_largest_value() {
    assert_eq!(u64_to_dec(u64::MAX), "18446744073709551615");
}

#[test]
fn parses_canonical_decimals() {
    assert_eq!(dec_to_u64("0"), Some(0));
    assert_eq!(dec_to_u64("42"), Some(42));
    assert_eq!(dec_to_u64("18446744073709551615"), Some(u64::MAX));
}

#[test]
fn rejects_empty_string() {
    assert_eq!(dec_to_u64(""), None);
}

#[test]
fn rejects_leading_zero() {
    assert_eq!(dec_to_u64("042"), None);
    assert_eq!(dec_to_u64("00"), None);
}

#[test]
fn rejects_non_digits() {
    assert_eq!(dec_to_u64("4x2"), None);
    assert_eq!(dec_to_u64("-1"), None);
    assert_eq!(dec_to_u64(" 1"), None);
}

#[test]
fn rejects_values_past_the_largest() {
    assert_eq!(dec_to_u64("18446744073709551616"), None);
    assert_eq!(dec_to_u64("99999999999999999999999"), None);
}

#[test]
fn round_trips_through_rendering() {
    for n in [0u64, 1, 9, 10, 12345, u64::MAX] {
        assert_eq!(dec_to_u64(&u64_to_dec(n)), Some(n));
    }
}
