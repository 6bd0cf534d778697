//! Decimal and hexadecimal rendering of unsigned values.

use nft_bazaar::strings::{to_hex_string, to_hex_string_fixed, to_string};

#[test]
fn test_to_string_zero() {
    assert_eq!(to_string(0), "0");
}

#[test]
fn test_to_string_small_numbers() {
    assert_eq!(to_string(1), "1");
    assert_eq!(to_string(42), "42");
    assert_eq!(to_string(123), "123");
}

#[test]
fn test_to_string_large_numbers() {
    assert_eq!(to_string(1000), "1000");
    assert_eq!(to_string(123456789), "123456789");
}

#[test]
fn test_to_hex_string_zero() {
    assert_eq!(to_hex_string(0), "0x0");
}

#[test]
fn test_to_hex_string_basic() {
    assert_eq!(to_hex_string(1), "0x1");
    assert_eq!(to_hex_string(15), "0xf");
    assert_eq!(to_hex_string(16), "0x10");
    assert_eq!(to_hex_string(255), "0xff");
}

#[test]
fn test_to_hex_string_fixed_basic() {
    assert_eq!(to_hex_string_fixed(1, 2), "0x01");
    assert_eq!(to_hex_string_fixed(15, 4), "0x000f");
    assert_eq!(to_hex_string_fixed(255, 6), "0x0000ff");
}

#[test]
fn test_to_hex_string_fixed_zero() {
    assert_eq!(to_hex_string_fixed(0, 8), "0x00000000");
}

#[test]
fn test_conversion_roundtrip() {
    let values: [u128; 6] = [0, 1, 42, 255, 1000, 123456];

    for &val in &values {
        let decimal_str = to_string(val);
        let hex_str = to_hex_string(val);

        assert!(!decimal_str.is_empty());
        assert!(hex_str.starts_with("0x"));
        assert_eq!(decimal_str, val.to_string());
    }
}

#[test]
fn test_to_hex_string_fixed_never_truncates() {
    assert_eq!(to_hex_string_fixed(255, 1), "0xff");
    assert_eq!(to_hex_string_fixed(4096, 0), "0x1000");
}

#[test]
fn test_to_string_u128_extremes() {
    assert_eq!(to_string(u128::MAX), "340282366920938463463374607431768211455");
    assert_eq!(to_hex_string(u128::MAX), "0xffffffffffffffffffffffffffffffff");
}
