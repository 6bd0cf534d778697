//! The demonstration store: keyed values that read as zero until stored,
//! and the string renderings of stored values.

use nft_bazaar::strings_demo::StringsDemo;

#[test]
fn values_read_as_zero_until_stored() {
    let demo = StringsDemo::new();
    assert_eq!(demo.get_value(7), 0);
    assert_eq!(demo.get_value_as_string(7), "0");
}

#[test]
fn stored_values_read_back_and_overwrite() {
    let mut demo = StringsDemo::new();
    assert!(demo.store_value(7, 42));
    assert!(demo.store_value(9, 123456789));
    assert_eq!(demo.get_value(7), 42);
    assert_eq!(demo.get_value(9), 123456789);
    assert_eq!(demo.get_value(8), 0);

    assert!(demo.store_value(7, 1000));
    assert_eq!(demo.get_value(7), 1000);
    assert_eq!(demo.get_value(9), 123456789);
    assert_eq!(demo.get_value_as_string(7), "1000");
}

#[test]
fn renderings_match_the_formatting_utilities() {
    let demo = StringsDemo::new();
    assert_eq!(demo.to_decimal_string(123), "123");
    assert_eq!(demo.to_hex_string(255), "0xff");
    assert_eq!(demo.to_hex_string_fixed(15, 4), "0x000f");
}
