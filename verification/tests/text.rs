use eternal::text::{
    decimal_string, hex_upper, parse_u128, push_decimal, push_hex_upper, push_optional_string,
    push_string, same_optional_string,
};

#[test]
fn decimal_of_small_and_large_numbers() {
    assert_eq!(decimal_string(0), "0");
    assert_eq!(decimal_string(7), "7");
    assert_eq!(decimal_string(10), "10");
    assert_eq!(decimal_string(100_000), "100000");
    assert_eq!(decimal_string(u128::MAX), "340282366920938463463374607431768211455");
}

#[test]
fn push_decimal_appends() {
    let mut out = String::from("n=");
    push_decimal(&mut out, 4096);
    assert_eq!(out, "n=4096");
}

#[test]
fn parse_reads_what_decimal_writes() {
    for n in [0u128, 1, 9, 10, 99, 12345678901234567890, u128::MAX] {
        assert_eq!(parse_u128(&decimal_string(n)), Some(n));
    }
}

#[test]
fn parse_accepts_a_plus_and_leading_zeros() {
    assert_eq!(parse_u128("+5"), Some(5));
    assert_eq!(parse_u128("007"), Some(7));
    assert_eq!(parse_u128("+0"), Some(0));
}

#[test]
fn parse_refuses_what_is_no_number() {
    assert_eq!(parse_u128(""), None);
    assert_eq!(parse_u128("+"), None);
    assert_eq!(parse_u128("-1"), None);
    assert_eq!(parse_u128("++1"), None);
    assert_eq!(parse_u128("12a"), None);
    assert_eq!(parse_u128(" 1"), None);
    assert_eq!(parse_u128("1.5"), None);
    assert_eq!(parse_u128("\u{661}"), None);
    assert_eq!(parse_u128("1\u{e9}"), None);
}

#[test]
fn parse_refuses_what_does_not_fit() {
    assert_eq!(parse_u128("340282366920938463463374607431768211455"), Some(u128::MAX));
    assert_eq!(parse_u128("340282366920938463463374607431768211456"), None);
    assert_eq!(parse_u128("3402823669209384634633746074317682114550"), None);
    assert_eq!(parse_u128("999999999999999999999999999999999999999"), None);
}

#[test]
fn parse_agrees_with_the_standard_library() {
    for text in ["", "+", "0", "+12", "-3", "18446744073709551616", "1_000", "٣", "00"] {
        assert_eq!(parse_u128(text), text.parse::<u128>().ok());
    }
}

#[test]
fn hex_upper_writes_two_digits_per_byte() {
    assert_eq!(hex_upper(&[]), "");
    assert_eq!(hex_upper(&[0x00, 0x0f, 0x10, 0xab, 0xff]), "000F10ABFF");
    assert_eq!(hex_upper(&[0xbe, 0xef]), "BEEF");
}

#[test]
fn push_hex_upper_appends() {
    let mut out = String::from(">");
    push_hex_upper(&mut out, &[0x1a, 0x9f, 0x00]);
    assert_eq!(out, ">1A9F00");
    assert_eq!(out, format!(">{}", hex::encode_upper([0x1a, 0x9f, 0x00])));
}

#[test]
fn string_text_counts_characters() {
    let mut out = String::new();
    push_string(&mut out, "bob");
    assert_eq!(out, "3:bob");
    let mut out = String::new();
    push_string(&mut out, "");
    assert_eq!(out, "0:");
    let mut out = String::new();
    push_string(&mut out, "h\u{e9}llo w\u{f6}rld");
    assert_eq!(out, "11:h\u{e9}llo w\u{f6}rld");
}

#[test]
fn optional_string_text_of_both_cases() {
    let mut out = String::new();
    push_optional_string(&mut out, &None);
    assert_eq!(out, "None");
    let mut out = String::new();
    push_optional_string(&mut out, &Some("AB".to_string()));
    assert_eq!(out, "Some(2:AB)");
}

#[test]
fn same_optional_string_compares_contents() {
    assert!(same_optional_string(&None, &None));
    assert!(same_optional_string(&Some("a".to_string()), &Some("a".to_string())));
    assert!(!same_optional_string(&Some("a".to_string()), &Some("b".to_string())));
    assert!(!same_optional_string(&Some(String::new()), &None));
    assert!(!same_optional_string(&None, &Some(String::new())));
}
