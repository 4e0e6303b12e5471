use cognichain::encoding::hex_encode;
use cognichain::encoding::push_decimal;

fn decimal_of(n: u128) -> String {
    let mut text = String::new();
    push_decimal(&mut text, n);
    text
}

#[test]
fn decimal_of_zero_is_one_digit() {
    assert_eq!(decimal_of(0), "0");
}

#[test]
fn decimal_has_no_leading_zeros() {
    assert_eq!(decimal_of(7), "7");
    assert_eq!(decimal_of(10), "10");
    assert_eq!(decimal_of(1700000000000), "1700000000000");
}

#[test]
fn decimal_of_the_largest_numbers() {
    assert_eq!(decimal_of(u64::MAX as u128), "18446744073709551615");
    assert_eq!(decimal_of(u128::MAX), "340282366920938463463374607431768211455");
}

#[test]
fn decimal_is_appended_to_what_is_there() {
    let mut text = String::from("n=");
    push_decimal(&mut text, 42);
    assert_eq!(text, "n=42");
}

#[test]
fn decimal_agrees_with_the_standard_formatting() {
    let mut n: u128 = 1;
    for _ in 0..120 {
        assert_eq!(decimal_of(n), n.to_string());
        assert_eq!(decimal_of(n - 1), (n - 1).to_string());
        n = n.wrapping_mul(3).wrapping_add(1);
    }
}

#[test]
fn hex_of_no_bytes_is_empty() {
    assert_eq!(hex_encode(&[]), "");
}

#[test]
fn hex_is_lower_case_with_two_digits_for_each_byte() {
    assert_eq!(hex_encode(&[0x00, 0x0f, 0xa0, 0xff, 0x9a]), "000fa0ff9a");
    assert_eq!(hex_encode(&[0xde, 0xad, 0xbe, 0xef]), "deadbeef");
}

#[test]
fn hex_of_every_byte() {
    for byte in 0..=255u8 {
        assert_eq!(hex_encode(&[byte]), format!("{:02x}", byte));
    }
}
