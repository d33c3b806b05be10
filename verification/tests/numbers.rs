use ecma_de::ast::Number;
use ecma_de::error::Unexpected;
use ecma_de::number::{
    is_integer, number_to_i128, number_to_i16, number_to_i32, number_to_i64, number_to_i8,
    number_to_u128, number_to_u16, number_to_u32, number_to_u64, number_to_u8,
    number_to_unexpected,
};

fn number(text: &str, value: f64) -> Number {
    Number { value: value.to_bits(), raw: Some(text.to_string()) }
}

fn whole(value: f64) -> Number {
    number("0", value)
}

#[test]
fn text_without_a_dot_counts_as_integer() {
    assert!(is_integer(&number("123", 123.0)));
    assert!(is_integer(&number("0x10", 16.0)));
    assert!(is_integer(&number("", 0.0)));
}

#[test]
fn text_with_a_dot_does_not_count_as_integer() {
    assert!(!is_integer(&number("1.0", 1.0)));
    assert!(!is_integer(&number(".5", 0.5)));
    assert!(!is_integer(&number("5.", 5.0)));
    assert!(!is_integer(&number("1.5e3", 1500.0)));
}

#[test]
fn unknown_text_does_not_count_as_integer() {
    assert!(!is_integer(&Number { value: 1.0f64.to_bits(), raw: None }));
    assert_eq!(number_to_u8(&Number { value: 1.0f64.to_bits(), raw: None }), None);
}

#[test]
fn exponent_without_a_dot_counts_as_integer_whatever_the_value() {
    let n = number("15e-1", 1.5);
    assert!(is_integer(&n));
    assert_eq!(number_to_i8(&n), Some(1));
    assert_eq!(number_to_u64(&n), Some(1));
    assert_eq!(number_to_i8(&number("-15e-1", -1.5)), Some(-1));
    assert_eq!(number_to_i32(&number("1e3", 1000.0)), Some(1000));
}

#[test]
fn i8_bounds() {
    assert_eq!(number_to_i8(&whole(127.0)), Some(i8::MAX));
    assert_eq!(number_to_i8(&whole(-128.0)), Some(i8::MIN));
    assert_eq!(number_to_i8(&whole(128.0)), None);
    assert_eq!(number_to_i8(&whole(-129.0)), None);
    assert_eq!(number_to_i8(&whole(0.0)), Some(0));
    assert_eq!(number_to_i8(&whole(-1.0)), Some(-1));
}

#[test]
fn i16_bounds() {
    assert_eq!(number_to_i16(&whole(32767.0)), Some(i16::MAX));
    assert_eq!(number_to_i16(&whole(-32768.0)), Some(i16::MIN));
    assert_eq!(number_to_i16(&whole(32768.0)), None);
    assert_eq!(number_to_i16(&whole(-32769.0)), None);
}

#[test]
fn i32_bounds() {
    assert_eq!(number_to_i32(&whole(2147483647.0)), Some(i32::MAX));
    assert_eq!(number_to_i32(&whole(-2147483648.0)), Some(i32::MIN));
    assert_eq!(number_to_i32(&whole(2147483648.0)), None);
    assert_eq!(number_to_i32(&whole(-2147483649.0)), None);
}

#[test]
fn i64_bounds() {
    assert_eq!(number_to_i64(&whole(-9223372036854775808.0)), Some(i64::MIN));
    assert_eq!(number_to_i64(&whole(9223372036854774784.0)), Some(9223372036854774784));
    assert_eq!(number_to_i64(&whole(9223372036854775808.0)), None);
    assert_eq!(number_to_i64(&whole(-9223372036854777856.0)), None);
    assert_eq!(number_to_i64(&whole(9007199254740993.0)), Some(9007199254740992));
}

#[test]
fn i128_bounds() {
    let two_to_127 = 170141183460469231731687303715884105728.0f64;
    assert_eq!(number_to_i128(&whole(-two_to_127)), Some(i128::MIN));
    assert_eq!(number_to_i128(&whole(two_to_127)), None);
    assert_eq!(number_to_i128(&whole(two_to_127 / 2.0)), Some(1i128 << 126));
    assert_eq!(number_to_i128(&whole(-two_to_127 * 2.0)), None);
    assert_eq!(number_to_i128(&whole(-5.0)), Some(-5));
}

#[test]
fn u8_bounds() {
    assert_eq!(number_to_u8(&whole(255.0)), Some(u8::MAX));
    assert_eq!(number_to_u8(&whole(0.0)), Some(0));
    assert_eq!(number_to_u8(&whole(256.0)), None);
    assert_eq!(number_to_u8(&whole(-1.0)), None);
}

#[test]
fn u16_bounds() {
    assert_eq!(number_to_u16(&whole(65535.0)), Some(u16::MAX));
    assert_eq!(number_to_u16(&whole(0.0)), Some(0));
    assert_eq!(number_to_u16(&whole(65536.0)), None);
    assert_eq!(number_to_u16(&whole(-1.0)), None);
}

#[test]
fn u32_bounds() {
    assert_eq!(number_to_u32(&whole(4294967295.0)), Some(u32::MAX));
    assert_eq!(number_to_u32(&whole(0.0)), Some(0));
    assert_eq!(number_to_u32(&whole(4294967296.0)), None);
    assert_eq!(number_to_u32(&whole(-1.0)), None);
}

#[test]
fn u64_bounds() {
    assert_eq!(number_to_u64(&whole(18446744073709549568.0)), Some(18446744073709549568));
    assert_eq!(number_to_u64(&whole(0.0)), Some(0));
    assert_eq!(number_to_u64(&whole(18446744073709551616.0)), None);
    assert_eq!(number_to_u64(&whole(-1.0)), None);
    assert_eq!(number_to_u64(&whole(123.0)), Some(123));
}

#[test]
fn u128_bounds() {
    let two_to_128 = 340282366920938463463374607431768211456.0f64;
    assert_eq!(number_to_u128(&whole(two_to_128 / 2.0)), Some(1u128 << 127));
    assert_eq!(number_to_u128(&whole(0.0)), Some(0));
    assert_eq!(number_to_u128(&whole(two_to_128)), None);
    assert_eq!(number_to_u128(&whole(-1.0)), None);
    assert_eq!(number_to_u128(&whole(1e300)), None);
}

#[test]
fn a_decimal_point_fails_every_integer_type() {
    let n = number("1.0", 1.0);
    assert_eq!(number_to_i8(&n), None);
    assert_eq!(number_to_i16(&n), None);
    assert_eq!(number_to_i32(&n), None);
    assert_eq!(number_to_i64(&n), None);
    assert_eq!(number_to_i128(&n), None);
    assert_eq!(number_to_u8(&n), None);
    assert_eq!(number_to_u16(&n), None);
    assert_eq!(number_to_u32(&n), None);
    assert_eq!(number_to_u64(&n), None);
    assert_eq!(number_to_u128(&n), None);
}

#[test]
fn a_fraction_just_past_a_bound_fails() {
    assert_eq!(number_to_i8(&whole(127.5)), None);
    assert_eq!(number_to_i8(&whole(-128.5)), None);
    assert_eq!(number_to_u8(&whole(255.5)), None);
    assert_eq!(number_to_u8(&whole(-0.5)), None);
    assert_eq!(number_to_i8(&whole(126.5)), Some(126));
    assert_eq!(number_to_i8(&whole(-127.5)), Some(-127));
    assert_eq!(number_to_u8(&whole(0.5)), Some(0));
}

#[test]
fn values_that_are_no_numbers_fail() {
    assert_eq!(number_to_i64(&whole(f64::NAN)), None);
    assert_eq!(number_to_i64(&whole(f64::INFINITY)), None);
    assert_eq!(number_to_i64(&whole(f64::NEG_INFINITY)), None);
    assert_eq!(number_to_u128(&whole(f64::INFINITY)), None);
    assert_eq!(number_to_i128(&whole(f64::NEG_INFINITY)), None);
}

#[test]
fn zero_of_either_sign_and_the_smallest_values() {
    assert_eq!(number_to_u8(&whole(-0.0)), Some(0));
    assert_eq!(number_to_i8(&whole(-0.0)), Some(0));
    assert_eq!(number_to_u8(&whole(f64::MIN_POSITIVE)), Some(0));
    assert_eq!(number_to_u8(&whole(5e-324)), Some(0));
    assert_eq!(number_to_u8(&whole(-5e-324)), None);
    assert_eq!(number_to_i8(&whole(-5e-324)), Some(0));
}

#[test]
fn unexpected_names_the_number() {
    assert_eq!(number_to_unexpected(&whole(123.0)), Some(Unexpected::Signed(123)));
    assert_eq!(number_to_unexpected(&whole(-7.0)), Some(Unexpected::Signed(-7)));
    assert_eq!(
        number_to_unexpected(&whole(-9223372036854775808.0)),
        Some(Unexpected::Signed(i64::MIN))
    );
    assert_eq!(
        number_to_unexpected(&whole(9223372036854775808.0)),
        Some(Unexpected::Unsigned(9223372036854775808))
    );
    assert_eq!(number_to_unexpected(&whole(18446744073709551616.0)), None);
    assert_eq!(number_to_unexpected(&whole(-1e30)), None);
    assert_eq!(number_to_unexpected(&whole(f64::NAN)), None);
    assert_eq!(number_to_unexpected(&whole(f64::INFINITY)), None);
    assert_eq!(number_to_unexpected(&whole(f64::NEG_INFINITY)), None);
    assert_eq!(
        number_to_unexpected(&number("1.5", 1.5)),
        Some(Unexpected::Float(1.5f64.to_bits()))
    );
    assert_eq!(
        number_to_unexpected(&Number { value: 2.0f64.to_bits(), raw: None }),
        Some(Unexpected::Float(2.0f64.to_bits()))
    );
}
