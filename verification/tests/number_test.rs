// Numbers as bit patterns, held against the machine's own doubles.
use luma::shared::number::number_equal;
use luma::shared::number::number_is_nan;
use luma::shared::number::number_is_zero;
use luma::shared::number::number_less;
use luma::shared::number::number_less_equal;
use luma::shared::number::number_negate;
use luma::shared::number::number_plain_integer;
use luma::shared::number::number_to_integer;
use luma::shared::number::ONE;
use luma::shared::number::ZERO;
use luma::shared::text::format_signed;
use luma::shared::text::format_unsigned;
use luma::shared::text::same_text;

fn samples() -> Vec<f64> {
    vec![
        0.0,
        -0.0,
        1.0,
        -1.0,
        0.5,
        -0.5,
        1.5,
        2.0,
        3.0,
        10.0,
        123.0,
        -123.0,
        0.1,
        1e-300,
        -1e-300,
        5e-324,
        1e15,
        1e16,
        4503599627370496.0,
        4503599627370497.0,
        9007199254740992.0,
        9007199254740993.0,
        9223372036854775807.0,
        -9223372036854775808.0,
        9223372036854774784.0,
        1e19,
        -1e19,
        1e300,
        -1e300,
        f64::MAX,
        f64::MIN,
        f64::MIN_POSITIVE,
        f64::INFINITY,
        f64::NEG_INFINITY,
        f64::NAN,
        2.5,
        1048576.0,
        1048576.5,
        0.999999999999,
        4294967296.0,
        -4294967297.0,
    ]
}

#[test]
fn constants_are_zero_and_one() {
    assert_eq!(ZERO, 0.0f64.to_bits());
    assert_eq!(ONE, 1.0f64.to_bits());
}

#[test]
fn comparisons_agree_with_doubles() {
    for a in samples() {
        for b in samples() {
            let (x, y) = (a.to_bits(), b.to_bits());
            assert_eq!(number_equal(x, y), a == b, "{} == {}", a, b);
            assert_eq!(number_less(x, y), a < b, "{} < {}", a, b);
            assert_eq!(number_less_equal(x, y), a <= b, "{} <= {}", a, b);
        }
    }
}

#[test]
fn classes_agree_with_doubles() {
    for a in samples() {
        let x = a.to_bits();
        assert_eq!(number_is_nan(x), a.is_nan(), "{}", a);
        assert_eq!(number_is_zero(x), a == 0.0, "{}", a);
        assert_eq!(number_negate(x), (-a).to_bits(), "{}", a);
    }
    assert!(number_is_nan(0x7FF8_0000_0000_0001));
    assert!(number_is_nan(0xFFF0_0000_0000_0001));
}

#[test]
fn integral_numbers_agree_with_doubles() {
    for a in samples() {
        let expected = if a.fract() == 0.0 { Some(a as i64) } else { None };
        assert_eq!(number_to_integer(a.to_bits()), expected, "{}", a);
    }
    assert_eq!(number_to_integer(123.0f64.to_bits()), Some(123));
    assert_eq!(number_to_integer(1e300f64.to_bits()), Some(i64::MAX));
    assert_eq!(number_to_integer((-1e300f64).to_bits()), Some(i64::MIN));
    assert_eq!(number_to_integer(2.5f64.to_bits()), None);
    assert_eq!(number_to_integer(f64::INFINITY.to_bits()), None);
    assert_eq!(number_to_integer(f64::NAN.to_bits()), None);
}

#[test]
fn plain_integers_print_as_doubles_do() {
    for a in samples() {
        match number_plain_integer(a.to_bits()) {
            Some(value) => assert_eq!(format_unsigned(value), format!("{}", a), "{}", a),
            None => assert!(a.fract() != 0.0 || a.is_sign_negative() || a >= 9007199254740992.0, "{}", a),
        }
    }
    assert_eq!(number_plain_integer(42.0f64.to_bits()), Some(42));
    assert_eq!(number_plain_integer((-0.0f64).to_bits()), None);
    assert_eq!(number_plain_integer(1e19f64.to_bits()), None);
    assert_eq!(number_plain_integer(9007199254740991.0f64.to_bits()), Some(9007199254740991));
    assert_eq!(number_plain_integer(9007199254740992.0f64.to_bits()), None);
}

#[test]
fn decimal_text_of_integers() {
    assert_eq!(format_unsigned(0), "0");
    assert_eq!(format_unsigned(7), "7");
    assert_eq!(format_unsigned(10), "10");
    assert_eq!(format_unsigned(1234567890), "1234567890");
    assert_eq!(format_unsigned(u64::MAX), "18446744073709551615");
    assert_eq!(format_signed(0), "0");
    assert_eq!(format_signed(-1), "-1");
    assert_eq!(format_signed(-905), "-905");
    assert_eq!(format_signed(i64::MAX), "9223372036854775807");
    assert_eq!(format_signed(i64::MIN), "-9223372036854775808");
}

#[test]
fn texts_are_compared_by_their_characters() {
    assert!(same_text("let", "let"));
    assert!(!same_text("let", "lets"));
    assert!(!same_text("", "a"));
    assert!(same_text("", ""));
}
