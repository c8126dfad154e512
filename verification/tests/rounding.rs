use txn_ledger::amount::{Amount, Decimal};
use txn_ledger::text::{parse_decimal, parse_unsigned, unsigned_text};
use txn_ledger::utility::round_amount;

fn amount(value: f64) -> Amount {
    Amount::from_units((value * 10_000.0).round() as i128)
}

fn decimal(text: &str) -> Decimal {
    parse_decimal(text).unwrap()
}

#[test]
fn test_round_amount() {
    assert_eq!(round_amount(decimal("1.12344")), amount(1.1234));
    assert_eq!(round_amount(decimal("1.12345")), amount(1.1235));
    assert_eq!(round_amount(decimal("1.12346")), amount(1.1235));
}

#[test]
fn rounding_agrees_with_rounding_of_floats() {
    for (text, number) in [
        ("1.12344", 1.12344f32),
        ("1.12345", 1.12345),
        ("1.12346", 1.12346),
        ("1000.0", 1000.0),
        ("900.75", 900.75),
        ("0.00004", 0.00004),
        ("0.00006", 0.00006),
        ("-2.71828", -2.71828),
        ("-0.00006", -0.00006),
        ("3.14159", 3.14159),
    ] {
        let rounded = round_amount(decimal(text));
        let floating = round::round(number as f64, 4) as f32;
        assert_eq!(rounded.units() as f32 / 10_000.0, floating, "{}", text);
    }
}

#[test]
fn rounding_goes_away_from_zero_at_the_half() {
    assert_eq!(round_amount(Decimal::new(112345, 5)).units(), 11_235);
    assert_eq!(round_amount(Decimal::new(-112345, 5)).units(), -11_235);
    assert_eq!(round_amount(Decimal::new(-112344, 5)).units(), -11_234);
    assert_eq!(round_amount(Decimal::new(-112346, 5)).units(), -11_235);
    assert_eq!(round_amount(Decimal::new(5, 5)).units(), 1);
    assert_eq!(round_amount(Decimal::new(4, 5)).units(), 0);
    assert_eq!(round_amount(Decimal::new(-5, 5)).units(), -1);
    assert_eq!(round_amount(Decimal::new(-4, 5)).units(), 0);
    assert_eq!(round_amount(Decimal::new(15, 5)).units(), 2);
    assert_eq!(round_amount(Decimal::new(25, 5)).units(), 3);
    assert_eq!(round_amount(Decimal::new(12_345_678_949_999, 9)).units(), 123_456_789);
    assert_eq!(round_amount(Decimal::new(12_345_678_950_000, 9)).units(), 123_456_790);
}

#[test]
fn rounding_keeps_what_has_four_digits_or_fewer() {
    assert_eq!(round_amount(Decimal::new(0, 0)).units(), 0);
    assert_eq!(round_amount(Decimal::new(1000, 0)).units(), 10_000_000);
    assert_eq!(round_amount(Decimal::new(90075, 2)).units(), 9_007_500);
    assert_eq!(round_amount(Decimal::new(-15, 1)).units(), -15_000);
    assert_eq!(round_amount(Decimal::new(123, 3)).units(), 1_230);
    assert_eq!(round_amount(Decimal::new(-11234, 4)).units(), -11_234);
    assert_eq!(
        round_amount(Decimal::new(i64::MAX, 0)).units(),
        92_233_720_368_547_758_070_000
    );
    assert_eq!(
        round_amount(Decimal::new(i64::MIN, 0)).units(),
        -92_233_720_368_547_758_080_000
    );
    assert_eq!(Decimal::new(7, 2).round(), Amount::from_units(700));
}

#[test]
fn rounding_of_very_small_fractions() {
    assert_eq!(round_amount(Decimal::new(i64::MAX, 23)).units(), 1);
    assert_eq!(round_amount(Decimal::new(i64::MIN, 23)).units(), -1);
    assert_eq!(round_amount(Decimal::new(i64::MAX, 24)).units(), 0);
    assert_eq!(round_amount(Decimal::new(i64::MIN, 24)).units(), 0);
    assert_eq!(round_amount(Decimal::new(i64::MAX, usize::MAX)).units(), 0);
    assert_eq!(round_amount(Decimal::new(5_000_000_000_000_000_000, 23)).units(), 1);
    assert_eq!(round_amount(Decimal::new(4_999_999_999_999_999_999, 23)).units(), 0);
    assert_eq!(round_amount(Decimal::new(i64::MAX, 22)).units(), 9);
}

#[test]
fn amount_written_out_rounds_to_itself() {
    for units in [0i128, 1, -1, 11_234, -9_007_500, i64::MAX as i128, i64::MIN as i128] {
        let amount = Amount::from_units(units);
        let decimal = amount.to_decimal().unwrap();
        assert_eq!(decimal, Decimal::new(units as i64, 4));
        assert_eq!(round_amount(decimal), amount);
    }
    assert_eq!(Amount::from_units(i64::MAX as i128 + 1).to_decimal(), None);
    assert_eq!(Amount::from_units(i64::MIN as i128 - 1).to_decimal(), None);
}

#[test]
fn decimals_are_read_digit_by_digit() {
    assert_eq!(parse_decimal("1000.0"), Some(Decimal::new(10000, 1)));
    assert_eq!(parse_decimal("900.75"), Some(Decimal::new(90075, 2)));
    assert_eq!(parse_decimal("1.12345"), Some(Decimal::new(112345, 5)));
    assert_eq!(parse_decimal("42"), Some(Decimal::new(42, 0)));
    assert_eq!(parse_decimal("+42"), Some(Decimal::new(42, 0)));
    assert_eq!(parse_decimal("-42.5"), Some(Decimal::new(-425, 1)));
    assert_eq!(parse_decimal("-0"), Some(Decimal::new(0, 0)));
    assert_eq!(parse_decimal("5."), Some(Decimal::new(5, 0)));
    assert_eq!(parse_decimal(".5"), Some(Decimal::new(5, 1)));
    assert_eq!(parse_decimal("007.50"), Some(Decimal::new(750, 2)));
    assert_eq!(parse_decimal("0.0000000000000000000000001"), Some(Decimal::new(1, 25)));
    assert_eq!(parse_decimal("9223372036854775807"), Some(Decimal::new(i64::MAX, 0)));
    assert_eq!(parse_decimal("-9223372036854775808"), Some(Decimal::new(i64::MIN, 0)));
    assert_eq!(parse_decimal("-922337203685477.5808"), Some(Decimal::new(i64::MIN, 4)));
}

#[test]
fn what_is_no_decimal_is_refused() {
    for text in [
        "", ".", "+", "-", "+.", "-.", "1.2.3", "1..2", "1e5", "abc", "1,5", " 1", "1 ", "--1",
        "+-1", "1-", "0x10", "inf", "NaN", "٣", "1.５", "9223372036854775808",
        "-9223372036854775809", "92233720368547758.070", "1é",
    ] {
        assert_eq!(parse_decimal(text), None, "{:?}", text);
    }
}

#[test]
fn numbers_are_read_up_to_their_limit() {
    assert_eq!(parse_unsigned("0", 65_535), Some(0));
    assert_eq!(parse_unsigned("65535", 65_535), Some(65_535));
    assert_eq!(parse_unsigned("65536", 65_535), None);
    assert_eq!(parse_unsigned("+17", 65_535), Some(17));
    assert_eq!(parse_unsigned("00017", 65_535), Some(17));
    assert_eq!(parse_unsigned("4294967295", 4_294_967_295), Some(4_294_967_295));
    assert_eq!(parse_unsigned("4294967296", 4_294_967_295), None);
    assert_eq!(parse_unsigned("18446744073709551615", u64::MAX), Some(u64::MAX));
    assert_eq!(parse_unsigned("18446744073709551616", u64::MAX), None);
    assert_eq!(parse_unsigned("99999999999999999999999999", u64::MAX), None);
    assert_eq!(parse_unsigned("0", 0), Some(0));
    assert_eq!(parse_unsigned("1", 0), None);
    for text in ["", "+", "-1", "-0", "++1", "1.0", "1_000", " 1", "1 ", "one", "１", "+ 1"] {
        assert_eq!(parse_unsigned(text, u64::MAX), None, "{:?}", text);
    }
}

#[test]
fn numbers_are_written_without_leading_zeros() {
    assert_eq!(unsigned_text(0), "0");
    assert_eq!(unsigned_text(7), "7");
    assert_eq!(unsigned_text(10), "10");
    assert_eq!(unsigned_text(65_535), "65535");
    assert_eq!(unsigned_text(u64::MAX), "18446744073709551615");
    for number in [0u64, 9, 10, 99, 100, 65_535, 1_000_000_007, u64::MAX] {
        assert_eq!(parse_unsigned(&unsigned_text(number), u64::MAX), Some(number));
        assert_eq!(unsigned_text(number), number.to_string());
    }
}

#[test]
fn amounts_are_written_with_four_fractional_digits() {
    assert_eq!(Amount::from_units(0).to_text(), "0.0000");
    assert_eq!(Amount::from_units(1).to_text(), "0.0001");
    assert_eq!(Amount::from_units(-1).to_text(), "-0.0001");
    assert_eq!(Amount::from_units(10_000_000).to_text(), "1000.0000");
    assert_eq!(Amount::from_units(9_007_500).to_text(), "900.7500");
    assert_eq!(Amount::from_units(-2_500_000).to_text(), "-250.0000");
    assert_eq!(Amount::from_units(11_235).to_text(), "1.1235");
    assert_eq!(Amount::from_units(10_203).to_text(), "1.0203");
    assert_eq!(Amount::from_units(9_999).to_text(), "0.9999");
    assert_eq!(
        Amount::from_units(i128::MAX).to_text(),
        "17014118346046923173168730371588410.5727"
    );
    assert_eq!(
        Amount::from_units(i128::MIN).to_text(),
        "-17014118346046923173168730371588410.5728"
    );
    for units in [0i128, 5, -5, 12_345, -12_345, 10_000, 99_999_999] {
        let text = Amount::from_units(units).to_text();
        assert_eq!(round_amount(parse_decimal(&text).unwrap()).units(), units);
        assert_eq!(text, format!("{:.4}", units as f64 / 10_000.0));
    }
    assert_eq!(Amount::from_units(77).units(), 77);
}
