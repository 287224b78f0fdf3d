use indexer::numeric::{
    calculate_usd_spent, format_decimal, format_fixed6, gas_value, parse_decimal,
    parse_cost, parse_gas_value, parse_i64, parse_number, usd_of, Decimal, Number,
};

#[test]
fn gas_value_reads_hex_and_decimal() {
    assert_eq!(parse_gas_value(Some(&"0x3e8".to_string())), 1000);
    assert_eq!(parse_gas_value(Some(&"1000".to_string())), 1000);
    assert_eq!(parse_gas_value(Some(&"0x64".to_string())), 100);
    assert_eq!(parse_gas_value(Some(&"0xFF".to_string())), 255);
}

#[test]
fn gas_value_falls_back_to_zero() {
    assert_eq!(parse_gas_value(None), 0);
    assert_eq!(parse_gas_value(Some(&"abc".to_string())), 0);
    assert_eq!(parse_gas_value(Some(&"".to_string())), 0);
    assert_eq!(parse_gas_value(Some(&"0x".to_string())), 0);
    assert_eq!(parse_gas_value(Some(&"-5".to_string())), 0);
    assert_eq!(parse_gas_value(Some(&"18446744073709551616".to_string())), 0);
}

#[test]
fn gas_value_edges() {
    assert_eq!(gas_value("18446744073709551615"), Some(u64::MAX));
    assert_eq!(gas_value("0xffffffffffffffff"), Some(u64::MAX));
    assert_eq!(gas_value("0x10000000000000000"), None);
    assert_eq!(gas_value("+42"), Some(42));
    assert_eq!(gas_value("0x0x10"), Some(16));
    assert_eq!(gas_value("12a"), None);
}

#[test]
fn decimals_are_read_as_mantissa_and_scale() {
    assert_eq!(parse_decimal("2.0"), Some(Decimal { mantissa: 20, scale: 1 }));
    assert_eq!(parse_decimal("3456.789"), Some(Decimal { mantissa: 3456789, scale: 3 }));
    assert_eq!(parse_decimal("7"), Some(Decimal { mantissa: 7, scale: 0 }));
    assert_eq!(parse_decimal(".5"), Some(Decimal { mantissa: 5, scale: 1 }));
    assert_eq!(parse_decimal("5."), Some(Decimal { mantissa: 5, scale: 0 }));
    assert_eq!(parse_decimal("."), None);
    assert_eq!(parse_decimal(""), None);
    assert_eq!(parse_decimal("1.2.3"), None);
    assert_eq!(parse_decimal("-1"), None);
    assert_eq!(parse_decimal("99999999999999999999"), Some(Decimal { mantissa: 99999999999999999999, scale: 0 }));
    assert_eq!(parse_decimal("340282366920938463463374607431768211456"), None);
}

#[test]
fn signed_integers() {
    assert_eq!(parse_i64("1000"), Some(1000));
    assert_eq!(parse_i64("-7"), Some(-7));
    assert_eq!(parse_i64("+7"), Some(7));
    assert_eq!(parse_i64("-9223372036854775808"), Some(i64::MIN));
    assert_eq!(parse_i64("9223372036854775807"), Some(i64::MAX));
    assert_eq!(parse_i64("9223372036854775808"), None);
    assert_eq!(parse_i64("-+7"), None);
    assert_eq!(parse_i64("-"), None);
    assert_eq!(parse_i64("0x10"), None);
}

#[test]
fn usd_of_one_ether_at_two_dollars() {
    assert_eq!(calculate_usd_spent("1000000000000000000", "2.0"), Some(2_000_000));
    assert_eq!(calculate_usd_spent("0xde0b6b3a7640000", "2.0"), Some(2_000_000));
}

#[test]
fn usd_is_the_same_for_hex_and_decimal_cost() {
    assert_eq!(calculate_usd_spent("1000", "3.5"), calculate_usd_spent("0x3e8", "3.5"));
    assert_eq!(
        calculate_usd_spent("123456789012345678", "1234.5678"),
        calculate_usd_spent("0x1b69b4ba630f34e", "1234.5678")
    );
    assert_eq!(calculate_usd_spent("123456789012345678", "1234.5678"), Some(152_415_776));
}

#[test]
fn usd_rounds_half_up_to_micros() {
    let n = |mantissa: u128, exp: i128| Number { mantissa, exp };
    assert_eq!(usd_of(n(1_500_000_000_000, 0), n(1, 0)), Some(2));
    assert_eq!(usd_of(n(1_499_999_999_999, 0), n(1, 0)), Some(1));
    assert_eq!(usd_of(n(1, 0), n(5, -1)), Some(0));
    assert_eq!(usd_of(n(u64::MAX as u128, 0), n(u64::MAX as u128, -30)), Some(0));
    assert_eq!(usd_of(n(u64::MAX as u128, 0), n(u128::MAX, 0)), None);
    assert_eq!(usd_of(n(1, 30), n(1, 3)), Some(1_000_000_000_000_000_000_000));
    assert_eq!(usd_of(n(1, 40), n(1, 20)), None);
    assert_eq!(usd_of(n(0, 0), n(1, 100)), Some(0));
}

#[test]
fn prices_in_float_syntax() {
    let ether = "1000000000000000000";
    assert_eq!(calculate_usd_spent(ether, "2e0"), Some(2_000_000));
    assert_eq!(calculate_usd_spent(ether, "+2"), Some(2_000_000));
    assert_eq!(calculate_usd_spent(ether, "0.2E1"), Some(2_000_000));
    assert_eq!(calculate_usd_spent(ether, "2000e-3"), Some(2_000_000));
    assert_eq!(calculate_usd_spent(ether, "2e+0"), Some(2_000_000));
    assert_eq!(calculate_usd_spent(ether, ".5"), Some(500_000));
    assert_eq!(calculate_usd_spent(ether, "2e"), None);
    assert_eq!(calculate_usd_spent(ether, "e2"), None);
    assert_eq!(calculate_usd_spent(ether, "-2"), None);
    assert_eq!(calculate_usd_spent(ether, "inf"), None);
    assert_eq!(calculate_usd_spent(ether, "2e-+1"), None);
    assert_eq!(calculate_usd_spent("1000", "2e0"), Some(0));
}

#[test]
fn costs_in_float_syntax_and_beyond_64_bits() {
    assert_eq!(calculate_usd_spent("1e18", "2"), Some(2_000_000));
    assert_eq!(calculate_usd_spent("1E18", "3.5"), Some(3_500_000));
    assert_eq!(calculate_usd_spent("100000000000000000000", "1"), Some(100_000_000));
    assert_eq!(calculate_usd_spent("0x56bc75e2d63100000", "1"), None);
    assert_eq!(parse_cost("0x3e8"), Some(Number { mantissa: 1000, exp: 0 }));
    assert_eq!(parse_cost("1.5e3"), Some(Number { mantissa: 15, exp: 2 }));
    assert_eq!(parse_number("12.50"), Some(Number { mantissa: 1250, exp: -2 }));
    assert_eq!(parse_number("+1e-5"), Some(Number { mantissa: 1, exp: -5 }));
    assert_eq!(parse_number("1e99999999999999999999"), None);
}

#[test]
fn usd_needs_both_texts() {
    assert_eq!(calculate_usd_spent("abc", "2.0"), None);
    assert_eq!(calculate_usd_spent("1000", "two"), None);
    assert_eq!(calculate_usd_spent("", ""), None);
}

#[test]
fn fixed_six_decimals() {
    assert_eq!(format_fixed6(2_000_000), "2.000000");
    assert_eq!(format_fixed6(1), "0.000001");
    assert_eq!(format_fixed6(0), "0.000000");
    assert_eq!(format_fixed6(123_456_789), "123.456789");
    assert_eq!(format_decimal(0), "0");
    assert_eq!(format_decimal(u128::MAX), "340282366920938463463374607431768211455");
}

#[test]
fn long_prices_keep_their_precision() {
    assert_eq!(calculate_usd_spent("1000000000000000000", "2.0000000000000000000000000"), Some(2_000_000));
    assert_eq!(calculate_usd_spent("1000000000000000000", "1234.56789012345678901"), Some(1_234_567_890));
}
