use rust_decimal::Decimal;
use trx::amount::{AmountError, DecimalParts, MAX_MANTISSA};
use trx::Amount;

fn decimal(amount: Amount) -> Decimal {
    Decimal::from_i128_with_scale(amount.mantissa(), 4)
}

#[test]
fn correctly_deserializes_f32() {
    let amount = Amount::parse("1.032").unwrap();
    assert_eq!(decimal(amount), Decimal::new(1032, 3));
}

#[test]
fn automatically_rounds_to_4_dp_when_deserializing() {
    let amount = Amount::parse("1.03235").unwrap();
    assert_eq!(decimal(amount), Decimal::new(10324, 4));
}

#[test]
fn follows_bankers_rounding() {
    let amount = Amount::parse("1.03225").unwrap();
    assert_eq!(decimal(amount), Decimal::new(10322, 4));
}

#[test]
fn fails_to_deserialize_an_f32_less_than_0() {
    let amount = Amount::parse("-1.032");
    assert!(amount.is_err());
}

#[test]
fn correctly_carries_out_add_operations() {
    let lhs = Amount::parse("1.0234").unwrap();
    let rhs = Amount::parse("3.0923").unwrap();
    let expected = Amount::parse("4.1157").unwrap();
    let result = lhs + rhs;
    let mut assign_result = lhs;
    assign_result = assign_result + rhs;
    assert!(
        result == expected,
        "when performing an add operation expected {} to equal {}",
        decimal(result),
        decimal(expected)
    );
    assert!(
        assign_result == expected,
        "when performing an add assign operation expected {} to equal {}",
        decimal(assign_result),
        decimal(expected)
    );
    assert_eq!(decimal(result), Decimal::new(41157, 4));
}

#[test]
fn correctly_carries_out_subtraction_operations() {
    let lhs = Amount::parse("3.0923").unwrap();
    let rhs = Amount::parse("1.0234").unwrap();
    let expected = Amount::parse("2.0689").unwrap();
    let result = lhs - rhs;
    let mut assign_result = lhs;
    assign_result = assign_result - rhs;
    assert!(
        result == expected,
        "when performing an subtraction operation expected {} to equal {}",
        decimal(result),
        decimal(expected)
    );
    assert!(
        assign_result == expected,
        "when performing an subtraction assign operation expected {} to equal {}",
        decimal(assign_result),
        decimal(expected)
    );
    assert_eq!(decimal(result), Decimal::new(20689, 4));
}

#[test]
fn parse_reads_what_the_decimal_parser_reads() {
    for text in ["0", "7", "12.5", "0.0001", "123456789.1234", "+3.5", "1_000.25"] {
        let amount = Amount::parse(text).unwrap();
        assert_eq!(decimal(amount), Decimal::from_str_exact(text).unwrap());
    }
}

#[test]
fn parse_refuses_what_is_no_decimal() {
    for text in ["", "abc", "1.2.3", "--1", "1e5", " 1", "."] {
        assert_eq!(Amount::parse(text).err(), Some(AmountError::Invalid), "text {:?}", text);
    }
}

#[test]
fn parse_rounds_half_to_even() {
    assert_eq!(Amount::parse("0.00005").unwrap().mantissa(), 0);
    assert_eq!(Amount::parse("0.00015").unwrap().mantissa(), 2);
    assert_eq!(Amount::parse("0.00025").unwrap().mantissa(), 2);
    assert_eq!(Amount::parse("0.000251").unwrap().mantissa(), 3);
    assert_eq!(Amount::parse("0.000249").unwrap().mantissa(), 2);
    assert_eq!(Amount::parse("2.00005000000000000000000001").unwrap().mantissa(), 20001);
}

#[test]
fn parse_rounds_before_it_looks_at_the_sign() {
    assert_eq!(Amount::parse("-0").unwrap().mantissa(), 0);
    assert_eq!(Amount::parse("-0.00001").unwrap().mantissa(), 0);
    assert_eq!(Amount::parse("-0.00005").unwrap().mantissa(), 0);
    assert_eq!(Amount::parse("-0.00006").err(), Some(AmountError::Negative));
    assert_eq!(Amount::parse("-0.0001").err(), Some(AmountError::Negative));
}

#[test]
fn parse_refuses_what_does_not_fit_four_digits() {
    assert_eq!(
        Amount::parse("7922816251426433759354395.0335").unwrap().mantissa(),
        MAX_MANTISSA
    );
    assert_eq!(Amount::parse("7922816251426433759354395.0336").err(), Some(AmountError::Invalid));
    assert_eq!(Amount::parse("7922816251426433759354396").err(), Some(AmountError::Overflow));
    assert_eq!(Amount::parse("79228162514264337593543950335").err(), Some(AmountError::Overflow));
}

#[test]
fn from_parts_scales_and_rounds() {
    let parts = |mantissa: i128, scale: u32| DecimalParts { mantissa, scale };
    assert_eq!(Amount::from_parts(parts(1032, 3)).unwrap().mantissa(), 10320);
    assert_eq!(Amount::from_parts(parts(5, 0)).unwrap().mantissa(), 50000);
    assert_eq!(Amount::from_parts(parts(103225, 5)).unwrap().mantissa(), 10322);
    assert_eq!(Amount::from_parts(parts(103235, 5)).unwrap().mantissa(), 10324);
    assert_eq!(Amount::from_parts(parts(1, 28)).unwrap().mantissa(), 0);
    assert_eq!(Amount::from_parts(parts(-1032, 3)).err(), Some(AmountError::Negative));
    assert_eq!(Amount::from_parts(parts(1, 29)).err(), Some(AmountError::Invalid));
    assert_eq!(Amount::from_parts(parts(MAX_MANTISSA + 1, 4)).err(), Some(AmountError::Invalid));
    assert_eq!(Amount::from_parts(parts(MAX_MANTISSA, 3)).err(), Some(AmountError::Overflow));
    assert_eq!(Amount::from_parts(parts(MAX_MANTISSA, 4)).unwrap().mantissa(), MAX_MANTISSA);
}

#[test]
fn from_parts_rounds_as_the_decimal_type_rounds() {
    for (mantissa, scale) in [(103225i128, 5u32), (103235, 5), (999995, 5), (15, 5), (25, 5), (123456789, 9)] {
        let amount = Amount::from_parts(DecimalParts { mantissa, scale }).unwrap();
        let rounded = Decimal::from_i128_with_scale(mantissa, scale).round_dp(4);
        assert_eq!(decimal(amount), rounded);
    }
}

#[test]
fn an_amount_goes_through_its_parts_unchanged() {
    for text in ["0", "0.0001", "1.5", "123456.7891", "7922816251426433759354395.0335"] {
        let amount = Amount::parse(text).unwrap();
        let parts = DecimalParts { mantissa: amount.mantissa(), scale: 4 };
        assert!(Amount::from_parts(parts) == Ok(amount));
        assert!(Amount::parse(&decimal(amount).to_string()) == Ok(amount));
    }
}

#[test]
fn checked_arithmetic_stops_at_the_range() {
    let max = Amount::parse("7922816251426433759354395.0335").unwrap();
    let one = Amount::parse("0.0001").unwrap();
    assert!(max.checked_add(one).is_none());
    assert!(max.checked_add(Amount::zero()) == Some(max));
    let min = Amount::zero().checked_sub(max).unwrap();
    assert_eq!(min.mantissa(), -MAX_MANTISSA);
    assert!(min.is_negative());
    assert!(min.checked_sub(one).is_none());
    assert!(one.checked_sub(one) == Some(Amount::zero()));
}

#[test]
fn amounts_are_ordered_as_numbers() {
    let small = Amount::parse("1.5").unwrap();
    let large = Amount::parse("1.5001").unwrap();
    assert!(small < large);
    assert!(large > small);
    assert!(small <= small && small >= small);
    assert!(Amount::zero().checked_sub(small).unwrap() < Amount::zero());
    assert!(small.round() == small);
}
