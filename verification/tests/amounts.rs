use rails::{Amount, Decimal};

#[test]
fn parse_four_fractional_digits() {
    let d = Decimal::parse("1.2345").unwrap();
    assert_eq!(d.mantissa, 12345);
    assert_eq!(d.scale, 4);
}

#[test]
fn parse_plain_integer() {
    let d = Decimal::parse("42").unwrap();
    assert_eq!(d.mantissa, 42);
    assert_eq!(d.scale, 0);
}

#[test]
fn parse_negative() {
    let d = Decimal::parse("-0.5").unwrap();
    assert_eq!(d.mantissa, -5);
    assert_eq!(d.scale, 1);
}

#[test]
fn parse_rejects_malformed_text() {
    assert!(Decimal::parse("").is_none());
    assert!(Decimal::parse("-").is_none());
    assert!(Decimal::parse(".").is_none());
    assert!(Decimal::parse("1.").is_none());
    assert!(Decimal::parse(".5").is_none());
    assert!(Decimal::parse("1.2.3").is_none());
    assert!(Decimal::parse("1,2").is_none());
    assert!(Decimal::parse("abc").is_none());
    assert!(Decimal::parse("1e3").is_none());
    assert!(Decimal::parse("+1").is_none());
}

#[test]
fn parse_rejects_more_than_eighteen_digits() {
    assert!(Decimal::parse("1234567890123456789").is_none());
    assert!(Decimal::parse("123456789012345678").is_some());
    assert!(Decimal::parse("12345678901234.5678").is_some());
}

#[test]
fn five_fractional_digits_are_not_representable() {
    let d = Decimal::parse("1.23456").unwrap();
    assert_eq!(d.scale, 5);
    assert!(Amount::from_decimal(&d).is_none());
}

#[test]
fn trailing_zeros_count_as_precision() {
    // Five fractional digits, even though the value has only four
    // significant ones: the native precision is what is checked.
    let d = Decimal::parse("1.23450").unwrap();
    assert!(Amount::from_decimal(&d).is_none());
}

#[test]
fn conversion_normalizes_to_ten_thousandths() {
    assert_eq!(Amount::from_decimal(&Decimal::parse("1.5").unwrap()).unwrap().units, 15000);
    assert_eq!(Amount::from_decimal(&Decimal::parse("3").unwrap()).unwrap().units, 30000);
    assert_eq!(Amount::from_decimal(&Decimal::parse("0.0001").unwrap()).unwrap().units, 1);
    assert_eq!(Amount::from_decimal(&Decimal::parse("-2.25").unwrap()).unwrap().units, -22500);
}

#[test]
fn conversion_rejects_values_beyond_the_machine_word() {
    // 922337203685477.5807 ten-thousandths is the machine limit.
    let d = Decimal::parse("922337203685478").unwrap();
    assert!(Amount::from_decimal(&d).is_none());
    let d = Decimal::parse("922337203685477").unwrap();
    assert_eq!(Amount::from_decimal(&d).unwrap().units, 9223372036854770000);
}

#[test]
fn arithmetic_is_exact() {
    let a = Amount::from_decimal(&Decimal::parse("1.1234").unwrap()).unwrap();
    let b = Amount::from_decimal(&Decimal::parse("2.0766").unwrap()).unwrap();
    assert_eq!(a.checked_add(&b).unwrap().units, 32000);
    assert_eq!(b.checked_sub(&a).unwrap().units, 9532);
    assert!(b.gt(&a));
    assert!(!a.gt(&b));
    assert!(!a.is_negative());
    assert!(a.checked_sub(&b).unwrap().is_negative());
    assert_eq!(Amount::zero().units, 0);
}

#[test]
fn addition_overflow_is_detected() {
    let big = Amount { units: i64::MAX };
    let one = Amount { units: 1 };
    assert!(big.checked_add(&one).is_none());
    assert!(big.checked_sub(&one).is_some());
    let small = Amount { units: i64::MIN };
    assert!(small.checked_sub(&one).is_none());
}
