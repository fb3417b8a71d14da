use polymarket_ws::decimal::{is_digit_char, Decimal};

#[test]
fn parses_plain_and_fractional_numbers() {
    let whole = Decimal::parse("100").unwrap();
    assert_eq!(whole.as_str(), "100");
    assert_eq!(whole.scale(), 0);
    assert!(!whole.is_negative());
    assert!(!whole.is_zero());

    let fraction = Decimal::parse("0.485").unwrap();
    assert_eq!(fraction.as_str(), "0.485");
    assert_eq!(fraction.scale(), 3);
    assert!(!fraction.is_zero());
}

#[test]
fn parses_signs() {
    let negative = Decimal::parse("-12.5").unwrap();
    assert!(negative.is_negative());
    assert_eq!(negative.scale(), 1);
    let positive = Decimal::parse("+7").unwrap();
    assert!(!positive.is_negative());
    assert_eq!(positive.scale(), 0);
}

#[test]
fn a_point_may_lead_or_trail() {
    assert_eq!(Decimal::parse(".5").unwrap().scale(), 1);
    assert_eq!(Decimal::parse("5.").unwrap().scale(), 0);
}

#[test]
fn zero_is_recognised_whatever_its_form() {
    for text in ["0", "0.0", "000", "0.000000000000000000000000000000", "-0", "+0.00", ".0"] {
        assert!(Decimal::parse(text).unwrap().is_zero(), "{}", text);
    }
    for text in ["1", "0.0001", "10", "-0.5", "0.000000000000000000000000000001"] {
        assert!(!Decimal::parse(text).unwrap().is_zero(), "{}", text);
    }
}

#[test]
fn keeps_any_precision() {
    let text = "123456789012345678901234567890.123456789012345678901234567890";
    let number = Decimal::parse(text).unwrap();
    assert_eq!(number.as_str(), text);
    assert_eq!(number.scale(), 30);
}

#[test]
fn rejects_what_is_not_a_decimal() {
    for text in [
        "", "-", "+", ".", "-.", "1.2.3", "1..2", "abc", "1e5", "1,5", " 1", "1 ", "--1", "1-",
        "0x10", "١٢", "1.5x",
    ] {
        assert!(Decimal::parse(text).is_none(), "{:?}", text);
    }
}

#[test]
fn clones_are_equal() {
    let number = Decimal::parse("-3.25").unwrap();
    let copy = number.clone();
    assert_eq!(copy, number);
    assert_eq!(copy.as_str(), "-3.25");
    assert_eq!(copy.scale(), 2);
    assert!(copy.is_negative());
    assert!(!copy.is_zero());
}

#[test]
fn digit_characters() {
    for c in '0'..='9' {
        assert!(is_digit_char(c));
    }
    for c in ['/', ':', 'a', '.', '-', ' ', '٣'] {
        assert!(!is_digit_char(c));
    }
}
