use currconv::amount::{Amount, ParseAmountError};

#[test]
fn parses_whole_amount_to_cents() {
    let a = Amount::from_str("100").expect("whole amounts parse");
    assert_eq!(a.cents(), 10000);
}

#[test]
fn parses_one_decimal_amount() {
    let a = Amount::from_str("1.5").expect("tenths parse");
    assert_eq!(a.cents(), 150);
}

#[test]
fn parses_two_decimal_amount() {
    let a = Amount::from_str("19.99").expect("cents parse");
    assert_eq!(a.cents(), 1999);
}

#[test]
fn parses_trailing_dot_amount() {
    let a = Amount::from_str("5.").expect("a bare dot parses");
    assert_eq!(a.cents(), 500);
}

#[test]
fn rejects_three_decimals() {
    let r = Amount::from_str("1.555");
    assert!(r.is_err());
}

#[test]
fn rejects_two_dots() {
    let r: Result<Amount, ParseAmountError> = Amount::from_str("1.2.3");
    assert!(r.is_err());
}

#[test]
fn rejects_non_numeric_text() {
    let r = Amount::from_str("12x4");
    assert!(r.is_err());
}

#[test]
fn rejects_non_ascii_text() {
    let r = Amount::from_str("12\u{20ac}4");
    assert!(r.is_err());
}

#[test]
fn multiplies_amounts_by_cents() {
    let a = Amount::from_str("3").expect("whole amounts parse");
    let b = Amount::from_str("4").expect("whole amounts parse");
    assert_eq!(a.mul(&b).cents(), 120000);
}
