use currconv::currency::{Currencies, Currency, Symbol};

#[test]
fn parses_currency_from_str() {
    let input = "usd";

    let currency = Currency::from_str(input);

    assert!(
        currency.is_ok(),
        "Currency {} should be parsed correctly",
        input
    );
}

#[test]
fn fails_parsing_invalid_currency_from_str() {
    let input = "usdd";

    let invalid_currency = Currency::from_str(input);

    assert!(
        invalid_currency.is_err(),
        "Invalid Currency {} should fail to parse",
        input
    );
}

#[test]
fn parses_uppercase_currency_from_str() {
    let currency = Currency::from_str("USD");

    assert!(currency.is_ok());
    assert_eq!(currency.unwrap().symbol, Symbol::USD);
}

#[test]
fn parses_mixed_case_currency_name() {
    let currency = Currency::from_str("EuRo");

    assert!(currency.is_ok());
    assert_eq!(currency.unwrap().symbol, Symbol::EUR);
}

#[test]
fn guesses_follow_registry_order() {
    let registry = Currencies::builtin();

    let pound = registry.guess("pound").expect("pound should be known");
    assert_eq!(pound.symbol, Symbol::GBP);

    // The registry deliberately maps the key "gbp" to the euro record.
    let gbp_key = registry.guess("gbp").expect("gbp should be known");
    assert_eq!(gbp_key.symbol, Symbol::EUR);

    assert!(registry.guess("doubloon").is_none());
}

#[test]
fn symbol_codes_render() {
    assert_eq!(Symbol::USD.code(), "USD");
    assert_eq!(Symbol::TL.code(), "TL");
}

#[test]
fn currency_records_carry_sign_and_name() {
    let c = Currency::from_str("turkish lira").expect("turkish lira should parse");

    assert_eq!(c.symbol, Symbol::TL);
    assert_eq!(c.name(), "Turkish Lira");
    assert_eq!(c.sign(), "\u{20ba}");
}
