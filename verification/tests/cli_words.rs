use currconv::currency::{Symbol, SymbolPair};
use currconv::words::{parse_currencies, partition_words_by};

#[test]
fn basic_partition() {
    let (pre, post) = partition_words_by(&vec!["in"], &vec!["eur", "in", "usd"]);

    assert_eq!(pre, vec!["eur"]);
    assert_eq!(post, vec!["usd"]);
}

#[test]
fn compound_currency_partition() {
    let (pre, post) = partition_words_by(&vec!["in"], &vec!["turkish", "lira", "in", "usd"]);

    assert_eq!(pre, vec!["turkish", "lira"]);
    assert_eq!(post, vec!["usd"]);
}

#[test]
fn compound_currency_with_junk() {
    let (pre, post) =
        partition_words_by(&vec!["in", "to"], &vec!["turkish", "lira", "to", "foo", "usd", "bar"]);

    assert_eq!(pre, vec!["turkish", "lira"]);
    assert_eq!(post, vec!["foo", "usd", "bar"]);
}

#[test]
fn no_seperator_partition() {
    let (pre, post) = partition_words_by(&vec!["in"], &vec!["eur", "usd"]);

    assert_eq!(pre, vec!["eur", "usd"]);
    assert_eq!(post, Vec::<&str>::new());
}

#[test]
fn no_pre_partition() {
    let (pre, post) = partition_words_by(&vec!["in"], &vec!["in", "usd"]);

    assert_eq!(pre, Vec::<&str>::new());
    assert_eq!(post, vec!["usd"]);
}

#[test]
fn no_post_partition() {
    let (pre, post) = partition_words_by(&vec!["in"], &vec!["usd", "in"]);

    assert_eq!(pre, vec!["usd"]);
    assert_eq!(post, Vec::<&str>::new());
}

#[test]
fn basic_currency_parsing() {
    let expected_pair = SymbolPair {
        base: Symbol::USD,
        quote: Symbol::EUR,
    };
    let option = parse_currencies(vec!["usd", "in", "eur"]).ok();

    assert_eq!(option, Some(expected_pair));
}

#[test]
fn compound_currency_parsing() {
    let expected_pair = SymbolPair {
        base: Symbol::TL,
        quote: Symbol::EUR,
    };
    let option = parse_currencies(vec!["turkish", "lira", "in", "eur"]).ok();

    assert_eq!(option, Some(expected_pair));
}

#[test]
fn compound_currency_parsing2() {
    let expected_pair = SymbolPair {
        base: Symbol::TL,
        quote: Symbol::TL,
    };
    let option = parse_currencies(vec!["turkish", "lira", "in", "turkish", "lira"]).ok();

    assert_eq!(option, Some(expected_pair));
}

#[test]
fn no_base_currency_parsing() {
    let result = parse_currencies(vec!["invalid", "in", "turkish", "lira"]);

    assert!(result.is_err());
}

#[test]
fn no_quote_currency_parsing() {
    let result = parse_currencies(vec!["usd", "in"]);

    assert!(result.is_err());
}

#[test]
fn no_seperator_currency_parsing() {
    let result = parse_currencies(vec!["usd", "foo", "eur"]);

    assert!(result.is_err());
}
