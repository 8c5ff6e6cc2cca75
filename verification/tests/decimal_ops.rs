use currconv::decimal::{dec_div, dec_mul, round_2dp, Dec};
use currconv::progress::{progress_line, usize_string};
use currconv::providers::{CoinMarketCapProvider, ExchangeRatesApiProvider, FixerProvider};

#[test]
fn equality_is_by_value_across_scales() {
    assert_eq!(Dec::new(15, 1), Dec::new(150, 2));
    assert_eq!(Dec::new(0, 0), Dec::new(0, 5));
    assert_ne!(Dec::new(15, 1), Dec::new(151, 2));
}

#[test]
fn addition_is_exact_at_mixed_scales() {
    let a = Dec::new(11, 1);
    let b = Dec::new(202, 2);
    let sum = a.add(&b).expect("small sums fit");
    assert_eq!(sum, Dec::new(312, 2));
}

#[test]
fn subtraction_and_abs_are_exact() {
    let a = Dec::new(1, 0);
    let b = Dec::new(275, 2);
    let d = a.sub(&b).expect("small differences fit");
    assert_eq!(d, Dec::new(-175, 2));
    assert_eq!(d.abs(), Dec::new(175, 2));
}

#[test]
fn normalization_strips_trailing_zeros() {
    let a = Dec::new(4500, 3);
    let n = a.normalized();
    assert_eq!(n.mantissa(), 45);
    assert_eq!(n.scale_u32(), 1);
}

#[test]
fn multiplication_matches_the_decimal_runtime() {
    let a = Dec::new(15, 1);
    let b = Dec::new(15, 1);
    let p = dec_mul(&a, &b).expect("small products fit");
    assert_eq!(p.mantissa(), 225);
    assert_eq!(p.scale_u32(), 2);
}

#[test]
fn division_is_exact_when_representable() {
    let a = Dec::new(3, 0);
    let b = Dec::new(2, 0);
    let q = dec_div(&a, &b).expect("three halves divide");
    assert_eq!(q, Dec::new(15, 1));

    assert!(dec_div(&a, &Dec::new(0, 0)).is_none());
}

#[test]
fn rounding_to_cents_is_half_even() {
    // Ties go to the even cent; clear cases go to the nearest.
    assert_eq!(round_2dp(&Dec::new(12345, 3)).mantissa(), 1234);
    assert_eq!(round_2dp(&Dec::new(12355, 3)).mantissa(), 1236);
    assert_eq!(round_2dp(&Dec::new(12349, 3)).mantissa(), 1235);
    assert_eq!(round_2dp(&Dec::new(-12345, 3)).mantissa(), -1234);
    // At two decimals or fewer nothing changes.
    assert_eq!(round_2dp(&Dec::new(99, 2)), Dec::new(99, 2));
}

#[test]
fn digit_rendering_matches_decimal_notation() {
    assert_eq!(usize_string(0), "0");
    assert_eq!(usize_string(42), "42");
    assert_eq!(usize_string(1005), "1005");
    assert_eq!(progress_line(0, 0), "Ready 0/0");
    assert_eq!(progress_line(12, 30), "Ready 12/30");
}

#[test]
fn providers_carry_their_identities() {
    let era = ExchangeRatesApiProvider::new();
    assert_eq!(era.get_name(), "exchangeratesapi.io");

    let fixer = FixerProvider::new(String::from("k1"));
    assert_eq!(fixer.get_name(), "fixer.io");
    assert_eq!(fixer.access_key(), "k1");
    assert_eq!(fixer.base_url(), "http://data.fixer.io/api/latest");

    let cmc = CoinMarketCapProvider::new(String::from("k2"));
    assert_eq!(cmc.get_name(), "coinmarketcap.com");
    assert_eq!(cmc.access_key(), "k2");
    assert_eq!(
        cmc.base_url(),
        "https://pro-api.coinmarketcap.com/v1/tools/price-conversion"
    );
}
