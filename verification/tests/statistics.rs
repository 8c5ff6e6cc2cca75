use currconv::decimal::{Dec, MANTISSA_LIMIT};
use currconv::stats::{mean, variance, StatsError};

/// The display-only standard deviation: the variance pushed into floating
/// point and rooted, as the application does it.
fn std_deviation_of(rates: &Vec<Dec>) -> Option<f64> {
    let v = variance(rates).ok()?;
    let f = (v.mantissa() as f64) / 10f64.powi(v.scale_u32() as i32);
    Some(f.sqrt())
}

#[test]
fn computes_mean_of_decimals() {
    let decimals = vec![Dec::new(1, 0), Dec::new(2, 0)];

    let average = mean(&decimals);

    assert_eq!(
        average,
        Ok(Dec::new(15, 1)),
        "The mean of [1,2] should be 1.5"
    );
}

#[test]
fn mean_fails_on_empty_data() {
    let decimals = vec![];

    let average = mean(&decimals);

    assert!(average.is_err());
    assert_eq!(average, Err(StatsError::NoData));
}

#[test]
fn computes_variance_of_decimals() {
    let decimals = vec![Dec::new(1, 0), Dec::new(2, 0)];

    let variance = variance(&decimals);

    assert_eq!(
        variance,
        Ok(Dec::new(25, 2)),
        "The variance of [1,2] should be 0.25"
    );
}

#[test]
fn computes_variance_of_arrays() {
    let decimals: [Dec; 2] = [Dec::new(1, 0), Dec::new(2, 0)];

    let variance = variance(&decimals.to_vec());

    assert_eq!(
        variance,
        Ok(Dec::new(25, 2)),
        "The variance of [1,2] should be 0.25"
    );
}

#[test]
fn computes_std_deviation_of_decimals() {
    let decimals = vec![Dec::new(1, 0), Dec::new(2, 0)];

    let std_deviation = std_deviation_of(&decimals);

    assert_eq!(
        std_deviation,
        Some(0.5),
        "The standard deviation of [1,2] should be 0.5"
    );
}

#[test]
fn std_deviation_fails_on_empty_data() {
    let decimals = vec![];

    let std_deviation = std_deviation_of(&decimals);

    assert!(std_deviation.is_none());
}

#[test]
fn mean_is_exact_over_three_rates() {
    let decimals = vec![Dec::new(2, 0), Dec::new(4, 0), Dec::new(6, 0)];

    let average = mean(&decimals);

    assert_eq!(average, Ok(Dec::new(4, 0)));
}

#[test]
fn mean_of_cents_has_no_drift() {
    // 0.1 + 0.2 summed exactly in decimal: the mean is exactly 0.15.
    let decimals = vec![Dec::new(1, 1), Dec::new(2, 1)];

    let average = mean(&decimals);

    assert_eq!(average, Ok(Dec::new(15, 2)));
}

#[test]
fn overflow_is_not_reported_as_missing_data() {
    // Two rates at the very edge of the decimal range: their exact sum does
    // not fit, which is an out-of-range condition, not "no data".
    let huge = Dec::from_i128(MANTISSA_LIMIT - 1, 0).expect("edge mantissa fits");
    let decimals = vec![huge, huge];

    assert_eq!(mean(&decimals), Err(StatsError::OutOfRange));
    assert_eq!(variance(&decimals), Err(StatsError::OutOfRange));
}

#[test]
fn variance_is_non_negative_on_skewed_data() {
    let decimals = vec![Dec::new(101, 2), Dec::new(99, 2), Dec::new(100, 2)];

    let v = variance(&decimals).expect("variance should exist");

    assert!(v.mantissa() >= 0);
}

#[test]
fn variance_of_constant_data_is_zero() {
    let decimals = vec![Dec::new(3, 0), Dec::new(3, 0), Dec::new(3, 0)];

    let v = variance(&decimals).expect("variance should exist");

    assert_eq!(v, Dec::new(0, 0));
}
