use currconv::aggregate::{summarize, Aggregation, FailureReason, RateOutcome};
use currconv::stats::StatsError;
use currconv::convert::{convert, presented};
use currconv::decimal::Dec;

#[test]
fn two_successes_average_and_convert_to_cents() {
    // Two providers answer 1.10 and 1.12; 100 units convert at the mean.
    let mut agg = Aggregation::new(2);
    agg.settle(0, RateOutcome::Success(Dec::new(110, 2)));
    agg.settle(1, RateOutcome::Success(Dec::new(112, 2)));
    let outcomes = agg.finish();

    let summary = summarize(&outcomes);
    assert_eq!(summary.success_count, 2);
    assert_eq!(summary.total_count, 2);
    let mean = summary.mean.expect("two rates should average");
    assert_eq!(mean, Dec::new(111, 2));

    let amount = Dec::new(100, 0);
    let converted = convert(&amount, &mean).expect("conversion should fit");
    let shown = presented(&converted, false);
    assert_eq!(shown, Dec::new(11100, 2));
    assert_eq!(shown.mantissa(), 111);
    assert_eq!(shown.scale_u32(), 0);
}

#[test]
fn one_failure_still_converts_from_the_rest() {
    // One provider fails, the other answers 2.0; 10 units convert to 20.
    let mut agg = Aggregation::new(2);
    agg.settle(0, RateOutcome::Failure(FailureReason::NetworkError));
    agg.settle(1, RateOutcome::Success(Dec::new(20, 1)));
    let outcomes = agg.finish();

    let summary = summarize(&outcomes);
    assert_eq!(summary.success_count, 1);
    assert_eq!(summary.total_count, 2);
    let mean = summary.mean.expect("one rate should remain");
    assert_eq!(mean, Dec::new(2, 0));

    let amount = Dec::new(10, 0);
    let converted = convert(&amount, &mean).expect("conversion should fit");
    let shown = presented(&converted, false);
    assert_eq!(shown, Dec::new(2000, 2));
}

#[test]
fn no_successful_rate_yields_no_result() {
    // No providers at all: nothing to average.
    let empty = Aggregation::new(0);
    let outcomes = empty.finish();
    let summary = summarize(&outcomes);
    assert_eq!(summary.success_count, 0);
    assert_eq!(summary.mean, Err(StatsError::NoData));
    assert_eq!(summary.variance, Err(StatsError::NoData));

    // Every provider fails: still nothing to average.
    let mut agg = Aggregation::new(2);
    agg.settle(0, RateOutcome::Failure(FailureReason::ParseError));
    agg.settle(1, RateOutcome::Failure(FailureReason::ResponseError));
    let outcomes = agg.finish();
    let summary = summarize(&outcomes);
    assert_eq!(summary.total_count, 2);
    assert_eq!(summary.success_count, 0);
    assert_eq!(summary.mean, Err(StatsError::NoData));
    assert_eq!(summary.variance, Err(StatsError::NoData));
}

#[test]
fn precise_presentation_keeps_sub_cent_digits() {
    // 100 at 1.11115 is 111.115: rounding banker's-rounds the half up to the
    // even cent, precision keeps the thousandths.
    let amount = Dec::new(100, 0);
    let rate = Dec::new(111115, 5);
    let converted = convert(&amount, &rate).expect("conversion should fit");

    let rounded = presented(&converted, false);
    assert_eq!(rounded, Dec::new(11112, 2));

    let precise = presented(&converted, true);
    assert_eq!(precise, Dec::new(111115, 3));
}
