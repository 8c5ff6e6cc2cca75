use currconv::aggregate::{successes, summarize, Aggregation, FailureReason, RateOutcome};
use currconv::decimal::Dec;

#[test]
fn results_keep_provider_order_whatever_settles_first() {
    let mut agg = Aggregation::new(3);

    // Settle out of provider order: last first, first last.
    agg.settle(2, RateOutcome::Success(Dec::new(3, 0)));
    agg.settle(0, RateOutcome::Success(Dec::new(1, 0)));
    agg.settle(1, RateOutcome::Failure(FailureReason::NetworkError));

    assert!(agg.is_complete());
    let results = agg.finish();
    assert_eq!(results.len(), 3);
    assert!(matches!(results[0], RateOutcome::Success(d) if d == Dec::new(1, 0)));
    assert!(matches!(results[1], RateOutcome::Failure(FailureReason::NetworkError)));
    assert!(matches!(results[2], RateOutcome::Success(d) if d == Dec::new(3, 0)));
}

#[test]
fn progress_counts_each_settled_unit_once() {
    let mut agg = Aggregation::new(3);
    assert_eq!(agg.ready_count(), 0);
    assert_eq!(agg.total_count(), 3);
    assert_eq!(agg.progress_line(), "Ready 0/3");
    assert!(!agg.is_complete());

    agg.settle(1, RateOutcome::Failure(FailureReason::ParseError));
    assert_eq!(agg.ready_count(), 1);
    assert!(!agg.is_complete());

    agg.settle(0, RateOutcome::Success(Dec::new(2, 0)));
    assert_eq!(agg.ready_count(), 2);
    assert_eq!(agg.progress_line(), "Ready 2/3");
    assert!(!agg.is_complete());

    agg.settle(2, RateOutcome::Success(Dec::new(4, 0)));
    assert_eq!(agg.ready_count(), 3);
    assert_eq!(agg.progress_line(), "Ready 3/3");
    assert!(agg.is_complete());
}

#[test]
fn empty_run_is_complete_at_once() {
    let agg = Aggregation::new(0);

    assert!(agg.is_complete());
    assert_eq!(agg.progress_line(), "Ready 0/0");
    let results = agg.finish();
    assert!(results.is_empty());
}

#[test]
fn one_failure_does_not_block_other_contributions() {
    let outcomes = vec![
        RateOutcome::Failure(FailureReason::ResponseError),
        RateOutcome::Success(Dec::new(11, 1)),
        RateOutcome::Success(Dec::new(13, 1)),
    ];

    let rates = successes(&outcomes);
    assert_eq!(rates, vec![Dec::new(11, 1), Dec::new(13, 1)]);

    let summary = summarize(&outcomes);
    assert_eq!(summary.total_count, 3);
    assert_eq!(summary.success_count, 2);
    assert_eq!(summary.mean, Ok(Dec::new(12, 1)));
}

#[test]
fn success_count_reflects_exactly_the_successes() {
    let outcomes = vec![
        RateOutcome::Success(Dec::new(5, 0)),
        RateOutcome::Failure(FailureReason::MissingRate),
        RateOutcome::Failure(FailureReason::UnsupportedCurrency),
        RateOutcome::Success(Dec::new(7, 0)),
    ];

    let summary = summarize(&outcomes);
    assert_eq!(summary.success_count, 2);
    assert_eq!(summary.total_count, 4);
    assert_eq!(summary.mean, Ok(Dec::new(6, 0)));
}
