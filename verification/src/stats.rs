//! Statistics over collected exchange rates: the arithmetic mean with exact
//! decimal summation, and the variance computed as `E[x^2] - E[x]^2` with an
//! absolute-value clamp against representable rounding noise.
//!
//! Both statistics distinguish their two failure modes: `NoData` — there were
//! no rates, the signal the caller reports as "no data to compute" — comes
//! exactly on empty input, and `OutOfRange` when a step of the arithmetic
//! leaves the decimal runtime's range. The square root that turns the
//! variance into a standard deviation is a floating-point, display-only step
//! and lives in the surrounding application.

use vstd::prelude::*;

use crate::decimal::{
    abs_spec, add_spec, dec_from, div_spec, lemma_add_spec_props, lemma_dec_eq, lemma_dec_from,
    mul_spec, sub_spec, Dec, is_exact_quotient, SCALE_LIMIT,
};

verus! {

/// Why a statistic could not be computed.
#[derive(Clone, Copy, Debug, PartialEq, Eq, Structural)]
pub enum StatsError {
    /// There were no rates: nothing to average.
    NoData,
    /// A step of the computation left the decimal runtime's range.
    OutOfRange,
}

/// The exact running sum of the sequence, folded from the left; `None` as
/// soon as one step leaves the representable range.
pub open spec fn sum_spec(s: Seq<Dec>) -> Option<Dec>
    decreases s.len(),
{
    if s.len() == 0 {
        Some(dec_from(0, 0))
    } else {
        match sum_spec(s.drop_last()) {
            Some(acc) => add_spec(acc, s.last()),
            None => None,
        }
    }
}

/// The sum of the squares of the sequence, squared through the backing
/// runtime's multiplication and summed exactly.
pub open spec fn sumsq_spec(s: Seq<Dec>) -> Option<Dec>
    decreases s.len(),
{
    if s.len() == 0 {
        Some(dec_from(0, 0))
    } else {
        match (sumsq_spec(s.drop_last()), mul_spec(s.last(), s.last())) {
            (Some(acc), Some(sq)) => add_spec(acc, sq),
            _ => None,
        }
    }
}

/// The arithmetic mean as a model value: no data on an empty sequence; out
/// of range on an overflowing sum or a failed division.
pub open spec fn mean_spec(s: Seq<Dec>) -> Result<Dec, StatsError> {
    if s.len() == 0 {
        Err(StatsError::NoData)
    } else {
        match sum_spec(s) {
            Some(total) => match div_spec(total, dec_from(s.len() as int, 0)) {
                Some(m) => Ok(m),
                None => Err(StatsError::OutOfRange),
            },
            None => Err(StatsError::OutOfRange),
        }
    }
}

/// The variance as a model value: `E[x^2] - E[x]^2`, clamped with the
/// absolute value against representable rounding noise. No data on an empty
/// sequence; out of range when any arithmetic step fails.
pub open spec fn variance_spec(s: Seq<Dec>) -> Result<Dec, StatsError> {
    if s.len() == 0 {
        Err(StatsError::NoData)
    } else {
        let count = dec_from(s.len() as int, 0);
        match (sum_spec(s), sumsq_spec(s)) {
            (Some(total), Some(totalsq)) => match (
                div_spec(total, count),
                div_spec(totalsq, count),
            ) {
                (Some(mean), Some(meansq)) => match mul_spec(mean, mean) {
                    Some(m2) => match sub_spec(meansq, m2) {
                        Some(v) => Ok(abs_spec(v)),
                        None => Err(StatsError::OutOfRange),
                    },
                    None => Err(StatsError::OutOfRange),
                },
                _ => Err(StatsError::OutOfRange),
            },
            _ => Err(StatsError::OutOfRange),
        }
    }
}

/// A failed prefix sum dooms the sum of the whole sequence.
proof fn lemma_sum_spec_none_extends(s: Seq<Dec>, i: int)
    requires
        0 <= i <= s.len(),
        sum_spec(s.take(i)) is None,
    ensures
        sum_spec(s) is None,
    decreases s.len() - i,
{
    if i == s.len() {
        assert(s.take(i) =~= s);
    } else {
        assert(s.take(i + 1).drop_last() =~= s.take(i));
        lemma_sum_spec_none_extends(s, i + 1);
    }
}

/// A failed prefix sum of squares dooms the sum of squares of the whole
/// sequence.
proof fn lemma_sumsq_spec_none_extends(s: Seq<Dec>, i: int)
    requires
        0 <= i <= s.len(),
        sumsq_spec(s.take(i)) is None,
    ensures
        sumsq_spec(s) is None,
    decreases s.len() - i,
{
    if i == s.len() {
        assert(s.take(i) =~= s);
    } else {
        assert(s.take(i + 1).drop_last() =~= s.take(i));
        lemma_sumsq_spec_none_extends(s, i + 1);
    }
}

/// The sum of the `units` of the sequence's elements.
pub open spec fn units_sum(s: Seq<Dec>) -> int
    decreases s.len(),
{
    if s.len() == 0 {
        0
    } else {
        units_sum(s.drop_last()) + s.last().units()
    }
}

/// Summation is exact: whenever the fold succeeds, the `units` of the result
/// are precisely the sum of the `units` of the inputs — decimal summation
/// drifts by nothing.
pub proof fn lemma_sum_spec_exact(s: Seq<Dec>)
    requires
        forall|i: int| 0 <= i < s.len() ==> (#[trigger] s[i]).scale() <= SCALE_LIMIT,
    ensures
        sum_spec(s) matches Some(t) ==> t.units() == units_sum(s) && t.scale() <= SCALE_LIMIT,
    decreases s.len(),
{
    lemma_dec_from(0, 0);
    if s.len() == 0 {
        match sum_spec(s) {
            Some(t) => {
                vstd::arithmetic::mul::lemma_mul_basics(
                    crate::decimal::pow10((SCALE_LIMIT - t.scale()) as nat),
                );
            },
            None => {},
        }
    } else {
        assert(forall|i: int|
            0 <= i < s.drop_last().len() ==> (#[trigger] s.drop_last()[i]).scale() <= SCALE_LIMIT);
        lemma_sum_spec_exact(s.drop_last());
        match sum_spec(s.drop_last()) {
            Some(acc) => {
                assert(s.last().scale() <= SCALE_LIMIT);
                lemma_add_spec_props(acc, s.last());
            },
            None => {},
        }
    }
}

/// The arithmetic mean. `NoData` exactly when the input is empty — the
/// caller's "no data to compute mean" signal, never raised for any other
/// reason; `OutOfRange` when the exact sum leaves the representable range or
/// the backing division fails. Where an exact quotient is representable, the
/// mean is exactly the sum divided by the count.
pub fn mean(rates: &Vec<Dec>) -> (r: Result<Dec, StatsError>)
    ensures
        r == mean_spec(rates@),
        r == Err::<Dec, StatsError>(StatsError::NoData) <==> rates@.len() == 0,
        sum_spec(rates@) matches Some(t) ==> ((rates@.len() > 0 && exists|qm: int, qs: nat|
            is_exact_quotient(t, dec_from(rates@.len() as int, 0), qm, qs)) ==> (r matches Ok(c)
            && is_exact_quotient(t, dec_from(rates@.len() as int, 0), c.mant(), c.scale()))),
{
    let ghost all = rates@;
    let n = rates.len();
    if n == 0 {
        return Err(StatsError::NoData);
    }
    let mut total = Dec::zero();
    proof {
        lemma_dec_from(0, 0);
        lemma_dec_eq(total, dec_from(0, 0));
        assert(all.take(0) =~= Seq::<Dec>::empty());
    }
    let mut i: usize = 0;
    while i < n
        invariant
            n == all.len(),
            0 <= i <= n,
            rates@ == all,
            Some(total) == sum_spec(all.take(i as int)),
        decreases n - i,
    {
        proof {
            assert(all.take(i + 1).drop_last() =~= all.take(i as int));
            assert(all.take(i + 1).last() == all[i as int]);
        }
        total = match total.add(&rates[i]) {
            Some(t) => t,
            None => {
                proof {
                    lemma_sum_spec_none_extends(all, i + 1);
                }
                return Err(StatsError::OutOfRange);
            },
        };
        i = i + 1;
    }
    proof {
        assert(all.take(n as int) =~= all);
    }
    let count = Dec::from_usize(n);
    proof {
        lemma_dec_from(n as int, 0);
        lemma_dec_eq(count, dec_from(n as int, 0));
    }
    match crate::decimal::dec_div(&total, &count) {
        Some(m) => Ok(m),
        None => Err(StatsError::OutOfRange),
    }
}

/// The variance: `E[x^2] - E[x]^2`, with the absolute value of the result
/// taken as a clamp against representable rounding noise; never negative.
/// `NoData` exactly when the input is empty, and for no other reason;
/// `OutOfRange` when a step of the arithmetic fails.
pub fn variance(rates: &Vec<Dec>) -> (r: Result<Dec, StatsError>)
    ensures
        r == variance_spec(rates@),
        r == Err::<Dec, StatsError>(StatsError::NoData) <==> rates@.len() == 0,
        r matches Ok(v) ==> v.mant() >= 0,
{
    let ghost all = rates@;
    let n = rates.len();
    if n == 0 {
        return Err(StatsError::NoData);
    }
    let mut total = Dec::zero();
    let mut totalsq = Dec::zero();
    proof {
        lemma_dec_from(0, 0);
        lemma_dec_eq(total, dec_from(0, 0));
        lemma_dec_eq(totalsq, dec_from(0, 0));
        assert(all.take(0) =~= Seq::<Dec>::empty());
    }
    let mut i: usize = 0;
    while i < n
        invariant
            n == all.len(),
            0 <= i <= n,
            rates@ == all,
            Some(total) == sum_spec(all.take(i as int)),
            Some(totalsq) == sumsq_spec(all.take(i as int)),
        decreases n - i,
    {
        proof {
            assert(all.take(i + 1).drop_last() =~= all.take(i as int));
            assert(all.take(i + 1).last() == all[i as int]);
        }
        total = match total.add(&rates[i]) {
            Some(t) => t,
            None => {
                proof {
                    lemma_sum_spec_none_extends(all, i + 1);
                }
                return Err(StatsError::OutOfRange);
            },
        };
        let sq = match crate::decimal::dec_mul(&rates[i], &rates[i]) {
            Some(t) => t,
            None => {
                proof {
                    lemma_sumsq_spec_none_extends(all, i + 1);
                }
                return Err(StatsError::OutOfRange);
            },
        };
        totalsq = match totalsq.add(&sq) {
            Some(t) => t,
            None => {
                proof {
                    lemma_sumsq_spec_none_extends(all, i + 1);
                }
                return Err(StatsError::OutOfRange);
            },
        };
        i = i + 1;
    }
    proof {
        assert(all.take(n as int) =~= all);
    }
    let count = Dec::from_usize(n);
    proof {
        lemma_dec_from(n as int, 0);
        lemma_dec_eq(count, dec_from(n as int, 0));
    }
    let mean_v = match crate::decimal::dec_div(&total, &count) {
        Some(t) => t,
        None => {
            return Err(StatsError::OutOfRange);
        },
    };
    let meansq = match crate::decimal::dec_div(&totalsq, &count) {
        Some(t) => t,
        None => {
            return Err(StatsError::OutOfRange);
        },
    };
    let m2 = match crate::decimal::dec_mul(&mean_v, &mean_v) {
        Some(t) => t,
        None => {
            return Err(StatsError::OutOfRange);
        },
    };
    let v = match meansq.sub(&m2) {
        Some(t) => t,
        None => {
            return Err(StatsError::OutOfRange);
        },
    };
    Ok(v.abs())
}

} // verus!
