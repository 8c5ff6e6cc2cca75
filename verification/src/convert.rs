//! Conversion: the amount times the mean rate, and the presentation step
//! that rounds to cents — only at the very end, never before the
//! multiplication.

use vstd::prelude::*;

use crate::decimal::{
    dec_mul, is_exact_product, mul_of, mul_spec, round2_spec, round_2dp, Dec, MANTISSA_LIMIT,
    SCALE_LIMIT,
};

verus! {

/// The converted amount: the amount times the rate, through the backing
/// runtime's multiplication. Whenever the product's value is representable —
/// whatever representation the rate arrived in — the result denotes exactly
/// that value; `None` only when it fits at no scale.
pub fn convert(amount: &Dec, rate: &Dec) -> (r: Option<Dec>)
    ensures
        r == mul_spec(*amount, *rate),
        r is None <==> mul_of(amount.mant(), amount.scale(), rate.mant(), rate.scale()) is None,
        (amount.mant() != 0 && rate.mant() != 0 && amount.scale() + rate.scale() <= SCALE_LIMIT as nat && -(MANTISSA_LIMIT as int) < amount.mant() * rate.mant() < (MANTISSA_LIMIT as int)) ==> r is Some,
        r matches Some(c) ==> ((amount.mant() != 0 && rate.mant() != 0 && amount.scale() + rate.scale() <= SCALE_LIMIT as nat && -(MANTISSA_LIMIT as int) < amount.mant() * rate.mant() < (MANTISSA_LIMIT as int)) ==> c.mant() == amount.mant() * rate.mant() && c.scale() == amount.scale() + rate.scale()),
        (exists|em: int, es: nat| is_exact_product(*amount, *rate, em, es)) ==> r is Some,
        r matches Some(c) ==> ((exists|em: int, es: nat| is_exact_product(*amount, *rate, em, es)) ==> is_exact_product(*amount, *rate, c.mant(), c.scale())),
{
    dec_mul(amount, rate)
}

/// The value as presented: rounded to cents unless full precision was asked
/// for, then stripped of trailing zeros. The numeric value is unchanged but
/// for that rounding.
pub fn presented(value: &Dec, precise: bool) -> (r: Dec)
    ensures
        precise ==> r.units() == value.units(),
        !precise ==> r.units() == round2_spec(*value).units(),
        r.scale() == 0 || r.mant() % 10 != 0,
{
    if precise {
        value.normalized()
    } else {
        let rounded = round_2dp(value);
        rounded.normalized()
    }
}

} // verus!
