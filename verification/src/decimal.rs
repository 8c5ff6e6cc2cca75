//! Exact decimal numbers: a signed mantissa together with a base-ten scale,
//! the representation used for amounts and exchange rates.
//!
//! A value `Dec { m, s }` denotes the rational number `m / 10^s`. The scale is
//! at most 28 and the mantissa fits in 96 bits, the domain of the backing
//! decimal runtime. Sums and differences are computed exactly in verified
//! code; products, quotients and presentation rounding go through the backing
//! runtime behind trusted wrappers.

use vstd::prelude::*;

verus! {

use vstd::arithmetic::power::{
    pow, lemma_pow_adds, lemma_pow_positive, lemma_pow_increases,
};

/// Ten raised to `e`: the denominator ladder of the decimal representation.
pub open spec fn pow10(e: nat) -> int {
    pow(10, e)
}

pub proof fn lemma_pow10_pos(e: nat)
    ensures
        pow10(e) >= 1,
{
    lemma_pow_positive(10, e);
}

pub proof fn lemma_pow10_adds(a: nat, b: nat)
    ensures
        pow10(a + b) == pow10(a) * pow10(b),
{
    lemma_pow_adds(10, a, b);
}

pub proof fn lemma_pow10_increases(a: nat, b: nat)
    ensures
        a <= b ==> pow10(a) <= pow10(b),
{
    if a <= b {
        lemma_pow_increases(10, a, b);
    }
}

pub proof fn lemma_pow10_28()
    ensures
        pow10(28) == 10000000000000000000000000000int,
{
    assert(pow(10, 28) == 10000000000000000000000000000int) by {
        reveal_with_fuel(pow, 29);
    }
}

/// One past the largest mantissa magnitude the backing decimal runtime can
/// hold: two to the ninety-sixth power.
pub const MANTISSA_LIMIT: i128 = 79228162514264337593543950336;

/// The largest scale the backing decimal runtime can hold.
pub const SCALE_LIMIT: u32 = 28;

/// An exact decimal number: the rational `mant / 10^scale`.
#[derive(Clone, Copy, Debug)]
pub struct Dec {
    m: i128,
    s: u32,
}

impl Dec {
    #[verifier::type_invariant]
    spec fn inv(self) -> bool {
        &&& self.s <= SCALE_LIMIT
        &&& -(MANTISSA_LIMIT as int) < (self.m as int) < (MANTISSA_LIMIT as int)
    }

    /// The mantissa, as a mathematical integer.
    pub closed spec fn mant(self) -> int {
        self.m as int
    }

    /// The scale: the power of ten the mantissa is divided by.
    pub closed spec fn scale(self) -> nat {
        self.s as nat
    }

    /// The value scaled to a common denominator of `10^28`: two decimals are
    /// numerically equal exactly when their `units` agree.
    pub open spec fn units(self) -> int {
        self.mant() * pow10((SCALE_LIMIT - self.scale()) as nat)
    }

    /// A decimal from a 64-bit mantissa and a scale, as the backing runtime's
    /// constructor takes them.
    pub fn new(num: i64, scale: u32) -> (r: Dec)
        requires
            scale <= SCALE_LIMIT,
        ensures
            r.mant() == num as int,
            r.scale() == scale as nat,
    {
        Dec { m: num as i128, s: scale }
    }

    /// The decimal zero.
    pub fn zero() -> (r: Dec)
        ensures
            r.mant() == 0,
            r.scale() == 0,
            r.units() == 0,
    {
        Dec { m: 0, s: 0 }
    }

    /// A decimal from any mantissa and scale; `None` outside the
    /// representable domain.
    pub fn from_i128(num: i128, scale: u32) -> (r: Option<Dec>)
        ensures
            r is Some <==> (scale <= SCALE_LIMIT && -(MANTISSA_LIMIT as int) < (num as int) < (MANTISSA_LIMIT as int)),
            r matches Some(d) ==> d.mant() == num as int && d.scale() == scale as nat,
    {
        if scale <= SCALE_LIMIT && -MANTISSA_LIMIT < num && num < MANTISSA_LIMIT {
            Some(Dec { m: num, s: scale })
        } else {
            None
        }
    }

    /// A decimal holding a whole count.
    pub fn from_usize(n: usize) -> (r: Dec)
        ensures
            r.mant() == n as int,
            r.scale() == 0,
    {
        Dec { m: n as i128, s: 0 }
    }

    /// The mantissa.
    pub fn mantissa(&self) -> (r: i128)
        ensures
            r as int == self.mant(),
    {
        proof { use_type_invariant(self); }
        self.m
    }

    /// The scale.
    pub fn scale_u32(&self) -> (r: u32)
        ensures
            r as nat == self.scale(),
    {
        self.s
    }

    /// The negation; exact, and total because the mantissa bounds are
    /// symmetric.
    pub fn neg(&self) -> (r: Dec)
        ensures
            r.mant() == -self.mant(),
            r.scale() == self.scale(),
            r.units() == -self.units(),
    {
        proof {
            use_type_invariant(self);
            vstd::arithmetic::mul::lemma_mul_unary_negation(
                self.mant(),
                pow10((SCALE_LIMIT - self.scale()) as nat),
            );
        }
        Dec { m: -self.m, s: self.s }
    }

    /// The absolute value; exact.
    pub fn abs(&self) -> (r: Dec)
        ensures
            r == abs_spec(*self),
            r.mant() == if self.mant() >= 0 { self.mant() } else { -self.mant() },
            r.mant() >= 0,
            r.scale() == self.scale(),
    {
        proof { use_type_invariant(self); }
        if self.m < 0 {
            Dec { m: -self.m, s: self.s }
        } else {
            Dec { m: self.m, s: self.s }
        }
    }
}

/// The scale of the exact sum of `a` and `b`: the larger of the two scales.
pub open spec fn add_scale(a: Dec, b: Dec) -> nat {
    if a.scale() >= b.scale() {
        a.scale()
    } else {
        b.scale()
    }
}

/// The mantissa of the exact sum of `a` and `b`, at scale `add_scale(a, b)`.
pub open spec fn add_mant(a: Dec, b: Dec) -> int {
    a.mant() * pow10((add_scale(a, b) - a.scale()) as nat) + b.mant() * pow10(
        (add_scale(a, b) - b.scale()) as nat,
    )
}

/// The mantissa of the exact difference of `a` and `b`, at scale
/// `add_scale(a, b)`.
pub open spec fn sub_mant(a: Dec, b: Dec) -> int {
    a.mant() * pow10((add_scale(a, b) - a.scale()) as nat) - b.mant() * pow10(
        (add_scale(a, b) - b.scale()) as nat,
    )
}

/// Rescaling a mantissa from scale `s` up to scale `t` and then to the common
/// denominator is the same as rescaling it to the common denominator at once.
proof fn lemma_scaled_units(m: int, s: nat, t: nat)
    requires
        s <= t,
        t <= SCALE_LIMIT,
    ensures
        (m * pow10((t - s) as nat)) * pow10((SCALE_LIMIT - t) as nat) == m * pow10(
            (SCALE_LIMIT - s) as nat,
        ),
{
    let p1 = pow10((t - s) as nat);
    let p2 = pow10((SCALE_LIMIT - t) as nat);
    lemma_pow10_adds((t - s) as nat, (SCALE_LIMIT - t) as nat);
    vstd::arithmetic::mul::lemma_mul_is_associative(m, p1, p2);
}

impl Dec {
    /// The exact sum. `None` exactly when the sum's mantissa at the common
    /// scale falls outside the representable range; no rounding ever happens.
    pub fn add(&self, other: &Dec) -> (r: Option<Dec>)
        ensures
            r == add_spec(*self, *other),
            r is Some <==> -(MANTISSA_LIMIT as int) < add_mant(*self, *other) < (
            MANTISSA_LIMIT as int),
            r matches Some(c) ==> {
                &&& c.mant() == add_mant(*self, *other)
                &&& c.scale() == add_scale(*self, *other)
                &&& c.units() == self.units() + other.units()
            },
    {
        proof {
            use_type_invariant(self);
            use_type_invariant(other);
            assert(pow10(0) == 1) by {
                reveal(pow);
            }
        }
        let s: u32 = if self.s >= other.s {
            self.s
        } else {
            other.s
        };
        let pa = pow10_i128(s - self.s);
        let pb = pow10_i128(s - other.s);
        let ghost am = self.mant() * (pa as int);
        let ghost bm = other.mant() * (pb as int);
        proof {
            assert(s as nat == add_scale(*self, *other));
            assert(add_mant(*self, *other) == am + bm);
        }
        let ma = match self.m.checked_mul(pa) {
            Some(v) => v,
            None => {
                proof {
                    // The factor on the side whose scale equals the common
                    // scale is one, so only the other side can overflow, and
                    // then the exact sum is far outside the range.
                    if s == self.s {
                        assert(am == self.mant());
                        assert(false);
                    }
                    assert(bm == other.mant());
                }
                return None;
            },
        };
        let mb = match other.m.checked_mul(pb) {
            Some(v) => v,
            None => {
                proof {
                    if s == other.s {
                        assert(bm == other.mant());
                        assert(false);
                    }
                    assert(am == self.mant());
                }
                return None;
            },
        };
        let mm = match ma.checked_add(mb) {
            Some(v) => v,
            None => {
                return None;
            },
        };
        if -MANTISSA_LIMIT < mm && mm < MANTISSA_LIMIT {
            let r = Dec { m: mm, s };
            proof {
                lemma_scaled_units(self.mant(), self.scale(), s as nat);
                lemma_scaled_units(other.mant(), other.scale(), s as nat);
                vstd::arithmetic::mul::lemma_mul_is_distributive_add_other_way(
                    pow10((SCALE_LIMIT - s) as nat),
                    am,
                    bm,
                );
            }
            Some(r)
        } else {
            None
        }
    }

    /// The exact difference. `None` exactly when the difference's mantissa at
    /// the common scale falls outside the representable range.
    pub fn sub(&self, other: &Dec) -> (r: Option<Dec>)
        ensures
            r == sub_spec(*self, *other),
            r is Some <==> -(MANTISSA_LIMIT as int) < sub_mant(*self, *other) < (
            MANTISSA_LIMIT as int),
            r matches Some(c) ==> {
                &&& c.mant() == sub_mant(*self, *other)
                &&& c.scale() == add_scale(*self, *other)
                &&& c.units() == self.units() - other.units()
            },
    {
        let n = other.neg();
        proof {
            assert(add_scale(*self, n) == add_scale(*self, *other));
            vstd::arithmetic::mul::lemma_mul_unary_negation(
                other.mant(),
                pow10((add_scale(*self, *other) - other.scale()) as nat),
            );
            assert(add_mant(*self, n) == sub_mant(*self, *other));
        }
        self.add(&n)
    }

    /// A decimal with the same value and the smallest scale that represents
    /// it: trailing zeros of the mantissa are traded against the scale.
    pub fn normalized(&self) -> (r: Dec)
        ensures
            r.units() == self.units(),
            r.scale() == 0 || r.mant() % 10 != 0,
            r.mant() == 0 ==> r.scale() == 0,
            r.scale() <= self.scale(),
    {
        proof {
            use_type_invariant(self);
            assert(pow10(0) == 1) by {
                reveal(pow);
            }
        }
        let mut m = self.m;
        let mut s = self.s;
        while s > 0 && m % 10 == 0
            invariant
                s <= SCALE_LIMIT,
                -(MANTISSA_LIMIT as int) < (m as int) < (MANTISSA_LIMIT as int),
                s <= self.s,
                (m as int) * pow10((SCALE_LIMIT - s as nat) as nat) == self.units(),
            decreases s,
        {
            proof {
                assert(pow10((SCALE_LIMIT - (s - 1) as nat) as nat) == 10 * pow10(
                    (SCALE_LIMIT - s as nat) as nat,
                )) by {
                    reveal(pow);
                }
                assert(m as int == 10 * ((m as int) / 10)) by {
                    vstd::arithmetic::div_mod::lemma_fundamental_div_mod(m as int, 10);
                }
                vstd::arithmetic::mul::lemma_mul_is_associative(
                    (m as int) / 10,
                    10,
                    pow10((SCALE_LIMIT - s as nat) as nat),
                );
                vstd::arithmetic::mul::lemma_mul_is_commutative((m as int) / 10, 10);
            }
            m = m / 10;
            s = s - 1;
        }
        Dec { m, s }
    }
}

/// The ordered half of `lemma_minimal_unique`: the pair with the smaller
/// scale comes first.
proof fn lemma_minimal_unique_le(m1: int, s1: nat, m2: int, s2: nat)
    requires
        s1 <= s2 <= SCALE_LIMIT,
        s2 == 0 || m2 % 10 != 0,
        m2 == 0 ==> s2 == 0,
        m1 * pow10((SCALE_LIMIT - s1) as nat) == m2 * pow10((SCALE_LIMIT - s2) as nat),
    ensures
        m1 == m2,
        s1 == s2,
{
    // Cancel the common factor pow10(SCALE_LIMIT - s2).
    let k = (s2 - s1) as nat;
    let p = pow10((SCALE_LIMIT - s2) as nat);
    lemma_pow10_pos((SCALE_LIMIT - s2) as nat);
    lemma_pow10_adds(k, (SCALE_LIMIT - s2) as nat);
    vstd::arithmetic::mul::lemma_mul_is_associative(m1, pow10(k), p);
    assert((m1 * pow10(k)) * p == m2 * p);
    vstd::arithmetic::mul::lemma_mul_is_commutative(m1 * pow10(k), p);
    vstd::arithmetic::mul::lemma_mul_is_commutative(m2, p);
    vstd::arithmetic::mul::lemma_mul_equality_converse(p, m1 * pow10(k), m2);
    assert(pow10(0) == 1) by {
        reveal(pow);
    }
    if s2 > s1 {
        // m2 would end in a zero digit, contradicting minimality.
        assert(pow10(k) == 10 * pow10((k - 1) as nat)) by {
            reveal(pow);
        }
        vstd::arithmetic::mul::lemma_mul_is_associative(m1, 10, pow10((k - 1) as nat));
        vstd::arithmetic::mul::lemma_mul_is_commutative(m1 * pow10((k - 1) as nat), 10);
        vstd::arithmetic::mul::lemma_mul_is_commutative(m1, pow10((k - 1) as nat));
        vstd::arithmetic::mul::lemma_mul_is_associative(pow10((k - 1) as nat), m1, 10);
        vstd::arithmetic::div_mod::lemma_mod_multiples_basic(m1 * pow10((k - 1) as nat), 10);
        assert(m2 % 10 == 0);
        assert(false);
    }
}

/// Two mantissa/scale pairs in lowest terms that denote the same value are
/// identical.
proof fn lemma_minimal_unique(m1: int, s1: nat, m2: int, s2: nat)
    requires
        s1 <= SCALE_LIMIT,
        s2 <= SCALE_LIMIT,
        s1 == 0 || m1 % 10 != 0,
        m1 == 0 ==> s1 == 0,
        s2 == 0 || m2 % 10 != 0,
        m2 == 0 ==> s2 == 0,
        m1 * pow10((SCALE_LIMIT - s1) as nat) == m2 * pow10((SCALE_LIMIT - s2) as nat),
    ensures
        m1 == m2,
        s1 == s2,
{
    if s1 <= s2 {
        lemma_minimal_unique_le(m1, s1, m2, s2);
    } else {
        lemma_minimal_unique_le(m2, s2, m1, s1);
    }
}

/// The decimal with mantissa `m` and scale `s`, as a model value.
pub closed spec fn dec_from(m: int, s: nat) -> Dec {
    Dec { m: m as i128, s: s as u32 }
}

pub proof fn lemma_dec_from(m: int, s: nat)
    requires
        -(MANTISSA_LIMIT as int) < m < (MANTISSA_LIMIT as int),
        s <= SCALE_LIMIT,
    ensures
        dec_from(m, s).mant() == m,
        dec_from(m, s).scale() == s,
{
}

/// The exact sum as a model value: `None` exactly when it is out of range.
pub closed spec fn add_spec(a: Dec, b: Dec) -> Option<Dec> {
    if -(MANTISSA_LIMIT as int) < add_mant(a, b) < (MANTISSA_LIMIT as int) {
        Some(Dec { m: add_mant(a, b) as i128, s: add_scale(a, b) as u32 })
    } else {
        None
    }
}

/// The exact difference as a model value.
pub closed spec fn sub_spec(a: Dec, b: Dec) -> Option<Dec> {
    if -(MANTISSA_LIMIT as int) < sub_mant(a, b) < (MANTISSA_LIMIT as int) {
        Some(Dec { m: sub_mant(a, b) as i128, s: add_scale(a, b) as u32 })
    } else {
        None
    }
}

/// The absolute value as a model value.
pub closed spec fn abs_spec(a: Dec) -> Dec {
    if a.mant() >= 0 {
        a
    } else {
        Dec { m: (-a.mant()) as i128, s: a.s }
    }
}

/// Decimals with the same mantissa and scale are the same value.
pub proof fn lemma_dec_eq(a: Dec, b: Dec)
    requires
        a.mant() == b.mant(),
        a.scale() == b.scale(),
    ensures
        a == b,
{
}

/// Where the exact sum is representable, `add_spec` holds it, with the sum
/// of the operands' `units`.
pub proof fn lemma_add_spec_props(a: Dec, b: Dec)
    requires
        a.scale() <= SCALE_LIMIT,
        b.scale() <= SCALE_LIMIT,
    ensures
        add_spec(a, b) is Some <==> -(MANTISSA_LIMIT as int) < add_mant(a, b) < (
        MANTISSA_LIMIT as int),
        add_spec(a, b) matches Some(c) ==> {
            &&& c.mant() == add_mant(a, b)
            &&& c.scale() == add_scale(a, b)
            &&& c.units() == a.units() + b.units()
        },
{
    if -(MANTISSA_LIMIT as int) < add_mant(a, b) < (MANTISSA_LIMIT as int) {
        let s = add_scale(a, b);
        lemma_scaled_units(a.mant(), a.scale(), s);
        lemma_scaled_units(b.mant(), b.scale(), s);
        vstd::arithmetic::mul::lemma_mul_is_distributive_add_other_way(
            pow10((SCALE_LIMIT - s) as nat),
            a.mant() * pow10((s - a.scale()) as nat),
            b.mant() * pow10((s - b.scale()) as nat),
        );
    }
}

/// What the backing runtime's multiplication returns on the given mantissa
/// and scale pairs: the mantissa and scale of the product, or `None` on
/// overflow.
pub uninterp spec fn mul_of(am: int, asc: nat, bm: int, bsc: nat) -> Option<(int, int)>;

/// What the backing runtime's division returns on the given mantissa and
/// scale pairs: the mantissa and scale of the quotient, or `None` when the
/// divisor is zero or the quotient overflows.
pub uninterp spec fn div_of(am: int, asc: nat, bm: int, bsc: nat) -> Option<(int, int)>;

/// The product as a model value, through `mul_of`.
pub closed spec fn mul_spec(a: Dec, b: Dec) -> Option<Dec> {
    match mul_of(a.mant(), a.scale(), b.mant(), b.scale()) {
        Some(p) => Some(Dec { m: p.0 as i128, s: p.1 as u32 }),
        None => None,
    }
}

/// The quotient as a model value, through `div_of`.
pub closed spec fn div_spec(a: Dec, b: Dec) -> Option<Dec> {
    match div_of(a.mant(), a.scale(), b.mant(), b.scale()) {
        Some(p) => Some(Dec { m: p.0 as i128, s: p.1 as u32 }),
        None => None,
    }
}

/// `(em, es)` denotes exactly the product of `a` and `b`: cross-multiplied,
/// `em / 10^es == (a.mant() * b.mant()) / 10^(a.scale() + b.scale())`.
pub open spec fn is_exact_product(a: Dec, b: Dec, em: int, es: nat) -> bool {
    &&& es <= SCALE_LIMIT
    &&& -(MANTISSA_LIMIT as int) < em < (MANTISSA_LIMIT as int)
    &&& em * pow10(a.scale() + b.scale()) == a.mant() * b.mant() * pow10(es)
}

/// `(qm, qs)` denotes exactly the quotient of `a` by `b`: cross-multiplied,
/// `qm / 10^qs == (a.mant() / 10^a.scale()) / (b.mant() / 10^b.scale())`.
pub open spec fn is_exact_quotient(a: Dec, b: Dec, qm: int, qs: nat) -> bool {
    &&& qs <= SCALE_LIMIT
    &&& -(MANTISSA_LIMIT as int) < qm < (MANTISSA_LIMIT as int)
    &&& qm * b.mant() * pow10(a.scale()) == a.mant() * pow10(b.scale() + qs)
}

/// Relies on rust_decimal's `Decimal::checked_mul`: the exact product
/// whenever its value is representable (digits dropped by its rescaling are
/// then all zero; the zero product is collapsed to scale zero), a rounded
/// product otherwise, `None` only when the value cannot fit at any scale.
/// The result depends on the operands alone.
#[verifier::external_body]
pub fn dec_mul(a: &Dec, b: &Dec) -> (r: Option<Dec>)
    ensures
        r == mul_spec(*a, *b),
        r is None <==> mul_of(a.mant(), a.scale(), b.mant(), b.scale()) is None,
        r matches Some(c) ==> c.scale() <= SCALE_LIMIT && -(MANTISSA_LIMIT as int) < c.mant() < (MANTISSA_LIMIT as int),
        (a.mant() == 0 || b.mant() == 0) ==> r is Some,
        r matches Some(c) ==> ((a.mant() == 0 || b.mant() == 0) ==> c.mant() == 0 && c.scale() == 0),
        (a.mant() != 0 && b.mant() != 0 && a.scale() + b.scale() <= SCALE_LIMIT as nat && -(MANTISSA_LIMIT as int) < a.mant() * b.mant() < (MANTISSA_LIMIT as int)) ==> r is Some,
        r matches Some(c) ==> ((a.mant() != 0 && b.mant() != 0 && a.scale() + b.scale() <= SCALE_LIMIT as nat && -(MANTISSA_LIMIT as int) < a.mant() * b.mant() < (MANTISSA_LIMIT as int)) ==> c.mant() == a.mant() * b.mant() && c.scale() == a.scale() + b.scale()),
        (exists|em: int, es: nat| is_exact_product(*a, *b, em, es)) ==> r is Some,
        r matches Some(c) ==> ((exists|em: int, es: nat| is_exact_product(*a, *b, em, es)) ==> is_exact_product(*a, *b, c.mant(), c.scale())),
{
    let da = match rust_decimal::Decimal::try_from_i128_with_scale(a.m, a.s) {
        Ok(d) => d,
        Err(_) => return None,
    };
    let db = match rust_decimal::Decimal::try_from_i128_with_scale(b.m, b.s) {
        Ok(d) => d,
        Err(_) => return None,
    };
    da.checked_mul(db).map(|p| Dec { m: p.mantissa(), s: p.scale() })
}

/// Relies on rust_decimal's `Decimal::checked_div`: `None` on a zero divisor
/// or overflow; the exact quotient whenever one is representable (a zero
/// dividend gives the zero of scale zero); otherwise a quotient rounded to
/// the maximum scale. The result depends on the operands alone.
#[verifier::external_body]
pub fn dec_div(a: &Dec, b: &Dec) -> (r: Option<Dec>)
    ensures
        r == div_spec(*a, *b),
        r is None <==> div_of(a.mant(), a.scale(), b.mant(), b.scale()) is None,
        b.mant() == 0 ==> r is None,
        r matches Some(c) ==> c.scale() <= SCALE_LIMIT && -(MANTISSA_LIMIT as int) < c.mant() < (MANTISSA_LIMIT as int),
        r matches Some(c) ==> ((a.mant() == 0 && b.mant() != 0) ==> c.mant() == 0 && c.scale() == 0),
        (a.mant() == 0 && b.mant() != 0) ==> r is Some,
        (b.mant() != 0 && exists|qm: int, qs: nat| is_exact_quotient(*a, *b, qm, qs)) ==> r is Some,
        r matches Some(c) ==> ((b.mant() != 0 && exists|qm: int, qs: nat| is_exact_quotient(*a, *b, qm, qs)) ==> is_exact_quotient(*a, *b, c.mant(), c.scale())),
{
    let da = match rust_decimal::Decimal::try_from_i128_with_scale(a.m, a.s) {
        Ok(d) => d,
        Err(_) => return None,
    };
    let db = match rust_decimal::Decimal::try_from_i128_with_scale(b.m, b.s) {
        Ok(d) => d,
        Err(_) => return None,
    };
    da.checked_div(db).map(|p| Dec { m: p.mantissa(), s: p.scale() })
}

/// Round the magnitude of `n` in units of `d` to the nearest whole multiple,
/// ties to the even neighbour; the sign is kept.
pub open spec fn round_half_even(n: int, d: int) -> int {
    let mag = if n >= 0 {
        n
    } else {
        -n
    };
    let q = mag / d;
    let rem = mag % d;
    let half = d / 2;
    let up = rem > half || (rem == half && q % 2 == 1);
    let qq = if up {
        q + 1
    } else {
        q
    };
    if n >= 0 {
        qq
    } else {
        -qq
    }
}

/// The result of presentation rounding to two decimal places, as a model
/// value.
pub closed spec fn round2_spec(a: Dec) -> Dec {
    if a.scale() <= 2 {
        a
    } else {
        Dec { m: round_half_even(a.mant(), pow10((a.scale() - 2) as nat)) as i128, s: 2 }
    }
}

/// Relies on rust_decimal's `Decimal::round_dp` with two decimal places: the
/// identity on at most two fractional digits, otherwise the mantissa is
/// rounded half-to-even at scale two.
#[verifier::external_body]
pub fn round_2dp(a: &Dec) -> (r: Dec)
    ensures
        r == round2_spec(*a),
        a.scale() <= 2 ==> r == *a,
        a.scale() > 2 ==> r.scale() == 2 && r.mant() == round_half_even(
            a.mant(),
            pow10((a.scale() - 2) as nat),
        ),
        r.scale() <= SCALE_LIMIT && -(MANTISSA_LIMIT as int) < r.mant() < (MANTISSA_LIMIT as int),
{
    let d = match rust_decimal::Decimal::try_from_i128_with_scale(a.m, a.s) {
        Ok(d) => d,
        Err(_) => return Dec { m: a.m, s: a.s },
    };
    let q = d.round_dp(2);
    Dec { m: q.mantissa(), s: q.scale() }
}

impl PartialEq for Dec {
    /// Numeric equality: mantissa/scale pairs denoting the same rational
    /// compare equal, as they do in the backing decimal runtime.
    fn eq(&self, other: &Dec) -> (r: bool) {
        let a = self.normalized();
        let b = other.normalized();
        proof {
            use_type_invariant(a);
            use_type_invariant(b);
            if a.units() == b.units() {
                lemma_minimal_unique(a.mant(), a.scale(), b.mant(), b.scale());
            }
        }
        a.mantissa() == b.mantissa() && a.scale_u32() == b.scale_u32()
    }
}

impl vstd::std_specs::cmp::PartialEqSpecImpl for Dec {
    open spec fn obeys_eq_spec() -> bool {
        true
    }

    open spec fn eq_spec(&self, other: &Dec) -> bool {
        self.units() == other.units()
    }
}

/// Ten raised to `e`, as a machine integer.
fn pow10_i128(e: u32) -> (r: i128)
    requires
        e <= SCALE_LIMIT,
    ensures
        r as int == pow10(e as nat),
        r >= 1,
{
    let mut i: u32 = 0;
    let mut acc: i128 = 1;
    proof {
        assert(pow10(0) == 1) by {
            reveal(pow);
        }
    }
    while i < e
        invariant
            i <= e,
            e <= SCALE_LIMIT,
            acc as int == pow10(i as nat),
            acc >= 1,
        decreases e - i,
    {
        proof {
            lemma_pow10_28();
            lemma_pow10_increases(i as nat + 1, 28);
            assert(pow10(i as nat + 1) == 10 * pow10(i as nat)) by {
                reveal(pow);
            }
        }
        acc = acc * 10;
        i = i + 1;
    }
    acc
}

} // verus!
