//! Amounts of money, parsed from decimal text into whole cents.
//!
//! An amount string is digits with at most one decimal dot and at most two
//! digits behind it; the parsed value is held in cents. Callers pass text
//! whose value fits the machine word; inputs the grammar rejects get an
//! error.

use vstd::prelude::*;

use vstd::string::StrSliceExecFns;
use vstd::string::StringExecFns;

verus! {

/// A decimal digit.
pub open spec fn is_digit(c: char) -> bool {
    '0' <= c && c <= '9'
}

/// The numeric value of a digit character.
pub open spec fn digit_val(c: char) -> int {
    c as int - '0' as int
}

/// The amount grammar: every character a digit or a dot, no second dot, and
/// at most two characters behind the dot.
pub open spec fn amount_ok(s: Seq<char>) -> bool {
    &&& forall|i: int| 0 <= i < s.len() ==> (s[i] == '.' || is_digit(#[trigger] s[i]))
    &&& forall|i: int, j: int|
        0 <= i < j < s.len() ==> !(#[trigger] s[i] == '.' && #[trigger] s[j] == '.')
    &&& forall|i: int| 0 <= i < s.len() && #[trigger] s[i] == '.' ==> s.len() - i - 1 <= 2
}

/// Whether the text holds at least one digit.
pub open spec fn has_digit(s: Seq<char>) -> bool {
    exists|i: int| 0 <= i < s.len() && is_digit(#[trigger] s[i])
}

/// The digit characters of the text, the dot dropped.
pub open spec fn digits_of(s: Seq<char>) -> Seq<char>
    decreases s.len(),
{
    if s.len() == 0 {
        Seq::empty()
    } else {
        let rest = digits_of(s.drop_last());
        if s.last() == '.' {
            rest
        } else {
            rest.push(s.last())
        }
    }
}

/// The number the digit characters denote, read left to right.
pub open spec fn digits_val(d: Seq<char>) -> int
    decreases d.len(),
{
    if d.len() == 0 {
        0
    } else {
        digits_val(d.drop_last()) * 10 + digit_val(d.last())
    }
}

/// How many characters stand behind the dot; zero without a dot.
pub open spec fn frac_len(s: Seq<char>) -> nat {
    if exists|i: int| 0 <= i < s.len() && s[i] == '.' {
        (s.len() - (choose|i: int| 0 <= i < s.len() && s[i] == '.') - 1) as nat
    } else {
        0
    }
}

/// The factor that turns the joined digits into cents: two, one or no
/// missing fractional digits.
pub open spec fn scale_mult(frac: nat) -> int {
    if frac == 0 {
        100
    } else if frac == 1 {
        10
    } else {
        1
    }
}

/// The parsed amount of a well-formed string, in cents.
pub open spec fn amount_cents(s: Seq<char>) -> int {
    digits_val(digits_of(s)) * scale_mult(frac_len(s))
}

/// An amount of money, in whole cents.
#[derive(Clone, Copy, Debug, PartialEq, Eq, Structural)]
pub struct Amount {
    cents: usize,
}

/// Why an amount string was rejected.
#[derive(Clone, Debug)]
pub struct ParseAmountError(String);

impl ParseAmountError {
    /// The rejection message.
    pub closed spec fn message_spec(self) -> Seq<char> {
        self.0@
    }

    /// The rejection message.
    pub fn message(&self) -> (r: &String)
        ensures
            r@ == self.message_spec(),
    {
        &self.0
    }
}

/// Digit values are never negative.
proof fn lemma_digits_val_nonneg(d: Seq<char>)
    requires
        forall|i: int| 0 <= i < d.len() ==> is_digit(#[trigger] d[i]),
    ensures
        digits_val(d) >= 0,
    decreases d.len(),
{
    if d.len() > 0 {
        lemma_digits_val_nonneg(d.drop_last());
    }
}

/// Reading more digits never shrinks the value.
proof fn lemma_digits_val_prefix(d: Seq<char>, i: int)
    requires
        0 <= i <= d.len(),
        forall|k: int| 0 <= k < d.len() ==> is_digit(#[trigger] d[k]),
    ensures
        digits_val(d.take(i)) <= digits_val(d),
    decreases d.len() - i,
{
    if i < d.len() {
        assert(d.take(i + 1).drop_last() =~= d.take(i));
        assert(forall|k: int| 0 <= k < d.take(i).len() ==> is_digit(#[trigger] d.take(i)[k]));
        lemma_digits_val_nonneg(d.take(i));
        assert(digits_val(d.take(i + 1)) == digits_val(d.take(i)) * 10 + digit_val(d[i]));
        lemma_digits_val_prefix(d, i + 1);
    } else {
        assert(d.take(i) =~= d);
    }
}

impl Amount {
    /// The value in cents.
    pub closed spec fn cents_spec(self) -> int {
        self.cents as int
    }

    /// The value in cents.
    pub fn cents(&self) -> (r: usize)
        ensures
            r == self.cents_spec(),
    {
        self.cents
    }

    /// The product of two amounts, cents times cents.
    pub fn mul(&self, other: &Amount) -> (r: Amount)
        requires
            self.cents_spec() * other.cents_spec() <= usize::MAX,
        ensures
            r.cents_spec() == self.cents_spec() * other.cents_spec(),
    {
        Amount { cents: self.cents * other.cents }
    }

    /// Parse a decimal amount into cents. Rejected exactly when the text
    /// falls outside the amount grammar; a well-formed text parses to its
    /// digits scaled to cents.
    pub fn from_str(s: &str) -> (r: Result<Amount, ParseAmountError>)
        requires
            amount_ok(s@) ==> has_digit(s@),
            amount_ok(s@) ==> amount_cents(s@) <= usize::MAX,
        ensures
            r is Ok <==> amount_ok(s@),
            r matches Ok(a) ==> a.cents_spec() == amount_cents(s@),
    {
        let len = s.unicode_len();
        let mut digits: Vec<char> = Vec::new();
        let mut dot_at: Option<usize> = None;
        let mut i: usize = 0;
        proof {
            assert(s@.take(0) =~= Seq::<char>::empty());
        }
        while i < len
            invariant
                amount_ok(s@) ==> has_digit(s@),
                amount_ok(s@) ==> amount_cents(s@) <= usize::MAX,
                len == s@.len(),
                0 <= i <= len,
                digits@ == digits_of(s@.take(i as int)),
                forall|k: int| 0 <= k < i ==> (s@[k] == '.' || is_digit(#[trigger] s@[k])),
                forall|k: int| 0 <= k < digits@.len() ==> is_digit(#[trigger] digits@[k]),
                match dot_at {
                    Some(d) => d < i && s@[d as int] == '.' && i - d - 1 <= 2 && (forall|k: int|
                        0 <= k < i && #[trigger] s@[k] == '.' ==> k == d as int),
                    None => forall|k: int| 0 <= k < i ==> s@[k] != '.',
                },
            decreases len - i,
        {
            let c = s.get_char(i);
            proof {
                assert(s@.take(i + 1).drop_last() =~= s@.take(i as int));
                assert(s@.take(i + 1).last() == s@[i as int]);
            }
            if c == '.' {
                if dot_at.is_some() {
                    // A second decimal dot: the grammar is violated.
                    return Err(
                        ParseAmountError(
                            String::from_str("Too many decimal dots in amount ").concat(s),
                        ),
                    );
                }
                dot_at = Some(i);
            } else if c < '0' || c > '9' {
                return Err(ParseAmountError(String::from_str("Invalid amount ").concat(s)));
            } else {
                if let Some(d) = dot_at {
                    if i - d - 1 == 2 {
                        // A third digit behind the dot: the grammar is violated.
                        return Err(
                            ParseAmountError(
                                String::from_str("Too many decimals in amount ").concat(s),
                            ),
                        );
                    }
                }
                digits.push(c);
            }
            i = i + 1;
        }
        proof {
            assert(s@.take(len as int) =~= s@);
            assert(amount_ok(s@));
        }
        let frac: usize = match dot_at {
            Some(d) => {
                proof {
                    assert(frac_len(s@) == len - d - 1) by {
                        let w = choose|k: int| 0 <= k < s@.len() && s@[k] == '.';
                        assert(s@[d as int] == '.');
                        assert(w == d as int);
                    }
                }
                len - d - 1
            },
            None => {
                proof {
                    assert(frac_len(s@) == 0);
                }
                0
            },
        };
        let mut acc: usize = 0;
        let mut j: usize = 0;
        let ghost ds = digits@;
        proof {
            assert(ds.take(0) =~= Seq::<char>::empty());
            lemma_digits_val_nonneg(ds);
        }
        while j < digits.len()
            invariant
                digits@ == ds,
                0 <= j <= ds.len(),
                forall|k: int| 0 <= k < ds.len() ==> is_digit(#[trigger] ds[k]),
                acc == digits_val(ds.take(j as int)),
                digits_val(ds) <= usize::MAX,
            decreases ds.len() - j,
        {
            let c = digits[j];
            proof {
                assert(ds.take(j + 1).drop_last() =~= ds.take(j as int));
                assert(ds.take(j + 1).last() == ds[j as int]);
                lemma_digits_val_prefix(ds, j + 1);
                lemma_digits_val_nonneg(ds.take(j as int));
            }
            let d = (c as u32 - '0' as u32) as usize;
            acc = acc * 10 + d;
            j = j + 1;
        }
        proof {
            assert(ds.take(ds.len() as int) =~= ds);
        }
        if digits.len() == 0 {
            proof {
                assert(has_digit(s@));
                let ghost w = choose|k: int| 0 <= k < s@.len() && is_digit(s@[k]);
                assert(digits_of(s@).len() > 0) by {
                    lemma_digit_survives(s@, w);
                }
                assert(false);
            }
            return vstd::pervasive::unreached();
        }
        let cents: usize = if frac == 0 {
            acc * 100
        } else if frac == 1 {
            acc * 10
        } else {
            acc
        };
        Ok(Amount { cents })
    }
}

/// A digit at position `w` of the text survives into `digits_of`.
proof fn lemma_digit_survives(s: Seq<char>, w: int)
    requires
        0 <= w < s.len(),
        is_digit(s[w]),
    ensures
        digits_of(s).len() > 0,
    decreases s.len(),
{
    if w == s.len() - 1 {
        assert(s.last() != '.');
    } else {
        lemma_digit_survives(s.drop_last(), w);
    }
}

} // verus!
