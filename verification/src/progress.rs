//! The progress reporter's rendering: a "Ready k/n" line, rebuilt from the
//! settle counter each time an outcome arrives. The counter it displays only
//! ever grows (see the aggregation engine's settle contract); the reporter
//! itself is purely observational.

use vstd::prelude::*;

use vstd::string::StringExecFns;

verus! {

/// The decimal digit character for `d`.
pub open spec fn digit_char(d: nat) -> char {
    if d == 0 {
        '0'
    } else if d == 1 {
        '1'
    } else if d == 2 {
        '2'
    } else if d == 3 {
        '3'
    } else if d == 4 {
        '4'
    } else if d == 5 {
        '5'
    } else if d == 6 {
        '6'
    } else if d == 7 {
        '7'
    } else if d == 8 {
        '8'
    } else {
        '9'
    }
}

/// The decimal digits of `n`, most significant first.
pub open spec fn digits_spec(n: nat) -> Seq<char>
    decreases n,
{
    if n < 10 {
        seq![digit_char(n)]
    } else {
        digits_spec(n / 10).push(digit_char(n % 10))
    }
}

/// The rendered progress line for `ready` settled units out of `total`.
pub open spec fn progress_spec(ready: nat, total: nat) -> Seq<char> {
    "Ready "@ + digits_spec(ready) + "/"@ + digits_spec(total)
}

/// One decimal digit, as a string.
fn digit_string(d: usize) -> (r: String)
    requires
        d < 10,
    ensures
        r@ == seq![digit_char(d as nat)],
{
    proof {
        reveal_strlit("0");
        reveal_strlit("1");
        reveal_strlit("2");
        reveal_strlit("3");
        reveal_strlit("4");
        reveal_strlit("5");
        reveal_strlit("6");
        reveal_strlit("7");
        reveal_strlit("8");
        reveal_strlit("9");
    }
    let s = match d {
        0 => "0",
        1 => "1",
        2 => "2",
        3 => "3",
        4 => "4",
        5 => "5",
        6 => "6",
        7 => "7",
        8 => "8",
        _ => "9",
    };
    let r = String::from_str(s);
    proof {
        assert(r@ =~= seq![digit_char(d as nat)]);
    }
    r
}

/// The decimal rendering of `n`.
pub fn usize_string(n: usize) -> (r: String)
    ensures
        r@ == digits_spec(n as nat),
    decreases n,
{
    if n < 10 {
        digit_string(n)
    } else {
        let mut r = usize_string(n / 10);
        let d = digit_string(n % 10);
        r.append(d.as_str());
        proof {
            assert(r@ =~= digits_spec(n as nat));
        }
        r
    }
}

/// The progress line: `Ready <ready>/<total>`.
pub fn progress_line(ready: usize, total: usize) -> (r: String)
    ensures
        r@ == progress_spec(ready as nat, total as nat),
{
    let mut r = String::from_str("Ready ");
    let a = usize_string(ready);
    let b = usize_string(total);
    r.append(a.as_str());
    r.append("/");
    r.append(b.as_str());
    proof {
        assert(r@ =~= progress_spec(ready as nat, total as nat));
    }
    r
}

} // verus!
