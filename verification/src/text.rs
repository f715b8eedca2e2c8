//! The text of values, as `print` writes it.

use vstd::prelude::*;
use vstd::string::StringExecFns;
use crate::term::SpecValue;

verus! {

/// The character of a decimal digit.
pub open spec fn digit(d: int) -> char {
    if d == 0 {
        '0'
    } else if d == 1 {
        '1'
    } else if d == 2 {
        '2'
    } else if d == 3 {
        '3'
    } else if d == 4 {
        '4'
    } else if d == 5 {
        '5'
    } else if d == 6 {
        '6'
    } else if d == 7 {
        '7'
    } else if d == 8 {
        '8'
    } else {
        '9'
    }
}

/// The decimal digits of a natural number, without leading zeros.
pub open spec fn digits(n: nat) -> Seq<char>
    decreases n,
{
    if n < 10 {
        seq![digit(n as int)]
    } else {
        digits(n / 10).push(digit((n % 10) as int))
    }
}

/// The decimal numeral of an integer, with `-` before a negative one.
pub open spec fn decimal(i: int) -> Seq<char> {
    if i < 0 {
        seq!['-'] + digits((-i) as nat)
    } else {
        digits(i as nat)
    }
}

/// The text of a truth value.
pub open spec fn truth_text(b: bool) -> Seq<char> {
    if b {
        "true"@
    } else {
        "false"@
    }
}

/// The text of a value: the numeral of an integer, `true` or `false`, the
/// string itself, and nothing for the void value.
pub open spec fn value_text(v: SpecValue) -> Seq<char> {
    match v {
        SpecValue::Int(i) => decimal(i as int),
        SpecValue::Bool(b) => truth_text(b),
        SpecValue::Void => Seq::empty(),
        SpecValue::Str(s) => s,
    }
}

/// The text that `print` emits for a value: its text, and a line end after
/// it where `newline` is set.
pub open spec fn printed_text(v: SpecValue, newline: bool) -> Seq<char> {
    if newline {
        value_text(v).push('\n')
    } else {
        value_text(v)
    }
}

/// The one-character text of a digit.
fn digit_str(d: i64) -> (s: &'static str)
    requires
        0 <= d < 10,
    ensures
        s@ == seq![digit(d as int)],
{
    proof {
        reveal_strlit("0");
        reveal_strlit("1");
        reveal_strlit("2");
        reveal_strlit("3");
        reveal_strlit("4");
        reveal_strlit("5");
        reveal_strlit("6");
        reveal_strlit("7");
        reveal_strlit("8");
        reveal_strlit("9");
    }
    let s = if d == 0 {
        "0"
    } else if d == 1 {
        "1"
    } else if d == 2 {
        "2"
    } else if d == 3 {
        "3"
    } else if d == 4 {
        "4"
    } else if d == 5 {
        "5"
    } else if d == 6 {
        "6"
    } else if d == 7 {
        "7"
    } else if d == 8 {
        "8"
    } else {
        "9"
    };
    assert(s@ =~= seq![digit(d as int)]);
    s
}

/// The decimal numeral of `i`.
pub fn int_to_string(i: i32) -> (s: String)
    ensures
        s@ == decimal(i as int),
{
    let wide: i64 = i as i64;
    let magnitude: i64 = if wide < 0 {
        -wide
    } else {
        wide
    };
    let mut rest: i64 = magnitude / 10;
    let mut s = String::from_str(digit_str(magnitude % 10));
    while rest > 0
        invariant
            0 <= rest <= magnitude,
            digits(magnitude as nat) == if rest > 0 {
                digits(rest as nat) + s@
            } else {
                s@
            },
        decreases rest,
    {
        let ghost before = s@;
        let d = rest % 10;
        let mut longer = String::from_str(digit_str(d));
        longer.append(s.as_str());
        s = longer;
        proof {
            let next = rest / 10;
            if next > 0 {
                assert(digits(rest as nat) == digits(next as nat).push(digit(d as int)));
                assert(digits(next as nat).push(digit(d as int)) + before =~= digits(next as nat)
                    + s@);
            } else {
                assert(digits(rest as nat) + before =~= s@);
            }
        }
        rest = rest / 10;
    }
    if wide < 0 {
        proof {
            reveal_strlit("-");
        }
        let mut signed = String::from_str("-");
        signed.append(s.as_str());
        assert(signed@ =~= seq!['-'] + s@);
        signed
    } else {
        s
    }
}

/// The text of a truth value.
pub fn bool_to_string(b: bool) -> (s: String)
    ensures
        s@ == truth_text(b),
{
    if b {
        String::from_str("true")
    } else {
        String::from_str("false")
    }
}

} // verus!
