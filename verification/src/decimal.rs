//! Exact decimal rendering of integers and of values scaled by one hundred,
//! used by workers to describe their accumulated state.

use vstd::prelude::*;
use vstd::string::StringExecFns;

verus! {

/// The decimal digit character for one digit value.
pub open spec fn digit_char(d: int) -> char {
    if d == 0 {
        '0'
    } else if d == 1 {
        '1'
    } else if d == 2 {
        '2'
    } else if d == 3 {
        '3'
    } else if d == 4 {
        '4'
    } else if d == 5 {
        '5'
    } else if d == 6 {
        '6'
    } else if d == 7 {
        '7'
    } else if d == 8 {
        '8'
    } else {
        '9'
    }
}

/// The decimal digits of a nonnegative value, most significant first.
pub open spec fn dec_of(v: int) -> Seq<char>
    decreases v,
{
    if v < 10 {
        seq![digit_char(v)]
    } else {
        dec_of(v / 10).push(digit_char(v % 10))
    }
}

/// Division truncated toward zero, for a positive divisor.
pub open spec fn trunc_div(a: int, b: int) -> int {
    if a >= 0 {
        a / b
    } else {
        -((-a) / b)
    }
}

/// The fractional part of a value scaled by one hundred, with trailing
/// zeros trimmed: empty for a whole value, one place when the hundredths
/// digit is zero, two places otherwise.
pub open spec fn frac_chars(fr: int) -> Seq<char> {
    if fr == 0 {
        Seq::empty()
    } else if fr % 10 == 0 {
        seq!['.', digit_char(fr / 10)]
    } else {
        seq!['.', digit_char(fr / 10), digit_char(fr % 10)]
    }
}

/// A value scaled by one hundred, rendered in decimal with up to two
/// places after the point and a leading minus sign when negative.
pub open spec fn centi_chars(c: int) -> Seq<char> {
    let m = if c >= 0 {
        c
    } else {
        -c
    };
    let sign: Seq<char> = if c < 0 {
        seq!['-']
    } else {
        Seq::empty()
    };
    sign + dec_of(m / 100) + frac_chars(m % 100)
}

fn digit_str(d: u128) -> (r: &'static str)
    requires
        d < 10,
    ensures
        r@ == seq![digit_char(d as int)],
{
    proof {
        reveal_strlit("0");
        reveal_strlit("1");
        reveal_strlit("2");
        reveal_strlit("3");
        reveal_strlit("4");
        reveal_strlit("5");
        reveal_strlit("6");
        reveal_strlit("7");
        reveal_strlit("8");
        reveal_strlit("9");
    }
    let r: &'static str = if d == 0 {
        "0"
    } else if d == 1 {
        "1"
    } else if d == 2 {
        "2"
    } else if d == 3 {
        "3"
    } else if d == 4 {
        "4"
    } else if d == 5 {
        "5"
    } else if d == 6 {
        "6"
    } else if d == 7 {
        "7"
    } else if d == 8 {
        "8"
    } else {
        "9"
    };
    proof {
        assert(r@ =~= seq![digit_char(d as int)]);
    }
    r
}

/// Renders a nonnegative value in decimal.
pub fn dec_string(v: u128) -> (r: String)
    ensures
        r@ == dec_of(v as int),
    decreases v,
{
    if v < 10 {
        digit_str(v).to_owned()
    } else {
        let rest = dec_string(v / 10);
        let r = rest.concat(digit_str(v % 10));
        proof {
            assert(r@ =~= dec_of(v as int));
        }
        r
    }
}

/// Renders a magnitude scaled by one hundred, with the given sign: the
/// result reads as the exact value to at most two decimal places.
pub fn centi_string(neg: bool, mag: u128) -> (r: String)
    requires
        neg ==> mag > 0,
    ensures
        r@ == centi_chars(
            if neg {
                -(mag as int)
            } else {
                mag as int
            },
        ),
{
    let whole = mag / 100;
    let fr = mag % 100;
    let mut s = if neg {
        proof {
            reveal_strlit("-");
        }
        "-".to_owned()
    } else {
        String::new()
    };
    let ws = dec_string(whole);
    s.append(ws.as_str());
    if fr != 0 {
        proof {
            reveal_strlit(".");
        }
        s.append(".");
        let tens = digit_str(fr / 10);
        s.append(tens);
        if fr % 10 != 0 {
            let ones = digit_str(fr % 10);
            s.append(ones);
        }
    }
    proof {
        let c: int = if neg {
            -(mag as int)
        } else {
            mag as int
        };
        assert(s@ =~= centi_chars(c));
    }
    s
}

} // verus!
