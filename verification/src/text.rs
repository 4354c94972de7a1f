//! Decimal rendering of integers and fixed-point values for user-facing
//! messages.  Messages are informational; contracts elsewhere pin codes and
//! numerical results, not message text.

use vstd::prelude::*;
use vstd::string::StringExecFns;

use crate::fixed::SCALE;

verus! {

/// One decimal digit as a character.
pub open spec fn digit_char(d: int) -> char {
    if d == 0 {
        '0'
    } else if d == 1 {
        '1'
    } else if d == 2 {
        '2'
    } else if d == 3 {
        '3'
    } else if d == 4 {
        '4'
    } else if d == 5 {
        '5'
    } else if d == 6 {
        '6'
    } else if d == 7 {
        '7'
    } else if d == 8 {
        '8'
    } else {
        '9'
    }
}

/// The decimal digits of `n`, most significant first.
pub open spec fn decimal_digits(n: int) -> Seq<char>
    decreases n,
{
    if n < 10 {
        seq![digit_char(n)]
    } else {
        decimal_digits(n / 10) + seq![digit_char(n % 10)]
    }
}

/// One decimal digit as a string slice.
fn digit_str(d: u64) -> (r: &'static str)
    requires
        d < 10,
    ensures
        r@ == seq![digit_char(d as int)],
{
    if d == 0 {
        proof {
            reveal_strlit("0");
            assert("0"@ =~= seq![digit_char(0int)]);
        }
        "0"
    } else if d == 1 {
        proof {
            reveal_strlit("1");
            assert("1"@ =~= seq![digit_char(1int)]);
        }
        "1"
    } else if d == 2 {
        proof {
            reveal_strlit("2");
            assert("2"@ =~= seq![digit_char(2int)]);
        }
        "2"
    } else if d == 3 {
        proof {
            reveal_strlit("3");
            assert("3"@ =~= seq![digit_char(3int)]);
        }
        "3"
    } else if d == 4 {
        proof {
            reveal_strlit("4");
            assert("4"@ =~= seq![digit_char(4int)]);
        }
        "4"
    } else if d == 5 {
        proof {
            reveal_strlit("5");
            assert("5"@ =~= seq![digit_char(5int)]);
        }
        "5"
    } else if d == 6 {
        proof {
            reveal_strlit("6");
            assert("6"@ =~= seq![digit_char(6int)]);
        }
        "6"
    } else if d == 7 {
        proof {
            reveal_strlit("7");
            assert("7"@ =~= seq![digit_char(7int)]);
        }
        "7"
    } else if d == 8 {
        proof {
            reveal_strlit("8");
            assert("8"@ =~= seq![digit_char(8int)]);
        }
        "8"
    } else {
        proof {
            reveal_strlit("9");
            assert("9"@ =~= seq![digit_char(9int)]);
        }
        "9"
    }
}

/// Decimal rendering of an unsigned integer.
pub fn uint_string(n: u64) -> (r: String)
    ensures
        r@ == decimal_digits(n as int),
    decreases n,
{
    if n < 10 {
        String::from_str(digit_str(n))
    } else {
        let mut s = uint_string(n / 10);
        s.append(digit_str(n % 10));
        s
    }
}

/// Decimal rendering of `n` padded with leading zeros to `width` digits.
fn padded_uint_string(n: u64, width: u64) -> (r: String)
    decreases width,
{
    if width <= 1 {
        String::from_str(digit_str(n % 10))
    } else {
        let mut s = padded_uint_string(n / 10, width - 1);
        s.append(digit_str(n % 10));
        s
    }
}

/// The magnitude of a signed value as an unsigned one.
fn magnitude(v: i64) -> (r: u64)
    ensures
        r as int == if v < 0 {
            -(v as int)
        } else {
            v as int
        },
{
    if v < 0 {
        (-(v as i128)) as u64
    } else {
        v as u64
    }
}

/// Plain decimal rendering of a fixed-point ratio value: the integer part,
/// then the fractional digits with trailing zeros trimmed, and no fractional
/// part at all for whole numbers.
pub fn fixed_string(units: i64) -> (r: String) {
    let m: u64 = magnitude(units);
    let integer_part: u64 = m / (SCALE as u64);
    let fraction: u64 = m % (SCALE as u64);
    let mut s = if units < 0 {
        String::from_str("-")
    } else {
        String::new()
    };
    s.append(uint_string(integer_part).as_str());
    if fraction > 0 {
        s.append(".");
        let mut f: u64 = fraction;
        let mut width: u64 = 10;
        while width > 1 && f % 10 == 0
            invariant
                1 <= width <= 10,
            decreases width,
        {
            f = f / 10;
            width = width - 1;
        }
        s.append(padded_uint_string(f, width).as_str());
    }
    s
}

/// Rendering of a fixed-point ratio value as a percentage rounded to one
/// decimal place, always showing that place.
pub fn percent_string_one_decimal(units: i64) -> (r: String) {
    let m: u64 = magnitude(units);
    let tenth_percent: u64 = (SCALE as u64) / 1000;
    let t: u64 = (m + tenth_percent / 2) / tenth_percent;
    let mut s = if units < 0 {
        String::from_str("-")
    } else {
        String::new()
    };
    s.append(uint_string(t / 10).as_str());
    s.append(".");
    s.append(digit_str(t % 10));
    s
}

} // verus!
