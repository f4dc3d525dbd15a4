//! Decimal text for integers and scalars, for the graph renderer.

use vstd::prelude::*;
use vstd::string::StringExecFns;

use crate::rational::{scalar_wf, Rat, Scalar};

verus! {

/// The decimal digit character for `d` in `0..10`.
pub open spec fn digit_char(d: int) -> char {
    if d == 0 {
        '0'
    } else if d == 1 {
        '1'
    } else if d == 2 {
        '2'
    } else if d == 3 {
        '3'
    } else if d == 4 {
        '4'
    } else if d == 5 {
        '5'
    } else if d == 6 {
        '6'
    } else if d == 7 {
        '7'
    } else if d == 8 {
        '8'
    } else {
        '9'
    }
}

/// The decimal digits of a nonnegative integer, most significant first.
pub open spec fn dec_digits(n: int) -> Seq<char>
    decreases n,
{
    if n < 10 {
        seq![digit_char(n)]
    } else {
        dec_digits(n / 10).push(digit_char(n % 10))
    }
}

/// The decimal text of an integer, with a leading minus sign when
/// negative.
pub open spec fn int_text(n: int) -> Seq<char> {
    if n < 0 {
        seq!['-'] + dec_digits(-n)
    } else {
        dec_digits(n)
    }
}

/// The text of a fraction: just the numerator when the denominator is
/// one, `num/den` otherwise.
pub open spec fn scalar_text(r: Rat) -> Seq<char> {
    if r.den == 1 {
        int_text(r.num)
    } else {
        int_text(r.num) + seq!['/'] + int_text(r.den)
    }
}

/// One decimal digit as a string.
fn digit_to_string(d: u64) -> (s: String)
    requires
        d < 10,
    ensures
        s@ == seq![digit_char(d as int)],
{
    if d == 0 {
        proof {
            reveal_strlit("0");
            assert("0"@ =~= seq![digit_char(0)]);
        }
        String::from_str("0")
    } else if d == 1 {
        proof {
            reveal_strlit("1");
            assert("1"@ =~= seq![digit_char(1)]);
        }
        String::from_str("1")
    } else if d == 2 {
        proof {
            reveal_strlit("2");
            assert("2"@ =~= seq![digit_char(2)]);
        }
        String::from_str("2")
    } else if d == 3 {
        proof {
            reveal_strlit("3");
            assert("3"@ =~= seq![digit_char(3)]);
        }
        String::from_str("3")
    } else if d == 4 {
        proof {
            reveal_strlit("4");
            assert("4"@ =~= seq![digit_char(4)]);
        }
        String::from_str("4")
    } else if d == 5 {
        proof {
            reveal_strlit("5");
            assert("5"@ =~= seq![digit_char(5)]);
        }
        String::from_str("5")
    } else if d == 6 {
        proof {
            reveal_strlit("6");
            assert("6"@ =~= seq![digit_char(6)]);
        }
        String::from_str("6")
    } else if d == 7 {
        proof {
            reveal_strlit("7");
            assert("7"@ =~= seq![digit_char(7)]);
        }
        String::from_str("7")
    } else if d == 8 {
        proof {
            reveal_strlit("8");
            assert("8"@ =~= seq![digit_char(8)]);
        }
        String::from_str("8")
    } else {
        proof {
            reveal_strlit("9");
            assert("9"@ =~= seq![digit_char(9)]);
        }
        String::from_str("9")
    }
}

/// The decimal text of an unsigned integer.
pub fn u64_text(n: u64) -> (s: String)
    ensures
        s@ == dec_digits(n as int),
    decreases n,
{
    if n < 10 {
        digit_to_string(n)
    } else {
        let mut s = u64_text(n / 10);
        let d = digit_to_string(n % 10);
        s.append(d.as_str());
        proof {
            assert(s@ =~= dec_digits((n / 10) as int).push(digit_char((n % 10) as int)));
        }
        s
    }
}

/// The decimal text of a signed integer.
pub fn i64_text(n: i64) -> (s: String)
    requires
        n != i64::MIN,
    ensures
        s@ == int_text(n as int),
{
    if n < 0 {
        let mut s = String::from_str("-");
        let t = u64_text((-n) as u64);
        s.append(t.as_str());
        proof {
            reveal_strlit("-");
            assert(s@ =~= seq!['-'] + dec_digits(-(n as int)));
        }
        s
    } else {
        u64_text(n as u64)
    }
}

/// The decimal text of a scalar: `num` alone for whole values, `num/den`
/// otherwise.
pub fn scalar_to_text(v: &Scalar) -> (s: String)
    requires
        scalar_wf(*v),
    ensures
        s@ == scalar_text(v@),
{
    if v.den == 1 {
        i64_text(v.num)
    } else {
        let mut s = i64_text(v.num);
        s.append("/");
        let d = i64_text(v.den);
        s.append(d.as_str());
        proof {
            reveal_strlit("/");
            assert(s@ =~= int_text(v.num as int) + seq!['/'] + int_text(v.den as int));
        }
        s
    }
}

} // verus!
