//! Rendering numbers as text: plain decimal integers and fixed-point values
//! with exactly three fractional digits.

use vstd::prelude::*;
use crate::text::{all_digits, dec_val, digit_char, digit_val, is_digit};

verus! {

/// The decimal digit sequence of `n >= 0`, most significant digit first,
/// without leading zeros (a single `'0'` for zero).
pub open spec fn dec_seq(n: int) -> Seq<char>
    decreases n,
{
    if n < 10 {
        seq![digit_char(n)]
    } else {
        dec_seq(n / 10).push(digit_char(n % 10))
    }
}

/// The decimal rendering of an integer: a `'-'` sign for negative values,
/// then the digits of the magnitude.
pub open spec fn int_dec_seq(v: int) -> Seq<char> {
    if v < 0 {
        seq!['-'] + dec_seq(-v)
    } else {
        dec_seq(v)
    }
}

/// Three zero-padded decimal digits (meaningful for `0 <= r < 1000`).
pub open spec fn pad3(r: int) -> Seq<char> {
    seq![digit_char(r / 100), digit_char((r / 10) % 10), digit_char(r % 10)]
}

/// A magnitude in thousandths as `<integer part>.<three digits>`.
pub open spec fn fixed3_mag(a: int) -> Seq<char> {
    dec_seq(a / 1000) + seq!['.'] + pad3(a % 1000)
}

/// A count of thousandths rendered as a fixed-point decimal with exactly
/// three fractional digits: `-1234` thousandths is `-1.234`.
pub open spec fn fixed3_seq(m: int) -> Seq<char> {
    if m < 0 {
        seq!['-'] + fixed3_mag(-m)
    } else {
        fixed3_mag(m)
    }
}

/// The header line of an output file announcing `n` data lines.
pub open spec fn header_seq(n: int) -> Seq<char> {
    "Count: "@ + dec_seq(n)
}

/// The digit sequence of `n >= 0` consists of digits only, is never empty,
/// and denotes `n` itself.
pub proof fn lemma_dec_seq(n: int)
    requires
        n >= 0,
    ensures
        all_digits(dec_seq(n)),
        dec_seq(n).len() >= 1,
        dec_val(dec_seq(n)) == n,
    decreases n,
{
    if n < 10 {
        assert(seq![digit_char(n)].drop_last() =~= Seq::<char>::empty());
        assert(dec_val(Seq::<char>::empty()) == 0);
        assert(digit_val(digit_char(n)) == n);
    } else {
        lemma_dec_seq(n / 10);
        let s = dec_seq(n / 10);
        let t = s.push(digit_char(n % 10));
        assert(t.drop_last() =~= s);
        assert(digit_val(digit_char(n % 10)) == n % 10);
        assert(dec_val(t) == (n / 10) * 10 + n % 10);
        assert(forall|i: int| 0 <= i < t.len() ==> is_digit(#[trigger] t[i])) by {
            assert(forall|i: int| 0 <= i < s.len() ==> t[i] == s[i]);
        };
    }
}

fn digit_str(d: u32) -> (r: &'static str)
    requires
        d < 10,
    ensures
        r@ == seq![digit_char(d as int)],
{
    if d == 0 {
        proof {
            reveal_strlit("0");
            assert("0"@ =~= seq![digit_char(0int)]);
        }
        "0"
    } else if d == 1 {
        proof {
            reveal_strlit("1");
            assert("1"@ =~= seq![digit_char(1int)]);
        }
        "1"
    } else if d == 2 {
        proof {
            reveal_strlit("2");
            assert("2"@ =~= seq![digit_char(2int)]);
        }
        "2"
    } else if d == 3 {
        proof {
            reveal_strlit("3");
            assert("3"@ =~= seq![digit_char(3int)]);
        }
        "3"
    } else if d == 4 {
        proof {
            reveal_strlit("4");
            assert("4"@ =~= seq![digit_char(4int)]);
        }
        "4"
    } else if d == 5 {
        proof {
            reveal_strlit("5");
            assert("5"@ =~= seq![digit_char(5int)]);
        }
        "5"
    } else if d == 6 {
        proof {
            reveal_strlit("6");
            assert("6"@ =~= seq![digit_char(6int)]);
        }
        "6"
    } else if d == 7 {
        proof {
            reveal_strlit("7");
            assert("7"@ =~= seq![digit_char(7int)]);
        }
        "7"
    } else if d == 8 {
        proof {
            reveal_strlit("8");
            assert("8"@ =~= seq![digit_char(8int)]);
        }
        "8"
    } else {
        proof {
            reveal_strlit("9");
            assert("9"@ =~= seq![digit_char(9int)]);
        }
        "9"
    }
}

/// The decimal rendering of an unsigned number, as [`dec_seq`] describes it.
pub fn u32_to_dec(n: u32) -> (r: String)
    ensures
        r@ == dec_seq(n as int),
    decreases n,
{
    if n < 10 {
        String::from_str(digit_str(n))
    } else {
        let mut s = u32_to_dec(n / 10);
        s.append(digit_str(n % 10));
        proof {
            assert(dec_seq((n / 10) as int) + seq![digit_char((n % 10) as int)] =~= dec_seq(
                n as int,
            ));
        }
        s
    }
}

/// The decimal rendering of a signed number, as [`int_dec_seq`] describes
/// it.
pub fn i32_to_dec(v: i32) -> (r: String)
    ensures
        r@ == int_dec_seq(v as int),
{
    if v >= 0 {
        u32_to_dec(v as u32)
    } else {
        let mag: u32 = (-(v as i64)) as u32;
        assert(mag as int == -(v as int));
        let mut s = String::from_str("-");
        let d = u32_to_dec(mag);
        s.append(d.as_str());
        proof {
            reveal_strlit("-");
            assert("-"@ =~= seq!['-']);
        }
        s
    }
}

fn fixed3_mag_to_dec(a: u32) -> (r: String)
    ensures
        r@ == fixed3_mag(a as int),
{
    let mut s = u32_to_dec(a / 1000);
    s.append(".");
    let rem = a % 1000;
    s.append(digit_str(rem / 100));
    s.append(digit_str((rem / 10) % 10));
    s.append(digit_str(rem % 10));
    proof {
        reveal_strlit(".");
        assert("."@ =~= seq!['.']);
        assert(s@ =~= fixed3_mag(a as int));
    }
    s
}

/// A count of thousandths rendered as fixed-point text, as [`fixed3_seq`]
/// describes it.
pub fn millis_to_dec(m: i32) -> (r: String)
    ensures
        r@ == fixed3_seq(m as int),
{
    if m >= 0 {
        fixed3_mag_to_dec(m as u32)
    } else {
        let mag: u32 = (-(m as i64)) as u32;
        assert(mag as int == -(m as int));
        let mut s = String::from_str("-");
        let t = fixed3_mag_to_dec(mag);
        s.append(t.as_str());
        proof {
            reveal_strlit("-");
            assert("-"@ =~= seq!['-']);
        }
        s
    }
}

/// The header line for a file of `n` data lines, as [`header_seq`] describes
/// it.
pub fn header_line(n: u32) -> (r: String)
    ensures
        r@ == header_seq(n as int),
{
    let mut s = String::from_str("Count: ");
    let d = u32_to_dec(n);
    s.append(d.as_str());
    s
}

} // verus!
