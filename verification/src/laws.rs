//! Laws tying the renderers to the parsers: text written into a data file
//! parses back to the value it was rendered from, so every data line of a
//! generated file denotes a value inside the advertised range.

use vstd::prelude::*;
use crate::generate::{is_float_line, is_integer_line};
use crate::numfmt::{dec_seq, fixed3_mag, fixed3_seq, int_dec_seq, lemma_dec_seq, pad3};
use crate::parse::{digits_part, has_sign, i32_of_seq, int_of_seq, is_neg};
use crate::text::{all_digits, dec_val, digit_val, is_digit};

verus! {

/// Rendering an integer as decimal text and reading the text back as a
/// signed decimal yields the same integer.
pub proof fn lemma_int_dec_round_trip(v: int)
    requires
        i32::MIN <= v <= i32::MAX,
    ensures
        i32_of_seq(int_dec_seq(v)) == Some(v as i32),
{
    if v >= 0 {
        lemma_dec_seq(v);
        let t = dec_seq(v);
        assert(is_digit(t[0]));
        assert(!has_sign(t));
        assert(int_of_seq(t) == Some(v));
    } else {
        lemma_dec_seq(-v);
        let m = dec_seq(-v);
        let t = seq!['-'] + m;
        assert(t[0] == '-');
        assert(t.drop_first() =~= m);
        assert(int_of_seq(t) == Some(-dec_val(m)));
    }
}

/// What a fixed-point line denotes, in thousandths: an optional sign, one
/// or more integer digits, a point, and exactly three fractional digits.
/// `None` on any other shape.
pub open spec fn fixed3_of_seq(t: Seq<char>) -> Option<int> {
    let d = digits_part(t);
    if d.len() >= 5 && d[d.len() - 4] == '.' {
        let ip = d.subrange(0, d.len() - 4);
        let fp = d.subrange(d.len() - 3, d.len() as int);
        if all_digits(ip) && all_digits(fp) {
            let a = dec_val(ip) * 1000 + dec_val(fp);
            Some(
                if is_neg(t) {
                    -a
                } else {
                    a
                },
            )
        } else {
            None
        }
    } else {
        None
    }
}

proof fn lemma_pad3(r: int)
    requires
        0 <= r < 1000,
    ensures
        all_digits(pad3(r)),
        pad3(r).len() == 3,
        dec_val(pad3(r)) == r,
{
    let p = pad3(r);
    assert(digit_val(p[0]) == r / 100);
    assert(digit_val(p[1]) == (r / 10) % 10);
    assert(digit_val(p[2]) == r % 10);
    assert(p.drop_last() =~= seq![p[0], p[1]]);
    assert(seq![p[0], p[1]].drop_last() =~= seq![p[0]]);
    assert(seq![p[0]].drop_last() =~= Seq::<char>::empty());
    assert(dec_val(Seq::<char>::empty()) == 0);
    assert(seq![p[0]].last() == p[0]);
    assert(dec_val(seq![p[0]]) == digit_val(p[0]));
    assert(seq![p[0], p[1]].last() == p[1]);
    assert(dec_val(seq![p[0], p[1]]) == dec_val(seq![p[0]]) * 10 + digit_val(p[1]));
    assert(p.last() == p[2]);
    assert(dec_val(p) == dec_val(seq![p[0], p[1]]) * 10 + digit_val(p[2]));
    assert(dec_val(p) == ((r / 100) * 10 + (r / 10) % 10) * 10 + r % 10);
    assert((r / 100) * 100 + ((r / 10) % 10) * 10 + r % 10 == r) by (nonlinear_arith)
        requires
            0 <= r < 1000,
    ;
}

proof fn lemma_fixed3_mag_parts(a: int)
    requires
        a >= 0,
    ensures
        fixed3_mag(a).len() >= 5,
        is_digit(fixed3_mag(a)[0]),
        fixed3_mag(a)[fixed3_mag(a).len() - 4] == '.',
        all_digits(fixed3_mag(a).subrange(0, fixed3_mag(a).len() - 4)),
        all_digits(fixed3_mag(a).subrange(fixed3_mag(a).len() - 3, fixed3_mag(a).len() as int)),
        dec_val(fixed3_mag(a).subrange(0, fixed3_mag(a).len() - 4)) * 1000 + dec_val(
            fixed3_mag(a).subrange(fixed3_mag(a).len() - 3, fixed3_mag(a).len() as int),
        ) == a,
{
    let q = a / 1000;
    let r = a % 1000;
    lemma_dec_seq(q);
    lemma_pad3(r);
    let d = fixed3_mag(a);
    assert(d.subrange(0, d.len() - 4) =~= dec_seq(q));
    assert(d.subrange(d.len() - 3, d.len() as int) =~= pad3(r));
    assert(d[d.len() - 4] == '.');
    assert(d[0] == dec_seq(q)[0]);
    assert(q * 1000 + r == a);
}

/// Rendering a count of thousandths as a fixed-point line and reading the
/// line back yields the same count.
pub proof fn lemma_fixed3_round_trip(m: int)
    ensures
        fixed3_of_seq(fixed3_seq(m)) == Some(m),
{
    if m >= 0 {
        lemma_fixed3_mag_parts(m);
        let t = fixed3_mag(m);
        assert(!has_sign(t));
    } else {
        lemma_fixed3_mag_parts(-m);
        let g = fixed3_mag(-m);
        let t = seq!['-'] + g;
        assert(t[0] == '-');
        assert(t.drop_first() =~= g);
        let d = digits_part(t);
        assert(d == g);
        assert(d.subrange(0, d.len() - 4) == g.subrange(0, g.len() - 4));
        assert(d.subrange(d.len() - 3, d.len() as int) == g.subrange(g.len() - 3, g.len() as int));
    }
}

/// Every Integer-mode data line reads back as a signed decimal integer in
/// the closed range [-1000, 1000].
pub proof fn lemma_integer_line_parses(s: Seq<char>)
    requires
        is_integer_line(s),
    ensures
        i32_of_seq(s) matches Some(v) && -1000 <= v <= 1000,
{
    let v = choose|v: int| -1000 <= v <= 1000 && s == #[trigger] int_dec_seq(v);
    lemma_int_dec_round_trip(v);
}

/// Every Float-mode data line reads back as a fixed-point decimal with
/// exactly three digits after the point, and denotes a value between
/// -1000.000 and 1000.000 (stated here in thousandths).
pub proof fn lemma_float_line_parses(s: Seq<char>)
    requires
        is_float_line(s),
    ensures
        fixed3_of_seq(s) matches Some(m) && -1000000 <= m <= 1000000,
{
    let m = choose|m: int| -1000000 <= m <= 1000000 && s == #[trigger] fixed3_seq(m);
    lemma_fixed3_round_trip(m);
}

} // verus!
