//! Parsing the user's answers to the prompts: the menu choice, the data
//! type, the element count, and the filename.

use vstd::prelude::*;
use crate::text::{
    all_digits, dec_val, digit_val, is_digit, lemma_dec_val_prefix_le, lemma_dec_val_take_step,
    trim_str, trimmed,
};

verus! {

/// The kind of value a data file holds.
#[derive(Clone, Copy, Debug, PartialEq, Eq, Structural)]
pub enum DataType {
    Integer,
    Float,
}

/// Why a prompt's answer was rejected. Any such rejection aborts the
/// file-creation flow; the menu loop reports it and carries on.
#[derive(Clone, Copy, Debug, PartialEq, Eq, Structural)]
pub enum InputError {
    /// The data-type answer did not begin with `i` or `f` (either case).
    InvalidDataType,
    /// The element-count answer was not a non-negative whole number in
    /// range.
    InvalidNumber,
}

impl InputError {
    /// The message the menu loop shows for this rejection.
    pub fn message(&self) -> (r: &'static str)
        ensures
            *self is InvalidDataType ==> r@ == "Invalid data type"@,
            *self is InvalidNumber ==> r@ == "Invalid number"@,
    {
        match self {
            InputError::InvalidDataType => "Invalid data type",
            InputError::InvalidNumber => "Invalid number",
        }
    }
}

/// Whether a trimmed answer starts with an explicit sign.
pub open spec fn has_sign(t: Seq<char>) -> bool {
    t.len() > 0 && (t[0] == '+' || t[0] == '-')
}

/// Whether a trimmed answer starts with a minus sign.
pub open spec fn is_neg(t: Seq<char>) -> bool {
    t.len() > 0 && t[0] == '-'
}

/// The digits of a signed decimal answer: everything after an optional
/// sign.
pub open spec fn digits_part(t: Seq<char>) -> Seq<char> {
    if has_sign(t) {
        t.drop_first()
    } else {
        t
    }
}

/// The mathematical integer a trimmed answer denotes: an optional sign
/// followed by one or more digits. `None` on any other shape.
pub open spec fn int_of_seq(t: Seq<char>) -> Option<int> {
    let d = digits_part(t);
    if d.len() > 0 && all_digits(d) {
        Some(
            if is_neg(t) {
                -dec_val(d)
            } else {
                dec_val(d)
            },
        )
    } else {
        None
    }
}

/// The `i32` a trimmed answer denotes, as `str::parse::<i32>` reads it:
/// `None` when the shape is wrong or the value does not fit.
pub open spec fn i32_of_seq(t: Seq<char>) -> Option<i32> {
    match int_of_seq(t) {
        Some(v) => if i32::MIN <= v <= i32::MAX {
            Some(v as i32)
        } else {
            None
        },
        None => None,
    }
}

/// The digits of an unsigned decimal answer: everything after an optional
/// `+` (a `-` is no sign here, and will fail the digit test).
pub open spec fn plus_digits_part(t: Seq<char>) -> Seq<char> {
    if t.len() > 0 && t[0] == '+' {
        t.drop_first()
    } else {
        t
    }
}

/// The `u32` a trimmed answer denotes, as `str::parse::<u32>` reads it: an
/// optional `+` followed by digits, value at most `u32::MAX`. `None`
/// otherwise; in particular any `-` sign fails.
pub open spec fn u32_of_seq(t: Seq<char>) -> Option<u32> {
    let d = plus_digits_part(t);
    if d.len() > 0 && all_digits(d) && dec_val(d) <= u32::MAX {
        Some(dec_val(d) as u32)
    } else {
        None
    }
}

/// The menu choice an input line denotes: its integer value, or `-1` when
/// it does not parse as an `i32`.
pub open spec fn choice_of_input(s: Seq<char>) -> i32 {
    match i32_of_seq(trimmed(s)) {
        Some(v) => v,
        None => -1i32,
    }
}

/// The data type an input line denotes, by the first character of the
/// trimmed line, case-insensitively: `i` for integers, `f` for floats.
pub open spec fn data_type_of_input(s: Seq<char>) -> Option<DataType> {
    let t = trimmed(s);
    if t.len() > 0 && (t[0] == 'i' || t[0] == 'I') {
        Some(DataType::Integer)
    } else if t.len() > 0 && (t[0] == 'f' || t[0] == 'F') {
        Some(DataType::Float)
    } else {
        None
    }
}

/// The element count an input line denotes, or `None` when it is not a
/// non-negative whole number that fits in a `u32`.
pub open spec fn count_of_input(s: Seq<char>) -> Option<u32> {
    u32_of_seq(trimmed(s))
}

fn digit_of(c: char) -> (r: Option<u32>)
    ensures
        r is Some <==> is_digit(c),
        r matches Some(d) ==> d == digit_val(c),
{
    match c {
        '0' => Some(0),
        '1' => Some(1),
        '2' => Some(2),
        '3' => Some(3),
        '4' => Some(4),
        '5' => Some(5),
        '6' => Some(6),
        '7' => Some(7),
        '8' => Some(8),
        '9' => Some(9),
        _ => None,
    }
}

/// Parses one menu answer as the original loop does: the integer value of
/// the trimmed line, with `-1` standing in for anything unparseable.
pub fn parse_choice(s: &str) -> (r: i32)
    ensures
        r == choice_of_input(s@),
{
    let t = trim_str(s);
    let n = t.unicode_len();
    let mut start: usize = 0;
    let mut neg = false;
    if n > 0 {
        let c0 = t.get_char(0);
        if c0 == '+' {
            start = 1;
        } else if c0 == '-' {
            start = 1;
            neg = true;
        }
    }
    if start == n {
        return -1;
    }
    let ghost d = digits_part(t@);
    proof {
        assert(d =~= t@.subrange(start as int, n as int));
        assert(neg == is_neg(t@));
    }
    let mut acc: u64 = 0;
    let mut i: usize = start;
    while i < n
        invariant
            start <= i <= n,
            n == t@.len(),
            start < n,
            t@ == trimmed(s@),
            d == digits_part(t@),
            d =~= t@.subrange(start as int, n as int),
            neg == is_neg(t@),
            forall|j: int| 0 <= j < i - start ==> is_digit(#[trigger] d[j]),
            acc == dec_val(d.take(i - start)),
            acc <= 0x8000_0000u64,
        decreases n - i,
    {
        let c = t.get_char(i);
        proof {
            assert(d[i - start] == t@[i as int]);
        }
        match digit_of(c) {
            Some(dv) => {
                proof {
                    lemma_dec_val_take_step(d, i - start);
                }
                let next: u64 = acc * 10 + (dv as u64);
                if next > 0x8000_0000u64 {
                    proof {
                        if all_digits(d) {
                            lemma_dec_val_prefix_le(d, i - start + 1);
                            assert(dec_val(d) > 0x8000_0000);
                        }
                    }
                    return -1;
                }
                acc = next;
            },
            None => {
                assert(!all_digits(d));
                return -1;
            },
        }
        i = i + 1;
    }
    proof {
        assert(d.take(n - start) =~= d);
        assert(acc == dec_val(d));
        assert(all_digits(d));
    }
    if neg {
        proof {
            assert(int_of_seq(t@) == Some(-dec_val(d)));
        }
        if acc == 0x8000_0000u64 {
            return i32::MIN;
        }
        return -((acc as i32));
    }
    proof {
        assert(int_of_seq(t@) == Some(dec_val(d)));
    }
    if acc >= 0x8000_0000u64 {
        return -1;
    }
    acc as i32
}

/// Parses the data-type answer: `i`/`I` means integers, `f`/`F` floats,
/// anything else is rejected.
pub fn parse_data_type(s: &str) -> (r: Result<DataType, InputError>)
    ensures
        (r == match data_type_of_input(s@) {
            Some(t) => Ok::<DataType, InputError>(t),
            None => Err(InputError::InvalidDataType),
        }),
{
    let t = trim_str(s);
    if t.unicode_len() == 0 {
        return Err(InputError::InvalidDataType);
    }
    let c = t.get_char(0);
    if c == 'i' || c == 'I' {
        Ok(DataType::Integer)
    } else if c == 'f' || c == 'F' {
        Ok(DataType::Float)
    } else {
        Err(InputError::InvalidDataType)
    }
}

/// Parses the element-count answer: a non-negative whole number that fits
/// in a `u32`, anything else is rejected.
pub fn parse_element_count(s: &str) -> (r: Result<u32, InputError>)
    ensures
        (r == match count_of_input(s@) {
            Some(nr) => Ok::<u32, InputError>(nr),
            None => Err(InputError::InvalidNumber),
        }),
{
    let t = trim_str(s);
    let n = t.unicode_len();
    let mut start: usize = 0;
    if n > 0 && t.get_char(0) == '+' {
        start = 1;
    }
    if start == n {
        return Err(InputError::InvalidNumber);
    }
    let ghost d = plus_digits_part(t@);
    proof {
        assert(d =~= t@.subrange(start as int, n as int));
    }
    let mut acc: u32 = 0;
    let mut i: usize = start;
    while i < n
        invariant
            start <= i <= n,
            n == t@.len(),
            start < n,
            t@ == trimmed(s@),
            d == plus_digits_part(t@),
            d =~= t@.subrange(start as int, n as int),
            forall|j: int| 0 <= j < i - start ==> is_digit(#[trigger] d[j]),
            acc == dec_val(d.take(i - start)),
        decreases n - i,
    {
        let c = t.get_char(i);
        proof {
            assert(d[i - start] == t@[i as int]);
        }
        match digit_of(c) {
            Some(dv) => {
                proof {
                    lemma_dec_val_take_step(d, i - start);
                }
                let next: u64 = (acc as u64) * 10 + (dv as u64);
                if next > u32::MAX as u64 {
                    proof {
                        if all_digits(d) {
                            lemma_dec_val_prefix_le(d, i - start + 1);
                            assert(dec_val(d) > u32::MAX);
                        }
                    }
                    return Err(InputError::InvalidNumber);
                }
                acc = next as u32;
            },
            None => {
                assert(!all_digits(d));
                return Err(InputError::InvalidNumber);
            },
        }
        i = i + 1;
    }
    proof {
        assert(d.take(n - start) =~= d);
        assert(acc == dec_val(d));
        assert(all_digits(d));
    }
    Ok(acc)
}

/// Returns the filename answer with surrounding whitespace removed,
/// verbatim otherwise: no validation, as the original flow does none.
pub fn parse_filename(s: &str) -> (r: String)
    ensures
        r@ == trimmed(s@),
{
    String::from_str(trim_str(s))
}

} // verus!
