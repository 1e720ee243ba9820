//! Building the lines of a data file: a header followed by randomly drawn
//! values, integers or fixed-point decimals, each rendered as text.

use vstd::prelude::*;
use crate::numfmt::{fixed3_seq, header_line, header_seq, i32_to_dec, int_dec_seq, millis_to_dec};
use crate::parse::DataType;

verus! {

/// The smallest value a data line may carry.
pub const MIN_VALUE: i32 = -1000;

/// The largest value a data line may carry.
pub const MAX_VALUE: i32 = 1000;

/// The random number generator of the process, declared so that it can run
/// through verified signatures; nothing is assumed of its state.
#[verifier::external_type_specification]
#[verifier::external_body]
pub struct ExThreadRng(rand::rngs::ThreadRng);

/// Relies on `rand::Rng::gen_range` on the inclusive range `lo..=hi`: for
/// `lo <= hi` the range is non-empty, so the call does not panic and
/// returns a uniformly distributed value inside the range. Nothing more is
/// stated: every outcome in the range must be handled.
#[verifier::external_body]
fn rand_in_range(rng: &mut rand::rngs::ThreadRng, lo: i32, hi: i32) -> (r: i32)
    requires
        lo <= hi,
    ensures
        lo <= r <= hi,
{
    rand::Rng::gen_range(rng, lo..=hi)
}

/// A data line of Integer mode: some value of `[-1000, 1000]` rendered as
/// plain decimal text.
pub open spec fn is_integer_line(s: Seq<char>) -> bool {
    exists|v: int| -1000 <= v <= 1000 && s == #[trigger] int_dec_seq(v)
}

/// A data line of Float mode: some whole count of thousandths between
/// `-1000.000` and `1000.000` rendered with exactly three fractional
/// digits.
pub open spec fn is_float_line(s: Seq<char>) -> bool {
    exists|m: int| -1000000 <= m <= 1000000 && s == #[trigger] fixed3_seq(m)
}

/// Draws `count` random values of the given type and renders the whole
/// file: the header line first, then one value per line.
pub fn generate_lines(rng: &mut rand::rngs::ThreadRng, data_type: DataType, count: u32) -> (lines:
    Vec<String>)
    requires
        count as int + 1 <= usize::MAX as int,
    ensures
        lines.len() == count as int + 1,
        lines[0]@ == header_seq(count as int),
        data_type is Integer ==> forall|i: int| 1 <= i < lines.len() ==> is_integer_line(
            #[trigger] lines[i]@,
        ),
        data_type is Float ==> forall|i: int| 1 <= i < lines.len() ==> is_float_line(
            #[trigger] lines[i]@,
        ),
{
    let mut lines: Vec<String> = Vec::new();
    lines.push(header_line(count));
    let mut k: u32 = 0;
    while k < count
        invariant
            0 <= k <= count,
            count as int + 1 <= usize::MAX as int,
            lines.len() == k as int + 1,
            lines[0]@ == header_seq(count as int),
            data_type is Integer ==> forall|i: int| 1 <= i < lines.len() ==> is_integer_line(
                #[trigger] lines[i]@,
            ),
            data_type is Float ==> forall|i: int| 1 <= i < lines.len() ==> is_float_line(
                #[trigger] lines[i]@,
            ),
        decreases count - k,
    {
        match data_type {
            DataType::Integer => {
                let v = rand_in_range(rng, MIN_VALUE, MAX_VALUE);
                let line = i32_to_dec(v);
                proof {
                    assert(-1000 <= v as int <= 1000 && line@ == int_dec_seq(v as int));
                }
                lines.push(line);
            },
            DataType::Float => {
                let m = rand_in_range(rng, MIN_VALUE * 1000, MAX_VALUE * 1000);
                let line = millis_to_dec(m);
                proof {
                    assert(-1000000 <= m as int <= 1000000 && line@ == fixed3_seq(m as int));
                }
                lines.push(line);
            },
        }
        k = k + 1;
    }
    lines
}

} // verus!
