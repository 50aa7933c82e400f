//! Projection of price values onto vertical pixel rows.
//!
//! Higher prices map to smaller row indices (the top of the frame). The
//! projection is a pure function of the value, the displayed range and the
//! pixel height.

use vstd::prelude::*;
use vstd::arithmetic::div_mod::{lemma_div_by_multiple, lemma_div_is_ordered, lemma_div_pos_is_pos};
use vstd::arithmetic::mul::{lemma_mul_inequality, lemma_mul_is_commutative, lemma_mul_upper_bound};
use crate::ValueRange;

verus! {

/// The row a value projects to: `floor(height * (1 - (value - min) / (max - min)))`,
/// written over the integers as `floor(height * (max - value) / (max - min))`.
/// A degenerate range (`min == max`) places every value mid-frame.
pub open spec fn spec_value_to_row(value: int, min: int, max: int, height: int) -> int {
    if min == max {
        height / 2
    } else {
        (height * (max - value)) / (max - min)
    }
}

/// Maps `value` within `range` onto a pixel row of a frame `height` pixels
/// tall. The result lies in `[0, height]`; callers clamp to `height - 1`
/// before indexing a buffer.
pub fn value_to_row(value: i64, range: ValueRange, height: u32) -> (row: u32)
    requires
        range.wf(),
        range.min <= value <= range.max,
    ensures
        row == spec_value_to_row(value as int, range.min as int, range.max as int, height as int),
        row <= height,
{
    if range.min == range.max {
        proof {
            lemma_div_pos_is_pos(height as int, 2);
            lemma_div_is_ordered(height as int, 2 * height as int, 2);
            lemma_div_by_multiple(height as int, 2);
        }
        height / 2
    } else {
        let diff: i128 = range.max as i128 - value as i128;
        let den_s: i128 = range.max as i128 - range.min as i128;
        proof {
            lemma_mul_upper_bound(height as int, u32::MAX as int, diff as int, u64::MAX as int);
        }
        let num: u128 = (height as u128) * (diff as u128);
        let den: u128 = den_s as u128;
        let q: u128 = num / den;
        proof {
            let h = height as int;
            let d = den as int;
            assert(d == range.max - range.min);
            assert(num == h * (range.max - value));
            assert(num <= h * d) by {
                lemma_mul_inequality(range.max - value, range.max - range.min, h);
                lemma_mul_is_commutative(h, range.max - value);
                lemma_mul_is_commutative(h, d);
            }
            lemma_div_is_ordered(num as int, h * d, d);
            lemma_div_by_multiple(h, d);
            lemma_div_pos_is_pos(num as int, d);
        }
        q as u32
    }
}

/// The projection is monotonically non-increasing in the value: a higher
/// price never lands on a lower (larger-index) row.
pub proof fn lemma_value_to_row_monotone(v1: int, v2: int, min: int, max: int, height: int)
    requires
        min <= max,
        height >= 0,
        min <= v1 <= v2 <= max,
    ensures
        spec_value_to_row(v2, min, max, height) <= spec_value_to_row(v1, min, max, height),
{
    if min < max {
        lemma_mul_inequality(max - v2, max - v1, height);
        lemma_div_is_ordered(height * (max - v2), height * (max - v1), max - min);
    }
}

/// The range's endpoints project to the frame's edges: the minimum to row
/// `height` (one past the last drawable row) and the maximum to row `0`.
pub proof fn lemma_value_to_row_endpoints(min: int, max: int, height: int)
    requires
        min < max,
        height >= 0,
    ensures
        spec_value_to_row(min, min, max, height) == height,
        spec_value_to_row(max, min, max, height) == 0,
{
    lemma_div_by_multiple(height, max - min);
    lemma_div_by_multiple(0, max - min);
}

/// Every projected row of an in-range value lies in `[0, height]`.
pub proof fn lemma_value_to_row_in_frame(value: int, min: int, max: int, height: int)
    requires
        min <= max,
        height >= 0,
        min <= value <= max,
    ensures
        0 <= spec_value_to_row(value, min, max, height) <= height,
{
    if min == max {
        lemma_div_pos_is_pos(height, 2);
        lemma_div_is_ordered(height, 2 * height, 2);
        lemma_div_by_multiple(height, 2);
    } else {
        lemma_div_pos_is_pos(height * (max - value), max - min);
        lemma_mul_inequality(max - value, max - min, height);
        lemma_div_is_ordered(height * (max - value), height * (max - min), max - min);
        lemma_div_by_multiple(height, max - min);
    }
}

} // verus!
