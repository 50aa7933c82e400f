//! The delta-chart renderer: paints the vertical pixel span between each
//! adjacent pair of windowed samples into a raw row-major pixel buffer,
//! coloured by the direction of the price change.

use vstd::prelude::*;
use vstd::arithmetic::mul::lemma_mul_inequality;
use crate::{GREEN, RED, ValueRange};
use crate::project::{spec_value_to_row, value_to_row};

verus! {

/// The row that sample `x` of the windowed sequence projects to.
pub open spec fn spec_row(vals: Seq<i64>, range: ValueRange, height: int, x: int) -> int {
    spec_value_to_row(vals[x] as int, range.min as int, range.max as int, height)
}

/// Whether the pixel at `(x, y)` lies on the painted span of column `x`:
/// the vertical run between the rows of samples `x` and `x + 1`. An upward
/// tick paints from the higher row (exclusive) down to the lower; a
/// downward or flat tick paints the mirror-image run, which is empty when
/// the samples are equal.
pub open spec fn column_painted(
    vals: Seq<i64>,
    range: ValueRange,
    height: int,
    x: int,
    y: int,
) -> bool {
    0 <= x && x + 1 < vals.len() && {
        let r_prev = spec_row(vals, range, height, x);
        let r_curr = spec_row(vals, range, height, x + 1);
        if vals[x + 1] > vals[x] {
            r_curr <= y < r_prev
        } else {
            r_prev <= y < r_curr
        }
    }
}

/// The colour of column `x`'s span: up-ticks are green, down-ticks red.
pub open spec fn column_color(vals: Seq<i64>, x: int) -> u32 {
    if vals[x + 1] > vals[x] {
        GREEN
    } else {
        RED
    }
}

/// What the pixel at `(x, y)` holds after the delta bars are painted over a
/// buffer whose pixel there held `old_pix`.
pub open spec fn spec_pixel(
    vals: Seq<i64>,
    range: ValueRange,
    height: int,
    x: int,
    y: int,
    old_pix: u32,
) -> u32 {
    if column_painted(vals, range, height, x, y) {
        column_color(vals, x)
    } else {
        old_pix
    }
}

/// Distinct grid positions occupy distinct indices of a row-major buffer.
proof fn lemma_grid_index_injective(width: int, x1: int, y1: int, x2: int, y2: int)
    requires
        0 <= x1 < width,
        0 <= x2 < width,
        0 <= y1,
        0 <= y2,
        !(x1 == x2 && y1 == y2),
    ensures
        y1 * width + x1 != y2 * width + x2,
{
    if y1 != y2 {
        if y1 < y2 {
            lemma_mul_inequality(y1 + 1, y2, width);
            assert((y1 + 1) * width == y1 * width + width) by (nonlinear_arith);
        } else {
            lemma_mul_inequality(y2 + 1, y1, width);
            assert((y2 + 1) * width == y2 * width + width) by (nonlinear_arith);
        }
    }
}

/// Every grid position indexes inside a row-major buffer of
/// `width * height` pixels.
proof fn lemma_grid_index_bound(width: int, height: int, x: int, y: int)
    requires
        0 <= x < width,
        0 <= y < height,
    ensures
        0 <= y * width + x < width * height,
{
    lemma_mul_inequality(y + 1, height, width);
    assert((y + 1) * width == y * width + width) by (nonlinear_arith);
    assert(height * width == width * height) by (nonlinear_arith);
    assert(y * width >= 0) by (nonlinear_arith)
        requires
            y >= 0,
            width >= 0,
    ;
}

/// A fresh row-major pixel buffer of `width * height` pixels, all in the
/// background colour.
pub fn make_buffer(width: usize, height: u32, color: u32) -> (r: Vec<u32>)
    requires
        width * height <= usize::MAX,
    ensures
        r@.len() == width * height,
        forall|i: int| 0 <= i < r@.len() ==> r@[i] == color,
{
    let total = width * (height as usize);
    let mut r: Vec<u32> = Vec::new();
    let mut i: usize = 0;
    while i < total
        invariant
            i <= total,
            r@.len() == i,
            forall|j: int| 0 <= j < i ==> r@[j] == color,
        decreases total - i,
    {
        r.push(color);
        i = i + 1;
    }
    r
}

/// Paints the delta bars of the windowed sequence into the buffer: for each
/// adjacent pair of samples at columns `(x, x + 1)`, the vertical span
/// between their projected rows is painted at column `x` (see
/// `spec_pixel`); every other pixel keeps its previous colour. Equal
/// samples paint nothing at their column.
pub fn render_deltas(
    buffer: &mut Vec<u32>,
    width: usize,
    height: u32,
    vals: &Vec<i64>,
    range: ValueRange,
)
    requires
        range.wf(),
        width * height <= usize::MAX,
        old(buffer)@.len() == width * height,
        1 <= vals@.len() <= width,
        forall|i: int| 0 <= i < vals@.len() ==> range.min <= #[trigger] vals@[i] <= range.max,
    ensures
        final(buffer)@.len() == old(buffer)@.len(),
        forall|x: int, y: int|
            0 <= x < width && 0 <= y < height ==> #[trigger] final(buffer)@[y * width + x]
                == spec_pixel(vals@, range, height as int, x, y, old(buffer)@[y * width + x]),
{
    let ghost first = buffer@;
    let n = vals.len();
    let mut c: usize = 0;
    while c + 1 < n
        invariant
            range.wf(),
            n == vals@.len(),
            1 <= n <= width,
            width * height <= usize::MAX,
            forall|i: int| 0 <= i < vals@.len() ==> range.min <= #[trigger] vals@[i] <= range.max,
            c <= n - 1,
            buffer@.len() == width * height,
            first.len() == width * height,
            forall|x: int, y: int|
                0 <= x < width && 0 <= y < height ==> #[trigger] buffer@[y * width + x] == (
                if x < c {
                    spec_pixel(vals@, range, height as int, x, y, first[y * width + x])
                } else {
                    first[y * width + x]
                }),
        decreases n - c,
    {
        let v_prev = vals[c];
        let v_curr = vals[c + 1];
        let r_prev = value_to_row(v_prev, range, height);
        let r_curr = value_to_row(v_curr, range, height);
        let (lo, hi, color) = if v_curr > v_prev {
            (r_curr, r_prev, GREEN)
        } else {
            (r_prev, r_curr, RED)
        };
        let ghost entry = buffer@;
        let mut y: u32 = lo;
        while y < hi
            invariant
                lo <= y,
                y <= hi || y == lo,
                hi <= height,
                c < width,
                width * height <= usize::MAX,
                buffer@.len() == width * height,
                entry.len() == width * height,
                forall|x: int, yy: int|
                    0 <= x < width && 0 <= yy < height ==> #[trigger] buffer@[yy * width + x] == (
                    if x == c && lo <= yy < y {
                        color
                    } else {
                        entry[yy * width + x]
                    }),
            decreases hi - y,
        {
            proof {
                lemma_grid_index_bound(width as int, height as int, c as int, y as int);
            }
            let idx = (y as usize) * width + c;
            buffer.set(idx, color);
            proof {
                assert forall|x: int, yy: int| 0 <= x < width && 0 <= yy < height implies #[trigger]
                    buffer@[yy * width + x] == (
                if x == c && lo <= yy < y + 1 {
                    color
                } else {
                    entry[yy * width + x]
                }) by {
                    lemma_grid_index_bound(width as int, height as int, x, yy);
                    if !(x == c && yy == y) {
                        lemma_grid_index_injective(width as int, x, yy, c as int, y as int);
                    }
                }
            }
            y = y + 1;
        }
        proof {
            assert forall|x: int, yy: int| 0 <= x < width && 0 <= yy < height implies #[trigger]
                buffer@[yy * width + x] == (
            if x < c + 1 {
                spec_pixel(vals@, range, height as int, x, yy, first[yy * width + x])
            } else {
                first[yy * width + x]
            }) by {
                lemma_grid_index_bound(width as int, height as int, x, yy);
                if x == c {
                    assert(entry[yy * width + x] == first[yy * width + x]);
                }
            }
        }
        c = c + 1;
    }
    proof {
        assert forall|x: int, y: int| 0 <= x < width && 0 <= y < height implies #[trigger]
            buffer@[y * width + x] == spec_pixel(
            vals@,
            range,
            height as int,
            x,
            y,
            first[y * width + x],
        ) by {
            lemma_grid_index_bound(width as int, height as int, x, y);
            if x >= c {
                assert(!column_painted(vals@, range, height as int, x, y));
            }
        }
    }
}

} // verus!
