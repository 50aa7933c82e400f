//! Placement of the five price labels along the right edge of the frame.
//!
//! Each label is anchored to its value's projected row and pulled away from
//! its neighbours in a fixed priority order: the current price first
//! (clamped above the bottom edge), then the local high pulled upward, the
//! all-time high pushed above whichever label sits closest to the top, and
//! the mirror image on the low side. A local extreme that coincides with
//! the all-time extreme is suppressed so the two labels never duplicate.

use vstd::prelude::*;
use vstd::math::{max, min};
use crate::ValueRange;
use crate::project::{spec_value_to_row, value_to_row};

verus! {

/// Glyph cell width before scaling, in pixels.
pub const GLYPH_W: i64 = 8;

/// Glyph cell height before scaling, in pixels.
pub const GLYPH_H: i64 = 6;

/// The text scale the price labels are drawn at.
pub const LABEL_SCALE: i64 = 2;

/// The minimum vertical gap between two labels: one glyph-row at label
/// scale (`GLYPH_H * LABEL_SCALE`).
pub const LABEL_GAP: i64 = 12;

/// The width reserved at the right edge for the price labels
/// (`GLYPH_W * 6 * LABEL_SCALE`: six glyph cells at label scale). The
/// chart's width budget is the frame width minus this margin.
pub const LABEL_MARGIN: i64 = 96;

/// The row a label's value is anchored to, projected over the all-time
/// range.
pub open spec fn spec_anchor_row(value: int, atl: int, ath: int, height: int) -> int {
    spec_value_to_row(value, atl, ath, height)
}

/// The current-price label: at its anchor row, clamped so it never renders
/// below the bottom edge.
pub open spec fn spec_current_y(current: int, atl: int, ath: int, height: int) -> int {
    min(spec_anchor_row(current, atl, ath, height), height - LABEL_GAP as int)
}

/// The local-high label, when drawn: at its anchor row, pulled upward off
/// the current-price label.
pub open spec fn spec_local_high_y(current: int, lh: int, atl: int, ath: int, height: int) -> int {
    min(spec_anchor_row(lh, atl, ath, height), spec_current_y(current, atl, ath, height) - LABEL_GAP as int)
}

/// The label the all-time-high label must clear: the local high when that
/// is drawn, else the current price.
pub open spec fn spec_high_anchor(current: int, lh: int, atl: int, ath: int, height: int) -> int {
    if lh != ath {
        spec_local_high_y(current, lh, atl, ath, height)
    } else {
        spec_current_y(current, atl, ath, height)
    }
}

/// The all-time-high label: at the top edge, pushed further up if the
/// nearest label below comes too close.
pub open spec fn spec_all_time_high_y(current: int, lh: int, atl: int, ath: int, height: int) -> int {
    min(0, spec_high_anchor(current, lh, atl, ath, height) - LABEL_GAP as int)
}

/// The local-low label, when drawn: one glyph-row above its anchor row,
/// pushed downward off the current-price label.
pub open spec fn spec_local_low_y(current: int, ll: int, atl: int, ath: int, height: int) -> int {
    max(spec_anchor_row(ll, atl, ath, height) - LABEL_GAP as int, spec_current_y(current, atl, ath, height) + LABEL_GAP as int)
}

/// The label the all-time-low label must clear: the local low when that is
/// drawn, else the current price.
pub open spec fn spec_low_anchor(current: int, ll: int, atl: int, ath: int, height: int) -> int {
    if ll != atl {
        spec_local_low_y(current, ll, atl, ath, height)
    } else {
        spec_current_y(current, atl, ath, height)
    }
}

/// The all-time-low label: at the bottom edge, pushed further down if the
/// nearest label above comes too close.
pub open spec fn spec_all_time_low_y(current: int, ll: int, atl: int, ath: int, height: int) -> int {
    max(height - LABEL_GAP as int, spec_low_anchor(current, ll, atl, ath, height) + LABEL_GAP as int)
}

/// The vertical positions the five price labels render at. A `None` means
/// the local extreme coincides with the all-time extreme and its label is
/// suppressed.
pub struct PriceLabels {
    pub current_y: i64,
    pub local_high_y: Option<i64>,
    pub all_time_high_y: i64,
    pub local_low_y: Option<i64>,
    pub all_time_low_y: i64,
}

/// Places the five price labels (see the spec functions above), and
/// guarantees the minimum gap: every placed label clears the one it was
/// pulled away from by at least `LABEL_GAP`.
pub fn place_price_labels(
    current: i64,
    local_high: i64,
    local_low: i64,
    all_time_high: i64,
    all_time_low: i64,
    height: u32,
) -> (r: PriceLabels)
    requires
        all_time_low <= current <= all_time_high,
        all_time_low <= local_high <= all_time_high,
        all_time_low <= local_low <= all_time_high,
    ensures
        r.current_y == spec_current_y(current as int, all_time_low as int, all_time_high as int, height as int),
        local_high != all_time_high ==> r.local_high_y == Some(
            spec_local_high_y(current as int, local_high as int, all_time_low as int, all_time_high as int, height as int) as i64,
        ),
        local_high == all_time_high ==> r.local_high_y is None,
        r.all_time_high_y == spec_all_time_high_y(current as int, local_high as int, all_time_low as int, all_time_high as int, height as int),
        local_low != all_time_low ==> r.local_low_y == Some(
            spec_local_low_y(current as int, local_low as int, all_time_low as int, all_time_high as int, height as int) as i64,
        ),
        local_low == all_time_low ==> r.local_low_y is None,
        r.all_time_low_y == spec_all_time_low_y(current as int, local_low as int, all_time_low as int, all_time_high as int, height as int),
        r.local_high_y matches Some(y) ==> y + LABEL_GAP <= r.current_y,
        r.local_high_y matches Some(y) ==> r.all_time_high_y + LABEL_GAP <= y,
        r.local_high_y is None ==> r.all_time_high_y + LABEL_GAP <= r.current_y,
        r.local_low_y matches Some(y) ==> r.current_y + LABEL_GAP <= y,
        r.local_low_y matches Some(y) ==> y + LABEL_GAP <= r.all_time_low_y,
        r.local_low_y is None ==> r.current_y + LABEL_GAP <= r.all_time_low_y,
{
    let range = ValueRange { min: all_time_low, max: all_time_high };
    let current_row = value_to_row(current, range, height) as i64;
    let bottom_clamp = height as i64 - LABEL_GAP;
    let current_y = if current_row <= bottom_clamp {
        current_row
    } else {
        bottom_clamp
    };
    let (local_high_y, high_anchor) = if local_high != all_time_high {
        let row = value_to_row(local_high, range, height) as i64;
        let pulled = current_y - LABEL_GAP;
        let y = if row <= pulled {
            row
        } else {
            pulled
        };
        (Some(y), y)
    } else {
        (None, current_y)
    };
    let pushed_high = high_anchor - LABEL_GAP;
    let all_time_high_y = if pushed_high <= 0 {
        pushed_high
    } else {
        0
    };
    let (local_low_y, low_anchor) = if local_low != all_time_low {
        let row = value_to_row(local_low, range, height) as i64;
        let dropped = row - LABEL_GAP;
        let pushed = current_y + LABEL_GAP;
        let y = if dropped >= pushed {
            dropped
        } else {
            pushed
        };
        (Some(y), y)
    } else {
        (None, current_y)
    };
    let pushed_low = low_anchor + LABEL_GAP;
    let all_time_low_y = if pushed_low >= bottom_clamp {
        pushed_low
    } else {
        bottom_clamp
    };
    PriceLabels { current_y, local_high_y, all_time_high_y, local_low_y, all_time_low_y }
}

/// The vertical position of the `index`-th transient message in the stack
/// drawn below the portfolio summary.
pub open spec fn spec_message_y(index: int) -> int {
    135 + 20 * index
}

/// Where the `index`-th transient message renders: the stack starts below
/// the four summary lines and advances one message-row at a time.
pub fn message_y(index: usize) -> (y: i64)
    requires
        spec_message_y(index as int) <= i64::MAX,
    ensures
        y == spec_message_y(index as int),
{
    135 + 20 * (index as i64)
}

} // verus!
