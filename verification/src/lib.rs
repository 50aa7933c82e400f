//! A single-stock market toy: a synthetic price series generated by a biased
//! random walk, a candlestick-like delta chart rendered into a raw pixel
//! buffer, label placement for price annotations, and a one-instrument
//! portfolio with buy/sell operations.
//!
//! Prices and money are fixed-point integers: one unit is one hundredth of a
//! currency unit (a cent).

use vstd::prelude::*;

pub mod layout;
pub mod messages;
pub mod portfolio;
pub mod project;
pub mod render;
pub mod series;

verus! {

/// The error taxonomy: `EmptyHistory` marks an invariant violation that is
/// unreachable for a properly constructed series; `InsufficientFunds` and
/// `NoSharesHeld` are expected user errors surfaced as timed messages.
#[derive(Clone, Copy, Debug, PartialEq, Eq, Structural)]
pub enum MarketError {
    EmptyHistory,
    InsufficientFunds,
    NoSharesHeld,
}

/// Frame background.
pub const BLACK: u32 = 0x000000;
/// Text of the portfolio summary and the current-price label.
pub const WHITE: u32 = 0xffffff;
/// Down-tick spans, failure messages and the all-time-low label.
pub const RED: u32 = 0xff0000;
/// Up-tick spans and the all-time-high label.
pub const GREEN: u32 = 0x00ff00;
/// The local-high label.
pub const CYAN: u32 = 0x00ffff;
/// The local-low label.
pub const MAGENTA: u32 = 0xff00ff;

/// A closed value range with `min <= max`.
#[derive(Clone, Copy, PartialEq, Eq, Structural)]
pub struct ValueRange {
    pub min: i64,
    pub max: i64,
}

impl ValueRange {
    /// The invariant every `ValueRange` in this crate satisfies.
    pub open spec fn wf(self) -> bool {
        self.min <= self.max
    }
}

} // verus!
