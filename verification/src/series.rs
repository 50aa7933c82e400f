//! The price series: an append-only history of fixed-point price samples,
//! generated by a biased random walk, with derived views (latest value,
//! global min/max, and a decimated window sized to the available pixels).

use vstd::prelude::*;
use vstd::arithmetic::div_mod::lemma_fundamental_div_mod_converse;
use crate::{MarketError, ValueRange};
use rand::Rng;

verus! {

/// `rand::rngs::ThreadRng`, the lazily seeded thread-local generator that
/// `rand::rng()` hands out.
#[verifier::external_type_specification]
#[verifier::external_body]
pub struct ExThreadRng(rand::rngs::ThreadRng);

/// Relies on `rand::rng`: returns a handle to the thread-local generator.
/// Nothing is promised of it; every draw made through it is described only
/// by the bounds of the requested range.
#[verifier::external_body]
fn fresh_rng() -> rand::rngs::ThreadRng {
    rand::rng()
}

/// Relies on `rand::Rng::random_range` over `lo..hi` on `u64`: the sample
/// lies in the half-open range. The method panics only on an empty range,
/// which `lo < hi` rules out.
#[verifier::external_body]
fn random_in_range(rng: &mut rand::rngs::ThreadRng, lo: u64, hi: u64) -> (r: u64)
    requires
        lo < hi,
    ensures
        lo <= r < hi,
{
    rng.random_range(lo..hi)
}

/// How many chunks of `scale` samples a history of length `n` splits into
/// (the last chunk may be short).
pub open spec fn chunk_count(n: int, scale: int) -> int {
    (n + scale - 1) / scale
}

/// The representative of chunk `i`: the last sample of the chunk, or the
/// last sample of the history when the chunk is cut short.
pub open spec fn chunk_last(h: Seq<i64>, scale: int, i: int) -> i64 {
    if (i + 1) * scale <= h.len() {
        h[(i + 1) * scale - 1]
    } else {
        h[h.len() - 1]
    }
}

/// Nearest-neighbour decimation: one representative per chunk of `scale`
/// consecutive samples, keeping each chunk's last value.
pub open spec fn decimate(h: Seq<i64>, scale: int) -> Seq<i64> {
    Seq::new(chunk_count(h.len() as int, scale) as nat, |i: int| chunk_last(h, scale, i))
}

/// Where the displayed tail of a decimated sequence of length `dlen`
/// begins, keeping at most `width_budget - 1` trailing elements.
pub open spec fn spec_window_start(dlen: int, width_budget: int) -> int {
    if dlen > width_budget - 1 {
        dlen - (width_budget - 1)
    } else {
        0
    }
}

/// The windowed view: the trailing `width_budget - 1` elements (or all of
/// them, if fewer) of the decimated history.
pub open spec fn spec_windowed(h: Seq<i64>, width_budget: int, scale: int) -> Seq<i64> {
    let d = decimate(h, scale);
    d.subrange(spec_window_start(d.len() as int, width_budget), d.len() as int)
}

/// The magnitude of a walk step with exponent `e` in `[-3, 5]`: `2^e`
/// currency units, expressed in price units (hundredths) and rounded down.
pub open spec fn step_units(e: int) -> int {
    if e == -3 {
        12
    } else if e == -2 {
        25
    } else if e == -1 {
        50
    } else if e == 0 {
        100
    } else if e == 1 {
        200
    } else if e == 2 {
        400
    } else if e == 3 {
        800
    } else if e == 4 {
        1600
    } else {
        3200
    }
}

/// Clamps a mathematical integer into the `i64` range.
pub open spec fn saturate_i64(x: int) -> int {
    if x > i64::MAX {
        i64::MAX as int
    } else if x < i64::MIN {
        i64::MIN as int
    } else {
        x
    }
}

/// The sample that follows `prev` for a walk step of direction `up` and
/// exponent `e`, saturating at the ends of the representable range.
pub open spec fn apply_step(prev: int, up: bool, e: int) -> int {
    if up {
        saturate_i64(prev + step_units(e))
    } else {
        saturate_i64(prev - step_units(e))
    }
}

/// The price series of the single traded instrument. Prices are fixed-point:
/// one unit is one hundredth of a currency unit. The history is append-only
/// and never empty after construction.
pub struct Stock {
    pub history: Vec<i64>,
}

impl Stock {
    /// The invariant established at construction and preserved by `next`.
    pub open spec fn wf(self) -> bool {
        self.history@.len() >= 1
    }

    /// A series seeded with one random initial price: a mantissa of
    /// `1.00..=9.99` currency units times a power of ten whose exponent is
    /// drawn from a fixed weight table biased towards mid-sized prices.
    pub fn new() -> (r: Self)
        ensures
            r.wf(),
            r.history@.len() == 1,
            100 <= r.history@[0] <= 99_900_000,
    {
        let mut rng = fresh_rng();
        let w = random_in_range(&mut rng, 0, 422);
        let exponent = pick_weighted_exponent(w);
        let mantissa = random_in_range(&mut rng, 100, 1000);
        let pow = pow10_units(exponent);
        proof {
            assert(100 <= (mantissa as int) * (pow as int) <= 99_900_000) by (nonlinear_arith)
                requires
                    100 <= mantissa <= 999,
                    1 <= pow <= 100_000,
            ;
        }
        Self::from_init_value((mantissa as i64) * pow)
    }

    /// A series whose history holds exactly the given initial sample.
    pub fn from_init_value(value: i64) -> (r: Self)
        ensures
            r.wf(),
            r.history@ =~= seq![value],
    {
        let mut history: Vec<i64> = Vec::new();
        history.push(value);
        Stock { history }
    }

    /// The most recent sample.
    pub fn get_last_value(&self) -> (r: i64)
        requires
            self.wf(),
        ensures
            r == self.history@.last(),
    {
        self.history[self.history.len() - 1]
    }

    /// The most recent sample, or `EmptyHistory` if no sample exists yet
    /// (unreachable for a series built by `new` or `from_init_value`).
    pub fn latest(&self) -> (r: Result<i64, MarketError>)
        ensures
            self.history@.len() >= 1 ==> r == Ok::<i64, MarketError>(self.history@.last()),
            self.history@.len() == 0 ==> r == Err::<i64, MarketError>(MarketError::EmptyHistory),
    {
        if self.history.len() >= 1 {
            Ok(self.history[self.history.len() - 1])
        } else {
            Err(MarketError::EmptyHistory)
        }
    }

    /// Draws a fair direction bit and a magnitude exponent, and appends
    /// `last + sign * 2^exponent` (saturating at the `i64` ends) to the
    /// history. Everything already recorded is kept unchanged.
    pub fn next(&mut self)
        requires
            old(self).wf(),
        ensures
            final(self).wf(),
            final(self).history@.len() == old(self).history@.len() + 1,
            final(self).history@ =~= old(self).history@.push(final(self).history@.last()),
            exists|up: bool, e: int|
                -3 <= e <= 5 && final(self).history@.last() == apply_step(
                    old(self).history@.last() as int,
                    up,
                    e,
                ),
    {
        let prev = self.get_last_value();
        let mut rng = fresh_rng();
        let coin = random_in_range(&mut rng, 0, 2);
        let eraw = random_in_range(&mut rng, 0, 9);
        let e: i64 = (eraw as i64) - 3;
        let mag = step_size(e);
        let up = coin == 1;
        let new_value: i64 = if up {
            if prev <= i64::MAX - mag {
                prev + mag
            } else {
                i64::MAX
            }
        } else {
            if prev >= i64::MIN + mag {
                prev - mag
            } else {
                i64::MIN
            }
        };
        proof {
            assert(-3 <= e as int <= 5 && new_value == apply_step(prev as int, up, e as int));
        }
        self.history.push(new_value);
    }

    /// The global value range: `min` and `max` over the entire history.
    /// Both bounds are attained by some sample, and every sample lies
    /// between them.
    pub fn global_range(&self) -> (r: ValueRange)
        requires
            self.wf(),
        ensures
            r.wf(),
            forall|i: int|
                0 <= i < self.history@.len() ==> r.min <= #[trigger] self.history@[i] <= r.max,
            exists|i: int| 0 <= i < self.history@.len() && self.history@[i] == r.min,
            exists|i: int| 0 <= i < self.history@.len() && self.history@[i] == r.max,
    {
        let min = vec_min(&self.history);
        let max = vec_max(&self.history);
        ValueRange { min, max }
    }

    /// The windowed view of the history (see `spec_windowed`): chunks of
    /// `scale` consecutive samples are reduced to their last sample, and the
    /// trailing `max_num_of_prices - 1` of those representatives are kept.
    /// The result is never empty and always shorter than
    /// `max_num_of_prices`.
    pub fn get_recent_history_scaled(&self, max_num_of_prices: u32, scale: u32) -> (r: Vec<i64>)
        requires
            self.wf(),
            max_num_of_prices >= 2,
            scale >= 1,
        ensures
            r@ =~= spec_windowed(self.history@, max_num_of_prices as int, scale as int),
            1 <= r@.len() < max_num_of_prices,
    {
        let n = self.history.len();
        let sc = scale as usize;
        let ghost hist = self.history@;
        let mut dec: Vec<i64> = Vec::new();
        proof {
            lemma_fundamental_div_mod_converse(sc - 1, sc as int, 0, sc - 1);
        }
        let mut i: usize = 0;
        while i < n
            invariant
                self.wf(),
                hist == self.history@,
                n == hist.len(),
                sc == scale as int,
                sc >= 1,
                i <= n,
                dec@.len() == chunk_count(i as int, sc as int),
                i == dec@.len() * sc || i == n,
                forall|j: int| 0 <= j < dec@.len() ==> dec@[j] == chunk_last(hist, sc as int, j),
            decreases n - i,
        {
            let ghost k = dec@.len() as int;
            let end = if n - i > sc {
                i + sc
            } else {
                n
            };
            dec.push(self.history[end - 1]);
            proof {
                assert(i == k * sc);
                if n - i > sc {
                    assert(end == (k + 1) * sc) by {
                        assert((k + 1) * sc == k * sc + sc) by (nonlinear_arith);
                    }
                    assert(chunk_last(hist, sc as int, k) == hist[end - 1]);
                    lemma_fundamental_div_mod_converse(
                        end + sc - 1,
                        sc as int,
                        k + 1,
                        sc - 1,
                    );
                } else {
                    assert((k + 1) * sc == k * sc + sc) by (nonlinear_arith);
                    assert(k * sc < n <= (k + 1) * sc);
                    assert(chunk_last(hist, sc as int, k) == hist[n - 1]);
                    lemma_fundamental_div_mod_converse(
                        n + sc - 1,
                        sc as int,
                        k + 1,
                        n - 1 - k * sc,
                    );
                }
            }
            i = end;
        }
        proof {
            assert(dec@ =~= decimate(hist, sc as int));
        }
        let dlen = dec.len();
        let keep = (max_num_of_prices as usize) - 1;
        let start = if dlen > keep {
            dlen - keep
        } else {
            0
        };
        let mut out: Vec<i64> = Vec::new();
        let mut j: usize = start;
        while j < dlen
            invariant
                start <= j <= dlen,
                dlen == dec@.len(),
                out@ =~= dec@.subrange(start as int, j as int),
            decreases dlen - j,
        {
            out.push(dec[j]);
            j = j + 1;
        }
        proof {
            assert(start as int == spec_window_start(dec@.len() as int, max_num_of_prices as int));
            assert(out@ =~= spec_windowed(hist, max_num_of_prices as int, scale as int));
            lemma_chunk_count_pos(n as int, sc as int);
        }
        out
    }
}

/// The digit-count exponent the weight table maps a uniform draw from
/// `[0, 422)` to; the weights are `[1, 10, 300, 100, 10, 1]` for exponents
/// `0..=5`.
pub open spec fn spec_weighted_exponent(w: int) -> int {
    if w < 1 {
        0
    } else if w < 11 {
        1
    } else if w < 311 {
        2
    } else if w < 411 {
        3
    } else if w < 421 {
        4
    } else {
        5
    }
}

/// Resolves a uniform draw against the cumulative weight table.
fn pick_weighted_exponent(w: u64) -> (e: u64)
    requires
        w < 422,
    ensures
        e == spec_weighted_exponent(w as int),
        e <= 5,
{
    if w < 1 {
        0
    } else if w < 11 {
        1
    } else if w < 311 {
        2
    } else if w < 411 {
        3
    } else if w < 421 {
        4
    } else {
        5
    }
}

/// Ten to the `k`-th power, for the initial-price magnitude.
pub open spec fn pow10(k: int) -> int
    decreases k,
{
    if k <= 0 {
        1
    } else {
        10 * pow10(k - 1)
    }
}

/// The executable power-of-ten table (see `pow10`).
fn pow10_units(e: u64) -> (r: i64)
    requires
        e <= 5,
    ensures
        r == pow10(e as int),
        1 <= r <= 100_000,
{
    proof {
        reveal_with_fuel(pow10, 7);
    }
    if e == 0 {
        1
    } else if e == 1 {
        10
    } else if e == 2 {
        100
    } else if e == 3 {
        1_000
    } else if e == 4 {
        10_000
    } else {
        100_000
    }
}

/// The executable step-magnitude table (see `step_units`).
fn step_size(e: i64) -> (r: i64)
    requires
        -3 <= e <= 5,
    ensures
        r == step_units(e as int),
{
    if e == -3 {
        12
    } else if e == -2 {
        25
    } else if e == -1 {
        50
    } else if e == 0 {
        100
    } else if e == 1 {
        200
    } else if e == 2 {
        400
    } else if e == 3 {
        800
    } else if e == 4 {
        1600
    } else {
        3200
    }
}

/// A chunk count is at least one for a non-empty history.
pub proof fn lemma_chunk_count_pos(n: int, scale: int)
    requires
        n >= 1,
        scale >= 1,
    ensures
        1 <= chunk_count(n, scale) <= n,
{
    vstd::arithmetic::div_mod::lemma_div_basics(scale);
    vstd::arithmetic::div_mod::lemma_div_is_ordered(scale, n + scale - 1, scale);
    lemma_fundamental_div_mod_converse(n * scale, scale, n, 0);
    assert((n - 1) * scale >= n - 1) by (nonlinear_arith)
        requires
            n >= 1,
            scale >= 1,
    ;
    assert(n * scale == (n - 1) * scale + scale) by (nonlinear_arith);
    assert(n + scale - 1 <= n * scale);
    vstd::arithmetic::div_mod::lemma_div_is_ordered(n + scale - 1, n * scale, scale);
}

/// Decimation at scale one keeps the history as it is.
pub proof fn lemma_decimate_identity(h: Seq<i64>)
    requires
        h.len() >= 1,
    ensures
        decimate(h, 1) =~= h,
{
    vstd::arithmetic::div_mod::lemma_div_basics(1);
    assert(chunk_count(h.len() as int, 1) == h.len());
}

/// For every non-empty history, the windowed view is non-empty and strictly
/// shorter than the width budget, and at scale one it ends with the
/// history's most recent sample.
pub proof fn lemma_windowed_shape(h: Seq<i64>, width_budget: int, scale: int)
    requires
        h.len() >= 1,
        width_budget >= 2,
        scale >= 1,
    ensures
        1 <= spec_windowed(h, width_budget, scale).len() < width_budget,
        scale == 1 ==> spec_windowed(h, width_budget, scale).last() == h.last(),
{
    lemma_chunk_count_pos(h.len() as int, scale);
    if scale == 1 {
        lemma_decimate_identity(h);
    }
}

/// Decimation idempotence: at scale one, a history short enough to fit the
/// width budget is returned whole, unchanged and in order.
pub proof fn lemma_windowed_identity(h: Seq<i64>, width_budget: int)
    requires
        1 <= h.len() <= width_budget - 1,
    ensures
        spec_windowed(h, width_budget, 1) =~= h,
{
    lemma_decimate_identity(h);
}

/// The smallest element of a non-empty vector: a lower bound that is
/// attained.
pub fn vec_min(v: &Vec<i64>) -> (m: i64)
    requires
        v@.len() >= 1,
    ensures
        forall|i: int| 0 <= i < v@.len() ==> m <= v@[i],
        exists|i: int| 0 <= i < v@.len() && v@[i] == m,
{
    let mut m: i64 = v[0];
    let mut i: usize = 1;
    while i < v.len()
        invariant
            1 <= i <= v@.len(),
            forall|j: int| 0 <= j < i ==> m <= v@[j],
            exists|j: int| 0 <= j < i && v@[j] == m,
        decreases v@.len() - i,
    {
        if v[i] < m {
            m = v[i];
        }
        i = i + 1;
    }
    m
}

/// The largest element of a non-empty vector: an upper bound that is
/// attained.
pub fn vec_max(v: &Vec<i64>) -> (m: i64)
    requires
        v@.len() >= 1,
    ensures
        forall|i: int| 0 <= i < v@.len() ==> v@[i] <= m,
        exists|i: int| 0 <= i < v@.len() && v@[i] == m,
{
    let mut m: i64 = v[0];
    let mut i: usize = 1;
    while i < v.len()
        invariant
            1 <= i <= v@.len(),
            forall|j: int| 0 <= j < i ==> v@[j] <= m,
            exists|j: int| 0 <= j < i && v@[j] == m,
        decreases v@.len() - i,
    {
        if v[i] > m {
            m = v[i];
        }
        i = i + 1;
    }
    m
}

} // verus!
