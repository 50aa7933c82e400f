//! The player's portfolio: a cash balance and the share counts held per
//! instrument, with atomic buy/sell operations and valuation helpers.
//!
//! Money is fixed-point, in the same units as prices (hundredths of a
//! currency unit). Selling at a negative price can drive the balance below
//! zero; only the buy guard constrains it.

use vstd::prelude::*;
use crate::MarketError;

verus! {

/// The value of the held shares: `sum_i shares[i] * prices[i]`.
pub open spec fn spec_shares_value(shares: Seq<u32>, prices: Seq<i64>) -> int
    decreases shares.len(),
{
    if shares.len() == 0 || prices.len() == 0 {
        0
    } else {
        shares.last() * prices.last() + spec_shares_value(
            shares.drop_last(),
            prices.drop_last(),
        )
    }
}

/// The same sum over absolute values; partial sums of the valuation stay
/// within it, so it bounds the intermediate arithmetic.
pub open spec fn spec_abs_shares_value(shares: Seq<u32>, prices: Seq<i64>) -> int
    decreases shares.len(),
{
    if shares.len() == 0 || prices.len() == 0 {
        0
    } else {
        shares.last() * abs_i64(prices.last()) + spec_abs_shares_value(
            shares.drop_last(),
            prices.drop_last(),
        )
    }
}

/// The absolute value of an `i64`, as a mathematical integer.
pub open spec fn abs_i64(x: i64) -> int {
    if x >= 0 {
        x as int
    } else {
        -(x as int)
    }
}

/// Every partial sum is bounded by the sum of absolute values.
proof fn lemma_shares_value_bounded(shares: Seq<u32>, prices: Seq<i64>)
    ensures
        -spec_abs_shares_value(shares, prices) <= spec_shares_value(shares, prices)
            <= spec_abs_shares_value(shares, prices),
        0 <= spec_abs_shares_value(shares, prices),
    decreases shares.len(),
{
    if shares.len() != 0 && prices.len() != 0 {
        lemma_shares_value_bounded(shares.drop_last(), prices.drop_last());
        let s = shares.last() as int;
        let p = prices.last() as int;
        let a = abs_i64(prices.last());
        assert(-(s * a) <= s * p <= s * a) by (nonlinear_arith)
            requires
                s >= 0,
                -a <= p <= a,
        ;
    }
}

/// The player's cash balance and per-instrument share counts. This market
/// trades a single instrument, so `shares` has exactly one entry; the
/// valuation interface is kept parametric over a price per instrument.
pub struct PlayerData {
    pub money: i64,
    pub shares: Vec<u32>,
}

impl PlayerData {
    /// One entry per traded instrument: here, exactly one.
    pub open spec fn wf(self) -> bool {
        self.shares@.len() == 1
    }

    /// A fresh portfolio holding `money` in cash and no shares.
    pub fn new(money: i64) -> (r: Self)
        ensures
            r.wf(),
            r.money == money,
            r.shares@ =~= seq![0u32],
    {
        let mut shares: Vec<u32> = Vec::new();
        shares.push(0);
        PlayerData { money, shares }
    }

    /// The combined value of the held shares, one current price per
    /// instrument. The bound on the sum of absolute values is what keeps
    /// every intermediate step representable.
    pub fn get_total_shares_value(&self, single_share_values: &Vec<i64>) -> (r: i64)
        requires
            self.shares@.len() == single_share_values@.len(),
            spec_abs_shares_value(self.shares@, single_share_values@) <= i64::MAX,
        ensures
            r == spec_shares_value(self.shares@, single_share_values@),
    {
        proof {
            lemma_shares_value_bounded(self.shares@, single_share_values@);
        }
        let n = self.shares.len();
        let mut total: i64 = 0;
        let mut i: usize = 0;
        while i < n
            invariant
                n == self.shares@.len(),
                n == single_share_values@.len(),
                i <= n,
                spec_abs_shares_value(self.shares@, single_share_values@) <= i64::MAX,
                total == spec_shares_value(
                    self.shares@.subrange(0, i as int),
                    single_share_values@.subrange(0, i as int),
                ),
                -spec_abs_shares_value(
                    self.shares@.subrange(0, i as int),
                    single_share_values@.subrange(0, i as int),
                ) <= total <= spec_abs_shares_value(
                    self.shares@.subrange(0, i as int),
                    single_share_values@.subrange(0, i as int),
                ),
            decreases n - i,
        {
            let count = self.shares[i];
            let price = single_share_values[i];
            proof {
                lemma_abs_prefix_monotone(self.shares@, single_share_values@, i as int);
                let sh = self.shares@.subrange(0, i + 1);
                let pr = single_share_values@.subrange(0, i + 1);
                assert(sh.drop_last() =~= self.shares@.subrange(0, i as int));
                assert(pr.drop_last() =~= single_share_values@.subrange(0, i as int));
                lemma_shares_value_bounded(sh, pr);
                lemma_shares_value_bounded(sh.drop_last(), pr.drop_last());
                assert(count as int * abs_i64(price) <= spec_abs_shares_value(sh, pr));
                assert(-(count as int * abs_i64(price)) <= count as int * (price as int)
                    <= count as int * abs_i64(price)) by (nonlinear_arith)
                    requires
                        count >= 0,
                        -abs_i64(price) <= price as int <= abs_i64(price),
                ;
            }
            let contribution: i64 = (count as i64) * price;
            total = total + contribution;
            i = i + 1;
        }
        proof {
            assert(self.shares@.subrange(0, n as int) =~= self.shares@);
            assert(single_share_values@.subrange(0, n as int) =~= single_share_values@);
        }
        total
    }

    /// Cash plus the value of the held shares.
    pub fn get_total_value(&self, single_share_values: &Vec<i64>) -> (r: i64)
        requires
            self.shares@.len() == single_share_values@.len(),
            spec_abs_shares_value(self.shares@, single_share_values@) <= i64::MAX,
            i64::MIN <= self.money + spec_shares_value(self.shares@, single_share_values@)
                <= i64::MAX,
        ensures
            r == self.money + spec_shares_value(self.shares@, single_share_values@),
    {
        proof {
            lemma_shares_value_bounded(self.shares@, single_share_values@);
        }
        self.money + self.get_total_shares_value(single_share_values)
    }

    /// Buys one share at `price`: succeeds, paying `price` and gaining one
    /// share, iff the cash balance strictly exceeds the price. A price
    /// exactly equal to the balance is rejected. On failure nothing
    /// changes.
    pub fn buy(&mut self, price: i64) -> (r: Result<(), MarketError>)
        requires
            old(self).wf(),
            old(self).money > price ==> old(self).money - price <= i64::MAX,
            old(self).money > price ==> old(self).shares@[0] < u32::MAX,
        ensures
            final(self).wf(),
            r is Ok <==> old(self).money > price,
            old(self).money > price ==> final(self).money == old(self).money - price
                && final(self).shares@ =~= old(self).shares@.update(
                0,
                (old(self).shares@[0] + 1) as u32,
            ),
            !(old(self).money > price) ==> r == Err::<(), MarketError>(
                MarketError::InsufficientFunds,
            ) && *final(self) == *old(self),
    {
        if self.money > price {
            self.money = self.money - price;
            let held = self.shares[0];
            self.shares.set(0, held + 1);
            Ok(())
        } else {
            Err(MarketError::InsufficientFunds)
        }
    }

    /// Sells one share at `price`: succeeds, gaining `price` and giving up
    /// one share, iff at least one share is held. Otherwise fails with
    /// `NoSharesHeld` and nothing changes.
    pub fn sell(&mut self, price: i64) -> (r: Result<(), MarketError>)
        requires
            old(self).wf(),
            old(self).shares@[0] > 0 ==> i64::MIN <= old(self).money + price <= i64::MAX,
        ensures
            final(self).wf(),
            r is Ok <==> old(self).shares@[0] > 0,
            old(self).shares@[0] > 0 ==> final(self).money == old(self).money + price
                && final(self).shares@ =~= old(self).shares@.update(
                0,
                (old(self).shares@[0] - 1) as u32,
            ),
            !(old(self).shares@[0] > 0) ==> r == Err::<(), MarketError>(MarketError::NoSharesHeld)
                && *final(self) == *old(self),
    {
        let held = self.shares[0];
        if held > 0 {
            self.shares.set(0, held - 1);
            self.money = self.money + price;
            Ok(())
        } else {
            Err(MarketError::NoSharesHeld)
        }
    }
}

/// Extending a prefix by one entry can only grow the absolute-value sum.
proof fn lemma_abs_prefix_monotone(shares: Seq<u32>, prices: Seq<i64>, i: int)
    requires
        shares.len() == prices.len(),
        0 <= i < shares.len(),
    ensures
        spec_abs_shares_value(shares.subrange(0, i + 1), prices.subrange(0, i + 1))
            <= spec_abs_shares_value(shares, prices),
    decreases shares.len() - i,
{
    if i + 1 == shares.len() {
        assert(shares.subrange(0, i + 1) =~= shares);
        assert(prices.subrange(0, i + 1) =~= prices);
    } else {
        lemma_abs_prefix_monotone(shares, prices, i + 1);
        let sh = shares.subrange(0, i + 2);
        let pr = prices.subrange(0, i + 2);
        assert(sh.drop_last() =~= shares.subrange(0, i + 1));
        assert(pr.drop_last() =~= prices.subrange(0, i + 1));
        assert(sh.last() * abs_i64(pr.last()) >= 0) by (nonlinear_arith)
            requires
                sh.last() >= 0,
                abs_i64(pr.last()) >= 0,
        ;
    }
}

} // verus!
