//! Session metrics: per-market PnL, fill and uptime counters, and their
//! portfolio-wide aggregates. Persisting them to disk and formatting the
//! dashboard are transport and live outside the library.

use vstd::prelude::*;

use vstd::pervasive::VecAdditionalExecFns;

use crate::fixed::{
    dec_div, dec_mul, lemma_dec_div_unit, lemma_mul_le, lemma_tdiv_bounds,
    lemma_tdiv_quotient_bound, Dec, AMOUNT_MAX, DEC_SCALE,
};

verus! {

/// Upper bound on event counters: a trillion ticks, orders or fills.
pub const COUNTER_MAX: u64 = 1_000_000_000_000;

/// Tracks PnL, fill rates, and other metrics for a single market.
#[derive(Debug)]
pub struct MarketMetrics {
    pub condition_id: String,
    pub question: String,
    pub spread_pnl: Dec,
    pub reward_pnl: Dec,
    pub rebate_pnl: Dec,
    pub total_fills: u64,
    pub total_orders: u64,
    pub uptime_ticks: u64,
    pub total_ticks: u64,
    pub inventory_yes: Dec,
    pub inventory_no: Dec,
    pub last_midpoint: Option<Dec>,
    pub start_time_ms: u64,
    pub last_update_ms: u64,
}

impl Clone for MarketMetrics {
    /// A clone carries exactly the same fields.
    fn clone(&self) -> (res: Self)
        ensures
            res == *self,
    {
        MarketMetrics {
            condition_id: self.condition_id.clone(),
            question: self.question.clone(),
            spread_pnl: self.spread_pnl,
            reward_pnl: self.reward_pnl,
            rebate_pnl: self.rebate_pnl,
            total_fills: self.total_fills,
            total_orders: self.total_orders,
            uptime_ticks: self.uptime_ticks,
            total_ticks: self.total_ticks,
            inventory_yes: self.inventory_yes,
            inventory_no: self.inventory_no,
            last_midpoint: self.last_midpoint,
            start_time_ms: self.start_time_ms,
            last_update_ms: self.last_update_ms,
        }
    }
}

/// The fill rate: fills per order submitted, zero before any order.
pub open spec fn fill_rate_spec(fills: int, orders: int) -> int {
    if orders == 0 {
        0
    } else {
        dec_div(fills * (DEC_SCALE as int), orders * (DEC_SCALE as int))
    }
}

/// The uptime percentage: the share of ticks with live orders, times 100.
pub open spec fn uptime_pct_spec(uptime: int, total: int) -> int {
    if total == 0 {
        0
    } else {
        dec_mul(
            dec_div(uptime * (DEC_SCALE as int), total * (DEC_SCALE as int)),
            100 * (DEC_SCALE as int),
        )
    }
}

/// The market's total PnL: spread capture plus rewards plus rebates.
pub open spec fn market_pnl_spec(m: MarketMetrics) -> int {
    m.spread_pnl@ + m.reward_pnl@ + m.rebate_pnl@
}

impl MarketMetrics {
    /// Counters below [`COUNTER_MAX`], uptime within the tick count, and
    /// bounded money amounts.
    pub open spec fn wf(&self) -> bool {
        &&& self.total_fills <= COUNTER_MAX
        &&& self.total_orders <= COUNTER_MAX
        &&& self.uptime_ticks <= self.total_ticks <= COUNTER_MAX
        &&& -(AMOUNT_MAX as int) <= self.spread_pnl@ <= AMOUNT_MAX as int
        &&& -(AMOUNT_MAX as int) <= self.reward_pnl@ <= AMOUNT_MAX as int
        &&& -(AMOUNT_MAX as int) <= self.rebate_pnl@ <= AMOUNT_MAX as int
        &&& -(AMOUNT_MAX as int) <= self.inventory_yes@ <= AMOUNT_MAX as int
        &&& -(AMOUNT_MAX as int) <= self.inventory_no@ <= AMOUNT_MAX as int
        &&& match self.last_midpoint {
            Some(m) => 0 <= m@ <= DEC_SCALE as int,
            None => true,
        }
    }

    /// Fresh metrics for a market, started now.
    pub fn new(condition_id: String, question: String, now_ms: u64) -> (r: Self)
        ensures
            r.condition_id == condition_id,
            r.question == question,
            r.spread_pnl@ == 0,
            r.reward_pnl@ == 0,
            r.rebate_pnl@ == 0,
            r.total_fills == 0,
            r.total_orders == 0,
            r.uptime_ticks == 0,
            r.total_ticks == 0,
            r.inventory_yes@ == 0,
            r.inventory_no@ == 0,
            r.last_midpoint is None,
            r.start_time_ms == now_ms,
            r.last_update_ms == now_ms,
            r.wf(),
    {
        MarketMetrics {
            condition_id,
            question,
            spread_pnl: Dec::zero(),
            reward_pnl: Dec::zero(),
            rebate_pnl: Dec::zero(),
            total_fills: 0,
            total_orders: 0,
            uptime_ticks: 0,
            total_ticks: 0,
            inventory_yes: Dec::zero(),
            inventory_no: Dec::zero(),
            last_midpoint: None,
            start_time_ms: now_ms,
            last_update_ms: now_ms,
        }
    }

    /// Fills per submitted order; zero before any order went out.
    pub fn fill_rate(&self) -> (r: Dec)
        requires
            self.wf(),
        ensures
            r@ == fill_rate_spec(self.total_fills as int, self.total_orders as int),
    {
        if self.total_orders == 0 {
            return Dec::zero();
        }
        proof {
            lemma_rate_bounds(self.total_fills as int, self.total_orders as int);
        }
        Dec::new(self.total_fills as i64, 0).div(Dec::new(self.total_orders as i64, 0))
    }

    /// Share of ticks spent with live orders, as a percentage.
    pub fn uptime_pct(&self) -> (r: Dec)
        requires
            self.wf(),
        ensures
            r@ == uptime_pct_spec(self.uptime_ticks as int, self.total_ticks as int),
    {
        if self.total_ticks == 0 {
            return Dec::zero();
        }
        proof {
            lemma_uptime_bounds(self.uptime_ticks as int, self.total_ticks as int);
        }
        let ratio = Dec::new(self.uptime_ticks as i64, 0).div(
            Dec::new(self.total_ticks as i64, 0),
        );
        ratio.mul(Dec::from_int(100))
    }

    /// Total PnL of this market: spread plus rewards plus rebates.
    pub fn total_pnl(&self) -> (r: Dec)
        requires
            self.wf(),
        ensures
            r@ == market_pnl_spec(*self),
    {
        self.spread_pnl.add(self.reward_pnl).add(self.rebate_pnl)
    }

    /// Count one tick, noting whether orders were live, and stamp the time.
    pub fn record_tick(&mut self, had_orders: bool, now_ms: u64)
        requires
            old(self).wf(),
            old(self).total_ticks < COUNTER_MAX,
        ensures
            final(self).total_ticks == old(self).total_ticks + 1,
            final(self).uptime_ticks == old(self).uptime_ticks + if had_orders {
                1int
            } else {
                0int
            },
            final(self).last_update_ms == now_ms,
            final(self).condition_id == old(self).condition_id,
            final(self).question == old(self).question,
            final(self).spread_pnl == old(self).spread_pnl,
            final(self).reward_pnl == old(self).reward_pnl,
            final(self).rebate_pnl == old(self).rebate_pnl,
            final(self).total_fills == old(self).total_fills,
            final(self).total_orders == old(self).total_orders,
            final(self).inventory_yes == old(self).inventory_yes,
            final(self).inventory_no == old(self).inventory_no,
            final(self).last_midpoint == old(self).last_midpoint,
            final(self).start_time_ms == old(self).start_time_ms,
            final(self).wf(),
    {
        self.total_ticks = self.total_ticks + 1;
        if had_orders {
            self.uptime_ticks = self.uptime_ticks + 1;
        }
        self.last_update_ms = now_ms;
    }

    /// Count one fill and the spread it captured.
    pub fn record_fill(&mut self, spread_capture: Dec)
        requires
            old(self).wf(),
            old(self).total_fills < COUNTER_MAX,
            -(AMOUNT_MAX as int) <= old(self).spread_pnl@ + spread_capture@ <= AMOUNT_MAX as int,
        ensures
            final(self).total_fills == old(self).total_fills + 1,
            final(self).spread_pnl@ == old(self).spread_pnl@ + spread_capture@,
            final(self).reward_pnl == old(self).reward_pnl,
            final(self).rebate_pnl == old(self).rebate_pnl,
            final(self).total_orders == old(self).total_orders,
            final(self).uptime_ticks == old(self).uptime_ticks,
            final(self).total_ticks == old(self).total_ticks,
            final(self).condition_id == old(self).condition_id,
            final(self).question == old(self).question,
            final(self).inventory_yes == old(self).inventory_yes,
            final(self).inventory_no == old(self).inventory_no,
            final(self).last_midpoint == old(self).last_midpoint,
            final(self).start_time_ms == old(self).start_time_ms,
            final(self).last_update_ms == old(self).last_update_ms,
            final(self).wf(),
    {
        self.total_fills = self.total_fills + 1;
        self.spread_pnl = self.spread_pnl.add(spread_capture);
    }

    /// Count orders submitted.
    pub fn record_orders(&mut self, count: u64)
        requires
            old(self).wf(),
            old(self).total_orders + count <= COUNTER_MAX,
        ensures
            final(self).total_orders == old(self).total_orders + count,
            final(self).total_fills == old(self).total_fills,
            final(self).spread_pnl == old(self).spread_pnl,
            final(self).wf(),
    {
        self.total_orders = self.total_orders + count;
    }

    /// Add an incentive reward to the PnL.
    pub fn record_reward(&mut self, amount: Dec)
        requires
            old(self).wf(),
            -(AMOUNT_MAX as int) <= old(self).reward_pnl@ + amount@ <= AMOUNT_MAX as int,
        ensures
            final(self).reward_pnl@ == old(self).reward_pnl@ + amount@,
            final(self).spread_pnl == old(self).spread_pnl,
            final(self).rebate_pnl == old(self).rebate_pnl,
            final(self).wf(),
    {
        self.reward_pnl = self.reward_pnl.add(amount);
    }

    /// Add a maker rebate to the PnL.
    pub fn record_rebate(&mut self, amount: Dec)
        requires
            old(self).wf(),
            -(AMOUNT_MAX as int) <= old(self).rebate_pnl@ + amount@ <= AMOUNT_MAX as int,
        ensures
            final(self).rebate_pnl@ == old(self).rebate_pnl@ + amount@,
            final(self).spread_pnl == old(self).spread_pnl,
            final(self).reward_pnl == old(self).reward_pnl,
            final(self).wf(),
    {
        self.rebate_pnl = self.rebate_pnl.add(amount);
    }
}

/// A fill rate is non-negative and bounded by the counter cap in whole units.
proof fn lemma_rate_bounds(fills: int, orders: int)
    requires
        0 <= fills <= COUNTER_MAX,
        1 <= orders <= COUNTER_MAX,
    ensures
        0 <= fill_rate_spec(fills, orders) <= 1_000_000_000_000_000_000_000,
{
    let s: int = DEC_SCALE as int;
    assert((fills * s) * s <= (fills * s) * (orders * s) && (fills * s) * s >= 0)
        by (nonlinear_arith)
        requires
            0 <= fills,
            1 <= orders,
            s > 0,
    ;
    lemma_tdiv_quotient_bound((fills * s) * s, orders * s, fills * s);
    lemma_tdiv_bounds((fills * s) * s, orders * s);
}

/// An uptime percentage lies in `[0, 100]`.
proof fn lemma_uptime_bounds(uptime: int, total: int)
    requires
        0 <= uptime <= total,
        1 <= total <= COUNTER_MAX,
    ensures
        0 <= uptime_pct_spec(uptime, total) <= 100 * (DEC_SCALE as int),
{
    let s: int = DEC_SCALE as int;
    assert(uptime * s <= total * s && 0 <= uptime * s) by (nonlinear_arith)
        requires
            0 <= uptime <= total,
            s > 0,
    ;
    lemma_dec_div_unit(uptime * s, total * s);
    let ratio: int = dec_div(uptime * s, total * s);
    lemma_mul_le(ratio, 100 * s, s, 100 * s);
    lemma_tdiv_quotient_bound(ratio * (100 * s), s, 100 * s);
    lemma_tdiv_bounds(ratio * (100 * s), s);
}

/// One day's incentive rewards, as booked and as expected.
#[derive(Clone, Debug)]
pub struct DailyReward {
    pub date: String,
    pub amount: Dec,
    pub expected: Dec,
}

/// Aggregate metrics across all markets.
#[derive(Debug)]
pub struct PortfolioMetrics {
    pub markets: Vec<MarketMetrics>,
    pub daily_rewards: Vec<DailyReward>,
    pub session_start_ms: u64,
}

/// Sum of total PnL over the first `n` markets.
pub open spec fn sum_market_pnl_upto(ms: Seq<MarketMetrics>, n: int) -> int
    decreases n,
{
    if n <= 0 {
        0
    } else {
        sum_market_pnl_upto(ms, n - 1) + market_pnl_spec(ms[n - 1])
    }
}

/// Sum of spread PnL over the first `n` markets.
pub open spec fn sum_spread_upto(ms: Seq<MarketMetrics>, n: int) -> int
    decreases n,
{
    if n <= 0 {
        0
    } else {
        sum_spread_upto(ms, n - 1) + ms[n - 1].spread_pnl@
    }
}

/// Sum of reward PnL over the first `n` markets.
pub open spec fn sum_reward_upto(ms: Seq<MarketMetrics>, n: int) -> int
    decreases n,
{
    if n <= 0 {
        0
    } else {
        sum_reward_upto(ms, n - 1) + ms[n - 1].reward_pnl@
    }
}

/// Sum of fill counts over the first `n` markets.
pub open spec fn sum_fills_upto(ms: Seq<MarketMetrics>, n: int) -> int
    decreases n,
{
    if n <= 0 {
        0
    } else {
        sum_fills_upto(ms, n - 1) + ms[n - 1].total_fills as int
    }
}

/// Sum of fill rates over the first `n` markets that submitted orders.
pub open spec fn sum_rates_upto(ms: Seq<MarketMetrics>, n: int) -> int
    decreases n,
{
    if n <= 0 {
        0
    } else {
        sum_rates_upto(ms, n - 1) + if ms[n - 1].total_orders > 0 {
            fill_rate_spec(ms[n - 1].total_fills as int, ms[n - 1].total_orders as int)
        } else {
            0int
        }
    }
}

/// How many of the first `n` markets submitted any orders.
pub open spec fn count_rated_upto(ms: Seq<MarketMetrics>, n: int) -> int
    decreases n,
{
    if n <= 0 {
        0
    } else {
        count_rated_upto(ms, n - 1) + if ms[n - 1].total_orders > 0 {
            1int
        } else {
            0int
        }
    }
}

/// Sum of uptime percentages over the first `n` markets that ticked.
pub open spec fn sum_uptime_upto(ms: Seq<MarketMetrics>, n: int) -> int
    decreases n,
{
    if n <= 0 {
        0
    } else {
        sum_uptime_upto(ms, n - 1) + if ms[n - 1].total_ticks > 0 {
            uptime_pct_spec(ms[n - 1].uptime_ticks as int, ms[n - 1].total_ticks as int)
        } else {
            0int
        }
    }
}

/// How many of the first `n` markets ticked at all.
pub open spec fn count_ticked_upto(ms: Seq<MarketMetrics>, n: int) -> int
    decreases n,
{
    if n <= 0 {
        0
    } else {
        count_ticked_upto(ms, n - 1) + if ms[n - 1].total_ticks > 0 {
            1int
        } else {
            0int
        }
    }
}

/// Every market's metrics are well-formed.
pub open spec fn metrics_wf(ms: Seq<MarketMetrics>) -> bool {
    forall|i: int| 0 <= i < ms.len() ==> (#[trigger] ms[i]).wf()
}

/// The first market carrying this condition id.
pub open spec fn find_metric(ms: Seq<MarketMetrics>, id: Seq<char>, n: int) -> Option<int>
    decreases n,
{
    if n <= 0 {
        None
    } else {
        match find_metric(ms, id, n - 1) {
            Some(k) => Some(k),
            None => {
                if ms[n - 1].condition_id@ == id {
                    Some(n - 1)
                } else {
                    None
                }
            },
        }
    }
}

/// Partial metric sums stay within a few amounts per market.
proof fn lemma_metric_sums(ms: Seq<MarketMetrics>, n: int)
    requires
        metrics_wf(ms),
        0 <= n <= ms.len(),
    ensures
        vstd::math::abs(sum_market_pnl_upto(ms, n)) <= n * 3_000_000_000_000_000_000_000_000,
        vstd::math::abs(sum_spread_upto(ms, n)) <= n * (AMOUNT_MAX as int),
        vstd::math::abs(sum_reward_upto(ms, n)) <= n * (AMOUNT_MAX as int),
        0 <= sum_fills_upto(ms, n) <= n * (COUNTER_MAX as int),
        0 <= sum_rates_upto(ms, n) <= n * 1_000_000_000_000_000_000_000,
        0 <= count_rated_upto(ms, n) <= n,
        0 <= sum_uptime_upto(ms, n) <= n * 100_000_000_000,
        0 <= count_ticked_upto(ms, n) <= n,
    decreases n,
{
    if n > 0 {
        lemma_metric_sums(ms, n - 1);
        assert(ms[n - 1].wf());
        if ms[n - 1].total_orders > 0 {
            lemma_rate_bounds(ms[n - 1].total_fills as int, ms[n - 1].total_orders as int);
        }
        if ms[n - 1].total_ticks > 0 {
            lemma_uptime_bounds(ms[n - 1].uptime_ticks as int, ms[n - 1].total_ticks as int);
        }
    }
}

impl PortfolioMetrics {
    /// Well-formed, mutually distinct market entries, few enough to sum.
    pub open spec fn wf(&self) -> bool {
        &&& metrics_wf(self.markets@)
        &&& self.markets@.len() <= 100_000
        &&& forall|i: int, j: int|
            0 <= i < j < self.markets@.len() ==> (#[trigger] self.markets@[i]).condition_id@ != (
            #[trigger] self.markets@[j]).condition_id@
    }

    /// An empty portfolio, with the session started now.
    pub fn new(now_ms: u64) -> (r: Self)
        ensures
            r.markets@.len() == 0,
            r.daily_rewards@.len() == 0,
            r.session_start_ms == now_ms,
            r.wf(),
    {
        PortfolioMetrics { markets: Vec::new(), daily_rewards: Vec::new(), session_start_ms: now_ms }
    }

    /// Store a market's metrics: replace the entry for the same market, or
    /// add one.
    pub fn insert_market(&mut self, m: MarketMetrics)
        requires
            old(self).wf(),
            m.wf(),
            old(self).markets@.len() < 100_000,
        ensures
            final(self).wf(),
            match find_metric(old(self).markets@, m.condition_id@, old(self).markets@.len() as int) {
                Some(k) => final(self).markets@ == old(self).markets@.update(k, m),
                None => final(self).markets@ == old(self).markets@.push(m),
            },
            final(self).daily_rewards == old(self).daily_rewards,
            final(self).session_start_ms == old(self).session_start_ms,
    {
        let n = self.markets.len();
        let mut i: usize = 0;
        while i < n
            invariant
                old(self).wf(),
                *self == *old(self),
                m.wf(),
                n == self.markets@.len(),
                0 <= i <= n,
                find_metric(self.markets@, m.condition_id@, i as int) is None,
            decreases n - i,
        {
            if self.markets[i].condition_id.eq(&m.condition_id) {
                proof {
                    lemma_find_metric_stable(self.markets@, m.condition_id@, i as int, n as int);
                }
                let ghost pre = self.markets@;
                let ghost gm = m;
                proof {
                    assert(gm.wf());
                    assert(pre[i as int].condition_id@ == gm.condition_id@);
                }
                self.markets.set(i, m);
                proof {
                    assert forall|a: int, b: int|
                        0 <= a < b < self.markets@.len() implies (
                    #[trigger] self.markets@[a]).condition_id@ != (
                    #[trigger] self.markets@[b]).condition_id@ by {
                        assert(pre[a].condition_id@ != pre[b].condition_id@);
                        if b == i as int {
                            assert(self.markets@[a] == pre[a]);
                            assert(self.markets@[b] == gm);
                        } else if a == i as int {
                            assert(self.markets@[b] == pre[b]);
                            assert(self.markets@[a] == gm);
                        } else {
                            assert(self.markets@[a] == pre[a]);
                            assert(self.markets@[b] == pre[b]);
                        }
                    }
                    assert forall|k: int| 0 <= k < self.markets@.len() implies (
                    #[trigger] self.markets@[k]).wf() by {
                        if k != i as int {
                            assert(self.markets@[k] == pre[k]);
                            assert(pre[k].wf());
                        } else {
                            assert(self.markets@[k] == gm);
                            assert(gm.wf());
                        }
                    }
                }
                return ;
            }
            i = i + 1;
        }
        proof {
            lemma_find_metric_none(self.markets@, m.condition_id@, n as int);
        }
        let ghost pre = self.markets@;
        self.markets.push(m);
        proof {
            assert forall|a: int, b: int|
                0 <= a < b < self.markets@.len() implies (
            #[trigger] self.markets@[a]).condition_id@ != (
            #[trigger] self.markets@[b]).condition_id@ by {
                if b == pre.len() {
                    assert(self.markets@[a] == pre[a]);
                }
            }
        }
    }

    /// The index of a market's metrics, when present.
    pub fn find_market(&self, condition_id: &String) -> (r: Option<usize>)
        ensures
            match r {
                Some(j) => j < self.markets@.len() && find_metric(
                    self.markets@,
                    condition_id@,
                    self.markets@.len() as int,
                ) == Some(j as int),
                None => find_metric(
                    self.markets@,
                    condition_id@,
                    self.markets@.len() as int,
                ) is None,
            },
    {
        let n = self.markets.len();
        let mut i: usize = 0;
        while i < n
            invariant
                n == self.markets@.len(),
                0 <= i <= n,
                find_metric(self.markets@, condition_id@, i as int) is None,
            decreases n - i,
        {
            if self.markets[i].condition_id.eq(condition_id) {
                proof {
                    lemma_find_metric_stable(self.markets@, condition_id@, i as int, n as int);
                }
                return Some(i);
            }
            i = i + 1;
        }
        None
    }

    /// Total PnL across all markets.
    pub fn total_pnl(&self) -> (r: Dec)
        requires
            self.wf(),
        ensures
            r@ == sum_market_pnl_upto(self.markets@, self.markets@.len() as int),
    {
        let mut total = Dec::zero();
        let mut i: usize = 0;
        let n = self.markets.len();
        while i < n
            invariant
                self.wf(),
                n == self.markets@.len(),
                0 <= i <= n,
                total@ == sum_market_pnl_upto(self.markets@, i as int),
            decreases n - i,
        {
            proof {
                lemma_metric_sums(self.markets@, i as int);
                assert(self.markets@[i as int].wf());
            }
            let pnl = self.markets[i].total_pnl();
            total = total.add(pnl);
            i = i + 1;
        }
        total
    }

    /// Total spread PnL across all markets.
    pub fn total_spread_pnl(&self) -> (r: Dec)
        requires
            self.wf(),
        ensures
            r@ == sum_spread_upto(self.markets@, self.markets@.len() as int),
    {
        let mut total = Dec::zero();
        let mut i: usize = 0;
        let n = self.markets.len();
        while i < n
            invariant
                self.wf(),
                n == self.markets@.len(),
                0 <= i <= n,
                total@ == sum_spread_upto(self.markets@, i as int),
            decreases n - i,
        {
            proof {
                lemma_metric_sums(self.markets@, i as int);
                assert(self.markets@[i as int].wf());
            }
            total = total.add(self.markets[i].spread_pnl);
            i = i + 1;
        }
        total
    }

    /// Total reward PnL across all markets.
    pub fn total_reward_pnl(&self) -> (r: Dec)
        requires
            self.wf(),
        ensures
            r@ == sum_reward_upto(self.markets@, self.markets@.len() as int),
    {
        let mut total = Dec::zero();
        let mut i: usize = 0;
        let n = self.markets.len();
        while i < n
            invariant
                self.wf(),
                n == self.markets@.len(),
                0 <= i <= n,
                total@ == sum_reward_upto(self.markets@, i as int),
            decreases n - i,
        {
            proof {
                lemma_metric_sums(self.markets@, i as int);
                assert(self.markets@[i as int].wf());
            }
            total = total.add(self.markets[i].reward_pnl);
            i = i + 1;
        }
        total
    }

    /// Total fills across all markets.
    pub fn total_fills(&self) -> (r: u64)
        requires
            self.wf(),
        ensures
            r as int == sum_fills_upto(self.markets@, self.markets@.len() as int),
    {
        let mut total: u64 = 0;
        let mut i: usize = 0;
        let n = self.markets.len();
        while i < n
            invariant
                self.wf(),
                n == self.markets@.len() <= 100_000,
                0 <= i <= n,
                total as int == sum_fills_upto(self.markets@, i as int),
            decreases n - i,
        {
            proof {
                lemma_metric_sums(self.markets@, i as int);
                lemma_metric_sums(self.markets@, i as int + 1);
                assert(self.markets@[i as int].wf());
            }
            total = total + self.markets[i].total_fills;
            i = i + 1;
        }
        total
    }

    /// Mean fill rate over the markets that submitted orders.
    pub fn avg_fill_rate(&self) -> (r: Dec)
        requires
            self.wf(),
        ensures
            r@ == ({
                let n = self.markets@.len() as int;
                let c = count_rated_upto(self.markets@, n);
                if c == 0 {
                    0int
                } else {
                    dec_div(sum_rates_upto(self.markets@, n), c * (DEC_SCALE as int))
                }
            }),
    {
        let mut sum = Dec::zero();
        let mut rated: usize = 0;
        let mut i: usize = 0;
        let n = self.markets.len();
        while i < n
            invariant
                self.wf(),
                n == self.markets@.len() <= 100_000,
                0 <= i <= n,
                rated <= i,
                rated as int == count_rated_upto(self.markets@, i as int),
                sum@ == sum_rates_upto(self.markets@, i as int),
            decreases n - i,
        {
            proof {
                lemma_metric_sums(self.markets@, i as int);
                lemma_metric_sums(self.markets@, i as int + 1);
                assert(self.markets@[i as int].wf());
            }
            if self.markets[i].total_orders > 0 {
                let rate = self.markets[i].fill_rate();
                sum = sum.add(rate);
                rated = rated + 1;
            }
            i = i + 1;
        }
        if rated == 0 {
            return Dec::zero();
        }
        proof {
            lemma_metric_sums(self.markets@, n as int);
        }
        sum.div(Dec::new(rated as i64, 0))
    }

    /// Mean uptime percentage over the markets that ticked.
    pub fn avg_uptime(&self) -> (r: Dec)
        requires
            self.wf(),
        ensures
            r@ == ({
                let n = self.markets@.len() as int;
                let c = count_ticked_upto(self.markets@, n);
                if c == 0 {
                    0int
                } else {
                    dec_div(sum_uptime_upto(self.markets@, n), c * (DEC_SCALE as int))
                }
            }),
    {
        let mut sum = Dec::zero();
        let mut ticked: usize = 0;
        let mut i: usize = 0;
        let n = self.markets.len();
        while i < n
            invariant
                self.wf(),
                n == self.markets@.len() <= 100_000,
                0 <= i <= n,
                ticked <= i,
                ticked as int == count_ticked_upto(self.markets@, i as int),
                sum@ == sum_uptime_upto(self.markets@, i as int),
            decreases n - i,
        {
            proof {
                lemma_metric_sums(self.markets@, i as int);
                lemma_metric_sums(self.markets@, i as int + 1);
                assert(self.markets@[i as int].wf());
            }
            if self.markets[i].total_ticks > 0 {
                let pct = self.markets[i].uptime_pct();
                sum = sum.add(pct);
                ticked = ticked + 1;
            }
            i = i + 1;
        }
        if ticked == 0 {
            return Dec::zero();
        }
        proof {
            lemma_metric_sums(self.markets@, n as int);
        }
        sum.div(Dec::new(ticked as i64, 0))
    }
}

/// A search that came up empty saw no matching entry.
proof fn lemma_find_metric_none(ms: Seq<MarketMetrics>, id: Seq<char>, n: int)
    requires
        0 <= n <= ms.len(),
        find_metric(ms, id, n) is None,
    ensures
        forall|k: int| 0 <= k < n ==> (#[trigger] ms[k]).condition_id@ != id,
    decreases n,
{
    if n > 0 {
        lemma_find_metric_none(ms, id, n - 1);
    }
}

/// Once a metric entry is found at `i`, every longer prefix finds the same.
proof fn lemma_find_metric_stable(ms: Seq<MarketMetrics>, id: Seq<char>, i: int, n: int)
    requires
        0 <= i < n <= ms.len(),
        find_metric(ms, id, i) is None,
        ms[i].condition_id@ == id,
    ensures
        find_metric(ms, id, n) == Some(i),
    decreases n,
{
    if n > i + 1 {
        lemma_find_metric_stable(ms, id, i, n - 1);
    }
}

} // verus!
