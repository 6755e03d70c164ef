//! The portfolio controller: a rate limiter over the exchange's submission
//! windows, and the manager that seeds one quoting engine per ranked market,
//! allocates capital, drops stale markets, and aggregates portfolio
//! statistics. The controller's tick loop itself — calling the exchange per
//! engine — is transport and lives outside the library.

use vstd::prelude::*;

use crate::config::Config;
use crate::engine::{stale_upto, QuoteEngine};
use crate::fixed::{
    align_spec, dec_div, dec_mul, dec_of, lemma_dec_div_unit, lemma_dec_mul_unit, lemma_mul_le,
    lemma_rhe_close, Dec, AMOUNT_MAX, DEC_SCALE,
};
use crate::orders::{contains_id, id_list_contains};
use crate::risk::{allocate_capital, alloc_value, pnl_spec, values_wf, MarketInventory};
use crate::scanner::MarketInfo;

verus! {

/// Burst window: at most `BURST_LIMIT` submissions per ten seconds.
pub const BURST_WINDOW_MS: u64 = 10_000;

/// Sustained window: at most `SUSTAINED_LIMIT` submissions per ten minutes.
pub const SUSTAINED_WINDOW_MS: u64 = 600_000;

/// A submission timestamp still inside a window ending now.
pub open spec fn fresh(t: u64, now_ms: u64, window_ms: u64) -> bool {
    (now_ms as int) < t as int + window_ms as int
}

/// The timestamps among the first `n` still inside the sustained window.
pub open spec fn retained_upto(ts: Seq<u64>, now_ms: u64, n: int) -> Seq<u64>
    decreases n,
{
    if n <= 0 {
        Seq::empty()
    } else {
        let prev = retained_upto(ts, now_ms, n - 1);
        if fresh(ts[n - 1], now_ms, SUSTAINED_WINDOW_MS) {
            prev.push(ts[n - 1])
        } else {
            prev
        }
    }
}

/// How many of the first `n` timestamps fall inside the burst window.
pub open spec fn burst_count_upto(ts: Seq<u64>, now_ms: u64, n: int) -> int
    decreases n,
{
    if n <= 0 {
        0
    } else {
        burst_count_upto(ts, now_ms, n - 1) + if fresh(ts[n - 1], now_ms, BURST_WINDOW_MS) {
            1int
        } else {
            0int
        }
    }
}

/// Whether `count` more submissions fit both windows right now, after expired
/// timestamps have been dropped.
pub open spec fn can_place_spec(
    ts: Seq<u64>,
    now_ms: u64,
    count: int,
    burst_limit: int,
    sustained_limit: int,
) -> bool {
    let retained = retained_upto(ts, now_ms, ts.len() as int);
    let burst = burst_count_upto(retained, now_ms, retained.len() as int);
    &&& burst + count <= burst_limit
    &&& retained.len() + count <= sustained_limit
}

/// Rate limiter over the exchange's submission windows: timestamps of recent
/// order submissions, checked against a burst and a sustained cap.
#[derive(Debug)]
pub struct RateLimiter {
    /// Timestamps (milliseconds) of recent order submissions.
    pub order_timestamps: Vec<u64>,
    /// Max orders per 10 s burst.
    pub burst_limit: usize,
    /// Max orders per 10 min sustained.
    pub sustained_limit: usize,
}

impl RateLimiter {
    /// A fresh limiter with the exchange's published limits: 3500 orders per
    /// burst window, 36000 per sustained window.
    pub fn new() -> (r: Self)
        ensures
            r.order_timestamps@.len() == 0,
            r.burst_limit == 3500,
            r.sustained_limit == 36000,
    {
        RateLimiter { order_timestamps: Vec::new(), burst_limit: 3500, sustained_limit: 36000 }
    }

    /// Check whether `count` orders can be placed now. Expired timestamps are
    /// dropped; the answer is exact for both windows.
    pub fn can_place(&mut self, now_ms: u64, count: usize) -> (r: bool)
        ensures
            r == can_place_spec(
                old(self).order_timestamps@,
                now_ms,
                count as int,
                old(self).burst_limit as int,
                old(self).sustained_limit as int,
            ),
            final(self).order_timestamps@ == retained_upto(
                old(self).order_timestamps@,
                now_ms,
                old(self).order_timestamps@.len() as int,
            ),
            final(self).burst_limit == old(self).burst_limit,
            final(self).sustained_limit == old(self).sustained_limit,
    {
        let ghost orig = self.order_timestamps@;
        let n = self.order_timestamps.len();
        let mut kept: Vec<u64> = Vec::new();
        let mut i: usize = 0;
        while i < n
            invariant
                n == orig.len(),
                self.order_timestamps@ == orig,
                0 <= i <= n,
                kept@ == retained_upto(orig, now_ms, i as int),
            decreases n - i,
        {
            let t = self.order_timestamps[i];
            if now_ms <= t || now_ms - t < SUSTAINED_WINDOW_MS {
                kept.push(t);
            }
            i = i + 1;
        }
        self.order_timestamps = kept;
        let m = self.order_timestamps.len();
        let mut burst: usize = 0;
        let mut j: usize = 0;
        while j < m
            invariant
                m == self.order_timestamps@.len(),
                0 <= j <= m,
                burst <= j,
                burst as int == burst_count_upto(self.order_timestamps@, now_ms, j as int),
            decreases m - j,
        {
            let t = self.order_timestamps[j];
            if now_ms <= t || now_ms - t < BURST_WINDOW_MS {
                burst = burst + 1;
            }
            j = j + 1;
        }
        if (burst as u128) + (count as u128) > (self.burst_limit as u128) {
            return false;
        }
        if (m as u128) + (count as u128) > (self.sustained_limit as u128) {
            return false;
        }
        true
    }

    /// Record that `count` orders were submitted now.
    pub fn record(&mut self, now_ms: u64, count: usize)
        requires
            old(self).order_timestamps@.len() + count <= usize::MAX,
        ensures
            final(self).order_timestamps@ == old(self).order_timestamps@ + Seq::new(
                count as nat,
                |i: int| now_ms,
            ),
            final(self).burst_limit == old(self).burst_limit,
            final(self).sustained_limit == old(self).sustained_limit,
    {
        let mut k: usize = 0;
        while k < count
            invariant
                0 <= k <= count,
                old(self).order_timestamps@.len() + count <= usize::MAX,
                self.order_timestamps@ == old(self).order_timestamps@ + Seq::new(
                    k as nat,
                    |i: int| now_ms,
                ),
                self.burst_limit == old(self).burst_limit,
                self.sustained_limit == old(self).sustained_limit,
            decreases count - k,
        {
            self.order_timestamps.push(now_ms);
            k = k + 1;
            proof {
                assert(self.order_timestamps@ =~= old(self).order_timestamps@ + Seq::new(
                    k as nat,
                    |i: int| now_ms,
                ));
            }
        }
    }
}

/// Once `k` submissions sit inside the burst window, no batch larger than
/// `burst_limit - k` is admitted.
pub proof fn lemma_rate_limiter_burst(
    ts: Seq<u64>,
    now_ms: u64,
    k: int,
    count: int,
    burst_limit: int,
    sustained_limit: int,
)
    requires
        burst_count_upto(
            retained_upto(ts, now_ms, ts.len() as int),
            now_ms,
            retained_upto(ts, now_ms, ts.len() as int).len() as int,
        ) >= k,
        count > burst_limit - k,
    ensures
        !can_place_spec(ts, now_ms, count, burst_limit, sustained_limit),
{
}

/// Summary of the whole portfolio.
#[derive(Clone, Copy, Debug)]
pub struct PortfolioStats {
    pub total_markets: usize,
    pub active_markets: usize,
    pub total_capital_deployed: Dec,
    pub total_yes_tokens: Dec,
    pub total_no_tokens: Dec,
    pub total_unrealized_pnl: Dec,
}

/// The inventory of an engine, as the risk layer reads it.
pub open spec fn inventory_of(e: QuoteEngine) -> MarketInventory {
    MarketInventory {
        yes_tokens: e.inventory_yes,
        no_tokens: e.inventory_no,
        total_bought_value: e.total_bought_value,
        total_sold_value: e.total_sold_value,
    }
}

/// Sum of YES tokens over the first `n` engines.
pub open spec fn sum_yes_upto(es: Seq<QuoteEngine>, n: int) -> int
    decreases n,
{
    if n <= 0 {
        0
    } else {
        sum_yes_upto(es, n - 1) + es[n - 1].inventory_yes@
    }
}

/// Sum of NO tokens over the first `n` engines.
pub open spec fn sum_no_upto(es: Seq<QuoteEngine>, n: int) -> int
    decreases n,
{
    if n <= 0 {
        0
    } else {
        sum_no_upto(es, n - 1) + es[n - 1].inventory_no@
    }
}

/// Sum of deployed capital (bought minus sold) over the first `n` engines.
pub open spec fn sum_capital_upto(es: Seq<QuoteEngine>, n: int) -> int
    decreases n,
{
    if n <= 0 {
        0
    } else {
        sum_capital_upto(es, n - 1) + es[n - 1].total_bought_value@ - es[n - 1].total_sold_value@
    }
}

/// Sum of unrealized PnL over the first `n` engines, each marked at its last
/// midpoint; engines that never saw one are marked at one half.
pub open spec fn sum_pnl_upto(es: Seq<QuoteEngine>, n: int) -> int
    decreases n,
{
    if n <= 0 {
        0
    } else {
        sum_pnl_upto(es, n - 1) + pnl_spec(
            inventory_of(es[n - 1]),
            match es[n - 1].last_midpoint {
                Some(m) => m@,
                None => 500_000_000,
            },
        )
    }
}

/// How many of the first `n` engines have any tracked orders.
pub open spec fn active_count_upto(es: Seq<QuoteEngine>, n: int) -> int
    decreases n,
{
    if n <= 0 {
        0
    } else {
        active_count_upto(es, n - 1) + if es[n - 1].tracked_orders@.len() > 0 {
            1int
        } else {
            0int
        }
    }
}

/// Every engine in the list is well-formed.
pub open spec fn engines_wf(es: Seq<QuoteEngine>) -> bool {
    forall|i: int| 0 <= i < es.len() ==> (#[trigger] es[i]).wf()
}

/// No two engines quote the same market.
pub open spec fn engines_unique(es: Seq<QuoteEngine>) -> bool {
    forall|i: int, j: int|
        0 <= i < j < es.len() ==> (#[trigger] es[i]).market.condition_id@ != (
        #[trigger] es[j]).market.condition_id@
}

/// Manages the quoting engines of many markets, with shared rate limiting
/// and capital allocation.
#[derive(Debug)]
pub struct MarketManager {
    pub engines: Vec<QuoteEngine>,
    pub config: Config,
    pub rate_limiter: RateLimiter,
    pub last_rescan_ms: u64,
    pub rescan_interval_ms: u64,
    pub capital_allocations: Vec<(String, Dec)>,
}

impl MarketManager {
    /// Well-formed, mutually distinct engines under a well-formed
    /// configuration, few enough to sum safely.
    pub open spec fn wf(&self) -> bool {
        &&& self.config.wf()
        &&& engines_wf(self.engines@)
        &&& engines_unique(self.engines@)
        &&& self.engines@.len() <= 10_000
    }

    /// A fresh manager with no markets, the exchange's rate limits, and an
    /// hourly rescan cadence.
    pub fn new(config: Config, now_ms: u64) -> (r: Self)
        ensures
            r.engines@.len() == 0,
            r.config == config,
            r.rate_limiter.order_timestamps@.len() == 0,
            r.rate_limiter.burst_limit == 3500,
            r.rate_limiter.sustained_limit == 36000,
            r.last_rescan_ms == now_ms,
            r.rescan_interval_ms == 3_600_000,
            r.capital_allocations@.len() == 0,
            config.wf() ==> r.wf(),
    {
        MarketManager {
            engines: Vec::new(),
            config,
            rate_limiter: RateLimiter::new(),
            last_rescan_ms: now_ms,
            rescan_interval_ms: 3_600_000,
            capital_allocations: Vec::new(),
        }
    }

    /// Whether the periodic rescan is due.
    pub fn needs_rescan(&self, now_ms: u64) -> (r: bool)
        ensures
            r == ((now_ms as int) > self.last_rescan_ms as int + self.rescan_interval_ms as int),
    {
        (now_ms as u128) > (self.last_rescan_ms as u128) + (self.rescan_interval_ms as u128)
    }

    /// Note that a rescan finished now.
    pub fn mark_rescanned(&mut self, now_ms: u64)
        ensures
            final(self).last_rescan_ms == now_ms,
            final(self).engines == old(self).engines,
            final(self).config == old(self).config,
            final(self).rate_limiter == old(self).rate_limiter,
            final(self).rescan_interval_ms == old(self).rescan_interval_ms,
            final(self).capital_allocations == old(self).capital_allocations,
    {
        self.last_rescan_ms = now_ms;
    }

    /// Whether some engine already quotes this market.
    pub fn contains_engine(&self, condition_id: &String) -> (r: bool)
        ensures
            r == engine_ids_contain(self.engines@, condition_id@),
    {
        let mut i: usize = 0;
        let n = self.engines.len();
        while i < n
            invariant
                n == self.engines@.len(),
                0 <= i <= n,
                forall|k: int|
                    0 <= k < i ==> (#[trigger] self.engines@[k]).market.condition_id@
                        != condition_id@,
            decreases n - i,
        {
            if self.engines[i].market.condition_id.eq(condition_id) {
                return true;
            }
            i = i + 1;
        }
        false
    }

    /// The allocation granted to a market, zero when none was computed.
    pub fn lookup_allocation(&self, condition_id: &String) -> (r: Dec)
        ensures
            r@ == alloc_of(self.capital_allocations@, condition_id@),
    {
        let mut i: usize = 0;
        let n = self.capital_allocations.len();
        while i < n
            invariant
                n == self.capital_allocations@.len(),
                0 <= i <= n,
                forall|k: int|
                    0 <= k < i ==> (#[trigger] self.capital_allocations@[k]).0@ != condition_id@,
            decreases n - i,
        {
            if self.capital_allocations[i].0.eq(condition_id) {
                proof {
                    lemma_alloc_of_found(self.capital_allocations@, condition_id@, i as int);
                }
                return self.capital_allocations[i].1;
            }
            i = i + 1;
        }
        proof {
            lemma_alloc_of_missing(self.capital_allocations@, condition_id@);
        }
        Dec::zero()
    }
}

/// Whether some engine quotes the market with this condition id.
pub open spec fn engine_ids_contain(es: Seq<QuoteEngine>, id: Seq<char>) -> bool {
    exists|i: int| 0 <= i < es.len() && (#[trigger] es[i]).market.condition_id@ == id
}

/// The first allocation recorded for this market, zero when none is.
pub open spec fn alloc_of(allocs: Seq<(String, Dec)>, id: Seq<char>) -> int
    decreases allocs.len(),
{
    if allocs.len() == 0 {
        0
    } else if allocs[0].0@ == id {
        allocs[0].1@
    } else {
        alloc_of(allocs.drop_first(), id)
    }
}

/// A scan that stops at `i` with a match reads that entry's value.
proof fn lemma_alloc_of_found(allocs: Seq<(String, Dec)>, id: Seq<char>, i: int)
    requires
        0 <= i < allocs.len(),
        allocs[i].0@ == id,
        forall|k: int| 0 <= k < i ==> (#[trigger] allocs[k]).0@ != id,
    ensures
        alloc_of(allocs, id) == allocs[i].1@,
    decreases i,
{
    if i > 0 {
        lemma_alloc_of_found(allocs.drop_first(), id, i - 1);
    }
}

/// A scan that finds no match reads zero.
proof fn lemma_alloc_of_missing(allocs: Seq<(String, Dec)>, id: Seq<char>)
    requires
        forall|k: int| 0 <= k < allocs.len() ==> (#[trigger] allocs[k]).0@ != id,
    ensures
        alloc_of(allocs, id) == 0,
    decreases allocs.len(),
{
    if allocs.len() > 0 {
        lemma_alloc_of_missing(allocs.drop_first(), id);
    }
}

/// The market scores handed to the capital allocator.
pub open spec fn scores_of(markets: Seq<MarketInfo>) -> Seq<(String, Dec)> {
    Seq::new(markets.len(), |i: int| (markets[i].condition_id, markets[i].score))
}

/// A strategy whose order size is scaled by the market's share of the
/// per-market cap, rounded to whole tokens, and at least one token.
pub open spec fn scaled_strategy(
    st: crate::config::StrategyConfig,
    allocation: int,
    max_per_market: int,
) -> crate::config::StrategyConfig {
    if allocation > 0 && max_per_market > 0 {
        let scale: int = dec_div(allocation, max_per_market);
        let sized: int = align_spec(dec_mul(st.order_size@, scale), DEC_SCALE as int);
        let clamped: int = vstd::math::max(sized, DEC_SCALE as int);
        crate::config::StrategyConfig {
            base_offset_cents: st.base_offset_cents,
            min_offset_cents: st.min_offset_cents,
            requote_interval_secs: st.requote_interval_secs,
            requote_threshold_cents: st.requote_threshold_cents,
            order_size: dec_of(clamped),
            num_levels: st.num_levels,
            inventory_cap: st.inventory_cap,
        }
    } else {
        st
    }
}

/// A freshly created engine for a market under a scaled strategy.
pub open spec fn fresh_engine_for(
    e: QuoteEngine,
    market: MarketInfo,
    allocs: Seq<(String, Dec)>,
    base_strategy: crate::config::StrategyConfig,
    max_per_market: int,
) -> bool {
    &&& e.market == market
    &&& e.config == scaled_strategy(base_strategy, alloc_of(allocs, market.condition_id@), max_per_market)
    &&& e.dry_run == false
    &&& e.last_midpoint is None
    &&& e.last_requote_ms is None
    &&& e.current_quotes@.len() == 0
    &&& e.tracked_orders@.len() == 0
    &&& e.inventory_yes@ == 0
    &&& e.inventory_no@ == 0
    &&& e.total_bought_value@ == 0
    &&& e.total_sold_value@ == 0
    &&& e.ws_connected == false
}

/// Every market in the list is well-formed, with a score the allocator can
/// take.
pub open spec fn markets_wf(markets: Seq<MarketInfo>) -> bool {
    forall|i: int|
        0 <= i < markets.len() ==> (#[trigger] markets[i]).wf() && markets[i].score@
            <= AMOUNT_MAX as int
}

impl MarketManager {
    /// Seed engines for freshly ranked markets: allocate capital across them
    /// in proportion to their scores, scale each new engine's order size by
    /// its share of the per-market cap, and skip markets already managed.
    pub fn initialize_markets(&mut self, markets: &Vec<MarketInfo>)
        requires
            old(self).wf(),
            markets_wf(markets@),
            markets@.len() <= 1_000,
            old(self).engines@.len() + markets@.len() <= 10_000,
        ensures
            final(self).wf(),
            final(self).capital_allocations@.len() == markets@.len(),
            forall|i: int|
                0 <= i < markets@.len() ==> (#[trigger] final(self).capital_allocations@[i]).0
                    == markets@[i].condition_id && final(self).capital_allocations@[i].1@
                    == alloc_value(
                    scores_of(markets@),
                    i,
                    old(self).config.risk.max_total_capital@,
                    old(self).config.risk.max_per_market@,
                ),
            final(self).engines@.len() >= old(self).engines@.len(),
            forall|i: int|
                0 <= i < old(self).engines@.len() ==> final(self).engines@[i] == old(
                    self,
                ).engines@[i],
            forall|k: int|
                old(self).engines@.len() <= k < final(self).engines@.len()
                    ==> exists|m: int|
                    0 <= m < markets@.len() && fresh_engine_for(
                        #[trigger] final(self).engines@[k],
                        markets@[m],
                        final(self).capital_allocations@,
                        old(self).config.strategy,
                        old(self).config.risk.max_per_market@,
                    ),
            forall|m: int|
                0 <= m < markets@.len() ==> engine_ids_contain(
                    final(self).engines@,
                    (#[trigger] markets@[m]).condition_id@,
                ),
            final(self).config == old(self).config,
            final(self).rate_limiter == old(self).rate_limiter,
            final(self).last_rescan_ms == old(self).last_rescan_ms,
            final(self).rescan_interval_ms == old(self).rescan_interval_ms,
    {
        let ghost gmarkets = markets@;
        let n = markets.len();
        // Scores for the allocator.
        let mut scores: Vec<(String, Dec)> = Vec::new();
        let mut i: usize = 0;
        while i < n
            invariant
                markets_wf(gmarkets),
                gmarkets == markets@,
                n == gmarkets.len(),
                0 <= i <= n,
                scores@.len() == i,
                forall|k: int| 0 <= k < i ==> scores@[k] == scores_of(gmarkets)[k],
            decreases n - i,
        {
            scores.push((markets[i].condition_id.clone(), markets[i].score));
            i = i + 1;
        }
        proof {
            assert(scores@ =~= scores_of(gmarkets));
            assert(values_wf(scores@)) by {
                assert forall|k: int| 0 <= k < scores@.len() implies 0 <= (
                #[trigger] scores@[k]).1@ <= AMOUNT_MAX as int by {
                    assert(gmarkets[k].wf() && gmarkets[k].score@ <= AMOUNT_MAX as int);
                }
            }
        }
        let allocations = allocate_capital(
            &scores,
            self.config.risk.max_total_capital,
            self.config.risk.max_per_market,
        );
        self.capital_allocations = allocations;
        // Engines for markets not yet managed.
        let mut j: usize = 0;
        while j < n
            invariant
                old(self).wf(),
                markets_wf(gmarkets),
                gmarkets == markets@,
                n == gmarkets.len(),
                0 <= j <= n,
                self.config == old(self).config,
                self.rate_limiter == old(self).rate_limiter,
                self.last_rescan_ms == old(self).last_rescan_ms,
                self.rescan_interval_ms == old(self).rescan_interval_ms,
                self.capital_allocations@.len() == n,
                forall|i2: int|
                    0 <= i2 < n ==> (#[trigger] self.capital_allocations@[i2]).0
                        == gmarkets[i2].condition_id && self.capital_allocations@[i2].1@
                        == alloc_value(
                        scores_of(gmarkets),
                        i2,
                        old(self).config.risk.max_total_capital@,
                        old(self).config.risk.max_per_market@,
                    ),
                forall|i2: int|
                    0 <= i2 < n ==> 0 <= (#[trigger] self.capital_allocations@[i2]).1@
                        <= old(self).config.risk.max_per_market@,
                engines_wf(self.engines@),
                engines_unique(self.engines@),
                old(self).engines@.len() <= self.engines@.len() <= old(self).engines@.len() + j,
                old(self).engines@.len() + n <= 10_000,
                forall|i2: int|
                    0 <= i2 < old(self).engines@.len() ==> #[trigger] self.engines@[i2] == old(
                        self,
                    ).engines@[i2],
                forall|k: int|
                    old(self).engines@.len() <= k < self.engines@.len()
                        ==> exists|m: int|
                        0 <= m < n && fresh_engine_for(
                            #[trigger] self.engines@[k],
                            gmarkets[m],
                            self.capital_allocations@,
                            old(self).config.strategy,
                            old(self).config.risk.max_per_market@,
                        ),
                forall|m2: int|
                    0 <= m2 < j ==> engine_ids_contain(
                        self.engines@,
                        (#[trigger] gmarkets[m2]).condition_id@,
                    ),
            decreases n - j,
        {
            if !self.contains_engine(&markets[j].condition_id) {
                let allocation = self.lookup_allocation(&markets[j].condition_id);
                proof {
                    lemma_alloc_entry_range(
                        self.capital_allocations@,
                        gmarkets[j as int].condition_id@,
                        old(self).config.risk.max_per_market@,
                    );
                }
                let strategy = self.scaled_strategy_for(allocation);
                let market = markets[j].clone();
                let engine = QuoteEngine::new(market, strategy, false);
                let ghost pre = self.engines@;
                proof {
                    assert(gmarkets[j as int].wf());
                    assert(fresh_engine_for(
                        engine,
                        gmarkets[j as int],
                        self.capital_allocations@,
                        old(self).config.strategy,
                        old(self).config.risk.max_per_market@,
                    ));
                }
                self.engines.push(engine);
                proof {
                    assert forall|i2: int, j2: int|
                        0 <= i2 < j2 < self.engines@.len() implies (
                    #[trigger] self.engines@[i2]).market.condition_id@ != (
                    #[trigger] self.engines@[j2]).market.condition_id@ by {
                        if j2 == pre.len() {
                            assert(self.engines@[i2] == pre[i2]);
                            assert(!engine_ids_contain(pre, engine.market.condition_id@));
                        }
                    }
                    assert forall|m2: int|
                        0 <= m2 < j + 1 implies engine_ids_contain(
                            self.engines@,
                            (#[trigger] gmarkets[m2]).condition_id@,
                        ) by {
                        if m2 < j {
                            let i0 = choose|i0: int|
                                0 <= i0 < pre.len() && (#[trigger] pre[i0]).market.condition_id@
                                    == gmarkets[m2].condition_id@;
                            assert(self.engines@[i0] == pre[i0]);
                        } else {
                            assert(self.engines@[pre.len() as int] == engine);
                        }
                    }
                    assert forall|k: int|
                        old(self).engines@.len() <= k < self.engines@.len()
                            implies exists|m: int|
                            0 <= m < n && fresh_engine_for(
                                #[trigger] self.engines@[k],
                                gmarkets[m],
                                self.capital_allocations@,
                                old(self).config.strategy,
                                old(self).config.risk.max_per_market@,
                            ) by {
                        if k == pre.len() {
                            assert(self.engines@[k] == engine);
                            assert(fresh_engine_for(
                                engine,
                                gmarkets[j as int],
                                self.capital_allocations@,
                                old(self).config.strategy,
                                old(self).config.risk.max_per_market@,
                            ));
                        } else {
                            assert(self.engines@[k] == pre[k]);
                        }
                    }
                }
            }
            j = j + 1;
        }
    }

    /// The base strategy with its order size scaled by `allocation` over the
    /// per-market cap.
    fn scaled_strategy_for(&self, allocation: Dec) -> (r: crate::config::StrategyConfig)
        requires
            self.config.wf(),
            0 <= allocation@ <= self.config.risk.max_per_market@,
        ensures
            r == scaled_strategy(
                self.config.strategy,
                allocation@,
                self.config.risk.max_per_market@,
            ),
            r.wf(),
    {
        let base_capital = self.config.risk.max_per_market;
        if allocation.gt(&Dec::zero()) && base_capital.gt(&Dec::zero()) {
            proof {
                lemma_dec_div_unit(allocation@, base_capital@);
                lemma_mul_le(
                    self.config.strategy.order_size@,
                    dec_div(allocation@, base_capital@),
                    AMOUNT_MAX as int,
                    DEC_SCALE as int,
                );
                lemma_dec_mul_unit(
                    self.config.strategy.order_size@,
                    dec_div(allocation@, base_capital@),
                );
                lemma_rhe_close(
                    dec_mul(self.config.strategy.order_size@, dec_div(allocation@, base_capital@)),
                    DEC_SCALE as int,
                );
            }
            let scale = allocation.div(base_capital);
            let sized = self.config.strategy.order_size.mul(scale).round();
            let order_size = sized.max(Dec::one());
            crate::config::StrategyConfig {
                base_offset_cents: self.config.strategy.base_offset_cents,
                min_offset_cents: self.config.strategy.min_offset_cents,
                requote_interval_secs: self.config.strategy.requote_interval_secs,
                requote_threshold_cents: self.config.strategy.requote_threshold_cents,
                order_size,
                num_levels: self.config.strategy.num_levels,
                inventory_cap: self.config.strategy.inventory_cap,
            }
        } else {
            self.config.strategy.clone()
        }
    }

    /// Drop every engine whose market no longer appears among the active
    /// condition ids. The dropped engines' orders still resting on the book
    /// are returned; the caller cancels them at the exchange as the engines
    /// go.
    pub fn remove_stale_markets(&mut self, active_ids: &Vec<String>) -> (to_cancel: Vec<String>)
        requires
            old(self).wf(),
        ensures
            final(self).wf(),
            final(self).engines@ == kept_engines_upto(
                old(self).engines@,
                active_ids@,
                old(self).engines@.len() as int,
            ),
            to_cancel@ == dropped_stale_upto(
                old(self).engines@,
                active_ids@,
                old(self).engines@.len() as int,
            ),
            final(self).config == old(self).config,
            final(self).rate_limiter == old(self).rate_limiter,
            final(self).last_rescan_ms == old(self).last_rescan_ms,
            final(self).rescan_interval_ms == old(self).rescan_interval_ms,
            final(self).capital_allocations == old(self).capital_allocations,
    {
        let ghost orig = self.engines@;
        let n = self.engines.len();
        let mut kept: Vec<QuoteEngine> = Vec::new();
        let mut to_cancel: Vec<String> = Vec::new();
        let mut i: usize = 0;
        while i < n
            invariant
                old(self).wf(),
                orig == old(self).engines@,
                self.engines@ == orig.subrange(i as int, n as int),
                n == orig.len(),
                0 <= i <= n,
                kept@ == kept_engines_upto(orig, active_ids@, i as int),
                to_cancel@ == dropped_stale_upto(orig, active_ids@, i as int),
                self.config == old(self).config,
                self.rate_limiter == old(self).rate_limiter,
                self.last_rescan_ms == old(self).last_rescan_ms,
                self.rescan_interval_ms == old(self).rescan_interval_ms,
                self.capital_allocations == old(self).capital_allocations,
            decreases n - i,
        {
            let e = self.engines.remove(0);
            proof {
                assert(e == orig[i as int]);
                assert(self.engines@ =~= orig.subrange(i as int + 1, n as int));
            }
            if id_list_contains(active_ids, &e.market.condition_id) {
                kept.push(e);
            } else {
                let mut stale = e.stale_order_ids();
                to_cancel.append(&mut stale);
            }
            i = i + 1;
        }
        proof {
            lemma_kept_engines_sub(orig, active_ids@, n as int);
        }
        self.engines = kept;
        to_cancel
    }
}

/// An allocation looked up by id stays within the range every entry
/// satisfies.
proof fn lemma_alloc_entry_range(allocs: Seq<(String, Dec)>, id: Seq<char>, bound: int)
    requires
        forall|k: int| 0 <= k < allocs.len() ==> 0 <= (#[trigger] allocs[k]).1@ <= bound,
        bound >= 0,
    ensures
        0 <= alloc_of(allocs, id) <= bound,
    decreases allocs.len(),
{
    if allocs.len() > 0 && allocs[0].0@ != id {
        lemma_alloc_entry_range(allocs.drop_first(), id, bound);
    }
}

/// The resting order ids of those of the first `n` engines whose market is
/// no longer active: the orders a caller must cancel when the engines go.
pub open spec fn dropped_stale_upto(es: Seq<QuoteEngine>, active: Seq<String>, n: int) -> Seq<
    String,
>
    decreases n,
{
    if n <= 0 {
        Seq::empty()
    } else {
        let prev = dropped_stale_upto(es, active, n - 1);
        if contains_id(active, es[n - 1].market.condition_id) {
            prev
        } else {
            prev + stale_upto(
                es[n - 1].tracked_orders@,
                es[n - 1].tracked_orders@.len() as int,
            )
        }
    }
}

/// The engines among the first `n` whose market is still active.
pub open spec fn kept_engines_upto(es: Seq<QuoteEngine>, active: Seq<String>, n: int) -> Seq<
    QuoteEngine,
>
    decreases n,
{
    if n <= 0 {
        Seq::empty()
    } else {
        let prev = kept_engines_upto(es, active, n - 1);
        if contains_id(active, es[n - 1].market.condition_id) {
            prev.push(es[n - 1])
        } else {
            prev
        }
    }
}

/// Keeping a sublist preserves well-formedness and uniqueness.
proof fn lemma_kept_engines_sub(es: Seq<QuoteEngine>, active: Seq<String>, n: int)
    requires
        engines_wf(es),
        engines_unique(es),
        0 <= n <= es.len(),
    ensures
        kept_engines_upto(es, active, n).len() <= n,
        engines_wf(kept_engines_upto(es, active, n)),
        engines_unique(kept_engines_upto(es, active, n)),
        forall|k: int|
            0 <= k < kept_engines_upto(es, active, n).len() ==> exists|i: int|
                0 <= i < n && #[trigger] kept_engines_upto(es, active, n)[k] == es[i],
    decreases n,
{
    if n > 0 {
        lemma_kept_engines_sub(es, active, n - 1);
    }
}

impl MarketManager {
    /// Forget every engine's tracked orders, after a bulk cancellation on
    /// the exchange.
    pub fn clear_all_orders(&mut self)
        requires
            old(self).wf(),
        ensures
            final(self).wf(),
            final(self).engines@.len() == old(self).engines@.len(),
            forall|i: int|
                0 <= i < old(self).engines@.len() ==> cleared_of(
                    #[trigger] final(self).engines@[i],
                    old(self).engines@[i],
                ),
            final(self).config == old(self).config,
            final(self).rate_limiter == old(self).rate_limiter,
            final(self).last_rescan_ms == old(self).last_rescan_ms,
            final(self).rescan_interval_ms == old(self).rescan_interval_ms,
            final(self).capital_allocations == old(self).capital_allocations,
    {
        let ghost orig = self.engines@;
        let n = self.engines.len();
        let mut done: Vec<QuoteEngine> = Vec::new();
        let mut i: usize = 0;
        while i < n
            invariant
                old(self).wf(),
                orig == old(self).engines@,
                self.engines@ == orig.subrange(i as int, n as int),
                n == orig.len(),
                0 <= i <= n,
                done@.len() == i,
                forall|k: int| 0 <= k < i ==> cleared_of(#[trigger] done@[k], orig[k]),
                self.config == old(self).config,
                self.rate_limiter == old(self).rate_limiter,
                self.last_rescan_ms == old(self).last_rescan_ms,
                self.rescan_interval_ms == old(self).rescan_interval_ms,
                self.capital_allocations == old(self).capital_allocations,
            decreases n - i,
        {
            let mut e = self.engines.remove(0);
            proof {
                assert(e == orig[i as int]);
                assert(self.engines@ =~= orig.subrange(i as int + 1, n as int));
                assert(orig[i as int].wf());
            }
            e.clear_orders();
            done.push(e);
            i = i + 1;
        }
        proof {
            assert forall|i2: int, j2: int| 0 <= i2 < j2 < done@.len() implies (
            #[trigger] done@[i2]).market.condition_id@ != (
            #[trigger] done@[j2]).market.condition_id@ by {
                assert(cleared_of(done@[i2], orig[i2]));
                assert(cleared_of(done@[j2], orig[j2]));
            }
            assert forall|i2: int| 0 <= i2 < done@.len() implies (#[trigger] done@[i2]).wf() by {
                assert(cleared_of(done@[i2], orig[i2]));
                assert(orig[i2].wf());
            }
        }
        self.engines = done;
    }

    /// Aggregate portfolio statistics: summed inventories, cost basis, and
    /// unrealized PnL at each engine's last midpoint (one half when no
    /// midpoint was seen yet), plus how many markets have live orders.
    pub fn portfolio_stats(&self) -> (r: PortfolioStats)
        requires
            self.wf(),
        ensures
            r.total_markets == self.engines@.len(),
            r.active_markets as int == active_count_upto(
                self.engines@,
                self.engines@.len() as int,
            ),
            r.total_yes_tokens@ == sum_yes_upto(self.engines@, self.engines@.len() as int),
            r.total_no_tokens@ == sum_no_upto(self.engines@, self.engines@.len() as int),
            r.total_capital_deployed@ == sum_capital_upto(
                self.engines@,
                self.engines@.len() as int,
            ),
            r.total_unrealized_pnl@ == sum_pnl_upto(self.engines@, self.engines@.len() as int),
    {
        let mut total_yes = Dec::zero();
        let mut total_no = Dec::zero();
        let mut total_capital = Dec::zero();
        let mut total_pnl = Dec::zero();
        let mut active: usize = 0;
        let mut i: usize = 0;
        let n = self.engines.len();
        while i < n
            invariant
                self.wf(),
                n == self.engines@.len() <= 10_000,
                0 <= i <= n,
                active <= i,
                active as int == active_count_upto(self.engines@, i as int),
                total_yes@ == sum_yes_upto(self.engines@, i as int),
                total_no@ == sum_no_upto(self.engines@, i as int),
                total_capital@ == sum_capital_upto(self.engines@, i as int),
                total_pnl@ == sum_pnl_upto(self.engines@, i as int),
            decreases n - i,
        {
            proof {
                lemma_stats_bounds(self.engines@, i as int);
                lemma_stats_bounds(self.engines@, i as int + 1);
                assert(self.engines@[i as int].wf());
            }
            let e = &self.engines[i];
            total_yes = total_yes.add(e.inventory_yes);
            total_no = total_no.add(e.inventory_no);
            total_capital = total_capital.add(e.total_bought_value.sub(e.total_sold_value));
            let mid = match e.last_midpoint {
                Some(m) => m,
                None => Dec::new(5, 1),
            };
            let inv = MarketInventory {
                yes_tokens: e.inventory_yes,
                no_tokens: e.inventory_no,
                total_bought_value: e.total_bought_value,
                total_sold_value: e.total_sold_value,
            };
            let pnl = inv.unrealized_pnl(mid);
            total_pnl = total_pnl.add(pnl);
            if self.engines[i].tracked_orders.len() > 0 {
                active = active + 1;
            }
            i = i + 1;
        }
        PortfolioStats {
            total_markets: n,
            active_markets: active,
            total_capital_deployed: total_capital,
            total_yes_tokens: total_yes,
            total_no_tokens: total_no,
            total_unrealized_pnl: total_pnl,
        }
    }

    /// The `(market, inventory, midpoint)` entries the kill switch judges,
    /// one per engine, marking unknown midpoints at one half.
    pub fn kill_switch_entries(&self) -> (r: Vec<(String, MarketInventory, Dec)>)
        requires
            self.wf(),
        ensures
            r@.len() == self.engines@.len(),
            crate::risk::entries_wf(r@),
            forall|i: int|
                0 <= i < r@.len() ==> {
                    let e = self.engines@[i];
                    &&& (#[trigger] r@[i]).0 == e.market.question
                    &&& r@[i].1 == inventory_of(e)
                    &&& r@[i].2@ == match e.last_midpoint {
                        Some(m) => m@,
                        None => 500_000_000int,
                    }
                },
    {
        let mut out: Vec<(String, MarketInventory, Dec)> = Vec::new();
        let mut i: usize = 0;
        let n = self.engines.len();
        while i < n
            invariant
                self.wf(),
                n == self.engines@.len(),
                0 <= i <= n,
                out@.len() == i,
                crate::risk::entries_wf(out@),
                forall|k: int|
                    0 <= k < i ==> {
                        let e = self.engines@[k];
                        &&& (#[trigger] out@[k]).0 == e.market.question
                        &&& out@[k].1 == inventory_of(e)
                        &&& out@[k].2@ == match e.last_midpoint {
                            Some(m) => m@,
                            None => 500_000_000int,
                        }
                    },
            decreases n - i,
        {
            proof {
                assert(self.engines@[i as int].wf());
            }
            let e = &self.engines[i];
            let inv = MarketInventory {
                yes_tokens: e.inventory_yes,
                no_tokens: e.inventory_no,
                total_bought_value: e.total_bought_value,
                total_sold_value: e.total_sold_value,
            };
            let mid = match e.last_midpoint {
                Some(m) => m,
                None => Dec::new(5, 1),
            };
            out.push((e.market.question.clone(), inv, mid));
            i = i + 1;
        }
        out
    }

}

/// The number of orders one engine tick may submit: four per level.
pub fn tick_order_budget(e: &QuoteEngine) -> (r: u64)
    ensures
        r as int == 4 * e.config.num_levels as int,
{
    (e.config.num_levels as u64) * 4
}

/// An engine after its tracked orders were forgotten: everything else as it
/// was.
pub open spec fn cleared_of(now: QuoteEngine, was: QuoteEngine) -> bool {
    &&& now.tracked_orders@.len() == 0
    &&& now.market == was.market
    &&& now.config == was.config
    &&& now.dry_run == was.dry_run
    &&& now.last_midpoint == was.last_midpoint
    &&& now.last_requote_ms == was.last_requote_ms
    &&& now.current_quotes == was.current_quotes
    &&& now.inventory_yes == was.inventory_yes
    &&& now.inventory_no == was.inventory_no
    &&& now.total_bought_value == was.total_bought_value
    &&& now.total_sold_value == was.total_sold_value
    &&& now.ws_connected == was.ws_connected
}

/// Partial portfolio sums stay within a few amounts per engine.
proof fn lemma_stats_bounds(es: Seq<QuoteEngine>, n: int)
    requires
        engines_wf(es),
        0 <= n <= es.len(),
    ensures
        vstd::math::abs(sum_yes_upto(es, n)) <= n * (AMOUNT_MAX as int),
        vstd::math::abs(sum_no_upto(es, n)) <= n * (AMOUNT_MAX as int),
        vstd::math::abs(sum_capital_upto(es, n)) <= n * (AMOUNT_MAX as int),
        vstd::math::abs(sum_pnl_upto(es, n)) <= n * 4 * (AMOUNT_MAX as int),
    decreases n,
{
    if n > 0 {
        lemma_stats_bounds(es, n - 1);
        assert(es[n - 1].wf());
        match es[n - 1].last_midpoint {
            Some(m) => {
                crate::risk::lemma_pnl_bounds(inventory_of(es[n - 1]), m@);
            },
            None => {
                crate::risk::lemma_pnl_bounds(inventory_of(es[n - 1]), 500_000_000);
            },
        }
    }
}

} // verus!
