//! Risk controls: per-market inventory accounting and quoting decisions, the
//! portfolio kill switch, capital allocation across markets, and the
//! near-resolution holding model.

use vstd::prelude::*;

use crate::config::{RiskConfig, StrategyConfig};
use crate::fixed::{
    dec_div, dec_mul, dec_of, lemma_dec_div_unit, lemma_dec_mul_mono_right, lemma_dec_mul_unit,
    lemma_mul_le, lemma_tdiv_bounds, lemma_tdiv_exact, lemma_tdiv_mono, lemma_tdiv_quotient_bound,
    lemma_tdiv_superadd, Dec, AMOUNT_MAX, DEC_SCALE,
};

verus! {

/// Inventory state for a single market: token counts and the cumulative
/// bought and sold value.
#[derive(Clone, Copy, Debug, PartialEq, Eq, Structural)]
pub struct MarketInventory {
    pub yes_tokens: Dec,
    pub no_tokens: Dec,
    pub total_bought_value: Dec,
    pub total_sold_value: Dec,
}

/// Unrealized profit at midpoint `m`, in atoms: the mark-to-market value of
/// both token legs plus everything sold, minus everything bought.
pub open spec fn pnl_spec(inv: MarketInventory, m: int) -> int {
    dec_mul(inv.yes_tokens@, m) + dec_mul(inv.no_tokens@, DEC_SCALE as int - m)
        + inv.total_sold_value@ - inv.total_bought_value@
}

impl MarketInventory {
    /// Token counts are bounded amounts (fills can push them through zero);
    /// the bought and sold values only accumulate.
    pub open spec fn wf(&self) -> bool {
        &&& -(AMOUNT_MAX as int) <= self.yes_tokens@ <= AMOUNT_MAX as int
        &&& -(AMOUNT_MAX as int) <= self.no_tokens@ <= AMOUNT_MAX as int
        &&& 0 <= self.total_bought_value@ <= AMOUNT_MAX as int
        &&& 0 <= self.total_sold_value@ <= AMOUNT_MAX as int
    }

    /// An empty inventory.
    pub fn new() -> (r: Self)
        ensures
            r.yes_tokens@ == 0,
            r.no_tokens@ == 0,
            r.total_bought_value@ == 0,
            r.total_sold_value@ == 0,
            r.wf(),
    {
        MarketInventory {
            yes_tokens: Dec::zero(),
            no_tokens: Dec::zero(),
            total_bought_value: Dec::zero(),
            total_sold_value: Dec::zero(),
        }
    }

    /// Net inventory: YES minus NO. Positive means long YES.
    pub fn net_position(&self) -> (r: Dec)
        requires
            self.wf(),
        ensures
            r@ == self.yes_tokens@ - self.no_tokens@,
    {
        self.yes_tokens.sub(self.no_tokens)
    }

    /// Unrealized PnL at a given midpoint.
    pub fn unrealized_pnl(&self, midpoint: Dec) -> (r: Dec)
        requires
            self.wf(),
            0 <= midpoint@ <= DEC_SCALE as int,
        ensures
            r@ == pnl_spec(*self, midpoint@),
    {
        proof {
            lemma_pnl_bounds(*self, midpoint@);
            lemma_mul_le(self.yes_tokens@, midpoint@, AMOUNT_MAX as int, DEC_SCALE as int);
            lemma_mul_le(
                self.no_tokens@,
                DEC_SCALE as int - midpoint@,
                AMOUNT_MAX as int,
                DEC_SCALE as int,
            );
        }
        let yes_value = self.yes_tokens.mul(midpoint);
        let no_value = self.no_tokens.mul(Dec::one().sub(midpoint));
        let mark_to_market = yes_value.add(no_value);
        mark_to_market.add(self.total_sold_value).sub(self.total_bought_value)
    }

    /// Cost basis of the current positions: bought minus sold value.
    pub fn capital_deployed(&self) -> (r: Dec)
        requires
            self.wf(),
        ensures
            r@ == self.total_bought_value@ - self.total_sold_value@,
    {
        self.total_bought_value.sub(self.total_sold_value)
    }
}

/// The unrealized PnL of a well-formed inventory is bounded by the sum of its
/// four accumulators.
pub proof fn lemma_pnl_bounds(inv: MarketInventory, m: int)
    requires
        inv.wf(),
        0 <= m <= DEC_SCALE as int,
    ensures
        vstd::math::abs(pnl_spec(inv, m)) <= 4 * (AMOUNT_MAX as int),
        vstd::math::abs(dec_mul(inv.yes_tokens@, m)) <= AMOUNT_MAX as int,
        vstd::math::abs(dec_mul(inv.no_tokens@, DEC_SCALE as int - m)) <= AMOUNT_MAX as int,
{
    lemma_mul_le(inv.yes_tokens@, m, AMOUNT_MAX as int, DEC_SCALE as int);
    lemma_tdiv_quotient_bound(inv.yes_tokens@ * m, DEC_SCALE as int, AMOUNT_MAX as int);
    lemma_mul_le(inv.no_tokens@, DEC_SCALE as int - m, AMOUNT_MAX as int, DEC_SCALE as int);
    lemma_tdiv_quotient_bound(
        inv.no_tokens@ * (DEC_SCALE as int - m),
        DEC_SCALE as int,
        AMOUNT_MAX as int,
    );
}

/// Risk decision for quoting on one side of the book.
#[derive(Clone, Copy, Debug, PartialEq, Eq, Structural)]
pub enum QuoteSideDecision {
    /// Quote normally.
    Normal,
    /// Quote with the offset scaled by this factor.
    Adjusted { offset_multiplier: Dec },
    /// Do not quote this side.
    Paused,
}

/// The pair of side decisions taken from the inventory ratio `net / cap`:
/// past either cap one side pauses and the other tightens to half the
/// offset; above half the cap the heavy side widens by `1 + ratio` and the
/// light side tightens by its reciprocal.
pub open spec fn inventory_check_spec(inv: MarketInventory, strategy: StrategyConfig) -> (
    QuoteSideDecision,
    QuoteSideDecision,
) {
    let net: int = inv.yes_tokens@ - inv.no_tokens@;
    let cap: int = strategy.inventory_cap@;
    if cap == 0 {
        (QuoteSideDecision::Normal, QuoteSideDecision::Normal)
    } else {
        let ratio: int = dec_div(net, cap);
        if ratio >= DEC_SCALE as int {
            (
                QuoteSideDecision::Paused,
                QuoteSideDecision::Adjusted { offset_multiplier: Dec { atoms: 500_000_000 } },
            )
        } else if ratio <= -(DEC_SCALE as int) {
            (
                QuoteSideDecision::Adjusted { offset_multiplier: Dec { atoms: 500_000_000 } },
                QuoteSideDecision::Paused,
            )
        } else if ratio > 500_000_000 {
            let m: int = DEC_SCALE as int + ratio;
            (
                QuoteSideDecision::Adjusted { offset_multiplier: dec_of(m) },
                QuoteSideDecision::Adjusted {
                    offset_multiplier: dec_of(dec_div(DEC_SCALE as int, m)),
                },
            )
        } else if ratio < -500_000_000 {
            let m: int = DEC_SCALE as int + -ratio;
            (
                QuoteSideDecision::Adjusted {
                    offset_multiplier: dec_of(dec_div(DEC_SCALE as int, m)),
                },
                QuoteSideDecision::Adjusted { offset_multiplier: dec_of(m) },
            )
        } else {
            (QuoteSideDecision::Normal, QuoteSideDecision::Normal)
        }
    }
}

/// Determine whether to quote each side, and how, from the inventory state.
/// Returns the bid-side and ask-side decisions.
pub fn inventory_check(inventory: &MarketInventory, strategy: &StrategyConfig) -> (r: (
    QuoteSideDecision,
    QuoteSideDecision,
))
    requires
        inventory.wf(),
        strategy.wf(),
    ensures
        r == inventory_check_spec(*inventory, *strategy),
{
    let net = inventory.net_position();
    let cap = strategy.inventory_cap;
    if cap.is_zero() {
        return (QuoteSideDecision::Normal, QuoteSideDecision::Normal);
    }
    proof {
        lemma_mul_le(net@, DEC_SCALE as int, 2 * (AMOUNT_MAX as int), DEC_SCALE as int);
        lemma_tdiv_bounds(net@ * (DEC_SCALE as int), cap@);
    }
    let ratio = net.div(cap);
    let one = Dec::one();
    let half = Dec::new(5, 1);
    if ratio.ge(&one) {
        (
            QuoteSideDecision::Paused,
            QuoteSideDecision::Adjusted { offset_multiplier: half },
        )
    } else if ratio.le(&one.neg()) {
        (
            QuoteSideDecision::Adjusted { offset_multiplier: half },
            QuoteSideDecision::Paused,
        )
    } else if ratio.gt(&half) {
        let multiplier = one.add(ratio);
        proof {
            lemma_tdiv_bounds((DEC_SCALE as int) * (DEC_SCALE as int), multiplier@);
        }
        (
            QuoteSideDecision::Adjusted { offset_multiplier: multiplier },
            QuoteSideDecision::Adjusted { offset_multiplier: one.div(multiplier) },
        )
    } else if ratio.lt(&half.neg()) {
        let multiplier = one.add(ratio.abs());
        proof {
            lemma_tdiv_bounds((DEC_SCALE as int) * (DEC_SCALE as int), multiplier@);
        }
        (
            QuoteSideDecision::Adjusted { offset_multiplier: one.div(multiplier) },
            QuoteSideDecision::Adjusted { offset_multiplier: multiplier },
        )
    } else {
        (QuoteSideDecision::Normal, QuoteSideDecision::Normal)
    }
}

/// Total unrealized PnL of the first `n` entries of a
/// `(market, inventory, midpoint)` list.
pub open spec fn total_pnl_upto(entries: Seq<(String, MarketInventory, Dec)>, n: int) -> int
    decreases n,
{
    if n <= 0 {
        0
    } else {
        total_pnl_upto(entries, n - 1) + pnl_spec(entries[n - 1].1, entries[n - 1].2@)
    }
}

/// Every entry holds a well-formed inventory and a midpoint price.
pub open spec fn entries_wf(entries: Seq<(String, MarketInventory, Dec)>) -> bool {
    forall|i: int|
        0 <= i < entries.len() ==> (#[trigger] entries[i]).1.wf() && 0 <= entries[i].2@
            <= DEC_SCALE as int
}

/// The running PnL total of well-formed entries is bounded by four amounts
/// per entry.
pub proof fn lemma_total_pnl_bound(entries: Seq<(String, MarketInventory, Dec)>, n: int)
    requires
        entries_wf(entries),
        0 <= n <= entries.len(),
    ensures
        vstd::math::abs(total_pnl_upto(entries, n)) <= n * 4 * (AMOUNT_MAX as int),
    decreases n,
{
    if n > 0 {
        lemma_total_pnl_bound(entries, n - 1);
        lemma_pnl_bounds(entries[n - 1].1, entries[n - 1].2@);
    }
}

/// Two lists that agree on their first `n` entries accumulate the same PnL
/// over them.
pub proof fn lemma_total_pnl_prefix(
    s1: Seq<(String, MarketInventory, Dec)>,
    s2: Seq<(String, MarketInventory, Dec)>,
    n: int,
)
    requires
        n <= s1.len(),
        n <= s2.len(),
        forall|i: int| 0 <= i < n ==> s1[i] == s2[i],
    ensures
        total_pnl_upto(s1, n) == total_pnl_upto(s2, n),
    decreases n,
{
    if n > 0 {
        lemma_total_pnl_prefix(s1, s2, n - 1);
    }
}

/// Check whether the kill switch should fire: the summed unrealized PnL of
/// all markets has fallen below the configured loss threshold.
pub fn should_kill_switch(
    inventories: &Vec<(String, MarketInventory, Dec)>,
    risk_config: &RiskConfig,
) -> (r: bool)
    requires
        entries_wf(inventories@),
        inventories@.len() <= 1_000_000,
        risk_config.wf(),
    ensures
        r == (total_pnl_upto(inventories@, inventories@.len() as int)
            < -risk_config.kill_switch_loss@),
{
    let mut total = Dec::zero();
    let mut i: usize = 0;
    let n = inventories.len();
    while i < n
        invariant
            entries_wf(inventories@),
            n == inventories@.len() <= 1_000_000,
            0 <= i <= n,
            total@ == total_pnl_upto(inventories@, i as int),
        decreases n - i,
    {
        proof {
            lemma_total_pnl_bound(inventories@, i as int);
            lemma_pnl_bounds(inventories@[i as int].1, inventories@[i as int].2@);
        }
        let entry = &inventories[i];
        let pnl = entry.1.unrealized_pnl(entry.2);
        total = total.add(pnl);
        i = i + 1;
    }
    proof {
        lemma_total_pnl_bound(inventories@, n as int);
    }
    total.lt(&risk_config.kill_switch_loss.neg())
}

/// Adding a market that is not in profit can only push the portfolio further
/// into loss: it never turns the kill-switch decision off.
pub proof fn lemma_kill_switch_monotonic(
    entries: Seq<(String, MarketInventory, Dec)>,
    extra: (String, MarketInventory, Dec),
    loss_threshold: int,
)
    requires
        pnl_spec(extra.1, extra.2@) <= 0,
        total_pnl_upto(entries, entries.len() as int) < -loss_threshold,
    ensures
        total_pnl_upto(entries.push(extra), entries.push(extra).len() as int) < -loss_threshold,
{
    let n: int = entries.len() as int;
    lemma_total_pnl_prefix(entries, entries.push(extra), n);
    assert(entries.push(extra)[n] == extra);
}

/// Sum of the decimal values in the first `n` pairs of a `(name, value)`
/// list.
pub open spec fn sum_values_upto(pairs: Seq<(String, Dec)>, n: int) -> int
    decreases n,
{
    if n <= 0 {
        0
    } else {
        sum_values_upto(pairs, n - 1) + pairs[n - 1].1@
    }
}

/// Every value in the list lies in `[0, AMOUNT_MAX]`.
pub open spec fn values_wf(pairs: Seq<(String, Dec)>) -> bool {
    forall|i: int|
        0 <= i < pairs.len() ==> 0 <= (#[trigger] pairs[i]).1@ <= AMOUNT_MAX as int
}

/// Partial sums of non-negative values are non-negative, bounded, and
/// dominate each summand.
pub proof fn lemma_sum_values_bounds(pairs: Seq<(String, Dec)>, n: int)
    requires
        values_wf(pairs),
        0 <= n <= pairs.len(),
    ensures
        0 <= sum_values_upto(pairs, n) <= n * (AMOUNT_MAX as int),
        forall|i: int| 0 <= i < n ==> (#[trigger] pairs[i]).1@ <= sum_values_upto(pairs, n),
    decreases n,
{
    if n > 0 {
        lemma_sum_values_bounds(pairs, n - 1);
    }
}

/// The capital allocated to market `i`: its share of the total by reward
/// score, capped per market; an equal split when every score is zero.
pub open spec fn alloc_value(
    scores: Seq<(String, Dec)>,
    i: int,
    total_capital: int,
    max_per_market: int,
) -> int {
    let total_score: int = sum_values_upto(scores, scores.len() as int);
    if total_score == 0 {
        vstd::math::min(
            dec_div(total_capital, scores.len() as int * (DEC_SCALE as int)),
            max_per_market,
        )
    } else {
        vstd::math::min(
            dec_mul(total_capital, dec_div(scores[i].1@, total_score)),
            max_per_market,
        )
    }
}

/// Sum of the allocations of the first `n` markets.
pub open spec fn sum_alloc_upto(
    scores: Seq<(String, Dec)>,
    n: int,
    total_capital: int,
    max_per_market: int,
) -> int
    decreases n,
{
    if n <= 0 {
        0
    } else {
        sum_alloc_upto(scores, n - 1, total_capital, max_per_market) + alloc_value(
            scores,
            n - 1,
            total_capital,
            max_per_market,
        )
    }
}

/// Sum of the scaled fractions `total_capital * (score_i / total_score)`
/// over the first `n` markets.
spec fn sum_share_upto(scores: Seq<(String, Dec)>, n: int, total_capital: int, total_score: int) -> int
    decreases n,
{
    if n <= 0 {
        0
    } else {
        sum_share_upto(scores, n - 1, total_capital, total_score) + dec_mul(
            total_capital,
            dec_div(scores[n - 1].1@, total_score),
        )
    }
}

/// Sum of the fractions `score_i / total_score` over the first `n` markets.
spec fn sum_fraction_upto(scores: Seq<(String, Dec)>, n: int, total_score: int) -> int
    decreases n,
{
    if n <= 0 {
        0
    } else {
        sum_fraction_upto(scores, n - 1, total_score) + dec_div(scores[n - 1].1@, total_score)
    }
}

/// The fractions of the first `n` markets sum to at most the fraction of
/// their summed scores; at `n == len` that is at most one.
proof fn lemma_fraction_sum(scores: Seq<(String, Dec)>, n: int, total_score: int)
    requires
        values_wf(scores),
        0 <= n <= scores.len(),
        total_score > 0,
    ensures
        0 <= sum_fraction_upto(scores, n, total_score) <= dec_div(
            sum_values_upto(scores, n),
            total_score,
        ),
    decreases n,
{
    let s: int = DEC_SCALE as int;
    if n > 0 {
        lemma_fraction_sum(scores, n - 1, total_score);
        lemma_sum_values_bounds(scores, n);
        lemma_sum_values_bounds(scores, n - 1);
        let prev_sum: int = sum_values_upto(scores, n - 1);
        let x: int = scores[n - 1].1@;
        assert(prev_sum * s >= 0 && x * s >= 0 && (prev_sum + x) * s == prev_sum * s + x * s)
            by (nonlinear_arith)
            requires
                prev_sum >= 0,
                x >= 0,
                s > 0,
        ;
        lemma_tdiv_superadd(prev_sum * s, x * s, total_score);
        lemma_tdiv_bounds(x * s, total_score);
    }
}

/// The allocated shares of the first `n` markets sum to at most the capital
/// scaled by their summed fractions.
proof fn lemma_share_sum(scores: Seq<(String, Dec)>, n: int, total_capital: int, total_score: int)
    requires
        values_wf(scores),
        0 <= n <= scores.len(),
        total_score > 0,
        total_capital >= 0,
    ensures
        0 <= sum_share_upto(scores, n, total_capital, total_score) <= dec_mul(
            total_capital,
            sum_fraction_upto(scores, n, total_score),
        ),
    decreases n,
{
    let s: int = DEC_SCALE as int;
    if n > 0 {
        lemma_share_sum(scores, n - 1, total_capital, total_score);
        lemma_fraction_sum(scores, n - 1, total_score);
        lemma_fraction_sum(scores, n, total_score);
        let fprev: int = sum_fraction_upto(scores, n - 1, total_score);
        let f: int = dec_div(scores[n - 1].1@, total_score);
        lemma_sum_values_bounds(scores, n);
        assert(scores[n - 1].1@ * s >= 0) by (nonlinear_arith)
            requires
                scores[n - 1].1@ >= 0,
                s > 0,
        ;
        lemma_tdiv_bounds(scores[n - 1].1@ * s, total_score);
        assert(total_capital * fprev >= 0 && total_capital * f >= 0 && total_capital * (fprev + f)
            == total_capital * fprev + total_capital * f) by (nonlinear_arith)
            requires
                total_capital >= 0,
                fprev >= 0,
                f >= 0,
        ;
        lemma_tdiv_superadd(total_capital * fprev, total_capital * f, s);
        lemma_tdiv_bounds(total_capital * f, s);
    }
}

/// The allocations never exceed the total capital: capping per market only
/// lowers them, and the proportional shares themselves sum to at most the
/// capital. Residual capital freed by the cap is not redistributed.
pub proof fn lemma_allocation_sum(
    scores: Seq<(String, Dec)>,
    total_capital: int,
    max_per_market: int,
)
    requires
        values_wf(scores),
        scores.len() >= 1,
        0 <= total_capital,
        0 <= max_per_market,
    ensures
        sum_alloc_upto(scores, scores.len() as int, total_capital, max_per_market)
            <= total_capital,
{
    let s: int = DEC_SCALE as int;
    let len: int = scores.len() as int;
    let total_score: int = sum_values_upto(scores, len);
    lemma_sum_values_bounds(scores, len);
    if total_score == 0 {
        let per: int = alloc_value(scores, 0, total_capital, max_per_market);
        let q: int = dec_div(total_capital, len * s);
        assert(total_capital * s >= 0) by (nonlinear_arith)
            requires
                total_capital >= 0,
                s > 0,
        ;
        lemma_tdiv_bounds(total_capital * s, len * s);
        lemma_equal_split_sum(scores, len, total_capital, max_per_market);
        // n * min(q, max) <= n * q <= total_capital
        vstd::arithmetic::div_mod::lemma_fundamental_div_mod(total_capital * s, len * s);
        let rem: int = (total_capital * s) % (len * s);
        vstd::arithmetic::div_mod::lemma_mod_bound(total_capital * s, len * s);
        assert(len * per <= total_capital) by (nonlinear_arith)
            requires
                per <= q,
                per * len == len * per,
                total_capital * s == (len * s) * q + rem,
                rem >= 0,
                s > 0,
                len >= 1,
                q >= 0,
                per >= 0 || per <= q,
        ;
    } else {
        lemma_alloc_le_share(scores, len, total_capital, max_per_market, total_score);
        lemma_share_sum(scores, len, total_capital, total_score);
        lemma_fraction_sum(scores, len, total_score);
        lemma_dec_div_unit(total_score, total_score);
        lemma_dec_mul_mono_right(
            total_capital,
            sum_fraction_upto(scores, len, total_score),
            s,
        );
        lemma_tdiv_exact(total_capital, s);
        assert(total_capital * s == s * total_capital) by (nonlinear_arith);
        assert(dec_mul(total_capital, s) == total_capital);
    }
}

/// With all scores zero, the first `n` allocations sum to `n` times the
/// equal split.
proof fn lemma_equal_split_sum(
    scores: Seq<(String, Dec)>,
    n: int,
    total_capital: int,
    max_per_market: int,
)
    requires
        0 <= n <= scores.len(),
        sum_values_upto(scores, scores.len() as int) == 0,
    ensures
        sum_alloc_upto(scores, n, total_capital, max_per_market) == n * alloc_value(
            scores,
            0,
            total_capital,
            max_per_market,
        ),
    decreases n,
{
    if n > 0 {
        lemma_equal_split_sum(scores, n - 1, total_capital, max_per_market);
        let per: int = alloc_value(scores, 0, total_capital, max_per_market);
        assert(alloc_value(scores, n - 1, total_capital, max_per_market) == per);
        assert(sum_alloc_upto(scores, n, total_capital, max_per_market) == sum_alloc_upto(
            scores,
            n - 1,
            total_capital,
            max_per_market,
        ) + alloc_value(scores, n - 1, total_capital, max_per_market));
        assert(n * per == (n - 1) * per + per) by (nonlinear_arith);
    } else {
        assert(n * alloc_value(scores, 0, total_capital, max_per_market) == 0)
            by (nonlinear_arith)
            requires
                n == 0,
        ;
    }
}

/// Each capped allocation is at most the uncapped proportional share, so
/// their partial sums are ordered likewise.
proof fn lemma_alloc_le_share(
    scores: Seq<(String, Dec)>,
    n: int,
    total_capital: int,
    max_per_market: int,
    total_score: int,
)
    requires
        values_wf(scores),
        0 <= n <= scores.len(),
        total_score == sum_values_upto(scores, scores.len() as int),
        total_score > 0,
        total_capital >= 0,
    ensures
        sum_alloc_upto(scores, n, total_capital, max_per_market) <= sum_share_upto(
            scores,
            n,
            total_capital,
            total_score,
        ),
    decreases n,
{
    if n > 0 {
        lemma_alloc_le_share(scores, n - 1, total_capital, max_per_market, total_score);
    }
}

/// Allocate capital across markets in proportion to their reward scores,
/// capping each market. All scores zero means an equal split. The sum never
/// exceeds the total capital, and no market exceeds the per-market cap.
pub fn allocate_capital(
    market_scores: &Vec<(String, Dec)>,
    total_capital: Dec,
    max_per_market: Dec,
) -> (r: Vec<(String, Dec)>)
    requires
        values_wf(market_scores@),
        market_scores@.len() <= 1_000_000,
        0 <= total_capital@ <= AMOUNT_MAX as int,
        0 <= max_per_market@ <= AMOUNT_MAX as int,
    ensures
        r@.len() == market_scores@.len(),
        forall|i: int|
            0 <= i < r@.len() ==> (#[trigger] r@[i]).0 == market_scores@[i].0 && r@[i].1@
                == alloc_value(market_scores@, i, total_capital@, max_per_market@),
        forall|i: int| 0 <= i < r@.len() ==> 0 <= (#[trigger] r@[i]).1@ <= max_per_market@,
        sum_values_upto(r@, r@.len() as int) <= total_capital@,
{
    let ghost gscores = market_scores@;
    let n = market_scores.len();
    if n == 0 {
        let empty: Vec<(String, Dec)> = Vec::new();
        return empty;
    }
    // Total score.
    let mut total_score = Dec::zero();
    let mut i: usize = 0;
    while i < n
        invariant
            values_wf(gscores),
            gscores == market_scores@,
            n == gscores.len() <= 1_000_000,
            0 <= i <= n,
            total_score@ == sum_values_upto(gscores, i as int),
        decreases n - i,
    {
        proof {
            lemma_sum_values_bounds(gscores, i as int);
        }
        total_score = total_score.add(market_scores[i].1);
        i = i + 1;
    }
    proof {
        lemma_sum_values_bounds(gscores, n as int);
    }
    let mut result: Vec<(String, Dec)> = Vec::new();
    if total_score.is_zero() {
        proof {
            assert(total_capital@ * (DEC_SCALE as int) >= 0) by (nonlinear_arith)
                requires
                    total_capital@ >= 0,
            ;
            lemma_tdiv_bounds(
                total_capital@ * (DEC_SCALE as int),
                n as int * (DEC_SCALE as int),
            );
        }
        let per_market = total_capital.div(Dec::new(n as i64, 0)).min(max_per_market);
        let mut j: usize = 0;
        while j < n
            invariant
                values_wf(gscores),
                gscores == market_scores@,
                n == gscores.len() <= 1_000_000,
                sum_values_upto(gscores, n as int) == 0,
                0 <= j <= n,
                per_market@ == alloc_value(gscores, 0, total_capital@, max_per_market@),
                result@.len() == j,
                forall|k: int|
                    0 <= k < j ==> (#[trigger] result@[k]).0 == gscores[k].0 && result@[k].1@
                        == alloc_value(gscores, k, total_capital@, max_per_market@),
            decreases n - j,
        {
            result.push((market_scores[j].0.clone(), per_market));
            j = j + 1;
        }
        proof {
            lemma_allocation_sum(gscores, total_capital@, max_per_market@);
            lemma_sums_match(result@, gscores, total_capital@, max_per_market@, n as int);
        }
        result
    } else {
        let mut j: usize = 0;
        while j < n
            invariant
                values_wf(gscores),
                gscores == market_scores@,
                n == gscores.len() <= 1_000_000,
                total_score@ == sum_values_upto(gscores, n as int),
                total_score@ > 0,
                0 <= total_capital@ <= AMOUNT_MAX as int,
                0 <= j <= n,
                result@.len() == j,
                forall|k: int|
                    0 <= k < j ==> (#[trigger] result@[k]).0 == gscores[k].0 && result@[k].1@
                        == alloc_value(gscores, k, total_capital@, max_per_market@),
            decreases n - j,
        {
            proof {
                lemma_sum_values_bounds(gscores, n as int);
                assert(gscores[j as int].1@ * (DEC_SCALE as int) >= 0) by (nonlinear_arith)
                    requires
                        gscores[j as int].1@ >= 0,
                ;
                lemma_dec_div_unit(gscores[j as int].1@, total_score@);
                lemma_mul_le(
                    total_capital@,
                    dec_div(gscores[j as int].1@, total_score@),
                    AMOUNT_MAX as int,
                    DEC_SCALE as int,
                );
                lemma_dec_mul_unit(
                    total_capital@,
                    dec_div(gscores[j as int].1@, total_score@),
                );
            }
            let fraction = market_scores[j].1.div(total_score);
            let allocation = total_capital.mul(fraction).min(max_per_market);
            result.push((market_scores[j].0.clone(), allocation));
            j = j + 1;
        }
        proof {
            lemma_allocation_sum(gscores, total_capital@, max_per_market@);
            lemma_sums_match(result@, gscores, total_capital@, max_per_market@, n as int);
        }
        result
    }
}

/// A list whose entries equal the allocations sums like the allocations.
proof fn lemma_sums_match(
    r: Seq<(String, Dec)>,
    scores: Seq<(String, Dec)>,
    total_capital: int,
    max_per_market: int,
    n: int,
)
    requires
        0 <= n <= r.len(),
        n <= scores.len(),
        forall|k: int|
            0 <= k < n ==> (#[trigger] r[k]).1@ == alloc_value(
                scores,
                k,
                total_capital,
                max_per_market,
            ),
    ensures
        sum_values_upto(r, n) == sum_alloc_upto(scores, n, total_capital, max_per_market),
    decreases n,
{
    if n > 0 {
        lemma_sums_match(r, scores, total_capital, max_per_market, n - 1);
    }
}

/// The value of patiently holding a near-resolution position: confidence
/// (the winning side's price) times a 4% yearly rate, prorated by the days
/// left. Zero away from the extremes.
pub open spec fn holding_spec(midpoint: int, days_to_resolution: Option<u32>) -> int {
    let days: int = match days_to_resolution {
        Some(d) => d as int,
        None => 30,
    };
    if days == 0 {
        0
    } else {
        let confidence: int = if midpoint > 850_000_000 {
            midpoint
        } else if midpoint < 150_000_000 {
            DEC_SCALE as int - midpoint
        } else {
            0
        };
        if confidence == 0 {
            0
        } else {
            let daily_rate: int = dec_div(40_000_000, 365 * (DEC_SCALE as int));
            dec_mul(dec_mul(confidence, daily_rate), days * (DEC_SCALE as int))
        }
    }
}

/// Determine the reward factor for holding tokens near resolution: tokens
/// trading above 0.85 or below 0.15 earn roughly a 4% yearly rate on the
/// confident side, prorated for the remaining days.
pub fn holding_reward_factor(midpoint: Dec, days_to_resolution: Option<u32>) -> (r: Dec)
    requires
        0 <= midpoint@ <= DEC_SCALE as int,
    ensures
        r@ == holding_spec(midpoint@, days_to_resolution),
{
    let days: u32 = match days_to_resolution {
        Some(d) => d,
        None => 30,
    };
    if days == 0 {
        return Dec::zero();
    }
    let confidence: Dec = if midpoint.gt(&Dec::new(85, 2)) {
        midpoint
    } else if midpoint.lt(&Dec::new(15, 2)) {
        Dec::one().sub(midpoint)
    } else {
        return Dec::zero();
    };
    let annual_rate = Dec::new(4, 2);
    let daily_rate = annual_rate.div(Dec::from_int(365));
    proof {
        lemma_tdiv_bounds(40_000_000 * (DEC_SCALE as int), 365 * (DEC_SCALE as int));
        lemma_tdiv_quotient_bound(
            40_000_000 * (DEC_SCALE as int),
            365 * (DEC_SCALE as int),
            40_000_000int,
        );
        lemma_mul_le(confidence@, daily_rate@, DEC_SCALE as int, 40_000_000int);
        lemma_dec_mul_unit(daily_rate@, confidence@);
        assert(confidence@ * daily_rate@ == daily_rate@ * confidence@) by (nonlinear_arith);
        lemma_mul_le(
            dec_mul(confidence@, daily_rate@),
            days as int * (DEC_SCALE as int),
            40_000_000int,
            5_000_000_000_000_000_000int,
        );
    }
    let holding_value = confidence.mul(daily_rate).mul(Dec::new(days as i64, 0));
    holding_value
}

/// Unrealized PnL of a pure long-YES position never falls as the midpoint
/// rises. Strictness needs at least one whole token (see
/// [`lemma_pnl_increasing`]): below that, fixed-point truncation can leave
/// the PnL flat between adjacent midpoints.
pub proof fn lemma_pnl_nondecreasing(inv: MarketInventory, m1: int, m2: int)
    requires
        inv.wf(),
        inv.yes_tokens@ >= 0,
        inv.no_tokens@ == 0,
        inv.total_sold_value@ == 0,
        0 <= m1 <= m2 <= DEC_SCALE as int,
    ensures
        pnl_spec(inv, m1) <= pnl_spec(inv, m2),
{
    let s: int = DEC_SCALE as int;
    let yes: int = inv.yes_tokens@;
    assert(yes * m1 <= yes * m2) by (nonlinear_arith)
        requires
            yes >= 0,
            m1 <= m2,
    ;
    lemma_tdiv_mono(yes * m1, yes * m2, s);
    assert(dec_mul(0, s - m1) == 0);
    assert(dec_mul(0, s - m2) == 0);
}

/// Unrealized PnL of a pure long-YES position strictly rises with the
/// midpoint, once the position holds at least one whole token.
pub proof fn lemma_pnl_increasing(inv: MarketInventory, m1: int, m2: int)
    requires
        inv.wf(),
        inv.no_tokens@ == 0,
        inv.total_sold_value@ == 0,
        inv.yes_tokens@ >= DEC_SCALE as int,
        0 <= m1 < m2 <= DEC_SCALE as int,
    ensures
        pnl_spec(inv, m1) < pnl_spec(inv, m2),
{
    let s: int = DEC_SCALE as int;
    let yes: int = inv.yes_tokens@;
    assert(yes * m2 - yes * m1 == yes * (m2 - m1)) by (nonlinear_arith);
    assert(yes * (m2 - m1) >= s) by (nonlinear_arith)
        requires
            yes >= s,
            s > 0,
            m2 - m1 >= 1,
    ;
    lemma_tdiv_mono(yes * m1 + s, yes * m2, s);
    assert(yes * m1 >= 0) by (nonlinear_arith)
        requires
            yes >= 0,
            m1 >= 0,
    ;
    vstd::arithmetic::div_mod::lemma_div_plus_one(yes * m1, s);
    lemma_tdiv_bounds(yes * m1, s);
    lemma_tdiv_bounds(yes * m1 + s, s);
    assert(dec_mul(0, s - m1) == 0);
    assert(dec_mul(0, s - m2) == 0);
}

} // verus!
