//! The per-market quoting engine: a state machine that decides when to
//! requote, computes skewed multi-level quotes, folds detected fills into the
//! inventory without double counting, and tracks the orders resting on the
//! book. The surrounding tick loop — fetching midpoints, signing, submitting,
//! sleeping — is transport and lives outside the library; it drives these
//! transitions with plain values.

use vstd::prelude::*;

use vstd::pervasive::VecAdditionalExecFns;

use crate::config::StrategyConfig;
use crate::fixed::{
    dec_div, dec_mul, dec_of, lemma_dec_mul_unit, lemma_mul_le, lemma_tdiv_bounds, Dec, AMOUNT_MAX,
    DEC_SCALE,
};
use crate::orders::{OrderStatus, Side, TrackedOrder};
use crate::quoter::{generate_quotes, quotes_upto, Quote, QuoteParams};
use crate::scanner::MarketInfo;
use crate::ws::WsEvent;

verus! {

/// Every tracked order is well-formed.
pub open spec fn orders_wf(orders: Seq<TrackedOrder>) -> bool {
    forall|i: int| 0 <= i < orders.len() ==> (#[trigger] orders[i]).wf()
}

/// State for a single market's quoting engine.
#[derive(Debug)]
pub struct QuoteEngine {
    pub market: MarketInfo,
    pub config: StrategyConfig,
    pub dry_run: bool,
    pub last_midpoint: Option<Dec>,
    pub last_requote_ms: Option<u64>,
    pub current_quotes: Vec<Quote>,
    pub tracked_orders: Vec<TrackedOrder>,
    pub inventory_yes: Dec,
    pub inventory_no: Dec,
    /// Cumulative fill value for PnL tracking.
    pub total_bought_value: Dec,
    pub total_sold_value: Dec,
    pub ws_connected: bool,
}

impl QuoteEngine {
    /// The engine's working ranges: a well-formed market and strategy, a
    /// midpoint price when known, bounded inventory, and at most a thousand
    /// well-formed tracked orders.
    pub open spec fn wf(&self) -> bool {
        &&& self.market.wf()
        &&& self.config.wf()
        &&& match self.last_midpoint {
            Some(m) => 0 <= m@ <= DEC_SCALE as int,
            None => true,
        }
        &&& -(AMOUNT_MAX as int) <= self.inventory_yes@ <= AMOUNT_MAX as int
        &&& -(AMOUNT_MAX as int) <= self.inventory_no@ <= AMOUNT_MAX as int
        &&& 0 <= self.total_bought_value@ <= AMOUNT_MAX as int
        &&& 0 <= self.total_sold_value@ <= AMOUNT_MAX as int
        &&& orders_wf(self.tracked_orders@)
        &&& self.tracked_orders@.len() <= 1000
    }

    /// A fresh engine for a market: nothing quoted, nothing tracked, empty
    /// inventory, no feed connected.
    pub fn new(market: MarketInfo, config: StrategyConfig, dry_run: bool) -> (r: Self)
        ensures
            r.market == market,
            r.config == config,
            r.dry_run == dry_run,
            r.last_midpoint is None,
            r.last_requote_ms is None,
            r.current_quotes@.len() == 0,
            r.tracked_orders@.len() == 0,
            r.inventory_yes@ == 0,
            r.inventory_no@ == 0,
            r.total_bought_value@ == 0,
            r.total_sold_value@ == 0,
            r.ws_connected == false,
            market.wf() && config.wf() ==> r.wf(),
    {
        QuoteEngine {
            market,
            config,
            dry_run,
            last_midpoint: None,
            last_requote_ms: None,
            current_quotes: Vec::new(),
            tracked_orders: Vec::new(),
            inventory_yes: Dec::zero(),
            inventory_no: Dec::zero(),
            total_bought_value: Dec::zero(),
            total_sold_value: Dec::zero(),
            ws_connected: false,
        }
    }
}

/// Whether the engine should replace its quotes on seeing `new_midpoint` at
/// time `now_ms`: always on the first midpoint; afterwards exactly when the
/// midpoint moved by more than the configured threshold, or the requote
/// interval has elapsed since the last requote.
pub open spec fn should_requote_spec(e: QuoteEngine, new_midpoint: int, now_ms: u64) -> bool {
    let threshold: int = dec_div(e.config.requote_threshold_cents@, 100 * (DEC_SCALE as int));
    match e.last_midpoint {
        None => true,
        Some(last) => {
            if vstd::math::abs(new_midpoint - last@) > threshold {
                true
            } else {
                match e.last_requote_ms {
                    Some(t) => now_ms as int > t as int + e.config.requote_interval_secs as int
                        * 1000,
                    None => false,
                }
            }
        },
    }
}

impl QuoteEngine {
    /// Determine whether to requote: true on the very first midpoint, then
    /// exactly when the midpoint shifted by more than the threshold or the
    /// requote timer expired.
    pub fn should_requote(&self, new_midpoint: Dec, now_ms: u64) -> (r: bool)
        requires
            self.wf(),
            0 <= new_midpoint@ <= DEC_SCALE as int,
        ensures
            r == should_requote_spec(*self, new_midpoint@, now_ms),
    {
        proof {
            lemma_tdiv_bounds(
                self.config.requote_threshold_cents@ * (DEC_SCALE as int),
                100 * (DEC_SCALE as int),
            );
        }
        let threshold = self.config.requote_threshold_cents.div(Dec::from_int(100));
        let last_mid = match self.last_midpoint {
            Some(m) => m,
            None => {
                return true;
            },
        };
        if new_midpoint.sub(last_mid).abs().gt(&threshold) {
            return true;
        }
        match self.last_requote_ms {
            Some(t) => {
                (now_ms as u128) > (t as u128) + (self.config.requote_interval_secs as u128) * 1000
            },
            None => false,
        }
    }
}

/// The inventory skew: the net position as a fraction of the cap, clamped to
/// `[-1/2, 1/2]`; zero when no cap is set.
pub open spec fn skew_spec(e: QuoteEngine) -> int {
    let net: int = e.inventory_yes@ - e.inventory_no@;
    let cap: int = e.config.inventory_cap@;
    if cap > 0 {
        vstd::math::max(vstd::math::min(dec_div(net, cap), 500_000_000), -500_000_000)
    } else {
        0
    }
}

/// The quoting parameters the engine derives from its market, strategy and
/// inventory for a given midpoint.
pub open spec fn params_spec(e: QuoteEngine, midpoint: Dec) -> QuoteParams {
    QuoteParams {
        midpoint,
        base_offset_cents: e.config.base_offset_cents,
        min_offset_cents: e.config.min_offset_cents,
        tick_size: e.market.tick_size,
        order_size: e.config.order_size,
        num_levels: e.config.num_levels,
        fee_rate_bps: match e.market.fee_rate_bps {
            Some(f) => Some(f as u32),
            None => None,
        },
        max_incentive_spread: e.market.rewards_max_spread,
        min_incentive_size: e.market.rewards_min_size,
        inventory_skew: dec_of(skew_spec(e)),
    }
}

/// A well-formed engine derives well-formed quoting parameters.
pub proof fn lemma_params_wf(e: QuoteEngine, midpoint: Dec)
    requires
        e.wf(),
        0 <= midpoint@ <= DEC_SCALE as int,
    ensures
        params_spec(e, midpoint).wf(),
{
}

impl QuoteEngine {
    /// Generate the quotes for the current midpoint: the net inventory sets
    /// the skew, the strategy and market set the offsets, tick and levels.
    pub fn compute_quotes(&self, midpoint: Dec) -> (r: Vec<Quote>)
        requires
            self.wf(),
            0 <= midpoint@ <= DEC_SCALE as int,
        ensures
            r@ == quotes_upto(
                params_spec(*self, midpoint),
                params_spec(*self, midpoint).num_levels as int,
            ),
    {
        let net = self.inventory_yes.sub(self.inventory_no);
        let cap = self.config.inventory_cap;
        let skew: Dec = if cap.gt(&Dec::zero()) {
            proof {
                lemma_mul_le(net@, DEC_SCALE as int, 2 * (AMOUNT_MAX as int), DEC_SCALE as int);
            }
            let half = Dec::new(5, 1);
            net.div(cap).min(half).max(half.neg())
        } else {
            Dec::zero()
        };
        let fee_rate_bps: Option<u32> = match self.market.fee_rate_bps {
            Some(f) => Some(f as u32),
            None => None,
        };
        let params = QuoteParams {
            midpoint,
            base_offset_cents: self.config.base_offset_cents,
            min_offset_cents: self.config.min_offset_cents,
            tick_size: self.market.tick_size,
            order_size: self.config.order_size,
            num_levels: self.config.num_levels,
            fee_rate_bps,
            max_incentive_spread: self.market.rewards_max_spread,
            min_incentive_size: self.market.rewards_min_size,
            inventory_skew: skew,
        };
        proof {
            assert(params == params_spec(*self, midpoint));
            lemma_params_wf(*self, midpoint);
        }
        generate_quotes(&params)
    }
}

/// The part of an order's fill not yet folded into the inventory.
pub open spec fn fill_delta(o: TrackedOrder) -> int {
    if o.filled@ > o.accounted@ {
        o.filled@ - o.accounted@
    } else {
        0
    }
}

/// Total unaccounted fill quantity over the first `n` tracked orders.
pub open spec fn pending_fills(orders: Seq<TrackedOrder>, n: int) -> int
    decreases n,
{
    if n <= 0 {
        0
    } else {
        pending_fills(orders, n - 1) + fill_delta(orders[n - 1])
    }
}

/// One order's unaccounted fill folded into the inventory state
/// `(yes, no, bought, sold)`: buys add tokens and bought value, sells remove
/// tokens and add sold value, each at the order's resting price.
pub open spec fn fill_step(o: TrackedOrder, yes_id: Seq<char>, acc: (int, int, int, int)) -> (
    int,
    int,
    int,
    int,
) {
    let delta: int = fill_delta(o);
    if delta == 0 {
        acc
    } else {
        let value: int = dec_mul(delta, o.price@);
        let is_yes: bool = o.token_id@ == yes_id;
        match o.side {
            Side::Buy => (
                acc.0 + if is_yes {
                    delta
                } else {
                    0int
                },
                acc.1 + if is_yes {
                    0int
                } else {
                    delta
                },
                acc.2 + value,
                acc.3,
            ),
            Side::Sell => (
                acc.0 - if is_yes {
                    delta
                } else {
                    0int
                },
                acc.1 - if is_yes {
                    0int
                } else {
                    delta
                },
                acc.2,
                acc.3 + value,
            ),
        }
    }
}

/// The inventory state after folding the unaccounted fills of the first `n`
/// orders, in list order.
pub open spec fn fills_fold(
    orders: Seq<TrackedOrder>,
    yes_id: Seq<char>,
    n: int,
    acc: (int, int, int, int),
) -> (int, int, int, int)
    decreases n,
{
    if n <= 0 {
        acc
    } else {
        fill_step(orders[n - 1], yes_id, fills_fold(orders, yes_id, n - 1, acc))
    }
}

/// An order once its fill has been accounted: `accounted` caught up with
/// `filled`.
pub open spec fn account_one(o: TrackedOrder) -> TrackedOrder {
    if o.filled@ > o.accounted@ {
        TrackedOrder {
            order_id: o.order_id,
            token_id: o.token_id,
            side: o.side,
            price: o.price,
            size: o.size,
            filled: o.filled,
            accounted: o.filled,
            status: o.status,
        }
    } else {
        o
    }
}

/// The tracked list once every fill has been accounted.
pub open spec fn accounted_orders(orders: Seq<TrackedOrder>) -> Seq<TrackedOrder> {
    Seq::new(orders.len(), |i: int| account_one(orders[i]))
}

/// Unaccounted fills are non-negative, at most one amount per order, and
/// grow with the prefix.
pub proof fn lemma_pending_bounds(orders: Seq<TrackedOrder>, n: int)
    requires
        orders_wf(orders),
        0 <= n <= orders.len(),
    ensures
        0 <= pending_fills(orders, n) <= n * (AMOUNT_MAX as int),
        forall|m: int| 0 <= m <= n ==> #[trigger] pending_fills(orders, m) <= pending_fills(
            orders,
            n,
        ),
    decreases n,
{
    if n > 0 {
        lemma_pending_bounds(orders, n - 1);
    }
}

/// Folding fills moves each token count by at most the pending quantity and
/// only grows the bought and sold values, again by at most the pending
/// quantity.
pub proof fn lemma_fold_move(
    orders: Seq<TrackedOrder>,
    yes_id: Seq<char>,
    n: int,
    acc: (int, int, int, int),
)
    requires
        orders_wf(orders),
        0 <= n <= orders.len(),
    ensures
        ({
            let f = fills_fold(orders, yes_id, n, acc);
            let p = pending_fills(orders, n);
            &&& acc.0 - p <= f.0 <= acc.0 + p
            &&& acc.1 - p <= f.1 <= acc.1 + p
            &&& acc.2 <= f.2 <= acc.2 + p
            &&& acc.3 <= f.3 <= acc.3 + p
        }),
    decreases n,
{
    if n > 0 {
        lemma_fold_move(orders, yes_id, n - 1, acc);
        lemma_pending_bounds(orders, n - 1);
        let o = orders[n - 1];
        if fill_delta(o) != 0 {
            lemma_dec_mul_unit(fill_delta(o), o.price@);
        }
    }
}

/// Headroom of a raw inventory state `(yes, no, bought, sold)` for folding a
/// pending quantity `p`: everything stays within the working ranges.
pub open spec fn fill_headroom_plus_init(init: (int, int, int, int), p: int) -> bool {
    &&& init.0 + p <= AMOUNT_MAX as int
    &&& init.0 - p >= -(AMOUNT_MAX as int)
    &&& init.1 + p <= AMOUNT_MAX as int
    &&& init.1 - p >= -(AMOUNT_MAX as int)
    &&& init.2 + p <= AMOUNT_MAX as int
    &&& init.3 + p <= AMOUNT_MAX as int
}

/// Headroom for folding the pending fills plus `extra` more: the inventory
/// stays within the working ranges afterwards.
pub open spec fn fill_headroom_plus(e: QuoteEngine, extra: int) -> bool {
    fill_headroom_plus_init(
        (e.inventory_yes@, e.inventory_no@, e.total_bought_value@, e.total_sold_value@),
        pending_fills(e.tracked_orders@, e.tracked_orders@.len() as int) + extra,
    )
}

/// Headroom for folding exactly the pending fills.
pub open spec fn fill_headroom(e: QuoteEngine) -> bool {
    fill_headroom_plus(e, 0)
}

impl QuoteEngine {
    /// The total unaccounted fill quantity across the tracked orders. The
    /// surrounding loop compares it against the inventory headroom before
    /// asking for the fills to be folded in.
    pub fn pending_fill_volume(&self) -> (r: Dec)
        requires
            self.wf(),
        ensures
            r@ == pending_fills(self.tracked_orders@, self.tracked_orders@.len() as int),
    {
        let mut total = Dec::zero();
        let mut i: usize = 0;
        let n = self.tracked_orders.len();
        while i < n
            invariant
                self.wf(),
                n == self.tracked_orders@.len(),
                0 <= i <= n,
                total@ == pending_fills(self.tracked_orders@, i as int),
            decreases n - i,
        {
            proof {
                lemma_pending_bounds(self.tracked_orders@, i as int);
                assert(self.tracked_orders@[i as int].wf());
            }
            let o = &self.tracked_orders[i];
            if o.filled.gt(&o.accounted) {
                total = total.add(o.filled.sub(o.accounted));
            }
            i = i + 1;
        }
        total
    }

    /// Fold every unaccounted fill into the inventory: buys add tokens and
    /// bought value, sells remove tokens and add sold value, each at the
    /// order's resting price; the orders' accounted marks catch up so a later
    /// pass adds nothing.
    pub fn update_inventory_from_fills(&mut self)
        requires
            old(self).wf(),
            fill_headroom(*old(self)),
        ensures
            ({
                let f = fills_fold(
                    old(self).tracked_orders@,
                    old(self).market.token_yes_id@,
                    old(self).tracked_orders@.len() as int,
                    (
                        old(self).inventory_yes@,
                        old(self).inventory_no@,
                        old(self).total_bought_value@,
                        old(self).total_sold_value@,
                    ),
                );
                &&& final(self).inventory_yes@ == f.0
                &&& final(self).inventory_no@ == f.1
                &&& final(self).total_bought_value@ == f.2
                &&& final(self).total_sold_value@ == f.3
            }),
            final(self).tracked_orders@ == accounted_orders(old(self).tracked_orders@),
            final(self).market == old(self).market,
            final(self).config == old(self).config,
            final(self).dry_run == old(self).dry_run,
            final(self).last_midpoint == old(self).last_midpoint,
            final(self).last_requote_ms == old(self).last_requote_ms,
            final(self).current_quotes == old(self).current_quotes,
            final(self).ws_connected == old(self).ws_connected,
            final(self).wf(),
    {
        let ghost orig = self.tracked_orders@;
        let ghost yes_view = self.market.token_yes_id@;
        let ghost init = (
            self.inventory_yes@,
            self.inventory_no@,
            self.total_bought_value@,
            self.total_sold_value@,
        );
        let mut i: usize = 0;
        let n = self.tracked_orders.len();
        while i < n
            invariant
                old(self).wf(),
                self.market == old(self).market,
                self.config == old(self).config,
                self.dry_run == old(self).dry_run,
                self.last_midpoint == old(self).last_midpoint,
                self.last_requote_ms == old(self).last_requote_ms,
                self.current_quotes == old(self).current_quotes,
                self.ws_connected == old(self).ws_connected,
                orig == old(self).tracked_orders@,
                n == self.tracked_orders@.len() == orig.len() <= 1000,
                0 <= i <= n,
                orders_wf(orig),
                orders_wf(self.tracked_orders@),
                yes_view == self.market.token_yes_id@,
                forall|k: int| 0 <= k < i ==> self.tracked_orders@[k] == account_one(orig[k]),
                forall|k: int| i <= k < n ==> self.tracked_orders@[k] == orig[k],
                (
                    self.inventory_yes@,
                    self.inventory_no@,
                    self.total_bought_value@,
                    self.total_sold_value@,
                ) == fills_fold(orig, yes_view, i as int, init),
                fill_headroom_plus_init(init, pending_fills(orig, n as int)),
            decreases n - i,
        {
            proof {
                lemma_fold_move(orig, yes_view, i as int, init);
                lemma_fold_move(orig, yes_view, i as int + 1, init);
                lemma_pending_bounds(orig, n as int);
                assert(pending_fills(orig, i as int) <= pending_fills(orig, n as int));
                assert(pending_fills(orig, i as int + 1) <= pending_fills(orig, n as int));
                assert(orig[i as int].wf());
                if fill_delta(orig[i as int]) != 0 {
                    lemma_dec_mul_unit(fill_delta(orig[i as int]), orig[i as int].price@);
                }
            }
            let o = self.tracked_orders[i].clone();
            if o.filled.gt(&o.accounted) {
                let delta = o.filled.sub(o.accounted);
                proof {
                    lemma_mul_le(delta@, o.price@, AMOUNT_MAX as int, DEC_SCALE as int);
                }
                let value = delta.mul(o.price);
                let is_yes = o.token_id.eq(&self.market.token_yes_id);
                match o.side {
                    Side::Buy => {
                        if is_yes {
                            self.inventory_yes = self.inventory_yes.add(delta);
                        } else {
                            self.inventory_no = self.inventory_no.add(delta);
                        }
                        self.total_bought_value = self.total_bought_value.add(value);
                    },
                    Side::Sell => {
                        if is_yes {
                            self.inventory_yes = self.inventory_yes.sub(delta);
                        } else {
                            self.inventory_no = self.inventory_no.sub(delta);
                        }
                        self.total_sold_value = self.total_sold_value.add(value);
                    },
                }
                self.tracked_orders.set(
                    i,
                    TrackedOrder {
                        order_id: o.order_id,
                        token_id: o.token_id,
                        side: o.side,
                        price: o.price,
                        size: o.size,
                        filled: o.filled,
                        accounted: o.filled,
                        status: o.status,
                    },
                );
            }
            i = i + 1;
        }
        proof {
            lemma_fold_move(orig, yes_view, n as int, init);
            lemma_pending_bounds(orig, n as int);
            assert(self.tracked_orders@ =~= accounted_orders(orig));
        }
    }
}

/// The order ids of the first `n` tracked orders still resting on the book.
pub open spec fn stale_upto(orders: Seq<TrackedOrder>, n: int) -> Seq<String>
    decreases n,
{
    if n <= 0 {
        Seq::empty()
    } else {
        let prev = stale_upto(orders, n - 1);
        if orders[n - 1].is_active() {
            prev.push(orders[n - 1].order_id)
        } else {
            prev
        }
    }
}

impl QuoteEngine {
    /// The ids of every tracked order still open or partially filled: the
    /// orders to cancel before requoting.
    pub fn stale_order_ids(&self) -> (r: Vec<String>)
        ensures
            r@ == stale_upto(self.tracked_orders@, self.tracked_orders@.len() as int),
    {
        let mut out: Vec<String> = Vec::new();
        let mut i: usize = 0;
        let n = self.tracked_orders.len();
        while i < n
            invariant
                n == self.tracked_orders@.len(),
                0 <= i <= n,
                out@ == stale_upto(self.tracked_orders@, i as int),
            decreases n - i,
        {
            let active = match self.tracked_orders[i].status {
                OrderStatus::Open => true,
                OrderStatus::PartiallyFilled => true,
                OrderStatus::Filled => false,
                OrderStatus::Cancelled => false,
            };
            if active {
                out.push(self.tracked_orders[i].order_id.clone());
            }
            i = i + 1;
        }
        out
    }

    /// Adopt a fresh set of quotes and tracked orders after a requote, and
    /// remember the midpoint and time that triggered it.
    pub fn commit_requote(
        &mut self,
        midpoint: Dec,
        quotes: Vec<Quote>,
        new_orders: Vec<TrackedOrder>,
        now_ms: u64,
    )
        requires
            old(self).wf(),
            0 <= midpoint@ <= DEC_SCALE as int,
            orders_wf(new_orders@),
            new_orders@.len() <= 1000,
        ensures
            final(self).tracked_orders == new_orders,
            final(self).current_quotes == quotes,
            final(self).last_midpoint == Some(midpoint),
            final(self).last_requote_ms == Some(now_ms),
            final(self).market == old(self).market,
            final(self).config == old(self).config,
            final(self).dry_run == old(self).dry_run,
            final(self).inventory_yes == old(self).inventory_yes,
            final(self).inventory_no == old(self).inventory_no,
            final(self).total_bought_value == old(self).total_bought_value,
            final(self).total_sold_value == old(self).total_sold_value,
            final(self).ws_connected == old(self).ws_connected,
            final(self).wf(),
    {
        self.tracked_orders = new_orders;
        self.current_quotes = quotes;
        self.last_midpoint = Some(midpoint);
        self.last_requote_ms = Some(now_ms);
    }

    /// Forget every tracked order, after the exchange has been asked to
    /// cancel them.
    pub fn clear_orders(&mut self)
        requires
            old(self).wf(),
        ensures
            final(self).tracked_orders@.len() == 0,
            final(self).market == old(self).market,
            final(self).config == old(self).config,
            final(self).dry_run == old(self).dry_run,
            final(self).last_midpoint == old(self).last_midpoint,
            final(self).last_requote_ms == old(self).last_requote_ms,
            final(self).current_quotes == old(self).current_quotes,
            final(self).inventory_yes == old(self).inventory_yes,
            final(self).inventory_no == old(self).inventory_no,
            final(self).total_bought_value == old(self).total_bought_value,
            final(self).total_sold_value == old(self).total_sold_value,
            final(self).ws_connected == old(self).ws_connected,
            final(self).wf(),
    {
        self.tracked_orders = Vec::new();
    }
}

/// Two engine states agreeing on everything but the feed flag.
pub open spec fn unchanged_but_ws(a: QuoteEngine, b: QuoteEngine) -> bool {
    &&& b.market == a.market
    &&& b.config == a.config
    &&& b.dry_run == a.dry_run
    &&& b.last_midpoint == a.last_midpoint
    &&& b.last_requote_ms == a.last_requote_ms
    &&& b.current_quotes == a.current_quotes
    &&& b.tracked_orders == a.tracked_orders
    &&& b.inventory_yes == a.inventory_yes
    &&& b.inventory_no == a.inventory_no
    &&& b.total_bought_value == a.total_bought_value
    &&& b.total_sold_value == a.total_sold_value
}

/// The first tracked order, among the first `n`, still resting on the book
/// under the given id.
pub open spec fn find_active_order(orders: Seq<TrackedOrder>, id: Seq<char>, n: int) -> Option<
    int,
>
    decreases n,
{
    if n <= 0 {
        None
    } else {
        match find_active_order(orders, id, n - 1) {
            Some(k) => Some(k),
            None => {
                if orders[n - 1].is_active() && orders[n - 1].order_id@ == id {
                    Some(n - 1)
                } else {
                    None
                }
            },
        }
    }
}

/// Find the first tracked order resting on the book under the given id.
fn find_active_index(orders: &Vec<TrackedOrder>, id: &String) -> (r: Option<usize>)
    ensures
        match r {
            Some(j) => j < orders@.len() && find_active_order(
                orders@,
                id@,
                orders@.len() as int,
            ) == Some(j as int),
            None => find_active_order(orders@, id@, orders@.len() as int) is None,
        },
{
    let n = orders.len();
    let mut j: usize = 0;
    while j < n
        invariant
            n == orders@.len(),
            0 <= j <= n,
            find_active_order(orders@, id@, j as int) is None,
        decreases n - j,
    {
        let o = &orders[j];
        let active = match o.status {
            OrderStatus::Open => true,
            OrderStatus::PartiallyFilled => true,
            OrderStatus::Filled => false,
            OrderStatus::Cancelled => false,
        };
        if active && o.order_id.eq(id) {
            proof {
                lemma_find_stable(orders@, id@, j as int, n as int);
            }
            return Some(j);
        }
        j = j + 1;
    }
    None
}

/// Once a match is found at `i`, every longer prefix finds the same one.
proof fn lemma_find_stable(orders: Seq<TrackedOrder>, id: Seq<char>, i: int, n: int)
    requires
        0 <= i < n <= orders.len(),
        find_active_order(orders, id, i) is None,
        orders[i].is_active() && orders[i].order_id@ == id,
    ensures
        find_active_order(orders, id, n) == Some(i),
    decreases n,
{
    if n > i + 1 {
        lemma_find_stable(orders, id, i, n - 1);
    }
}

/// A tracked order after a fill of `size` reported by the feed: the fill is
/// capped at the order's size; the order becomes `Filled` when everything is
/// matched, else `PartiallyFilled` once anything is.
pub open spec fn fill_order_update(o: TrackedOrder, size: Dec) -> TrackedOrder {
    let nf: int = vstd::math::min(o.filled@ + size@, o.size@);
    TrackedOrder {
        order_id: o.order_id,
        token_id: o.token_id,
        side: o.side,
        price: o.price,
        size: o.size,
        filled: dec_of(nf),
        accounted: o.accounted,
        status: if nf >= o.size@ {
            OrderStatus::Filled
        } else if nf > 0 {
            OrderStatus::PartiallyFilled
        } else {
            o.status
        },
    }
}

impl QuoteEngine {
    /// React to one feed event. A midpoint update is stored and answers
    /// whether the caller should requote; a fill is folded into the matching
    /// tracked order and the inventory; connection changes flip the feed
    /// flag; book updates are ignored.
    pub fn handle_ws_event(&mut self, event: WsEvent, now_ms: u64) -> (requote: bool)
        requires
            old(self).wf(),
            event.wf(),
            match event {
                WsEvent::OrderFill { size, .. } => fill_headroom_plus(*old(self), size@),
                _ => true,
            },
        ensures
            match event {
                WsEvent::MidpointUpdate { asset_id, midpoint } => {
                    &&& requote == should_requote_spec(*old(self), midpoint@, now_ms)
                    &&& final(self).last_midpoint == Some(midpoint)
                    &&& final(self).tracked_orders == old(self).tracked_orders
                    &&& final(self).inventory_yes == old(self).inventory_yes
                    &&& final(self).inventory_no == old(self).inventory_no
                    &&& final(self).total_bought_value == old(self).total_bought_value
                    &&& final(self).total_sold_value == old(self).total_sold_value
                    &&& final(self).ws_connected == old(self).ws_connected
                    &&& final(self).last_requote_ms == old(self).last_requote_ms
                    &&& final(self).current_quotes == old(self).current_quotes
                    &&& final(self).market == old(self).market
                    &&& final(self).config == old(self).config
                    &&& final(self).dry_run == old(self).dry_run
                },
                WsEvent::BookUpdate { .. } => requote == false && *final(self) == *old(self),
                WsEvent::Disconnected => {
                    &&& requote == false
                    &&& final(self).ws_connected == false
                    &&& unchanged_but_ws(*old(self), *final(self))
                },
                WsEvent::Reconnected => {
                    &&& requote == false
                    &&& final(self).ws_connected == true
                    &&& unchanged_but_ws(*old(self), *final(self))
                },
                WsEvent::OrderFill { order_id, size, price } => {
                    &&& requote == false
                    &&& match find_active_order(
                        old(self).tracked_orders@,
                        order_id@,
                        old(self).tracked_orders@.len() as int,
                    ) {
                        None => *final(self) == *old(self),
                        Some(j) => {
                            let updated = old(self).tracked_orders@.update(
                                j,
                                fill_order_update(old(self).tracked_orders@[j], size),
                            );
                            let f = fills_fold(
                                updated,
                                old(self).market.token_yes_id@,
                                updated.len() as int,
                                (
                                    old(self).inventory_yes@,
                                    old(self).inventory_no@,
                                    old(self).total_bought_value@,
                                    old(self).total_sold_value@,
                                ),
                            );
                            &&& final(self).tracked_orders@ == accounted_orders(updated)
                            &&& final(self).inventory_yes@ == f.0
                            &&& final(self).inventory_no@ == f.1
                            &&& final(self).total_bought_value@ == f.2
                            &&& final(self).total_sold_value@ == f.3
                            &&& final(self).market == old(self).market
                            &&& final(self).config == old(self).config
                            &&& final(self).ws_connected == old(self).ws_connected
                            &&& final(self).last_midpoint == old(self).last_midpoint
                            &&& final(self).last_requote_ms == old(self).last_requote_ms
                            &&& final(self).current_quotes == old(self).current_quotes
                            &&& final(self).dry_run == old(self).dry_run
                        },
                    }
                },
            },
            final(self).wf(),
    {
        match event {
            WsEvent::MidpointUpdate { asset_id: _, midpoint } => {
                let r = self.should_requote(midpoint, now_ms);
                self.last_midpoint = Some(midpoint);
                r
            },
            WsEvent::BookUpdate { .. } => false,
            WsEvent::Disconnected => {
                self.ws_connected = false;
                false
            },
            WsEvent::Reconnected => {
                self.ws_connected = true;
                false
            },
            WsEvent::OrderFill { order_id, size, price: _ } => {
                let j = match find_active_index(&self.tracked_orders, &order_id) {
                    Some(j) => j,
                    None => {
                        return false;
                    },
                };
                let o = self.tracked_orders[j].clone();
                proof {
                    assert(o.wf());
                }
                let new_filled = o.filled.add(size).min(o.size);
                let new_status = if new_filled.ge(&o.size) {
                    OrderStatus::Filled
                } else if new_filled.gt(&Dec::zero()) {
                    OrderStatus::PartiallyFilled
                } else {
                    o.status
                };
                self.tracked_orders.set(
                    j,
                    TrackedOrder {
                        order_id: o.order_id,
                        token_id: o.token_id,
                        side: o.side,
                        price: o.price,
                        size: o.size,
                        filled: new_filled,
                        accounted: o.accounted,
                        status: new_status,
                    },
                );
                proof {
                    lemma_pending_update(
                        old(self).tracked_orders@,
                        self.tracked_orders@,
                        j as int,
                        size@,
                    );
                }
                self.update_inventory_from_fills();
                false
            },
        }
    }
}

/// Updating one order with a fill of `size` raises the pending quantity by
/// at most `size`.
proof fn lemma_pending_update(
    before: Seq<TrackedOrder>,
    after: Seq<TrackedOrder>,
    j: int,
    size: int,
)
    requires
        before.len() == after.len(),
        0 <= j < before.len(),
        size >= 0,
        forall|k: int| 0 <= k < before.len() && k != j ==> after[k] == before[k],
        fill_delta(after[j]) <= fill_delta(before[j]) + size,
    ensures
        pending_fills(after, after.len() as int) <= pending_fills(before, before.len() as int)
            + size,
{
    lemma_pending_update_rec(before, after, j, size, before.len() as int);
}

proof fn lemma_pending_update_rec(
    before: Seq<TrackedOrder>,
    after: Seq<TrackedOrder>,
    j: int,
    size: int,
    n: int,
)
    requires
        before.len() == after.len(),
        0 <= j < before.len(),
        size >= 0,
        0 <= n <= before.len(),
        forall|k: int| 0 <= k < before.len() && k != j ==> after[k] == before[k],
        fill_delta(after[j]) <= fill_delta(before[j]) + size,
    ensures
        pending_fills(after, n) <= pending_fills(before, n) + if n > j {
            size
        } else {
            0int
        },
    decreases n,
{
    if n > 0 {
        lemma_pending_update_rec(before, after, j, size, n - 1);
    }
}

} // verus!
