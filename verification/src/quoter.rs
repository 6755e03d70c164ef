//! Pure price and score mathematics: fee-aware offsets, tick alignment,
//! multi-level quote generation with inventory skew, and the quadratic
//! incentive-score model.

use vstd::prelude::*;

use crate::fixed::{
    align_spec, dec_div, dec_mul, lemma_dec_div_mono, lemma_dec_div_unit, lemma_dec_mul_mono_left,
    lemma_dec_mul_unit, lemma_mul_le, lemma_rhe_close, lemma_rhe_multiple, lemma_tdiv_bounds,
    lemma_tdiv_exact, lemma_tdiv_quotient_bound, rhe_i128, Dec, AMOUNT_MAX, DEC_SCALE,
};

verus! {

/// Upper bound on offsets expressed in cents, and on the resulting price
/// offsets, in atoms.
pub const OFFSET_MAX: i128 = 1_000_000_000_000_000;

/// A proposed quote with bid and ask prices for a single level.
#[derive(Clone, Copy, Debug, PartialEq, Eq, Structural)]
pub struct Quote {
    pub bid_price: Dec,
    pub ask_price: Dec,
    pub size: Dec,
    pub level: u32,
}

/// Parameters needed to generate quotes.
#[derive(Clone, Copy, Debug)]
pub struct QuoteParams {
    pub midpoint: Dec,
    pub base_offset_cents: Dec,
    pub min_offset_cents: Dec,
    pub tick_size: Dec,
    pub order_size: Dec,
    pub num_levels: u32,
    /// Fee rate in basis points (e.g., 200 = 2%). None if no fees.
    pub fee_rate_bps: Option<u32>,
    /// Maximum spread from midpoint that still earns rewards.
    pub max_incentive_spread: Option<Dec>,
    /// Minimum order size for reward scoring.
    pub min_incentive_size: Option<Dec>,
    /// Inventory skew: positive = long (widen bid, tighten ask).
    pub inventory_skew: Dec,
}

impl QuoteParams {
    /// Ranges under which quote generation is meaningful and overflow-free:
    /// prices in `[0, 1]`, offsets below [`OFFSET_MAX`], sizes below
    /// [`AMOUNT_MAX`], skew in `[-1/2, 1/2]`.
    pub open spec fn wf(&self) -> bool {
        &&& 0 <= self.midpoint@ <= DEC_SCALE as int
        &&& 0 <= self.base_offset_cents@ <= OFFSET_MAX as int
        &&& 0 <= self.min_offset_cents@ <= OFFSET_MAX as int
        &&& 0 <= self.tick_size@ <= DEC_SCALE as int
        &&& 0 <= self.order_size@ <= AMOUNT_MAX as int
        &&& -500_000_000 <= self.inventory_skew@ <= 500_000_000
        &&& match self.max_incentive_spread {
            Some(s) => 0 <= s@ <= DEC_SCALE as int,
            None => true,
        }
        &&& match self.min_incentive_size {
            Some(m) => 0 <= m@ <= AMOUNT_MAX as int,
            None => true,
        }
    }
}

/// The one-sided distance from midpoint, before level widening:
/// `max(min_offset, fee_at_mid / 2 + base)` with the fee term present only on
/// fee-enabled markets. Offsets arrive in cents and are divided by 100.
pub open spec fn offset_spec(p: QuoteParams) -> int {
    let base: int = dec_div(p.base_offset_cents@, 100 * (DEC_SCALE as int));
    let fee_offset: int = match p.fee_rate_bps {
        Some(bps) => {
            let fee_rate: int = bps as int * 100_000;
            let fee_at_mid: int = dec_mul(
                dec_mul(fee_rate, p.midpoint@),
                DEC_SCALE as int - p.midpoint@,
            );
            dec_div(fee_at_mid, 2 * (DEC_SCALE as int)) + base
        },
        None => base,
    };
    let min_offset: int = dec_div(p.min_offset_cents@, 100 * (DEC_SCALE as int));
    if fee_offset >= min_offset {
        fee_offset
    } else {
        min_offset
    }
}

/// Offset widened for a level: each level is 10% wider than the base.
pub open spec fn level_offset_spec(p: QuoteParams, level: u32) -> int {
    offset_spec(p) + dec_mul(offset_spec(p), level as int * 100_000_000)
}

/// Bid-side offset after inventory skew.
pub open spec fn bid_offset_spec(p: QuoteParams, level: u32) -> int {
    dec_mul(level_offset_spec(p, level), DEC_SCALE as int + p.inventory_skew@)
}

/// Ask-side offset after inventory skew.
pub open spec fn ask_offset_spec(p: QuoteParams, level: u32) -> int {
    dec_mul(level_offset_spec(p, level), DEC_SCALE as int - p.inventory_skew@)
}

/// Bid price of a level, aligned to the tick.
pub open spec fn level_bid_spec(p: QuoteParams, level: u32) -> int {
    align_spec(p.midpoint@ - bid_offset_spec(p, level), p.tick_size@)
}

/// Ask price of a level, aligned to the tick.
pub open spec fn level_ask_spec(p: QuoteParams, level: u32) -> int {
    align_spec(p.midpoint@ + ask_offset_spec(p, level), p.tick_size@)
}

/// Whether a level's prices are admissible: strictly inside `(0, 1)` and with
/// a positive spread.
pub open spec fn level_ok(p: QuoteParams, level: u32) -> bool {
    &&& level_bid_spec(p, level) > 0
    &&& level_ask_spec(p, level) < DEC_SCALE as int
    &&& level_bid_spec(p, level) < level_ask_spec(p, level)
}

/// The quote emitted for an admissible level.
pub open spec fn quote_at(p: QuoteParams, level: u32) -> Quote {
    Quote {
        bid_price: Dec { atoms: level_bid_spec(p, level) as i128 },
        ask_price: Dec { atoms: level_ask_spec(p, level) as i128 },
        size: p.order_size,
        level,
    }
}

/// The quotes for levels `0 .. n`, keeping only admissible levels, in level
/// order.
pub open spec fn quotes_upto(p: QuoteParams, n: int) -> Seq<Quote>
    decreases n,
{
    if n <= 0 {
        Seq::empty()
    } else {
        let prev = quotes_upto(p, n - 1);
        if level_ok(p, (n - 1) as u32) {
            prev.push(quote_at(p, (n - 1) as u32))
        } else {
            prev
        }
    }
}

/// The base offset lies in `[0, OFFSET_MAX]`.
pub proof fn lemma_offset_bounds(p: QuoteParams)
    requires
        p.wf(),
    ensures
        0 <= offset_spec(p) <= OFFSET_MAX as int,
{
    let s: int = DEC_SCALE as int;
    let base: int = dec_div(p.base_offset_cents@, 100 * s);
    lemma_tdiv_quotient_bound(p.base_offset_cents@ * s, 100 * s, 10_000_000_000_000int);
    lemma_tdiv_bounds(p.base_offset_cents@ * s, 100 * s);
    let min_offset: int = dec_div(p.min_offset_cents@, 100 * s);
    lemma_tdiv_quotient_bound(p.min_offset_cents@ * s, 100 * s, 10_000_000_000_000int);
    lemma_tdiv_bounds(p.min_offset_cents@ * s, 100 * s);
    match p.fee_rate_bps {
        Some(bps) => {
            let fee_rate: int = bps as int * 100_000;
            let t1: int = dec_mul(fee_rate, p.midpoint@);
            lemma_dec_mul_unit(fee_rate, p.midpoint@);
            let t2: int = dec_mul(t1, s - p.midpoint@);
            lemma_dec_mul_unit(t1, s - p.midpoint@);
            let half: int = dec_div(t2, 2 * s);
            lemma_tdiv_quotient_bound(t2 * s, 2 * s, t2);
            lemma_tdiv_bounds(t2 * s, 2 * s);
        },
        None => {},
    }
}

/// All intermediate offsets and prices of a level stay within a few times
/// [`AMOUNT_MAX`], so 128-bit arithmetic never overflows.
pub proof fn lemma_level_bounds(p: QuoteParams, level: u32)
    requires
        p.wf(),
    ensures
        0 <= level_offset_spec(p, level) <= 2 * (AMOUNT_MAX as int),
        vstd::math::abs(bid_offset_spec(p, level)) <= 3 * (AMOUNT_MAX as int),
        vstd::math::abs(ask_offset_spec(p, level)) <= 3 * (AMOUNT_MAX as int),
        vstd::math::abs(level_bid_spec(p, level)) <= 5 * (AMOUNT_MAX as int),
        vstd::math::abs(level_ask_spec(p, level)) <= 5 * (AMOUNT_MAX as int),
{
    let s: int = DEC_SCALE as int;
    lemma_offset_bounds(p);
    let off: int = offset_spec(p);
    let lf: int = level as int * 100_000_000;
    lemma_mul_le(off, lf, OFFSET_MAX as int, 500_000_000_000_000_000int);
    lemma_tdiv_quotient_bound(off * lf, s, AMOUNT_MAX as int);
    lemma_tdiv_bounds(off * lf, s);
    assert(off * lf >= 0) by (nonlinear_arith)
        requires
            off >= 0,
            lf >= 0,
    ;
    let lo: int = level_offset_spec(p, level);
    lemma_mul_le(lo, s + p.inventory_skew@, 2 * (AMOUNT_MAX as int), 1_500_000_000int);
    lemma_tdiv_quotient_bound(lo * (s + p.inventory_skew@), s, 3 * (AMOUNT_MAX as int));
    lemma_mul_le(lo, s - p.inventory_skew@, 2 * (AMOUNT_MAX as int), 1_500_000_000int);
    lemma_tdiv_quotient_bound(lo * (s - p.inventory_skew@), s, 3 * (AMOUNT_MAX as int));
    if p.tick_size@ != 0 {
        lemma_rhe_close(p.midpoint@ - bid_offset_spec(p, level), p.tick_size@);
        lemma_rhe_close(p.midpoint@ + ask_offset_spec(p, level), p.tick_size@);
    }
}

/// Compute the fee-aware offset: on fee-enabled markets the taker fee at the
/// midpoint (`fee_rate * m * (1 - m)`) is halved and added to the base
/// spread; the result never falls below the configured minimum offset.
pub fn compute_offset(params: &QuoteParams) -> (r: Dec)
    requires
        params.wf(),
    ensures
        r@ == offset_spec(*params),
{
    proof {
        lemma_offset_bounds(*params);
    }
    let hundred = Dec::from_int(100);
    let base_offset = params.base_offset_cents.div(hundred);
    let fee_offset = match params.fee_rate_bps {
        Some(bps) => {
            let fee_rate = Dec::new(bps as i64, 4);
            let p = params.midpoint;
            proof {
                lemma_dec_mul_unit(fee_rate@, p@);
                lemma_mul_le(fee_rate@, p@, 430_000_000_000_000int, DEC_SCALE as int);
            }
            let t1 = fee_rate.mul(p);
            proof {
                lemma_dec_mul_unit(t1@, DEC_SCALE as int - p@);
                lemma_mul_le(t1@, DEC_SCALE as int - p@, 430_000_000_000_000int, DEC_SCALE as int);
            }
            let fee_at_mid = t1.mul(Dec::one().sub(p));
            proof {
                lemma_tdiv_quotient_bound(fee_at_mid@ * (DEC_SCALE as int), 2 * (DEC_SCALE as int), fee_at_mid@);
                lemma_tdiv_bounds(fee_at_mid@ * (DEC_SCALE as int), 2 * (DEC_SCALE as int));
            }
            fee_at_mid.div(Dec::from_int(2)).add(base_offset)
        },
        None => base_offset,
    };
    let min_offset = params.min_offset_cents.div(hundred);
    fee_offset.max(min_offset)
}

/// Align a price to the market's tick size: round to the nearest multiple of
/// the tick, ties to the even multiple. A zero tick returns the price
/// unchanged.
pub fn align_to_tick(price: Dec, tick_size: Dec) -> (r: Dec)
    requires
        tick_size@ >= 0,
        -(i128::MAX as int) + tick_size@ <= price@ <= (i128::MAX as int) - tick_size@,
    ensures
        r@ == align_spec(price@, tick_size@),
{
    if tick_size.atoms == 0 {
        return price;
    }
    proof {
        lemma_rhe_close(price@, tick_size@);
    }
    let q: i128 = rhe_i128(price.atoms, tick_size.atoms);
    Dec { atoms: q * tick_size.atoms }
}

/// Generate quotes for each level on both sides. Level `L` widens the base
/// offset by `10% * L`; positive skew widens the bid and tightens the ask;
/// prices are tick-aligned and levels that leave `(0, 1)` or cross are
/// dropped.
pub fn generate_quotes(params: &QuoteParams) -> (r: Vec<Quote>)
    requires
        params.wf(),
    ensures
        r@ == quotes_upto(*params, params.num_levels as int),
        forall|i: int|
            0 <= i < r@.len() ==> {
                let q = #[trigger] r@[i];
                &&& 0 < q.bid_price@ < q.ask_price@ < DEC_SCALE as int
                &&& q.size == params.order_size
                &&& params.tick_size@ > 0 ==> q.bid_price@ % params.tick_size@ == 0
                    && q.ask_price@ % params.tick_size@ == 0
            },
{
    proof {
        lemma_quote_validity(*params, params.num_levels as int);
    }
    let base_offset = compute_offset(params);
    let mut quotes: Vec<Quote> = Vec::new();
    let mut level: u32 = 0;
    while level < params.num_levels
        invariant
            params.wf(),
            base_offset@ == offset_spec(*params),
            level <= params.num_levels,
            quotes@ == quotes_upto(*params, level as int),
        decreases params.num_levels - level,
    {
        proof {
            lemma_level_bounds(*params, level);
            lemma_offset_bounds(*params);
            lemma_mul_le(
                offset_spec(*params),
                level as int * 100_000_000,
                OFFSET_MAX as int,
                500_000_000_000_000_000int,
            );
            lemma_mul_le(
                level_offset_spec(*params, level),
                DEC_SCALE as int + params.inventory_skew@,
                2 * (AMOUNT_MAX as int),
                1_500_000_000int,
            );
            lemma_mul_le(
                level_offset_spec(*params, level),
                DEC_SCALE as int - params.inventory_skew@,
                2 * (AMOUNT_MAX as int),
                1_500_000_000int,
            );
        }
        let level_factor = Dec::new(level as i64, 1);
        let level_offset = base_offset.add(base_offset.mul(level_factor));
        let one = Dec::one();
        let bid_offset = level_offset.mul(one.add(params.inventory_skew));
        let ask_offset = level_offset.mul(one.sub(params.inventory_skew));
        let raw_bid = params.midpoint.sub(bid_offset);
        let raw_ask = params.midpoint.add(ask_offset);
        let bid_price = align_to_tick(raw_bid, params.tick_size);
        let ask_price = align_to_tick(raw_ask, params.tick_size);
        if bid_price.atoms > 0 && ask_price.atoms < DEC_SCALE && bid_price.atoms < ask_price.atoms {
            quotes.push(
                Quote { bid_price, ask_price, size: params.order_size, level },
            );
            proof {
                assert(quotes@ == quotes_upto(*params, level as int + 1));
            }
        } else {
            proof {
                assert(!level_ok(*params, level));
            }
        }
        level = level + 1;
    }
    quotes
}

/// The quadratic incentive score of one resting order:
/// `((v - dist) / v)^2 * size`, zero when the order is too small or rests
/// outside the reward band. `v` defaults to five cents when the market does
/// not state a band.
pub open spec fn score_spec(
    midpoint: int,
    price: int,
    size: int,
    max_spread: Option<Dec>,
    min_size: Option<Dec>,
) -> int {
    let distance: int = vstd::math::abs(midpoint - price) as int;
    let too_small: bool = match min_size {
        Some(ms) => size < ms@,
        None => false,
    };
    if too_small {
        0
    } else {
        let out_of_band: bool = match max_spread {
            Some(sp) => distance > sp@,
            None => false,
        };
        if out_of_band {
            0
        } else {
            let v: int = match max_spread {
                Some(sp) => sp@,
                None => 50_000_000,
            };
            if v == 0 {
                0
            } else {
                let ratio: int = dec_div(v - distance, v);
                dec_mul(dec_mul(ratio, ratio), size)
            }
        }
    }
}

/// Calculate the quadratic incentive score for a quote resting `price` away
/// from `midpoint`.
pub fn estimate_score(
    midpoint: Dec,
    price: Dec,
    size: Dec,
    max_spread: Option<Dec>,
    min_size: Option<Dec>,
) -> (r: Dec)
    requires
        0 <= midpoint@ <= DEC_SCALE as int,
        0 <= price@ <= DEC_SCALE as int,
        0 <= size@ <= AMOUNT_MAX as int,
        match max_spread {
            Some(s) => 0 <= s@ <= DEC_SCALE as int,
            None => true,
        },
    ensures
        r@ == score_spec(midpoint@, price@, size@, max_spread, min_size),
{
    let distance = midpoint.sub(price).abs();
    if let Some(min_sz) = min_size {
        if size.lt(&min_sz) {
            return Dec::zero();
        }
    }
    let v: Dec = match max_spread {
        Some(spread) => {
            if distance.gt(&spread) {
                return Dec::zero();
            }
            spread
        },
        None => Dec::new(5, 2),
    };
    if v.is_zero() {
        return Dec::zero();
    }
    proof {
        if distance@ <= v@ {
            lemma_dec_div_unit(v@ - distance@, v@);
        } else {
            // Only reachable without a stated band, where v is five cents.
            lemma_tdiv_quotient_bound(
                (v@ - distance@) * (DEC_SCALE as int),
                v@,
                20_000_000_000int,
            );
        }
    }
    let ratio = v.sub(distance).div(v);
    proof {
        lemma_mul_le(ratio@, ratio@, 20_000_000_000int, 20_000_000_000int);
        lemma_tdiv_quotient_bound(ratio@ * ratio@, DEC_SCALE as int, 400_000_000_000int);
        lemma_mul_le(dec_mul(ratio@, ratio@), size@, 400_000_000_000int, AMOUNT_MAX as int);
    }
    ratio.mul(ratio).mul(size)
}

/// The two-sided bonus: the balanced part counts fully, the single-sided
/// surplus at one third.
pub open spec fn two_sided_spec(a: int, b: int) -> int {
    let lo: int = vstd::math::min(a, b);
    let hi: int = vstd::math::max(a, b);
    lo + dec_div(hi - lo, 3 * (DEC_SCALE as int))
}

/// Calculate the two-sided bonus from the two per-side scores.
pub fn two_sided_score(bid_score: Dec, ask_score: Dec) -> (r: Dec)
    requires
        vstd::math::abs(bid_score@) <= AMOUNT_MAX as int,
        vstd::math::abs(ask_score@) <= AMOUNT_MAX as int,
    ensures
        r@ == two_sided_spec(bid_score@, ask_score@),
{
    let q_min = bid_score.min(ask_score);
    let q_max = bid_score.max(ask_score);
    proof {
        assert(0 <= (q_max@ - q_min@) * (DEC_SCALE as int) <= (q_max@ - q_min@) * (3 * (
        DEC_SCALE as int))) by (nonlinear_arith)
            requires
                q_max@ >= q_min@,
        ;
        lemma_tdiv_quotient_bound(
            (q_max@ - q_min@) * (DEC_SCALE as int),
            3 * (DEC_SCALE as int),
            q_max@ - q_min@,
        );
        lemma_tdiv_bounds((q_max@ - q_min@) * (DEC_SCALE as int), 3 * (DEC_SCALE as int));
    }
    q_min.add(q_max.sub(q_min).div(Dec::from_int(3)))
}

/// Tick alignment moves a price by at most half a tick and lands on an exact
/// multiple of the tick.
pub proof fn lemma_align_to_tick_props(price: int, tick: int)
    requires
        tick > 0,
    ensures
        2 * vstd::math::abs(align_spec(price, tick) - price) <= tick,
        align_spec(price, tick) % tick == 0,
{
    lemma_rhe_close(price, tick);
    lemma_rhe_multiple(price, tick);
}

/// Every quote that `generate_quotes` emits has `0 < bid < ask < 1`, carries
/// the configured size, and both prices are exact multiples of a positive
/// tick.
pub proof fn lemma_quote_validity(p: QuoteParams, n: int)
    requires
        p.wf(),
    ensures
        forall|i: int|
            0 <= i < quotes_upto(p, n).len() ==> {
                let q = #[trigger] quotes_upto(p, n)[i];
                &&& 0 < q.bid_price@ < q.ask_price@ < DEC_SCALE as int
                &&& q.size == p.order_size
                &&& p.tick_size@ > 0 ==> q.bid_price@ % p.tick_size@ == 0 && q.ask_price@
                    % p.tick_size@ == 0
            },
    decreases n,
{
    if n > 0 {
        lemma_quote_validity(p, n - 1);
        let level: u32 = (n - 1) as u32;
        let prev = quotes_upto(p, n - 1);
        if level_ok(p, level) {
            lemma_level_bounds(p, level);
            if p.tick_size@ > 0 {
                lemma_rhe_multiple(p.midpoint@ - bid_offset_spec(p, level), p.tick_size@);
                lemma_rhe_multiple(p.midpoint@ + ask_offset_spec(p, level), p.tick_size@);
            }
            assert(quotes_upto(p, n) == prev.push(quote_at(p, level)));
            assert forall|i: int| 0 <= i < quotes_upto(p, n).len() implies {
                let q = #[trigger] quotes_upto(p, n)[i];
                &&& 0 < q.bid_price@ < q.ask_price@ < DEC_SCALE as int
                &&& q.size == p.order_size
                &&& p.tick_size@ > 0 ==> q.bid_price@ % p.tick_size@ == 0 && q.ask_price@
                    % p.tick_size@ == 0
            } by {
                if i < prev.len() {
                    assert(quotes_upto(p, n)[i] == prev[i]);
                } else {
                    assert(quotes_upto(p, n)[i] == quote_at(p, level));
                }
            }
        } else {
            assert(quotes_upto(p, n) == prev);
        }
    }
}

/// Holding everything else fixed, a higher fee rate never yields a smaller
/// offset.
pub proof fn lemma_offset_fee_monotonic(p1: QuoteParams, p2: QuoteParams, f1: u32, f2: u32)
    requires
        p1.wf(),
        p2.wf(),
        p1.fee_rate_bps == Some(f1),
        p2.fee_rate_bps == Some(f2),
        f1 <= f2,
        p1.midpoint == p2.midpoint,
        p1.base_offset_cents == p2.base_offset_cents,
        p1.min_offset_cents == p2.min_offset_cents,
    ensures
        offset_spec(p1) <= offset_spec(p2),
{
    let s: int = DEC_SCALE as int;
    let m: int = p1.midpoint@;
    let r1: int = f1 as int * 100_000;
    let r2: int = f2 as int * 100_000;
    lemma_dec_mul_mono_left(r1, r2, m);
    lemma_dec_mul_mono_left(dec_mul(r1, m), dec_mul(r2, m), s - m);
    lemma_dec_div_mono(
        dec_mul(dec_mul(r1, m), s - m),
        dec_mul(dec_mul(r2, m), s - m),
        2 * s,
    );
}

/// Negating the skew swaps the bid and ask offsets of every level.
pub proof fn lemma_skew_symmetry(p1: QuoteParams, p2: QuoteParams, level: u32)
    requires
        p1.wf(),
        p2.wf(),
        p2.inventory_skew@ == -p1.inventory_skew@,
        p1.midpoint == p2.midpoint,
        p1.base_offset_cents == p2.base_offset_cents,
        p1.min_offset_cents == p2.min_offset_cents,
        p1.fee_rate_bps == p2.fee_rate_bps,
    ensures
        bid_offset_spec(p1, level) == ask_offset_spec(p2, level),
        ask_offset_spec(p1, level) == bid_offset_spec(p2, level),
{
    assert(offset_spec(p1) == offset_spec(p2));
}

/// The incentive score lies in `[0, size]`. When the market does not state a
/// reward band, this holds for prices within twice the five-cent default;
/// further out the quadratic model extrapolates above `size`.
pub proof fn lemma_score_bounds(
    midpoint: int,
    price: int,
    size: int,
    max_spread: Option<Dec>,
    min_size: Option<Dec>,
)
    requires
        0 <= midpoint <= DEC_SCALE as int,
        0 <= price <= DEC_SCALE as int,
        size >= 0,
        match max_spread {
            Some(s) => 0 <= s@ <= DEC_SCALE as int,
            None => vstd::math::abs(midpoint - price) <= 100_000_000,
        },
    ensures
        0 <= score_spec(midpoint, price, size, max_spread, min_size) <= size,
{
    let s: int = DEC_SCALE as int;
    let distance: int = vstd::math::abs(midpoint - price) as int;
    let too_small: bool = match min_size {
        Some(ms) => size < ms@,
        None => false,
    };
    let out_of_band: bool = match max_spread {
        Some(sp) => distance > sp@,
        None => false,
    };
    if !too_small && !out_of_band {
        let v: int = match max_spread {
            Some(sp) => sp@,
            None => 50_000_000,
        };
        if v != 0 {
            let ratio: int = dec_div(v - distance, v);
            match max_spread {
                Some(sp) => {
                    lemma_dec_div_unit(v - distance, v);
                },
                None => {
                    lemma_tdiv_quotient_bound((v - distance) * s, v, s);
                },
            }
            let r2: int = dec_mul(ratio, ratio);
            lemma_mul_le(ratio, ratio, s, s);
            lemma_tdiv_quotient_bound(ratio * ratio, s, s);
            assert(ratio * ratio >= 0) by (nonlinear_arith);
            lemma_tdiv_bounds(ratio * ratio, s);
            lemma_mul_le(r2, size, s, size);
            lemma_tdiv_quotient_bound(r2 * size, s, size);
            assert(r2 * size >= 0) by (nonlinear_arith)
                requires
                    r2 >= 0,
                    size >= 0,
            ;
            lemma_tdiv_bounds(r2 * size, s);
        }
    }
}

/// A quote resting exactly at the midpoint with sufficient size earns the
/// full score, provided the reward band is not degenerate.
pub proof fn lemma_score_at_midpoint(
    midpoint: int,
    size: int,
    max_spread: Option<Dec>,
    min_size: Option<Dec>,
)
    requires
        0 <= midpoint <= DEC_SCALE as int,
        0 <= size,
        match max_spread {
            Some(s) => s@ > 0,
            None => true,
        },
        match min_size {
            Some(ms) => size >= ms@,
            None => true,
        },
    ensures
        score_spec(midpoint, midpoint, size, max_spread, min_size) == size,
{
    let s: int = DEC_SCALE as int;
    let v: int = match max_spread {
        Some(sp) => sp@,
        None => 50_000_000,
    };
    lemma_dec_div_unit(v, v);
    lemma_tdiv_exact(s, s);
    assert(s * s == (DEC_SCALE as int) * (DEC_SCALE as int));
    assert(dec_mul(s, s) == s) by {
        lemma_tdiv_exact(s, s);
    }
    assert(dec_mul(s, size) == size) by {
        lemma_tdiv_exact(size, s);
        assert(s * size == size * s) by (nonlinear_arith);
    }
}

/// The two-sided bonus is symmetric, lies between its inputs, and equals both
/// when they agree.
pub proof fn lemma_two_sided_props(a: int, b: int)
    ensures
        two_sided_spec(a, b) == two_sided_spec(b, a),
        vstd::math::min(a, b) <= two_sided_spec(a, b) <= vstd::math::max(a, b),
        a == b ==> two_sided_spec(a, b) == a,
{
    let s: int = DEC_SCALE as int;
    let lo: int = vstd::math::min(a, b);
    let hi: int = vstd::math::max(a, b);
    assert(0 <= (hi - lo) * s <= (hi - lo) * (3 * s)) by (nonlinear_arith)
        requires
            hi >= lo,
            s > 0,
    ;
    lemma_tdiv_quotient_bound((hi - lo) * s, 3 * s, hi - lo);
    lemma_tdiv_bounds((hi - lo) * s, 3 * s);
}

} // verus!

