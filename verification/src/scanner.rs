//! Market discovery: extracting tradable markets from the registry's raw
//! records, scoring the opportunity each offers, and ranking them.
//!
//! Fetching the records over the network is transport and lives outside the
//! library; it hands in [`MarketRecord`] values.

use vstd::prelude::*;

use crate::fixed::{dec_div, dec_mul, lemma_mul_le, lemma_tdiv_bounds, Dec, AMOUNT_MAX, DEC_SCALE};

verus! {

/// A raw market record as the registry reports it: most fields optional.
#[derive(Clone, Debug)]
pub struct MarketRecord {
    pub condition_id: Option<String>,
    pub question: Option<String>,
    pub clob_token_ids: Vec<String>,
    pub active: Option<bool>,
    pub closed: Option<bool>,
    pub liquidity: Option<Dec>,
    pub volume: Option<Dec>,
    pub competitive: Option<Dec>,
    pub order_price_min_tick_size: Option<Dec>,
    pub rewards_min_size: Option<Dec>,
    pub rewards_max_spread: Option<Dec>,
    pub taker_base_fee: Option<i32>,
}

/// Processed market info relevant for liquidity-providing decisions.
#[derive(Debug)]
pub struct MarketInfo {
    pub condition_id: String,
    pub question: String,
    pub token_yes_id: String,
    pub token_no_id: String,
    pub active: bool,
    pub closed: bool,
    pub liquidity: Dec,
    pub volume: Dec,
    pub reward_daily_estimate: Dec,
    pub fee_rate_bps: Option<i32>,
    pub tick_size: Dec,
    pub rewards_min_size: Option<Dec>,
    pub rewards_max_spread: Option<Dec>,
    /// Higher = better opportunity (reward per unit of existing liquidity).
    pub score: Dec,
}

impl Clone for MarketInfo {
    /// A clone carries exactly the same fields.
    fn clone(&self) -> (res: Self)
        ensures
            res == *self,
    {
        MarketInfo {
            condition_id: self.condition_id.clone(),
            question: self.question.clone(),
            token_yes_id: self.token_yes_id.clone(),
            token_no_id: self.token_no_id.clone(),
            active: self.active,
            closed: self.closed,
            liquidity: self.liquidity,
            volume: self.volume,
            reward_daily_estimate: self.reward_daily_estimate,
            fee_rate_bps: self.fee_rate_bps,
            tick_size: self.tick_size,
            rewards_min_size: self.rewards_min_size,
            rewards_max_spread: self.rewards_max_spread,
            score: self.score,
        }
    }
}

impl MarketInfo {
    /// Amounts within the library's working ranges, the tick a price step,
    /// and a non-negative fee and score.
    pub open spec fn wf(&self) -> bool {
        &&& 0 <= self.liquidity@ <= AMOUNT_MAX as int
        &&& 0 <= self.volume@ <= AMOUNT_MAX as int
        &&& 0 <= self.reward_daily_estimate@ <= AMOUNT_MAX as int
        &&& 0 <= self.tick_size@ <= DEC_SCALE as int
        &&& match self.fee_rate_bps {
            Some(f) => f >= 0,
            None => true,
        }
        &&& match self.rewards_min_size {
            Some(v) => 0 <= v@ <= AMOUNT_MAX as int,
            None => true,
        }
        &&& match self.rewards_max_spread {
            Some(v) => 0 <= v@ <= DEC_SCALE as int,
            None => true,
        }
        &&& 0 <= self.score@
    }
}

impl MarketRecord {
    /// Decimal fields, where present, are within the library's working
    /// ranges.
    pub open spec fn wf(&self) -> bool {
        &&& match self.liquidity {
            Some(v) => 0 <= v@ <= AMOUNT_MAX as int,
            None => true,
        }
        &&& match self.volume {
            Some(v) => 0 <= v@ <= AMOUNT_MAX as int,
            None => true,
        }
        &&& match self.competitive {
            Some(v) => 0 <= v@ <= AMOUNT_MAX as int,
            None => true,
        }
        &&& match self.order_price_min_tick_size {
            Some(v) => 0 <= v@ <= DEC_SCALE as int,
            None => true,
        }
        &&& match self.rewards_min_size {
            Some(v) => 0 <= v@ <= AMOUNT_MAX as int,
            None => true,
        }
        &&& match self.rewards_max_spread {
            Some(v) => 0 <= v@ <= DEC_SCALE as int,
            None => true,
        }
    }
}

/// The opportunity score: daily reward per unit of posted liquidity, in
/// basis-point-like units (scaled by 10^4); a large sentinel when a rewarded
/// market has no liquidity at all.
pub open spec fn score_of(reward_daily: int, liquidity: int) -> int {
    if liquidity > 0 {
        dec_div(dec_mul(reward_daily, 10_000 * (DEC_SCALE as int)), liquidity)
    } else if reward_daily > 0 {
        99_999 * (DEC_SCALE as int)
    } else {
        0
    }
}

/// Whether the record defaults to active (absent means inactive).
pub open spec fn record_active(rec: MarketRecord) -> bool {
    match rec.active {
        Some(a) => a,
        None => false,
    }
}

/// Whether the record defaults to closed (absent means closed).
pub open spec fn record_closed(rec: MarketRecord) -> bool {
    match rec.closed {
        Some(c) => c,
        None => true,
    }
}

/// A record is worth quoting on when it names a condition, is active and
/// open, and lists both outcome tokens.
pub open spec fn record_eligible(rec: MarketRecord) -> bool {
    &&& rec.condition_id is Some
    &&& record_active(rec)
    &&& !record_closed(rec)
    &&& rec.clob_token_ids@.len() >= 2
}

/// The record's liquidity, zero when absent.
pub open spec fn record_liquidity(rec: MarketRecord) -> int {
    match rec.liquidity {
        Some(v) => v@,
        None => 0,
    }
}

/// The record's volume, zero when absent.
pub open spec fn record_volume(rec: MarketRecord) -> int {
    match rec.volume {
        Some(v) => v@,
        None => 0,
    }
}

/// The record's daily reward estimate (its competitiveness), zero when
/// absent.
pub open spec fn record_reward(rec: MarketRecord) -> int {
    match rec.competitive {
        Some(v) => v@,
        None => 0,
    }
}

/// The record's tick size, one cent when absent.
pub open spec fn record_tick(rec: MarketRecord) -> int {
    match rec.order_price_min_tick_size {
        Some(t) => t@,
        None => 10_000_000,
    }
}

/// Extract the liquidity-provider view of one raw market record, scoring it
/// by daily reward per unit of liquidity. Records without a condition id,
/// inactive, closed, or with fewer than two tokens are dropped.
pub fn extract_market(rec: &MarketRecord) -> (r: Option<MarketInfo>)
    requires
        rec.wf(),
    ensures
        r is Some <==> record_eligible(*rec),
        r matches Some(m) ==> {
            &&& m.condition_id == rec.condition_id->0
            &&& match rec.question {
                Some(q) => m.question == q,
                None => m.question@ == "Unknown"@,
            }
            &&& m.token_yes_id == rec.clob_token_ids@[0]
            &&& m.token_no_id == rec.clob_token_ids@[1]
            &&& m.active == record_active(*rec)
            &&& m.closed == record_closed(*rec)
            &&& m.liquidity@ == record_liquidity(*rec)
            &&& m.volume@ == record_volume(*rec)
            &&& m.reward_daily_estimate@ == record_reward(*rec)
            &&& m.fee_rate_bps == rec.taker_base_fee
            &&& m.tick_size@ == record_tick(*rec)
            &&& m.rewards_min_size == rec.rewards_min_size
            &&& m.rewards_max_spread == rec.rewards_max_spread
            &&& m.score@ == score_of(record_reward(*rec), record_liquidity(*rec))
        },
{
    let cond = match &rec.condition_id {
        Some(c) => c.clone(),
        None => {
            return None;
        },
    };
    let question = match &rec.question {
        Some(q) => q.clone(),
        None => "Unknown".to_owned(),
    };
    let active = match rec.active {
        Some(a) => a,
        None => false,
    };
    let closed = match rec.closed {
        Some(c) => c,
        None => true,
    };
    if !active || closed {
        return None;
    }
    if rec.clob_token_ids.len() < 2 {
        return None;
    }
    let liquidity = match rec.liquidity {
        Some(v) => v,
        None => Dec::zero(),
    };
    let reward = match rec.competitive {
        Some(v) => v,
        None => Dec::zero(),
    };
    proof {
        lemma_mul_le(reward@, 10_000 * (DEC_SCALE as int), AMOUNT_MAX as int, 10_000 * (
        DEC_SCALE as int));
        lemma_tdiv_bounds(reward@ * (10_000 * (DEC_SCALE as int)), DEC_SCALE as int);
        if liquidity@ > 0 {
            lemma_mul_le(
                dec_mul(reward@, 10_000 * (DEC_SCALE as int)),
                DEC_SCALE as int,
                0x10000000000000000000000000000int,
                DEC_SCALE as int,
            );
            lemma_tdiv_bounds(
                dec_mul(reward@, 10_000 * (DEC_SCALE as int)) * (DEC_SCALE as int),
                liquidity@,
            );
        }
    }
    let score: Dec = if liquidity.gt(&Dec::zero()) {
        reward.mul(Dec::from_int(10_000)).div(liquidity)
    } else if reward.gt(&Dec::zero()) {
        Dec::from_int(99_999)
    } else {
        Dec::zero()
    };
    let token_yes_id = rec.clob_token_ids[0].clone();
    let token_no_id = rec.clob_token_ids[1].clone();
    let volume = match rec.volume {
        Some(v) => v,
        None => Dec::zero(),
    };
    Some(
        MarketInfo {
            condition_id: cond,
            question,
            token_yes_id,
            token_no_id,
            active,
            closed,
            liquidity,
            volume,
            reward_daily_estimate: reward,
            fee_rate_bps: rec.taker_base_fee,
            tick_size: match rec.order_price_min_tick_size {
                Some(t) => t,
                None => Dec::new(1, 2),
            },
            rewards_min_size: rec.rewards_min_size,
            rewards_max_spread: rec.rewards_max_spread,
            score,
        },
    )
}

/// Markets in weakly decreasing order of opportunity score.
pub open spec fn sorted_by_score_desc(s: Seq<MarketInfo>) -> bool {
    forall|i: int, j: int| 0 <= i < j < s.len() ==> s[i].score@ >= s[j].score@
}

/// Sort markets by opportunity score, best first. The result holds exactly
/// the input markets.
pub fn sort_markets_by_score(markets: Vec<MarketInfo>) -> (r: Vec<MarketInfo>)
    ensures
        r@.to_multiset() == markets@.to_multiset(),
        r@.len() == markets@.len(),
        sorted_by_score_desc(r@),
{
    broadcast use vstd::seq_lib::group_to_multiset_ensures;
    broadcast use vstd::multiset::group_multiset_axioms;

    let ghost all = markets@;
    let mut rest = markets;
    let mut out: Vec<MarketInfo> = Vec::new();
    while rest.len() > 0
        invariant
            out@.to_multiset().add(rest@.to_multiset()) =~= all.to_multiset(),
            out@.len() + rest@.len() == all.len(),
            sorted_by_score_desc(out@),
            forall|i: int, j: int|
                #![trigger out@[i], rest@[j]]
                0 <= i < out@.len() && 0 <= j < rest@.len() ==> out@[i].score@ >= rest@[j].score@,
        decreases rest@.len(),
    {
        // Index of the best remaining score.
        let mut best: usize = 0;
        let mut k: usize = 1;
        while k < rest.len()
            invariant
                0 < rest@.len(),
                0 <= best < k <= rest@.len(),
                forall|j: int| 0 <= j < k ==> rest@[best as int].score@ >= (#[trigger] rest@[j]).score@,
            decreases rest@.len() - k,
        {
            if rest[k].score.gt(&rest[best].score) {
                best = k;
            }
            k = k + 1;
        }
        let ghost old_out = out@;
        let ghost old_rest = rest@;
        let x = rest.remove(best);
        out.push(x);
        proof {
            assert(old_rest.contains(old_rest[best as int]));
            vstd::seq_lib::to_multiset_build(old_out, x);
            vstd::seq_lib::to_multiset_remove(old_rest, best as int);
            vstd::seq_lib::to_multiset_contains(old_rest, x);
            assert(out@ == old_out.push(x));
            assert(rest@ == old_rest.remove(best as int));
            assert(old_rest.to_multiset().count(x) > 0);
            assert(out@.to_multiset().add(rest@.to_multiset()) =~= all.to_multiset());
            assert forall|i: int, j: int|
                #![trigger out@[i], rest@[j]]
                0 <= i < out@.len() && 0 <= j < rest@.len() implies out@[i].score@
                >= rest@[j].score@ by {
                if j < best {
                    assert(rest@[j] == old_rest[j]);
                } else {
                    assert(rest@[j] == old_rest[j + 1]);
                }
            }
        }
    }
    proof {
        assert(out@.to_multiset().add(rest@.to_multiset()) =~= out@.to_multiset());
    }
    out
}

/// The ranking of the first `n` markets: those paying at least the daily
/// floor, in their given order, up to `max_count` of them.
pub open spec fn rank_upto(s: Seq<MarketInfo>, min_daily: int, max_count: int, n: int) -> Seq<
    MarketInfo,
>
    decreases n,
{
    if n <= 0 {
        Seq::empty()
    } else {
        let prev = rank_upto(s, min_daily, max_count, n - 1);
        if s[n - 1].reward_daily_estimate@ >= min_daily && prev.len() < max_count {
            prev.push(s[n - 1])
        } else {
            prev
        }
    }
}

/// The ranking never exceeds `max_count` entries, and every entry meets the
/// reward floor.
pub proof fn lemma_rank_props(s: Seq<MarketInfo>, min_daily: int, max_count: int, n: int)
    requires
        max_count >= 0,
    ensures
        rank_upto(s, min_daily, max_count, n).len() <= max_count,
        forall|i: int|
            0 <= i < rank_upto(s, min_daily, max_count, n).len() ==> (#[trigger] rank_upto(
                s,
                min_daily,
                max_count,
                n,
            )[i]).reward_daily_estimate@ >= min_daily,
    decreases n,
{
    if n > 0 {
        lemma_rank_props(s, min_daily, max_count, n - 1);
    }
}

/// Rank markets: keep those whose daily reward meets the floor, preserving
/// their order, and stop after `max_count` of them.
pub fn rank_markets(markets: &Vec<MarketInfo>, min_daily_reward: Dec, max_count: usize) -> (r: Vec<
    MarketInfo,
>)
    ensures
        r@ == rank_upto(markets@, min_daily_reward@, max_count as int, markets@.len() as int),
        r@.len() <= max_count,
        forall|i: int|
            0 <= i < r@.len() ==> (#[trigger] r@[i]).reward_daily_estimate@ >= min_daily_reward@,
{
    let mut out: Vec<MarketInfo> = Vec::new();
    let mut i: usize = 0;
    let n = markets.len();
    while i < n
        invariant
            n == markets@.len(),
            0 <= i <= n,
            out@ == rank_upto(markets@, min_daily_reward@, max_count as int, i as int),
            out@.len() <= max_count,
        decreases n - i,
    {
        if markets[i].reward_daily_estimate.ge(&min_daily_reward) && out.len() < max_count {
            let m = markets[i].clone();
            out.push(m);
        }
        i = i + 1;
    }
    proof {
        lemma_rank_props(markets@, min_daily_reward@, max_count as int, markets@.len() as int);
    }
    out
}

} // verus!
