//! Tests of market discovery: record extraction, scoring, sorting, ranking.

use polymarket_lp::fixed::Dec;
use polymarket_lp::inventory::check_resolution;
use polymarket_lp::scanner::{
    extract_market, rank_markets, sort_markets_by_score, MarketInfo, MarketRecord,
};

fn make_test_market(question: &str, reward: Dec, liquidity: Dec) -> MarketInfo {
    let score = if liquidity.gt(&Dec::zero()) {
        reward.mul(Dec::from_int(10_000)).div(liquidity)
    } else {
        Dec::zero()
    };
    MarketInfo {
        condition_id: format!("cond_{question}"),
        question: question.to_owned(),
        token_yes_id: "token_yes".to_owned(),
        token_no_id: "token_no".to_owned(),
        active: true,
        closed: false,
        liquidity,
        volume: Dec::new(10000, 0),
        reward_daily_estimate: reward,
        fee_rate_bps: None,
        tick_size: Dec::new(1, 2),
        rewards_min_size: None,
        rewards_max_spread: None,
        score,
    }
}

#[test]
fn test_rank_markets_filters_by_reward() {
    let markets = vec![
        make_test_market("A", Dec::new(10, 0), Dec::new(1000, 0)),
        make_test_market("B", Dec::new(2, 0), Dec::new(500, 0)),
        make_test_market("C", Dec::new(20, 0), Dec::new(1000, 0)),
    ];
    // Pre-sort by score descending (as the scan does).
    let markets = sort_markets_by_score(markets);
    let ranked = rank_markets(&markets, Dec::new(5, 0), 10);
    assert_eq!(ranked.len(), 2); // A=10, C=20 pass; B=2 fails
    assert_eq!(ranked[0].question, "C"); // C has the higher score (200 vs 100)
}

#[test]
fn test_rank_markets_respects_max_count() {
    let markets = vec![
        make_test_market("A", Dec::new(100, 0), Dec::new(1000, 0)),
        make_test_market("B", Dec::new(50, 0), Dec::new(1000, 0)),
        make_test_market("C", Dec::new(30, 0), Dec::new(1000, 0)),
    ];
    let ranked = rank_markets(&markets, Dec::zero(), 2);
    assert_eq!(ranked.len(), 2);
}

fn record(condition: &str, active: bool, closed: bool, tokens: usize) -> MarketRecord {
    MarketRecord {
        condition_id: Some(condition.to_owned()),
        question: Some("Will it?".to_owned()),
        clob_token_ids: (0..tokens).map(|i| format!("tok{i}")).collect(),
        active: Some(active),
        closed: Some(closed),
        liquidity: Some(Dec::new(1000, 0)),
        volume: Some(Dec::new(5000, 0)),
        competitive: Some(Dec::new(10, 0)),
        order_price_min_tick_size: Some(Dec::new(1, 2)),
        rewards_min_size: Some(Dec::new(100, 0)),
        rewards_max_spread: Some(Dec::new(5, 2)),
        taker_base_fee: Some(200),
    }
}

#[test]
fn test_extract_market_eligible() {
    let m = extract_market(&record("0xabc", true, false, 2)).unwrap();
    assert_eq!(m.condition_id, "0xabc");
    assert_eq!(m.token_yes_id, "tok0");
    assert_eq!(m.token_no_id, "tok1");
    // score = 10 / 1000 * 10000 = 100
    assert_eq!(m.score, Dec::new(100, 0));
    assert_eq!(m.fee_rate_bps, Some(200));
}

#[test]
fn test_extract_market_rejects() {
    assert!(extract_market(&record("x", false, false, 2)).is_none()); // inactive
    assert!(extract_market(&record("x", true, true, 2)).is_none()); // closed
    assert!(extract_market(&record("x", true, false, 1)).is_none()); // one token
    let mut no_id = record("x", true, false, 2);
    no_id.condition_id = None;
    assert!(extract_market(&no_id).is_none());
}

#[test]
fn test_extract_market_zero_liquidity_sentinel() {
    let mut r = record("x", true, false, 2);
    r.liquidity = Some(Dec::zero());
    let m = extract_market(&r).unwrap();
    assert_eq!(m.score, Dec::from_int(99_999));
}

#[test]
fn test_extract_market_defaults() {
    let mut r = record("x", true, false, 2);
    r.question = None;
    r.order_price_min_tick_size = None;
    r.competitive = None;
    r.liquidity = None;
    let m = extract_market(&r).unwrap();
    assert_eq!(m.question, "Unknown");
    assert_eq!(m.tick_size, Dec::new(1, 2));
    assert_eq!(m.reward_daily_estimate, Dec::zero());
    assert_eq!(m.score, Dec::zero());
}

#[test]
fn test_sort_markets_by_score_orders_descending() {
    let markets = vec![
        make_test_market("low", Dec::new(1, 0), Dec::new(1000, 0)),
        make_test_market("high", Dec::new(90, 0), Dec::new(1000, 0)),
        make_test_market("mid", Dec::new(40, 0), Dec::new(1000, 0)),
    ];
    let sorted = sort_markets_by_score(markets);
    assert_eq!(sorted.len(), 3);
    assert_eq!(sorted[0].question, "high");
    assert_eq!(sorted[1].question, "mid");
    assert_eq!(sorted[2].question, "low");
}

#[test]
fn test_check_resolution() {
    assert!(check_resolution(true).is_some());
    assert!(check_resolution(true).unwrap().resolved);
    assert!(check_resolution(false).is_none());
}
