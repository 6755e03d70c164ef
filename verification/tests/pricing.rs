//! Tests of the pure price and score mathematics.

use polymarket_lp::fixed::Dec;
use polymarket_lp::quoter::{
    align_to_tick, compute_offset, estimate_score, generate_quotes, two_sided_score, QuoteParams,
};

fn base_params() -> QuoteParams {
    QuoteParams {
        midpoint: Dec::new(50, 2),
        base_offset_cents: Dec::new(10, 1),
        min_offset_cents: Dec::new(5, 1),
        tick_size: Dec::new(1, 2),
        order_size: Dec::new(500, 0),
        num_levels: 2,
        fee_rate_bps: None,
        max_incentive_spread: None,
        min_incentive_size: None,
        inventory_skew: Dec::zero(),
    }
}

#[test]
fn test_compute_offset_no_fee() {
    let params = base_params();
    let offset = compute_offset(&params);
    assert_eq!(offset, Dec::new(1, 2)); // 1.0 cents = 0.01
}

#[test]
fn test_compute_offset_with_fee() {
    let mut params = base_params();
    params.fee_rate_bps = Some(200); // 2%
    let offset = compute_offset(&params);
    // fee_at_mid = 0.02 * 0.50 * 0.50 = 0.005
    // offset = 0.005/2 + 0.01 = 0.0125
    assert_eq!(offset, Dec::new(125, 4));
}

#[test]
fn test_align_to_tick() {
    assert_eq!(align_to_tick(Dec::new(4567, 4), Dec::new(1, 2)), Dec::new(46, 2));
    assert_eq!(align_to_tick(Dec::new(4567, 4), Dec::new(1, 3)), Dec::new(457, 3));
    assert_eq!(align_to_tick(Dec::new(4567, 4), Dec::new(1, 1)), Dec::new(5, 1));
    assert_eq!(align_to_tick(Dec::new(4567, 4), Dec::new(1, 4)), Dec::new(4567, 4));
}

#[test]
fn test_align_to_tick_zero_tick() {
    assert_eq!(align_to_tick(Dec::new(4567, 4), Dec::zero()), Dec::new(4567, 4));
}

#[test]
fn test_align_to_tick_half_tick_distance() {
    // The aligned price never strays more than half a tick.
    let aligned = align_to_tick(Dec::new(455, 3), Dec::new(1, 2));
    let diff = aligned.sub(Dec::new(455, 3)).abs();
    assert!(diff.le(&Dec::new(5, 3)));
    // Ties round to the even multiple: 45.5 ticks lands on 46.
    assert_eq!(aligned, Dec::new(46, 2));
}

#[test]
fn test_generate_quotes_basic() {
    let params = base_params();
    let quotes = generate_quotes(&params);
    assert_eq!(quotes.len(), 2);
    // Level 0: bid=0.49, ask=0.51
    assert_eq!(quotes[0].bid_price, Dec::new(49, 2));
    assert_eq!(quotes[0].ask_price, Dec::new(51, 2));
    // Level 1 widens by 10% to 0.011, which aligns back to the same ticks.
    assert_eq!(quotes[1].bid_price, Dec::new(49, 2));
    assert_eq!(quotes[1].ask_price, Dec::new(51, 2));
    assert_eq!(quotes[0].size, Dec::new(500, 0));
    assert_eq!(quotes[1].size, Dec::new(500, 0));
}

#[test]
fn test_generate_quotes_skew_swaps_sides() {
    let mut long_side = base_params();
    long_side.inventory_skew = Dec::new(25, 2);
    long_side.tick_size = Dec::new(1, 3);
    let mut short_side = long_side;
    short_side.inventory_skew = Dec::new(25, 2).neg();
    let long_quotes = generate_quotes(&long_side);
    let short_quotes = generate_quotes(&short_side);
    assert_eq!(long_quotes.len(), short_quotes.len());
    // Positive skew widens the bid exactly as much as negative skew widens
    // the ask: the offsets swap, so the quotes mirror around the midpoint.
    let m = Dec::new(50, 2);
    for (lq, sq) in long_quotes.iter().zip(short_quotes.iter()) {
        assert_eq!(m.sub(lq.bid_price), sq.ask_price.sub(m));
        assert_eq!(lq.ask_price.sub(m), m.sub(sq.bid_price));
    }
}

#[test]
fn test_generate_quotes_validity() {
    let mut params = base_params();
    params.midpoint = Dec::new(3, 2); // near the floor
    params.num_levels = 6;
    let quotes = generate_quotes(&params);
    for q in &quotes {
        assert!(Dec::zero().lt(&q.bid_price));
        assert!(q.bid_price.lt(&q.ask_price));
        assert!(q.ask_price.lt(&Dec::one()));
    }
}

#[test]
fn test_estimate_score() {
    let score = estimate_score(
        Dec::new(50, 2),
        Dec::new(49, 2), // 1 cent away
        Dec::new(1000, 0),
        Some(Dec::new(5, 2)), // 5 cent max spread
        None,
    );
    // ((0.05 - 0.01) / 0.05)^2 * 1000 = 0.8^2 * 1000 = 640
    assert_eq!(score, Dec::new(640, 0));
}

#[test]
fn test_estimate_score_outside_spread() {
    let score = estimate_score(
        Dec::new(50, 2),
        Dec::new(40, 2), // 10 cents away, > max 5 cent spread
        Dec::new(1000, 0),
        Some(Dec::new(5, 2)),
        None,
    );
    assert_eq!(score, Dec::zero());
}

#[test]
fn test_estimate_score_below_min_size() {
    let score = estimate_score(
        Dec::new(50, 2),
        Dec::new(49, 2),
        Dec::new(10, 0), // below min 50
        Some(Dec::new(5, 2)),
        Some(Dec::new(50, 0)),
    );
    assert_eq!(score, Dec::zero());
}

#[test]
fn test_estimate_score_degenerate_band() {
    // A zero-width reward band pays nothing, even at the midpoint.
    let score = estimate_score(
        Dec::new(50, 2),
        Dec::new(50, 2),
        Dec::new(1000, 0),
        Some(Dec::zero()),
        None,
    );
    assert_eq!(score, Dec::zero());
}

#[test]
fn test_estimate_score_at_midpoint_full() {
    // Resting exactly at the midpoint with enough size earns the full score.
    let score = estimate_score(
        Dec::new(50, 2),
        Dec::new(50, 2),
        Dec::new(1000, 0),
        Some(Dec::new(5, 2)),
        Some(Dec::new(50, 0)),
    );
    assert_eq!(score, Dec::new(1000, 0));
}

#[test]
fn test_two_sided_score() {
    // Balanced: both sides score 640
    assert_eq!(two_sided_score(Dec::new(640, 0), Dec::new(640, 0)), Dec::new(640, 0));
    // Imbalanced: bid=640, ask=100; min=100, surplus=540/3=180, total=280
    assert_eq!(two_sided_score(Dec::new(640, 0), Dec::new(100, 0)), Dec::new(280, 0));
}

#[test]
fn test_two_sided_score_symmetric() {
    let a = two_sided_score(Dec::new(640, 0), Dec::new(100, 0));
    let b = two_sided_score(Dec::new(100, 0), Dec::new(640, 0));
    assert_eq!(a, b);
    // And the bonus stays between its inputs.
    assert!(Dec::new(100, 0).le(&a));
    assert!(a.le(&Dec::new(640, 0)));
}
