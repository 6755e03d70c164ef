//! Tests of order bookkeeping and the per-market quoting engine.

use polymarket_lp::config::StrategyConfig;
use polymarket_lp::engine::QuoteEngine;
use polymarket_lp::fixed::Dec;
use polymarket_lp::orders::{
    apply_order_update, apply_placement_results, batch_cancel_ids, batch_intents,
    build_order_intents, mark_cancelled, OrderStatus, PlacementResult, Side, TrackedOrder,
};
use polymarket_lp::quoter::Quote;
use polymarket_lp::scanner::MarketInfo;
use polymarket_lp::ws::WsEvent;

fn market() -> MarketInfo {
    MarketInfo {
        condition_id: "0xcond".to_owned(),
        question: "Will it?".to_owned(),
        token_yes_id: "yes_tok".to_owned(),
        token_no_id: "no_tok".to_owned(),
        active: true,
        closed: false,
        liquidity: Dec::new(1000, 0),
        volume: Dec::new(5000, 0),
        reward_daily_estimate: Dec::new(10, 0),
        fee_rate_bps: None,
        tick_size: Dec::new(1, 2),
        rewards_min_size: None,
        rewards_max_spread: None,
        score: Dec::new(100, 0),
    }
}

fn quote(bid: i64, ask: i64) -> Quote {
    Quote {
        bid_price: Dec::new(bid, 2),
        ask_price: Dec::new(ask, 2),
        size: Dec::new(500, 0),
        level: 0,
    }
}

fn open_order(id: &str, token: &str, side: Side, price: Dec, filled: i64) -> TrackedOrder {
    TrackedOrder {
        order_id: id.to_owned(),
        token_id: token.to_owned(),
        side,
        price,
        size: Dec::new(500, 0),
        filled: Dec::new(filled, 0),
        accounted: Dec::zero(),
        status: OrderStatus::Open,
    }
}

#[test]
fn test_build_order_intents_four_per_quote() {
    let yes = "yes_tok".to_owned();
    let no = "no_tok".to_owned();
    let quotes = vec![quote(49, 51)];
    let intents = build_order_intents(&yes, &no, &quotes);
    assert_eq!(intents.len(), 4);
    assert_eq!(intents[0].token_id, "yes_tok");
    assert_eq!(intents[0].side, Side::Buy);
    assert_eq!(intents[0].price, Dec::new(49, 2));
    assert_eq!(intents[1].side, Side::Sell);
    assert_eq!(intents[1].price, Dec::new(51, 2));
    // NO bid at 1 - ask, NO ask at 1 - bid.
    assert_eq!(intents[2].token_id, "no_tok");
    assert_eq!(intents[2].side, Side::Buy);
    assert_eq!(intents[2].price, Dec::new(49, 2));
    assert_eq!(intents[3].side, Side::Sell);
    assert_eq!(intents[3].price, Dec::new(51, 2));
}

#[test]
fn test_batch_intents_limit() {
    let yes = "yes_tok".to_owned();
    let no = "no_tok".to_owned();
    // Eight quotes make 32 intents: batches of 15, 15 and 2.
    let quotes: Vec<Quote> = (0..8).map(|_| quote(49, 51)).collect();
    let intents = build_order_intents(&yes, &no, &quotes);
    assert_eq!(intents.len(), 32);
    let batches = batch_intents(intents);
    assert_eq!(batches.len(), 3);
    assert_eq!(batches[0].len(), 15);
    assert_eq!(batches[1].len(), 15);
    assert_eq!(batches[2].len(), 2);
}

#[test]
fn test_batch_cancel_ids_limit() {
    let ids: Vec<String> = (0..45).map(|i| format!("o{i}")).collect();
    let batches = batch_cancel_ids(ids);
    assert_eq!(batches.len(), 3);
    assert_eq!(batches[0].len(), 20);
    assert_eq!(batches[1].len(), 20);
    assert_eq!(batches[2].len(), 5);
    assert_eq!(batches[0][0], "o0");
    assert_eq!(batches[2][4], "o44");
}

#[test]
fn test_apply_placement_results_keeps_successes() {
    let yes = "yes_tok".to_owned();
    let no = "no_tok".to_owned();
    let quotes = vec![quote(49, 51)];
    let intents = build_order_intents(&yes, &no, &quotes);
    let results = vec![
        PlacementResult { success: true, order_id: "a".to_owned(), error_msg: None },
        PlacementResult {
            success: false,
            order_id: String::new(),
            error_msg: Some("rejected".to_owned()),
        },
        PlacementResult { success: true, order_id: "c".to_owned(), error_msg: None },
        PlacementResult { success: true, order_id: "d".to_owned(), error_msg: None },
    ];
    let accepted = apply_placement_results(&intents, &results);
    assert_eq!(accepted.len(), 3);
    assert_eq!(accepted[0].order_id, "a");
    assert_eq!(accepted[0].status, OrderStatus::Open);
    assert_eq!(accepted[0].filled, Dec::zero());
    assert_eq!(accepted[1].order_id, "c");
    assert_eq!(accepted[1].token_id, "no_tok");
}

#[test]
fn test_apply_order_update_transitions() {
    let mut order = open_order("a", "yes_tok", Side::Buy, Dec::new(49, 2), 0);
    apply_order_update(&mut order, Dec::new(100, 0), Dec::new(500, 0));
    assert_eq!(order.filled, Dec::new(100, 0));
    assert_eq!(order.status, OrderStatus::PartiallyFilled);
    apply_order_update(&mut order, Dec::new(500, 0), Dec::new(500, 0));
    assert_eq!(order.status, OrderStatus::Filled);
    let mut untouched = open_order("b", "yes_tok", Side::Buy, Dec::new(49, 2), 0);
    apply_order_update(&mut untouched, Dec::zero(), Dec::new(500, 0));
    assert_eq!(untouched.status, OrderStatus::Open);
}

#[test]
fn test_mark_cancelled_idempotent() {
    let mut orders = vec![
        open_order("a", "yes_tok", Side::Buy, Dec::new(49, 2), 0),
        open_order("b", "yes_tok", Side::Sell, Dec::new(51, 2), 0),
    ];
    let ids = vec!["a".to_owned()];
    mark_cancelled(&mut orders, &ids);
    assert_eq!(orders[0].status, OrderStatus::Cancelled);
    assert_eq!(orders[1].status, OrderStatus::Open);
    let snapshot: Vec<(String, OrderStatus)> =
        orders.iter().map(|o| (o.order_id.clone(), o.status)).collect();
    // A second cancellation of the same ids changes nothing.
    mark_cancelled(&mut orders, &ids);
    let again: Vec<(String, OrderStatus)> =
        orders.iter().map(|o| (o.order_id.clone(), o.status)).collect();
    assert_eq!(snapshot, again);
}

#[test]
fn test_should_requote_first_call() {
    let engine = QuoteEngine::new(market(), StrategyConfig::default(), true);
    assert!(engine.should_requote(Dec::new(50, 2), 0));
}

#[test]
fn test_should_requote_threshold_and_timer() {
    let mut engine = QuoteEngine::new(market(), StrategyConfig::default(), true);
    engine.last_midpoint = Some(Dec::new(50, 2));
    engine.last_requote_ms = Some(1_000);
    // Threshold is 0.5 cents: a 0.6-cent move triggers, a 0.4-cent one not.
    assert!(engine.should_requote(Dec::new(506, 3), 2_000));
    assert!(!engine.should_requote(Dec::new(504, 3), 2_000));
    // The 30 s timer triggers once strictly elapsed.
    assert!(!engine.should_requote(Dec::new(50, 2), 31_000));
    assert!(engine.should_requote(Dec::new(50, 2), 31_001));
}

#[test]
fn test_compute_quotes_uses_strategy() {
    let mut engine = QuoteEngine::new(market(), StrategyConfig::default(), true);
    let quotes = engine.compute_quotes(Dec::new(50, 2));
    assert_eq!(quotes.len(), 2);
    assert_eq!(quotes[0].bid_price, Dec::new(49, 2));
    assert_eq!(quotes[0].ask_price, Dec::new(51, 2));
    // A long position skews the bid wider than the ask.
    engine.inventory_yes = Dec::new(2500, 0);
    let skewed = engine.compute_quotes(Dec::new(50, 2));
    let mid = Dec::new(50, 2);
    assert!(mid.sub(skewed[0].bid_price).ge(&skewed[0].ask_price.sub(mid)));
}

#[test]
fn test_update_inventory_from_fills_no_double_count() {
    let mut engine = QuoteEngine::new(market(), StrategyConfig::default(), false);
    let mut buy = open_order("a", "yes_tok", Side::Buy, Dec::new(50, 2), 10);
    buy.status = OrderStatus::PartiallyFilled;
    engine.tracked_orders = vec![buy];
    engine.update_inventory_from_fills();
    assert_eq!(engine.inventory_yes, Dec::new(10, 0));
    assert_eq!(engine.total_bought_value, Dec::new(5, 0)); // 10 * 0.50
    // A second pass over the same fills adds nothing.
    engine.update_inventory_from_fills();
    assert_eq!(engine.inventory_yes, Dec::new(10, 0));
    assert_eq!(engine.total_bought_value, Dec::new(5, 0));
}

#[test]
fn test_update_inventory_sell_side() {
    let mut engine = QuoteEngine::new(market(), StrategyConfig::default(), false);
    let mut sell = open_order("s", "no_tok", Side::Sell, Dec::new(40, 2), 5);
    sell.status = OrderStatus::Filled;
    engine.tracked_orders = vec![sell];
    engine.update_inventory_from_fills();
    assert_eq!(engine.inventory_no, Dec::new(-5, 0));
    assert_eq!(engine.total_sold_value, Dec::new(2, 0)); // 5 * 0.40
}

#[test]
fn test_handle_ws_event_midpoint() {
    let mut engine = QuoteEngine::new(market(), StrategyConfig::default(), true);
    let requote = engine.handle_ws_event(
        WsEvent::MidpointUpdate { asset_id: "yes_tok".to_owned(), midpoint: Dec::new(50, 2) },
        1_000,
    );
    assert!(requote); // first midpoint always requotes
    assert_eq!(engine.last_midpoint, Some(Dec::new(50, 2)));
}

#[test]
fn test_handle_ws_event_connection_flags() {
    let mut engine = QuoteEngine::new(market(), StrategyConfig::default(), true);
    assert!(!engine.handle_ws_event(WsEvent::Reconnected, 0));
    assert!(engine.ws_connected);
    assert!(!engine.handle_ws_event(WsEvent::Disconnected, 0));
    assert!(!engine.ws_connected);
}

#[test]
fn test_handle_ws_event_fill() {
    let mut engine = QuoteEngine::new(market(), StrategyConfig::default(), false);
    engine.tracked_orders = vec![open_order("a", "yes_tok", Side::Buy, Dec::new(50, 2), 0)];
    let requote = engine.handle_ws_event(
        WsEvent::OrderFill {
            order_id: "a".to_owned(),
            size: Dec::new(500, 0),
            price: Dec::new(50, 2),
        },
        0,
    );
    assert!(!requote);
    assert_eq!(engine.tracked_orders[0].status, OrderStatus::Filled);
    assert_eq!(engine.inventory_yes, Dec::new(500, 0));
    assert_eq!(engine.total_bought_value, Dec::new(250, 0));
}

#[test]
fn test_stale_order_ids_and_clear() {
    let mut engine = QuoteEngine::new(market(), StrategyConfig::default(), false);
    let mut filled = open_order("done", "yes_tok", Side::Buy, Dec::new(49, 2), 500);
    filled.status = OrderStatus::Filled;
    engine.tracked_orders = vec![
        open_order("live", "yes_tok", Side::Buy, Dec::new(49, 2), 0),
        filled,
    ];
    let stale = engine.stale_order_ids();
    assert_eq!(stale, vec!["live".to_owned()]);
    engine.clear_orders();
    assert!(engine.tracked_orders.is_empty());
}

#[test]
fn test_commit_requote_replaces_state() {
    let mut engine = QuoteEngine::new(market(), StrategyConfig::default(), false);
    let quotes = vec![quote(49, 51)];
    let orders = vec![open_order("a", "yes_tok", Side::Buy, Dec::new(49, 2), 0)];
    engine.commit_requote(Dec::new(50, 2), quotes, orders, 42_000);
    assert_eq!(engine.last_midpoint, Some(Dec::new(50, 2)));
    assert_eq!(engine.last_requote_ms, Some(42_000));
    assert_eq!(engine.tracked_orders.len(), 1);
    assert_eq!(engine.current_quotes.len(), 1);
}
