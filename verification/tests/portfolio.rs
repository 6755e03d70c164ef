//! Tests of the portfolio controller, rate limiter and session metrics.

use polymarket_lp::config::{
    Config, MarketsConfig, MonitoringConfig, RiskConfig, StrategyConfig, WalletConfig,
};
use polymarket_lp::fixed::Dec;
use polymarket_lp::manager::{tick_order_budget, MarketManager, RateLimiter};
use polymarket_lp::metrics::{MarketMetrics, PortfolioMetrics};
use polymarket_lp::scanner::MarketInfo;

fn config() -> Config {
    Config {
        wallet: WalletConfig::default(),
        strategy: StrategyConfig::default(),
        markets: MarketsConfig::default(),
        risk: RiskConfig::default(),
        monitoring: MonitoringConfig::default(),
    }
}

fn market(condition: &str, score: i64) -> MarketInfo {
    MarketInfo {
        condition_id: condition.to_owned(),
        question: format!("Question {condition}"),
        token_yes_id: format!("{condition}_yes"),
        token_no_id: format!("{condition}_no"),
        active: true,
        closed: false,
        liquidity: Dec::new(1000, 0),
        volume: Dec::new(5000, 0),
        reward_daily_estimate: Dec::new(10, 0),
        fee_rate_bps: None,
        tick_size: Dec::new(1, 2),
        rewards_min_size: None,
        rewards_max_spread: None,
        score: Dec::new(score, 0),
    }
}

#[test]
fn test_rate_limiter_basic() {
    let mut limiter = RateLimiter::new();
    assert!(limiter.can_place(1_000, 100));
    limiter.record(1_000, 100);
    assert!(limiter.can_place(1_000, 100));
}

#[test]
fn test_rate_limiter_burst_limit() {
    let mut limiter = RateLimiter::new();
    limiter.burst_limit = 10;
    assert!(limiter.can_place(1_000, 10));
    limiter.record(1_000, 10);
    assert!(!limiter.can_place(1_000, 1));
}

#[test]
fn test_rate_limiter_windows_expire() {
    let mut limiter = RateLimiter::new();
    limiter.burst_limit = 10;
    limiter.record(1_000, 10);
    // Just inside the 10 s burst window the quota is exhausted...
    assert!(!limiter.can_place(10_000, 1));
    // ...one millisecond after it expires, the burst is free again.
    assert!(limiter.can_place(11_000, 10));
    // The sustained window still remembers the submissions.
    assert_eq!(limiter.order_timestamps.len(), 10);
    // After ten minutes they are dropped entirely.
    assert!(limiter.can_place(601_001, 10));
    assert!(limiter.order_timestamps.is_empty());
}

#[test]
fn test_rate_limiter_sustained_limit() {
    let mut limiter = RateLimiter::new();
    limiter.burst_limit = 50;
    limiter.sustained_limit = 15;
    limiter.record(1_000, 10);
    // Spread submissions out of the burst window but inside the sustained one.
    assert!(limiter.can_place(20_000, 5));
    assert!(!limiter.can_place(20_000, 6));
}

#[test]
fn test_manager_seeds_engines() {
    let mut mgr = MarketManager::new(config(), 0);
    let markets = vec![market("a", 100), market("b", 50), market("c", 50)];
    mgr.initialize_markets(&markets);
    assert_eq!(mgr.engines.len(), 3);
    assert_eq!(mgr.capital_allocations.len(), 3);
    // 50% of $2000 capped at $500 per market.
    assert_eq!(mgr.capital_allocations[0].1, Dec::new(500, 0));
    // A second pass adds no duplicates.
    mgr.initialize_markets(&markets);
    assert_eq!(mgr.engines.len(), 3);
    // Full allocation keeps the configured order size.
    assert_eq!(mgr.engines[0].config.order_size, Dec::new(500, 0));
    assert!(!mgr.engines[0].dry_run);
}

#[test]
fn test_manager_scales_order_size() {
    let mut cfg = config();
    cfg.risk.max_total_capital = Dec::new(250, 0);
    let mut mgr = MarketManager::new(cfg, 0);
    mgr.initialize_markets(&vec![market("a", 100)]);
    // Allocation $250 of a $500 cap halves the 500-token order size.
    assert_eq!(mgr.engines[0].config.order_size, Dec::new(250, 0));
}

#[test]
fn test_manager_removes_stale() {
    let mut mgr = MarketManager::new(config(), 0);
    mgr.initialize_markets(&vec![market("a", 100), market("b", 50)]);
    let open = polymarket_lp::orders::TrackedOrder {
        order_id: "stale_order".to_owned(),
        token_id: "a_yes".to_owned(),
        side: polymarket_lp::orders::Side::Buy,
        price: Dec::new(49, 2),
        size: Dec::new(500, 0),
        filled: Dec::zero(),
        accounted: Dec::zero(),
        status: polymarket_lp::orders::OrderStatus::Open,
    };
    mgr.engines[0].tracked_orders = vec![open];
    let to_cancel = mgr.remove_stale_markets(&vec!["b".to_owned()]);
    assert_eq!(mgr.engines.len(), 1);
    assert_eq!(mgr.engines[0].market.condition_id, "b");
    // The dropped engine's resting order comes back for cancellation.
    assert_eq!(to_cancel, vec!["stale_order".to_owned()]);
}

#[test]
fn test_manager_rescan_cadence() {
    let mut mgr = MarketManager::new(config(), 1_000);
    assert!(!mgr.needs_rescan(3_601_000)); // exactly one hour: not yet due
    assert!(mgr.needs_rescan(3_601_001));
    mgr.mark_rescanned(3_601_001);
    assert!(!mgr.needs_rescan(3_700_000));
}

#[test]
fn test_manager_clear_all_orders() {
    let mut mgr = MarketManager::new(config(), 0);
    mgr.initialize_markets(&vec![market("a", 100)]);
    mgr.clear_all_orders();
    assert!(mgr.engines[0].tracked_orders.is_empty());
}

#[test]
fn test_portfolio_stats_empty() {
    let mgr = MarketManager::new(config(), 0);
    let stats = mgr.portfolio_stats();
    assert_eq!(stats.total_markets, 0);
    assert_eq!(stats.active_markets, 0);
    assert_eq!(stats.total_unrealized_pnl, Dec::zero());
}

#[test]
fn test_portfolio_stats_sums() {
    let mut mgr = MarketManager::new(config(), 0);
    mgr.initialize_markets(&vec![market("a", 100), market("b", 50)]);
    mgr.engines[0].inventory_yes = Dec::new(100, 0);
    mgr.engines[0].total_bought_value = Dec::new(40, 0);
    mgr.engines[0].last_midpoint = Some(Dec::new(50, 2));
    mgr.engines[1].inventory_no = Dec::new(30, 0);
    let stats = mgr.portfolio_stats();
    assert_eq!(stats.total_markets, 2);
    assert_eq!(stats.total_yes_tokens, Dec::new(100, 0));
    assert_eq!(stats.total_no_tokens, Dec::new(30, 0));
    assert_eq!(stats.total_capital_deployed, Dec::new(40, 0));
    // 100 * 0.50 - 40 = 10 for the first engine; the engine without a
    // midpoint is marked at one half: 30 * (1 - 0.5) = 15.
    assert_eq!(stats.total_unrealized_pnl, Dec::new(25, 0));
}

#[test]
fn test_tick_order_budget() {
    let engine = polymarket_lp::engine::QuoteEngine::new(
        market("a", 100),
        StrategyConfig::default(),
        true,
    );
    assert_eq!(tick_order_budget(&engine), 8); // 4 orders per level, 2 levels
}

#[test]
fn test_market_metrics_fill_rate() {
    let mut m = MarketMetrics::new("test".to_owned(), "Test?".to_owned(), 0);
    m.total_orders = 100;
    m.total_fills = 25;
    assert_eq!(m.fill_rate(), Dec::new(25, 2));
}

#[test]
fn test_market_metrics_uptime() {
    let mut m = MarketMetrics::new("test".to_owned(), "Test?".to_owned(), 0);
    let mut i = 0;
    while i < 80 {
        m.record_tick(true, 0);
        i += 1;
    }
    let mut j = 0;
    while j < 20 {
        m.record_tick(false, 0);
        j += 1;
    }
    assert_eq!(m.uptime_pct(), Dec::new(80, 0));
}

#[test]
fn test_portfolio_total_pnl() {
    let mut p = PortfolioMetrics::new(0);
    let mut m1 = MarketMetrics::new("a".to_owned(), "Q1".to_owned(), 0);
    m1.spread_pnl = Dec::new(10, 0);
    m1.reward_pnl = Dec::new(5, 0);
    let mut m2 = MarketMetrics::new("b".to_owned(), "Q2".to_owned(), 0);
    m2.spread_pnl = Dec::new(3, 0);
    m2.reward_pnl = Dec::new(2, 0);
    m2.rebate_pnl = Dec::new(1, 0);
    p.insert_market(m1);
    p.insert_market(m2);
    assert_eq!(p.total_pnl(), Dec::new(21, 0));
}

#[test]
fn test_portfolio_insert_replaces() {
    let mut p = PortfolioMetrics::new(0);
    let mut m = MarketMetrics::new("a".to_owned(), "Q".to_owned(), 0);
    m.total_fills = 3;
    p.insert_market(m);
    let mut replacement = MarketMetrics::new("a".to_owned(), "Q".to_owned(), 0);
    replacement.total_fills = 7;
    p.insert_market(replacement);
    assert_eq!(p.markets.len(), 1);
    assert_eq!(p.total_fills(), 7);
    assert!(p.find_market(&"a".to_owned()).is_some());
    assert!(p.find_market(&"zzz".to_owned()).is_none());
}

#[test]
fn test_portfolio_averages() {
    let mut p = PortfolioMetrics::new(0);
    let mut m1 = MarketMetrics::new("a".to_owned(), "Q1".to_owned(), 0);
    m1.total_orders = 100;
    m1.total_fills = 25;
    let mut m2 = MarketMetrics::new("b".to_owned(), "Q2".to_owned(), 0);
    m2.total_orders = 100;
    m2.total_fills = 75;
    // A market with no orders is left out of the averages.
    let m3 = MarketMetrics::new("c".to_owned(), "Q3".to_owned(), 0);
    p.insert_market(m1);
    p.insert_market(m2);
    p.insert_market(m3);
    assert_eq!(p.avg_fill_rate(), Dec::new(50, 2));
    assert_eq!(p.avg_uptime(), Dec::zero());
    assert_eq!(p.total_fills(), 100);
}

#[test]
fn test_metrics_record_counters() {
    let mut m = MarketMetrics::new("a".to_owned(), "Q".to_owned(), 5);
    m.record_orders(4);
    m.record_fill(Dec::new(2, 0));
    m.record_reward(Dec::new(3, 0));
    m.record_rebate(Dec::new(1, 0));
    m.record_tick(true, 99);
    assert_eq!(m.total_orders, 4);
    assert_eq!(m.total_fills, 1);
    assert_eq!(m.total_ticks, 1);
    assert_eq!(m.last_update_ms, 99);
    assert_eq!(m.total_pnl(), Dec::new(6, 0));
}
