//! Tests of the risk layer: inventory decisions, kill switch, capital
//! allocation, holding rewards, and the configuration defaults.

use polymarket_lp::config::{MarketsConfig, MonitoringConfig, RiskConfig, StrategyConfig, WalletConfig};
use polymarket_lp::fixed::Dec;
use polymarket_lp::risk::{
    allocate_capital, holding_reward_factor, inventory_check, should_kill_switch, MarketInventory,
    QuoteSideDecision,
};

fn inventory(yes: i64, no: i64, bought: i64, sold: i64) -> MarketInventory {
    MarketInventory {
        yes_tokens: Dec::new(yes, 0),
        no_tokens: Dec::new(no, 0),
        total_bought_value: Dec::new(bought, 0),
        total_sold_value: Dec::new(sold, 0),
    }
}

#[test]
fn test_inventory_check_normal() {
    let inv = inventory(100, 80, 0, 0);
    let config = StrategyConfig {
        inventory_cap: Dec::new(5000, 0),
        ..Default::default()
    };
    let (bid, ask) = inventory_check(&inv, &config);
    assert_eq!(bid, QuoteSideDecision::Normal);
    assert_eq!(ask, QuoteSideDecision::Normal);
}

#[test]
fn test_inventory_check_at_cap() {
    let inv = inventory(5000, 0, 0, 0);
    let config = StrategyConfig {
        inventory_cap: Dec::new(5000, 0),
        ..Default::default()
    };
    let (bid, ask) = inventory_check(&inv, &config);
    assert_eq!(bid, QuoteSideDecision::Paused);
    assert!(matches!(ask, QuoteSideDecision::Adjusted { .. }));
    assert_eq!(
        ask,
        QuoteSideDecision::Adjusted { offset_multiplier: Dec::new(5, 1) }
    );
}

#[test]
fn test_inventory_check_no_cap() {
    let inv = inventory(5000, 0, 0, 0);
    let config = StrategyConfig {
        inventory_cap: Dec::zero(),
        ..Default::default()
    };
    let (bid, ask) = inventory_check(&inv, &config);
    assert_eq!(bid, QuoteSideDecision::Normal);
    assert_eq!(ask, QuoteSideDecision::Normal);
}

#[test]
fn test_inventory_check_approaching_cap() {
    // ratio = 4000/5000 = 0.8: bid widens by 1.8, ask tightens by 1/1.8.
    let inv = inventory(4000, 0, 0, 0);
    let config = StrategyConfig {
        inventory_cap: Dec::new(5000, 0),
        ..Default::default()
    };
    let (bid, ask) = inventory_check(&inv, &config);
    assert_eq!(
        bid,
        QuoteSideDecision::Adjusted { offset_multiplier: Dec::new(18, 1) }
    );
    // 1 / 1.8 truncated at nine decimals.
    assert_eq!(
        ask,
        QuoteSideDecision::Adjusted { offset_multiplier: Dec::from_atoms(555_555_555) }
    );
}

#[test]
fn test_unrealized_pnl() {
    // Bought 1000 YES at 0.40; midpoint moved to 0.50, so YES worth 500.
    let inv = inventory(1000, 0, 400, 0);
    let pnl = inv.unrealized_pnl(Dec::new(50, 2));
    assert_eq!(pnl, Dec::new(100, 0));
}

#[test]
fn test_unrealized_pnl_rises_with_midpoint() {
    let inv = inventory(1000, 0, 400, 0);
    let low = inv.unrealized_pnl(Dec::new(40, 2));
    let high = inv.unrealized_pnl(Dec::new(60, 2));
    assert!(low.lt(&high));
}

#[test]
fn test_capital_allocation() {
    let scores = vec![
        ("market_a".to_owned(), Dec::new(100, 0)),
        ("market_b".to_owned(), Dec::new(50, 0)),
        ("market_c".to_owned(), Dec::new(50, 0)),
    ];
    let allocations = allocate_capital(&scores, Dec::new(2000, 0), Dec::new(1000, 0));
    assert_eq!(allocations.len(), 3);
    assert_eq!(allocations[0].1, Dec::new(1000, 0)); // 50% of 2000, capped at 1000
    assert_eq!(allocations[1].1, Dec::new(500, 0)); // 25% of 2000
    assert_eq!(allocations[2].1, Dec::new(500, 0));
}

#[test]
fn test_capital_allocation_zero_scores() {
    let scores = vec![
        ("a".to_owned(), Dec::zero()),
        ("b".to_owned(), Dec::zero()),
    ];
    let allocations = allocate_capital(&scores, Dec::new(2000, 0), Dec::new(1500, 0));
    assert_eq!(allocations[0].1, Dec::new(1000, 0)); // equal split
    assert_eq!(allocations[1].1, Dec::new(1000, 0));
}

#[test]
fn test_capital_allocation_empty() {
    let scores: Vec<(String, Dec)> = Vec::new();
    let allocations = allocate_capital(&scores, Dec::new(2000, 0), Dec::new(1000, 0));
    assert!(allocations.is_empty());
}

#[test]
fn test_capital_allocation_never_exceeds_total() {
    let scores = vec![
        ("a".to_owned(), Dec::new(3, 0)),
        ("b".to_owned(), Dec::new(3, 0)),
        ("c".to_owned(), Dec::new(1, 0)),
    ];
    let total = Dec::new(1000, 0);
    let allocations = allocate_capital(&scores, total, Dec::new(1000, 0));
    let mut sum = Dec::zero();
    for (_, a) in &allocations {
        sum = sum.add(*a);
    }
    assert!(sum.le(&total));
}

#[test]
fn test_holding_reward_factor() {
    // High confidence near resolution.
    let factor = holding_reward_factor(Dec::new(95, 2), Some(7));
    assert!(factor.gt(&Dec::zero()));
    // Low confidence: no holding reward.
    let factor = holding_reward_factor(Dec::new(50, 2), Some(7));
    assert_eq!(factor, Dec::zero());
}

#[test]
fn test_holding_reward_factor_no_days() {
    assert_eq!(holding_reward_factor(Dec::new(95, 2), Some(0)), Dec::zero());
}

#[test]
fn test_kill_switch() {
    // Bought 1000 YES at 0.60.
    let inv = inventory(1000, 0, 600, 0);
    let risk = RiskConfig {
        kill_switch_loss: Dec::new(100, 0),
        ..Default::default()
    };
    // Midpoint at 0.40: value = 400, PnL = 400 - 600 = -200.
    let losing = vec![("test".to_owned(), inv, Dec::new(40, 2))];
    assert!(should_kill_switch(&losing, &risk));
    // Midpoint at 0.55: value = 550, PnL = -50 (within threshold).
    let tolerable = vec![("test".to_owned(), inv, Dec::new(55, 2))];
    assert!(!should_kill_switch(&tolerable, &risk));
}

#[test]
fn test_kill_switch_monotone_in_losers() {
    // Already triggered; adding another losing market keeps it triggered.
    let loser = inventory(1000, 0, 600, 0);
    let risk = RiskConfig {
        kill_switch_loss: Dec::new(100, 0),
        ..Default::default()
    };
    let one = vec![("a".to_owned(), loser, Dec::new(40, 2))];
    assert!(should_kill_switch(&one, &risk));
    let two = vec![
        ("a".to_owned(), loser, Dec::new(40, 2)),
        ("b".to_owned(), inventory(10, 0, 10, 0), Dec::new(50, 2)),
    ];
    assert!(should_kill_switch(&two, &risk));
}

#[test]
fn test_strategy_defaults() {
    let s = StrategyConfig::default();
    assert_eq!(s.base_offset_cents, Dec::new(10, 1));
    assert_eq!(s.min_offset_cents, Dec::new(5, 1));
    assert_eq!(s.requote_interval_secs, 30);
    assert_eq!(s.order_size, Dec::new(500, 0));
    assert_eq!(s.num_levels, 2);
    assert_eq!(s.inventory_cap, Dec::new(5000, 0));
}

#[test]
fn test_section_defaults() {
    let w = WalletConfig::default();
    assert_eq!(w.private_key_env, "POLYMARKET_PRIVATE_KEY");
    assert_eq!(w.signature_type, "eoa");
    let m = MarketsConfig::default();
    assert_eq!(m.mode, "auto");
    assert_eq!(m.max_markets, 20);
    assert_eq!(m.min_reward_daily, Dec::new(5, 0));
    assert!(m.prefer_fee_enabled);
    let r = RiskConfig::default();
    assert_eq!(r.max_total_capital, Dec::new(2000, 0));
    assert_eq!(r.max_per_market, Dec::new(500, 0));
    assert_eq!(r.kill_switch_loss, Dec::new(100, 0));
    let mon = MonitoringConfig::default();
    assert_eq!(mon.log_level, "info");
    assert!(mon.telegram_bot_token.is_empty());
}
