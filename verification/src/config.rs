//! Configuration of the bot: wallet, strategy, market selection, risk and
//! monitoring sections, with the documented default values.
//!
//! Reading the configuration file and the environment happens outside the
//! library; it hands these plain structures in.

use vstd::prelude::*;

use crate::fixed::{Dec, AMOUNT_MAX};
use crate::quoter::OFFSET_MAX;

verus! {

/// Wallet section: where the signing key comes from and how orders are
/// signed (`eoa`, `proxy` or `gnosis_safe`).
#[derive(Clone, Debug)]
pub struct WalletConfig {
    pub private_key_env: String,
    pub signature_type: String,
}

/// Strategy section: offsets in cents, requote cadence, order sizing and the
/// inventory cap.
#[derive(Clone, Copy, Debug)]
pub struct StrategyConfig {
    pub base_offset_cents: Dec,
    pub min_offset_cents: Dec,
    pub requote_interval_secs: u64,
    pub requote_threshold_cents: Dec,
    pub order_size: Dec,
    pub num_levels: u32,
    pub inventory_cap: Dec,
}

/// Market-selection section.
#[derive(Clone, Debug)]
pub struct MarketsConfig {
    pub mode: String,
    pub max_markets: usize,
    pub min_reward_daily: Dec,
    pub prefer_fee_enabled: bool,
    pub manual_markets: Vec<String>,
}

/// Risk section: capital limits and the kill-switch loss threshold.
#[derive(Clone, Copy, Debug)]
pub struct RiskConfig {
    pub max_total_capital: Dec,
    pub max_per_market: Dec,
    pub kill_switch_loss: Dec,
}

/// Monitoring section: log level and alert channel.
#[derive(Clone, Debug)]
pub struct MonitoringConfig {
    pub log_level: String,
    pub telegram_bot_token: String,
    pub telegram_chat_id: String,
}

/// The whole configuration.
#[derive(Clone, Debug)]
pub struct Config {
    pub wallet: WalletConfig,
    pub strategy: StrategyConfig,
    pub markets: MarketsConfig,
    pub risk: RiskConfig,
    pub monitoring: MonitoringConfig,
}

impl StrategyConfig {
    /// Ranges under which the strategy arithmetic stays exact and
    /// overflow-free.
    pub open spec fn wf(&self) -> bool {
        &&& 0 <= self.base_offset_cents@ <= OFFSET_MAX as int
        &&& 0 <= self.min_offset_cents@ <= OFFSET_MAX as int
        &&& 0 <= self.requote_threshold_cents@ <= OFFSET_MAX as int
        &&& 0 <= self.order_size@ <= AMOUNT_MAX as int
        &&& 0 <= self.inventory_cap@ <= AMOUNT_MAX as int
        &&& self.requote_interval_secs <= 1_000_000_000
    }
}

impl RiskConfig {
    /// Capital limits are non-negative amounts.
    pub open spec fn wf(&self) -> bool {
        &&& 0 <= self.max_total_capital@ <= AMOUNT_MAX as int
        &&& 0 <= self.max_per_market@ <= AMOUNT_MAX as int
        &&& 0 <= self.kill_switch_loss@ <= AMOUNT_MAX as int
    }
}

impl MarketsConfig {
    /// The reward floor is a non-negative amount.
    pub open spec fn wf(&self) -> bool {
        0 <= self.min_reward_daily@ <= AMOUNT_MAX as int
    }
}

impl Config {
    /// Every section is within its working ranges.
    pub open spec fn wf(&self) -> bool {
        &&& self.strategy.wf()
        &&& self.risk.wf()
        &&& self.markets.wf()
    }
}

impl Default for StrategyConfig {
    /// Base offset 1.0 cents, minimum 0.5 cents, requote every 30 s or on a
    /// 0.5-cent move, 500 tokens per order on 2 levels, inventory cap 5000.
    fn default() -> (r: Self)
        ensures
            r.base_offset_cents@ == 1_000_000_000,
            r.min_offset_cents@ == 500_000_000,
            r.requote_interval_secs == 30,
            r.requote_threshold_cents@ == 500_000_000,
            r.order_size@ == 500_000_000_000,
            r.num_levels == 2,
            r.inventory_cap@ == 5_000_000_000_000,
            r.wf(),
    {
        StrategyConfig {
            base_offset_cents: Dec::new(10, 1),
            min_offset_cents: Dec::new(5, 1),
            requote_interval_secs: 30,
            requote_threshold_cents: Dec::new(5, 1),
            order_size: Dec::new(500, 0),
            num_levels: 2,
            inventory_cap: Dec::new(5000, 0),
        }
    }
}

impl Default for MarketsConfig {
    /// Automatic selection of at most 20 markets paying at least $5 a day,
    /// preferring fee-enabled ones.
    fn default() -> (r: Self)
        ensures
            r.mode@ == "auto"@,
            r.max_markets == 20,
            r.min_reward_daily@ == 5_000_000_000,
            r.prefer_fee_enabled == true,
            r.manual_markets@.len() == 0,
            r.wf(),
    {
        MarketsConfig {
            mode: "auto".to_owned(),
            max_markets: 20,
            min_reward_daily: Dec::new(5, 0),
            prefer_fee_enabled: true,
            manual_markets: Vec::new(),
        }
    }
}

impl Default for RiskConfig {
    /// $2000 in total, $500 per market, kill switch at a $100 loss.
    fn default() -> (r: Self)
        ensures
            r.max_total_capital@ == 2_000_000_000_000,
            r.max_per_market@ == 500_000_000_000,
            r.kill_switch_loss@ == 100_000_000_000,
            r.wf(),
    {
        RiskConfig {
            max_total_capital: Dec::new(2000, 0),
            max_per_market: Dec::new(500, 0),
            kill_switch_loss: Dec::new(100, 0),
        }
    }
}

impl Default for MonitoringConfig {
    /// Log at `info`, no alert channel.
    fn default() -> (r: Self)
        ensures
            r.log_level@ == "info"@,
            r.telegram_bot_token@.len() == 0,
            r.telegram_chat_id@.len() == 0,
    {
        MonitoringConfig {
            log_level: "info".to_owned(),
            telegram_bot_token: String::new(),
            telegram_chat_id: String::new(),
        }
    }
}

impl Default for WalletConfig {
    /// Key read from `POLYMARKET_PRIVATE_KEY`, signing as a plain account.
    fn default() -> (r: Self)
        ensures
            r.private_key_env@ == "POLYMARKET_PRIVATE_KEY"@,
            r.signature_type@ == "eoa"@,
    {
        WalletConfig {
            private_key_env: "POLYMARKET_PRIVATE_KEY".to_owned(),
            signature_type: "eoa".to_owned(),
        }
    }
}

} // verus!
