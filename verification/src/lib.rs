//! Verified core of a liquidity-providing bot for a binary prediction-market
//! exchange with a central limit order book.
//!
//! The library holds the logic that is worth proving: fee-aware quote pricing,
//! inventory-based risk decisions, capital allocation, order bookkeeping, the
//! per-market quoting state machine, the portfolio controller with its rate
//! limiter, and session metrics. All money amounts are fixed-point decimals
//! (see [`fixed`]); transport to the exchange lives outside the library and
//! hands it plain values.

pub mod config;
pub mod engine;
pub mod fixed;
pub mod inventory;
pub mod manager;
pub mod metrics;
pub mod orders;
pub mod quoter;
pub mod risk;
pub mod scanner;
pub mod ws;

pub use fixed::Dec;
