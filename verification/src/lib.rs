//! Core of a Solana DEX arbitrage bot: pool price model, opportunity
//! detection, strategy filtering, a bounded in-memory store, the
//! orchestrating engine and the bounded-concurrency executor, together
//! with the small utility layers they share.
//!
//! Quantities are plain integers: token amounts are `u64` units, prices
//! and ratios are `u128` in millionths (see [`units`]), timestamps are
//! `i64` milliseconds since the Unix epoch.

pub mod arbitrage;
pub mod config;
pub mod crypto_utils;
pub mod dex;
pub mod engine;
pub mod executor;
mod ids;
pub mod jito;
pub mod math_utils;
pub mod net_utils;
pub mod pool;
pub mod scanner;
pub mod solana;
pub mod store;
pub mod strategy;
pub mod text;
pub mod time_utils;
pub mod token;
pub mod transaction;
pub mod units;
