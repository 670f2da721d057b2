//! Core of a market-data protocol client: trading-session classification,
//! TTL memoization, request retry policy, push-event routing, and the
//! subscription bookkeeping behind a quote context.

pub mod actor;
pub mod cache;
pub mod config;
pub mod context;
pub mod dispatch;
pub mod error;
pub mod requests;
pub mod session;
pub mod sink;
pub mod symbol;
pub mod types;
pub mod utils;
