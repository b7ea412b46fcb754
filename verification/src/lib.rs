//! A backtesting and live-replay core for candle data.
//!
//! Raw bars enter a [`candleline::CandleLine`], are smoothed into
//! Heikin-Ashi bars, judged by a strategy that emits a [`signal::Signal`],
//! and acted on by a simulated wallet, the [`market::Market`]. A
//! [`replay::Session`] drives that chain once per tick and journals each
//! outcome; [`stats::Stats`] are derived from the finished journal.
//!
//! Every amount is a fixed-point integer, see [`fixed`]. The library does no
//! input or output: it is handed text and bars, and hands back values.

pub mod candle;
pub mod candleline;
pub mod config;
pub mod decimal;
pub mod fixed;
pub mod indicators;
pub mod journal;
pub mod json;
pub mod market;
pub mod order;
pub mod portfolio;
pub mod replay;
pub mod signal;
pub mod stats;
pub mod strategy;
pub mod text;
pub mod types;
pub mod wire;
