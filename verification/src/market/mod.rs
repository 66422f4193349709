//! Market data: price caches, price selection rules and ticker resolution.
pub mod series;
pub mod cache;
pub mod prices;
pub mod tickers;
