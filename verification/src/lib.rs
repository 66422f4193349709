//! Portfolio bookkeeping: transaction model, deduplicating store,
//! price caches, ticker resolution and the parsing rules of the
//! broker exports (Binance CSV, XTB spreadsheets, manual JSON).
//!
//! Amounts (quantities, prices, EUR values) are carried by the types of
//! this crate as an opaque parameter `N`: the library decides *which*
//! transactions, assets, cache points and rows are kept, in what order and
//! under which identifiers, and leaves the arithmetic on amounts to its
//! caller.
pub mod text;
pub mod time;
pub mod trades;
pub mod frequency;
pub mod schema;
pub mod history;
pub mod ledger;
pub mod market;
pub mod parse;
pub mod store;
