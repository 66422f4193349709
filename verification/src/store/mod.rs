//! Storage of transactions.
pub mod serialize;
