//! Replay of the transaction log.
pub mod positions;
