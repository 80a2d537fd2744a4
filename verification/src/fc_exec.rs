//! Fcross with both the storage and the execution optimisation: a multi-future
//! over the pending transactions, and a secondary list executed on value ranges.
pub mod msg;
pub mod state;
pub mod error;
pub mod contract;
pub mod laws;
