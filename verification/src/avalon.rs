//! Avalon: transactions executed in batches, each transaction voted on in a
//! status round and a validity round.
pub mod msg;
pub mod state;
pub mod error;
pub mod contract;
