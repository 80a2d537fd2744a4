//! Fcross without optimisations: every executed transaction keeps its own
//! multi-future, over the transactions pending when it was executed.
pub mod msg;
pub mod state;
pub mod contract;
pub mod laws;
