//! The baseline application chain: one transaction at a time holds the
//! balance until the coordinator's instruction arrives.
pub mod msg;
pub mod state;
pub mod contract;
