//! The single-round coordinator: it gathers one vote per application chain on
//! each transaction and instructs every chain to commit it once all chains
//! voted for it, or to abort it as soon as one chain voted against it.
pub mod msg;
pub mod state;
pub mod error;
pub mod contract;
