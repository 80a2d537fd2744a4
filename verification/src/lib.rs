//! Verified core of the Fcross cross-chain transaction contracts: the state
//! machines of the application chains (vanilla, avalon, fc-basic, fc-stor,
//! fc-exec) and of the coordinator chains (coordinator1, coordinator2).

pub mod chain;
pub mod render;
pub mod fc_stor;
pub mod fc_exec;
pub mod fc_basic;
pub mod vanilla;
pub mod avalon;
pub mod coordinator1;
pub mod coordinator2;
