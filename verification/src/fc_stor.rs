//! Fcross with the storage optimisation: the messages, errors, state types,
//! helpers and IBC handshake shared by the multi-future application chains.
pub mod msg;
pub mod state;
pub mod error;
pub mod utils;
pub mod ibc;
