//! The two-round coordinator: a status round decides whether each
//! transaction may advance, and a validity round, in which every chain also
//! names the transactions it depended on, decides whether it commits once all
//! of those have been decided.
pub mod msg;
pub mod state;
pub mod error;
pub mod contract;
pub mod ibc;
pub mod laws;
