//! Errors of the single-round coordinator.
use vstd::prelude::*;
use crate::chain::StdFailure;

verus! {

/// Why the contract refuses a vote.
#[derive(Clone, Copy, Debug, PartialEq, Eq)]
pub enum ContractError {
    StdError(StdFailure),
    /// The chain has already voted on the transaction.
    AlreadyVoted { tx_id: u32, chain_id: u16 },
    /// The transaction has already been decided.
    AlreadyClosed { tx_id: u32 },
}

} // verus!
