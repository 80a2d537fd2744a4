//! Errors of the fc-exec contract.
use vstd::prelude::*;
use crate::chain::StdFailure;

verus! {

/// Why the contract refuses a request.
#[derive(Clone, Copy, Debug, PartialEq, Eq)]
pub enum ContractError {
    StdError(StdFailure),
    /// The transaction to be finalized is neither pending nor secondary.
    TxNotFound(u32),
    UpperBound { max_length: u32 },
}

} // verus!
