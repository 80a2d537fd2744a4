//! Errors of the two-round coordinator.
use vstd::prelude::*;
use crate::chain::{missing_record_string, missing_record_text, StdFailure};
use crate::render::{dec_nat, dec_u64};

verus! {

/// Why the contract refuses a vote.
#[derive(Clone, Copy, Debug, PartialEq, Eq)]
pub enum ContractError {
    StdError(StdFailure),
    /// The chain has already voted on the transaction in this round.
    AlreadyVoted { tx_id: u32, chain_id: u16 },
    /// The status round of the transaction is still open.
    StatusVoteUnfinished(u32),
    /// The transaction was aborted in the status round.
    ValidityVoteNotAllowed(u32),
    /// The validity round of the transaction is closed.
    TxClosed(u32),
}

/// The debug text of an error, as the error log records it.
pub open spec fn error_text(e: ContractError) -> Seq<char> {
    match e {
        ContractError::StdError(f) => missing_record_text("coordinator2::state"@, f),
        ContractError::AlreadyVoted { tx_id, chain_id } => "AlreadyVoted { tx_id: "@ + dec_nat(tx_id as nat)
            + ", chain_id: "@ + dec_nat(chain_id as nat) + " }"@,
        ContractError::StatusVoteUnfinished(t) => "StatusVoteUnfinished("@ + dec_nat(t as nat) + ")"@,
        ContractError::ValidityVoteNotAllowed(t) => "ValidityVoteNotAllowed("@ + dec_nat(t as nat) + ")"@,
        ContractError::TxClosed(t) => "TxClosed("@ + dec_nat(t as nat) + ")"@,
    }
}

impl ContractError {
    /// The debug text of the error (see [`error_text`]).
    pub fn debug_text(&self) -> (s: String)
        ensures
            s@ == error_text(*self),
    {
        match self {
            ContractError::StdError(f) => missing_record_string("coordinator2::state", *f),
            ContractError::AlreadyVoted { tx_id, chain_id } => String::from_str("AlreadyVoted { tx_id: ").concat(
                dec_u64(*tx_id as u64).as_str(),
            ).concat(", chain_id: ").concat(dec_u64(*chain_id as u64).as_str()).concat(" }"),
            ContractError::StatusVoteUnfinished(t) => String::from_str("StatusVoteUnfinished(").concat(
                dec_u64(*t as u64).as_str(),
            ).concat(")"),
            ContractError::ValidityVoteNotAllowed(t) => String::from_str("ValidityVoteNotAllowed(").concat(
                dec_u64(*t as u64).as_str(),
            ).concat(")"),
            ContractError::TxClosed(t) => String::from_str("TxClosed(").concat(dec_u64(*t as u64).as_str()).concat(
                ")",
            ),
        }
    }
}

} // verus!
