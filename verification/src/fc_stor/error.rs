//! Errors of the multi-future application chains.
use vstd::prelude::*;
use crate::chain::{missing_record_string, missing_record_text, StdFailure};
use crate::render::{dec_nat, dec_u64, list_string, list_text};

verus! {

/// Why the contract refuses a request.
#[derive(Debug, PartialEq, Eq)]
pub enum ContractError {
    StdError(StdFailure),
    /// A transaction with this id was executed before.
    ExecutionTxIdAlreadyExist { sent_id: u32 },
    /// The instruction names no pending transaction.
    FinalizationTxNotFound { sent_id: u32, expected_id: Vec<u32> },
    UpperBound { max_length: u32 },
}

/// An error seen as plain values.
pub enum ErrorView {
    StdError(StdFailure),
    ExecutionTxIdAlreadyExist { sent_id: u32 },
    FinalizationTxNotFound { sent_id: u32, expected_id: Seq<u32> },
    UpperBound { max_length: u32 },
}

impl View for ContractError {
    type V = ErrorView;

    open spec fn view(&self) -> ErrorView {
        match self {
            ContractError::StdError(f) => ErrorView::StdError(*f),
            ContractError::ExecutionTxIdAlreadyExist { sent_id } => ErrorView::ExecutionTxIdAlreadyExist {
                sent_id: *sent_id,
            },
            ContractError::FinalizationTxNotFound { sent_id, expected_id } => ErrorView::FinalizationTxNotFound {
                sent_id: *sent_id,
                expected_id: expected_id@,
            },
            ContractError::UpperBound { max_length } => ErrorView::UpperBound { max_length: *max_length },
        }
    }
}

/// The debug text of an error, as the error log records it.
pub open spec fn error_text(e: ErrorView) -> Seq<char> {
    match e {
        ErrorView::StdError(f) => missing_record_text("fc_stor::state"@, f),
        ErrorView::ExecutionTxIdAlreadyExist { sent_id } => "ExecutionTxIdAlreadyExist { sent_id: "@ + dec_nat(
            sent_id as nat,
        ) + " }"@,
        ErrorView::FinalizationTxNotFound { sent_id, expected_id } => "FinalizationTxNotFound { sent_id: "@
            + dec_nat(sent_id as nat) + ", expected_id: "@ + list_text(expected_id) + " }"@,
        ErrorView::UpperBound { max_length } => "UpperBound { max_length: "@ + dec_nat(max_length as nat)
            + " }"@,
    }
}

impl ContractError {
    /// The debug text of the error (see [`error_text`]).
    pub fn debug_text(&self) -> (s: String)
        ensures
            s@ == error_text(self@),
    {
        match self {
            ContractError::StdError(f) => missing_record_string("fc_stor::state", *f),
            ContractError::ExecutionTxIdAlreadyExist { sent_id } => String::from_str(
                "ExecutionTxIdAlreadyExist { sent_id: ",
            ).concat(dec_u64(*sent_id as u64).as_str()).concat(" }"),
            ContractError::FinalizationTxNotFound { sent_id, expected_id } => String::from_str(
                "FinalizationTxNotFound { sent_id: ",
            ).concat(dec_u64(*sent_id as u64).as_str()).concat(", expected_id: ").concat(
                list_string(expected_id).as_str(),
            ).concat(" }"),
            ContractError::UpperBound { max_length } => String::from_str("UpperBound { max_length: ").concat(
                dec_u64(*max_length as u64).as_str(),
            ).concat(" }"),
        }
    }
}

} // verus!
