//! Errors of the avalon contract.
use vstd::prelude::*;
use crate::chain::StdFailure;

verus! {

/// Why the contract refuses a request.
#[derive(Debug, PartialEq, Eq)]
pub enum ContractError {
    StdError(StdFailure),
    /// A validity instruction for a transaction that is neither pending nor finished.
    UnexpectedValidityInstruction { received_tx_id: u32, received_commitment: bool, expected_tx_ids: Vec<u32> },
    /// The batch being voted on has neither no transaction nor a full batch.
    UnexpectedPendingTxsNumber(usize),
    TxAlreadyPrepared(u32),
    TxUnprepared(u32),
    TxAlreadyFinalized(u32),
}

/// An error seen as plain values.
pub enum ErrorView {
    StdError(StdFailure),
    UnexpectedValidityInstruction { received_tx_id: u32, received_commitment: bool, expected_tx_ids: Seq<u32> },
    UnexpectedPendingTxsNumber(usize),
    TxAlreadyPrepared(u32),
    TxUnprepared(u32),
    TxAlreadyFinalized(u32),
}

impl View for ContractError {
    type V = ErrorView;

    open spec fn view(&self) -> ErrorView {
        match self {
            ContractError::StdError(f) => ErrorView::StdError(*f),
            ContractError::UnexpectedValidityInstruction { received_tx_id, received_commitment, expected_tx_ids } =>
                ErrorView::UnexpectedValidityInstruction {
                received_tx_id: *received_tx_id,
                received_commitment: *received_commitment,
                expected_tx_ids: expected_tx_ids@,
            },
            ContractError::UnexpectedPendingTxsNumber(n) => ErrorView::UnexpectedPendingTxsNumber(*n),
            ContractError::TxAlreadyPrepared(i) => ErrorView::TxAlreadyPrepared(*i),
            ContractError::TxUnprepared(i) => ErrorView::TxUnprepared(*i),
            ContractError::TxAlreadyFinalized(i) => ErrorView::TxAlreadyFinalized(*i),
        }
    }
}

} // verus!
