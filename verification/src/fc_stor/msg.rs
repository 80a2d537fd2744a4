//! Messages of the multi-future application chains.
use vstd::prelude::*;

verus! {

/// Instantiation: the chain's id and the account's starting balance.
#[derive(Clone, Copy, Debug, PartialEq, Eq)]
pub struct InstantiateMsg {
    pub chain_id: u16,
    pub original_value: i64,
}

/// Requests to the contract.
#[derive(Debug, PartialEq, Eq)]
pub enum ExecuteMsg {
    ExecuteTxs { fcross_txs: Vec<FcrossTx> },
    FinalizeTx { instruction: Instruction },
}

/// A cross-chain transaction's part on this chain.
#[derive(Clone, Copy, Debug, PartialEq, Eq)]
pub struct FcrossTx {
    pub tx_id: u32,
    pub operation: Operation,
}

/// What a transaction does to the balance.
#[derive(Clone, Copy, Debug, PartialEq, Eq)]
pub enum Operation {
    CreditBalance { amount: i64 },
    DebitBalance { amount: i64 },
}

/// The coordinator's decision on a transaction.
#[derive(Clone, Copy, Debug, PartialEq, Eq)]
pub struct Instruction {
    pub tx_id: u32,
    pub commitment: bool,
}

/// Queries.
#[derive(Clone, Copy, Debug, PartialEq, Eq)]
pub enum QueryMsg {
    Multifuture {},
    WaitingList {},
    MyErrLogs {},
    MyTimeLogs {},
}

/// The multi-future, one text per branch.
#[derive(Debug, PartialEq, Eq)]
pub struct MultifutureResp {
    pub futures: Vec<String>,
}

/// The transactions waiting for a place.
#[derive(Debug, PartialEq, Eq)]
pub struct WaitingListResp {
    pub waiting_tx_list: Vec<FcrossTx>,
}

/// The error log.
#[derive(Debug, PartialEq, Eq)]
pub struct MyErrLogsResp {
    pub logs: String,
}

/// The time log, one text per transaction.
#[derive(Debug, PartialEq, Eq)]
pub struct MyTimeLogsResp {
    pub logs: Vec<String>,
}

/// This chain's vote on a transaction, sent to the coordinator.
#[derive(Clone, Copy, Debug, PartialEq, Eq)]
pub struct Vote {
    pub tx_id: u32,
    pub chain_id: u16,
    pub success: bool,
}

impl DeepView for Vote {
    type V = Vote;

    open spec fn deep_view(&self) -> Vote {
        *self
    }
}

} // verus!
