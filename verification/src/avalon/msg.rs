//! Messages of the avalon contract.
use vstd::prelude::*;

verus! {

/// Instantiation: the chain's id and the account's starting balance.
#[derive(Clone, Copy, Debug, PartialEq, Eq)]
pub struct InstantiateMsg {
    pub chain_id: u16,
    pub original_value: i64,
}

/// Requests to the contract.
#[derive(Debug, PartialEq, Eq)]
pub enum ExecuteMsg {
    ExecuteTxs { fcross_txs: Vec<FcrossTx> },
    PrepareTx { instruction: StatusInstruction },
    FinalizeTx { instruction: ValidityInstruction },
}

/// A cross-chain transaction's part on this chain.
#[derive(Clone, Copy, Debug, PartialEq, Eq)]
pub struct FcrossTx {
    pub tx_id: u32,
    pub operation: Operation,
}

/// What a transaction does to the balance.
#[derive(Clone, Copy, Debug, PartialEq, Eq)]
pub enum Operation {
    CreditBalance { amount: i64 },
    DebitBalance { amount: i64 },
}

/// Queries.
#[derive(Clone, Copy, Debug, PartialEq, Eq)]
pub enum QueryMsg {
    HistoryTxs {},
    PendingTxs {},
    WaitingTxs {},
    MyErrLogs {},
    MyTimeLogs {},
}

/// Finished transactions: (tx_id, committed).
#[derive(Debug, PartialEq, Eq)]
pub struct HistoryTxsResp {
    pub history: Vec<(u32, bool)>,
}

/// The batch being voted on: (transaction, new balance, status instruction
/// received, validity instruction received).
#[derive(Debug, PartialEq, Eq)]
pub struct PendingTxsResp {
    pub pending_txs: Vec<(FcrossTx, Option<i64>, bool, bool)>,
}

/// The multi-future, one text per branch.
#[derive(Debug, PartialEq, Eq)]
pub struct MultifutureResp {
    pub futures: Vec<String>,
}

/// Multi-futures by transaction, as text.
#[derive(Debug, PartialEq, Eq)]
pub struct AllMfsResp {
    pub mfs: Vec<(u32, String)>,
}

/// The transactions waiting for a batch.
#[derive(Debug, PartialEq, Eq)]
pub struct WaitingTxsResp {
    pub waiting_txs: Vec<FcrossTx>,
}

/// The error log.
#[derive(Debug, PartialEq, Eq)]
pub struct MyErrLogsResp {
    pub logs: String,
}

/// The time log, one text per transaction.
#[derive(Debug, PartialEq, Eq)]
pub struct MyTimeLogsResp {
    pub logs: Vec<String>,
}

/// An instruction from the coordinator chain.
#[derive(Clone, Copy, Debug, PartialEq, Eq)]
pub enum Instruction {
    Status(StatusInstruction),
    Validity(ValidityInstruction),
}

/// The outcome of a transaction's status round.
#[derive(Clone, Copy, Debug, PartialEq, Eq)]
pub struct StatusInstruction {
    pub tx_id: u32,
    pub advancement: bool,
}

/// The outcome of a transaction's validity round.
#[derive(Clone, Copy, Debug, PartialEq, Eq)]
pub struct ValidityInstruction {
    pub tx_id: u32,
    pub commitment: bool,
}

/// A vote sent to the coordinator chain.
#[derive(Debug, PartialEq, Eq)]
pub enum Vote {
    Status(StatusVote),
    Validity(ValidityVote),
}

/// This chain's status-round vote.
#[derive(Clone, Copy, Debug, PartialEq, Eq)]
pub struct StatusVote {
    pub tx_id: u32,
    pub chain_id: u16,
    pub status: bool,
}

/// This chain's validity-round vote: the earlier transactions of the batch it
/// depends on.
#[derive(Debug, PartialEq, Eq)]
pub struct ValidityVote {
    pub tx_id: u32,
    pub chain_id: u16,
    pub dependencies: Vec<u32>,
}

/// A vote seen as plain values.
pub enum VoteView {
    Status(StatusVote),
    Validity { tx_id: u32, chain_id: u16, dependencies: Seq<u32> },
}

impl DeepView for Vote {
    type V = VoteView;

    open spec fn deep_view(&self) -> VoteView {
        match self {
            Vote::Status(v) => VoteView::Status(*v),
            Vote::Validity(v) => VoteView::Validity {
                tx_id: v.tx_id,
                chain_id: v.chain_id,
                dependencies: v.dependencies@,
            },
        }
    }
}

} // verus!
