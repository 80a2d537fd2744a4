//! Messages of the single-round coordinator.
use vstd::prelude::*;

verus! {

/// Instantiation: how many application chains take part.
#[derive(Clone, Copy, Debug, PartialEq, Eq)]
pub struct InstantiateMsg {
    pub chain_num: u16,
}

/// Requests to the contract.
#[derive(Clone, Copy, Debug, PartialEq, Eq)]
pub enum ExecuteMsg {
    AddVote { vote: Vote },
}

/// A chain's vote on a transaction.
#[derive(Clone, Copy, Debug, PartialEq, Eq)]
pub struct Vote {
    pub tx_id: u32,
    pub chain_id: u16,
    pub success: bool,
}

/// Queries.
#[derive(Clone, Copy, Debug, PartialEq, Eq)]
pub enum QueryMsg {
    OpeningVotes {},
    ClosedVotes {},
    MyLogs {},
}

/// The open transactions with the chains that voted for them, by transaction id.
#[derive(Debug, PartialEq, Eq)]
pub struct OpeningVotesResp {
    pub votes: Vec<(u32, Vec<u16>)>,
}

/// The decided transactions with their decision, by transaction id.
#[derive(Debug, PartialEq, Eq)]
pub struct ClosedVotesResp {
    pub votes: Vec<(u32, bool)>,
}

/// The error log.
#[derive(Debug, PartialEq, Eq)]
pub struct MyLogsResp {
    pub logs: String,
}

/// The decision on a transaction, sent to every application chain.
#[derive(Clone, Copy, Debug, PartialEq, Eq)]
pub struct Instruction {
    pub tx_id: u32,
    pub commitment: bool,
}

impl DeepView for Instruction {
    type V = Instruction;

    open spec fn deep_view(&self) -> Instruction {
        *self
    }
}

} // verus!
