//! Messages of the two-round coordinator.
use vstd::prelude::*;

verus! {

/// Instantiation: how many application chains take part.
#[derive(Clone, Copy, Debug, PartialEq, Eq)]
pub struct InstantiateMsg {
    pub chain_num: u16,
}

/// Requests to the contract.
#[derive(Debug, PartialEq, Eq)]
pub enum ExecuteMsg {
    AddStatusVote { vote: StatusVote },
    AddValidityVote { vote: ValidityVote },
}

/// Queries.
#[derive(Clone, Copy, Debug, PartialEq, Eq)]
pub enum QueryMsg {
    OpeningVotes {},
    ClosedVotes {},
    AllClosedVotes {},
    MyLogs {},
}

/// The open votes of both rounds, by transaction id: the voters of the
/// status round, and the dependencies and voters of the validity round.
#[derive(Debug, PartialEq, Eq)]
pub struct OpeningVotesResp {
    pub r1_votes: Vec<(u32, Vec<u16>)>,
    pub r2_votes: Vec<(u32, (Vec<u32>, Vec<u16>))>,
}

/// The decisions of the status round, by transaction id.
#[derive(Debug, PartialEq, Eq)]
pub struct ClosedVotesResp {
    pub votes: Vec<(u32, bool)>,
}

/// The decisions of both rounds, by transaction id.
#[derive(Debug, PartialEq, Eq)]
pub struct AllClosedVotesResp {
    pub r1_votes: Vec<(u32, bool)>,
    pub r2_votes: Vec<(u32, bool)>,
}

/// The error log.
#[derive(Debug, PartialEq, Eq)]
pub struct MyLogsResp {
    pub logs: String,
}

/// A vote received from an application chain.
#[derive(Debug, PartialEq, Eq)]
pub enum Vote {
    Status(StatusVote),
    Validity(ValidityVote),
}

/// A chain's vote in the status round.
#[derive(Clone, Copy, Debug, PartialEq, Eq)]
pub struct StatusVote {
    pub tx_id: u32,
    pub chain_id: u16,
    pub status: bool,
}

/// A chain's vote in the validity round, with the transactions its outcome
/// depended on.
#[derive(Debug, PartialEq, Eq)]
pub struct ValidityVote {
    pub tx_id: u32,
    pub chain_id: u16,
    pub dependencies: Vec<u32>,
}

/// A decision sent to every application chain.
#[derive(Clone, Copy, Debug, PartialEq, Eq)]
pub enum Instruction {
    Status(StatusInstruction),
    Validity(ValidityInstruction),
}

/// The decision of the status round.
#[derive(Clone, Copy, Debug, PartialEq, Eq)]
pub struct StatusInstruction {
    pub tx_id: u32,
    pub advancement: bool,
}

/// The decision of the validity round.
#[derive(Clone, Copy, Debug, PartialEq, Eq)]
pub struct ValidityInstruction {
    pub tx_id: u32,
    pub commitment: bool,
}

impl DeepView for Instruction {
    type V = Instruction;

    open spec fn deep_view(&self) -> Instruction {
        *self
    }
}

} // verus!
