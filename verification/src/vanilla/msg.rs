//! Messages of the vanilla contract: those of the application chains, and its
//! own queries.
use vstd::prelude::*;
pub use crate::fc_stor::msg::{
    ExecuteMsg, FcrossTx, InstantiateMsg, Instruction, MyErrLogsResp, MyTimeLogsResp, Operation,
    Vote, WaitingListResp,
};

verus! {

/// Queries.
#[derive(Clone, Copy, Debug, PartialEq, Eq)]
pub enum QueryMsg {
    HistoryTxs {},
    WaitingList {},
    MyErrLogs {},
    MyTimeLogs {},
}

/// The finished transactions.
#[derive(Debug, PartialEq, Eq)]
pub struct HistoryTxsResp {
    pub history: Vec<u32>,
}

} // verus!
