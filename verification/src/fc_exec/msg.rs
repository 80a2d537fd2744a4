//! Messages of the fc-exec contract: those of the multi-future chains, and
//! its own queries.
use vstd::prelude::*;
use crate::fc_exec::state::ScopeExecutedTx;
pub use crate::fc_stor::msg::{
    ExecuteMsg, FcrossTx, InstantiateMsg, Instruction, MultifutureResp, MyErrLogsResp,
    MyTimeLogsResp, Operation, Vote, WaitingListResp,
};

verus! {

/// Queries.
#[derive(Clone, Copy, Debug, PartialEq, Eq)]
pub enum QueryMsg {
    Multifuture {},
    WaitingList {},
    AllLists {},
    MyErrLogs {},
    MyTimeLogs {},
}

/// All the lists of transactions.
#[derive(Debug, PartialEq, Eq)]
pub struct AllListsResp {
    pub history_list: Vec<u32>,
    pub pending_list: Vec<(u32, bool)>,
    pub secondary_pending_list: Vec<ScopeExecutedTx>,
    pub waiting_list: Vec<FcrossTx>,
}

} // verus!
