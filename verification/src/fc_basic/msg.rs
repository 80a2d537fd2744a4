//! Messages of the fc-basic contract: those of the multi-future chains, and
//! its own queries.
use vstd::prelude::*;
pub use crate::fc_stor::msg::{
    ExecuteMsg, FcrossTx, InstantiateMsg, Instruction, MultifutureResp, MyErrLogsResp,
    MyTimeLogsResp, Operation, Vote, WaitingListResp,
};

verus! {

/// Queries.
#[derive(Clone, Copy, Debug, PartialEq, Eq)]
pub enum QueryMsg {
    Multifuture { tx_id: u32 },
    AllMfs {},
    WaitingList {},
    MyErrLogs {},
    MyTimeLogs {},
}

/// The multi-future of every executed transaction, as text.
#[derive(Debug, PartialEq, Eq)]
pub struct AllMfsResp {
    pub mfs: Vec<(u32, String)>,
}

} // verus!
