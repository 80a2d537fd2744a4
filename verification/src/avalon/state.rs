//! State of the avalon contract.
use std::collections::BTreeMap;
use vstd::prelude::*;
pub use crate::fc_stor::state::TimeInfo;
use crate::avalon::msg::FcrossTx;
use crate::fc_stor::state::ChannelView;

verus! {

/// Transactions per batch.
pub const BATCH_NUM: usize = 5;

/// A transaction of the batch: the new balance (`None` once aborted), and
/// whether its status and validity instructions have arrived.
pub type PendingTx = (FcrossTx, Option<i64>, bool, bool);

/// The IBC channel to the coordinator.
#[derive(Debug, PartialEq, Eq)]
pub struct ChannelInfo {
    pub channel_id: String,
    /// whether the channel is completely set up
    pub finalized: bool,
}

impl View for ChannelInfo {
    type V = ChannelView;

    open spec fn view(&self) -> ChannelView {
        ChannelView { channel_id: self.channel_id@, finalized: self.finalized }
    }
}

/// The view of an optional channel.
pub open spec fn channel_view(c: Option<ChannelInfo>) -> Option<ChannelView> {
    match c {
        Some(c) => Some(c@),
        None => None,
    }
}

/// A copy of an optional channel.
pub fn copy_channel(c: &Option<ChannelInfo>) -> (r: Option<ChannelInfo>)
    ensures
        channel_view(r) == channel_view(*c),
{
    match c {
        Some(c) => Some(ChannelInfo { channel_id: c.channel_id.clone(), finalized: c.finalized }),
        None => None,
    }
}

/// Everything the contract keeps in storage.
pub struct ContractState {
    pub chain_id: u16,
    pub current_state: i64,
    /// (tx_id, committed) of finished transactions.
    pub history: Vec<(u32, bool)>,
    pub pending: Vec<PendingTx>,
    pub waiting: Vec<FcrossTx>,
    /// Status instructions that arrived before their transaction was executed.
    pub cached_status_instructions: BTreeMap<u32, bool>,
    pub my_channel: Option<ChannelInfo>,
    pub err_logs: String,
    pub time_logs: BTreeMap<u32, TimeInfo>,
}

/// The contract's state as plain values.
#[verifier::ext_equal]
pub struct StateView {
    pub chain_id: u16,
    pub current_state: i64,
    pub history: Seq<(u32, bool)>,
    pub pending: Seq<PendingTx>,
    pub waiting: Seq<FcrossTx>,
    pub cached_status_instructions: Map<u32, bool>,
    pub my_channel: Option<ChannelView>,
    pub err_logs: Seq<char>,
    pub time_logs: Map<u32, TimeInfo>,
}

impl View for ContractState {
    type V = StateView;

    open spec fn view(&self) -> StateView {
        StateView {
            chain_id: self.chain_id,
            current_state: self.current_state,
            history: self.history@,
            pending: self.pending@,
            waiting: self.waiting@,
            cached_status_instructions: self.cached_status_instructions@,
            my_channel: channel_view(self.my_channel),
            err_logs: self.err_logs@,
            time_logs: self.time_logs@,
        }
    }
}

impl StateView {
    /// The batch being voted on is either empty or full.
    pub open spec fn wf(self) -> bool {
        self.pending.len() == 0 || self.pending.len() == BATCH_NUM
    }
}

} // verus!
