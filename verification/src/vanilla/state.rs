//! State of the vanilla contract.
use std::collections::BTreeMap;
use vstd::prelude::*;
pub use crate::fc_stor::state::TimeInfo;
use crate::fc_stor::msg::FcrossTx;
use crate::fc_stor::state::ChannelView;

verus! {

/// The IBC channel to the coordinator.
#[derive(Debug, PartialEq, Eq)]
pub struct ChannelInfo {
    pub channel_id: String,
    /// whether the channel is completely set up
    pub finalized: bool,
}

impl View for ChannelInfo {
    type V = ChannelView;

    open spec fn view(&self) -> ChannelView {
        ChannelView { channel_id: self.channel_id@, finalized: self.finalized }
    }
}

/// The view of an optional channel.
pub open spec fn channel_view(c: Option<ChannelInfo>) -> Option<ChannelView> {
    match c {
        Some(c) => Some(c@),
        None => None,
    }
}

/// A copy of an optional channel.
pub fn copy_channel(c: &Option<ChannelInfo>) -> (r: Option<ChannelInfo>)
    ensures
        channel_view(r) == channel_view(*c),
{
    match c {
        Some(c) => Some(ChannelInfo { channel_id: c.channel_id.clone(), finalized: c.finalized }),
        None => None,
    }
}

/// Everything the contract keeps in storage.
pub struct ContractState {
    pub chain_id: u16,
    pub current_state: i64,
    /// Finished transactions (starting with the placeholder 0).
    pub history: Vec<u32>,
    /// The transaction holding the balance, with the balance it would leave.
    pub pending_tx: Option<(FcrossTx, i64)>,
    pub waiting: Vec<FcrossTx>,
    /// Instructions that arrived before their transaction was executed.
    pub cached_instructions: BTreeMap<u32, bool>,
    pub my_channel: Option<ChannelInfo>,
    pub err_logs: String,
    pub time_logs: BTreeMap<u32, TimeInfo>,
}

/// The contract's state as plain values.
#[verifier::ext_equal]
pub struct StateView {
    pub chain_id: u16,
    pub current_state: i64,
    pub history: Seq<u32>,
    pub pending_tx: Option<(FcrossTx, i64)>,
    pub waiting: Seq<FcrossTx>,
    pub cached_instructions: Map<u32, bool>,
    pub my_channel: Option<ChannelView>,
    pub err_logs: Seq<char>,
    pub time_logs: Map<u32, TimeInfo>,
}

impl View for ContractState {
    type V = StateView;

    open spec fn view(&self) -> StateView {
        StateView {
            chain_id: self.chain_id,
            current_state: self.current_state,
            history: self.history@,
            pending_tx: self.pending_tx,
            waiting: self.waiting@,
            cached_instructions: self.cached_instructions@,
            my_channel: channel_view(self.my_channel),
            err_logs: self.err_logs@,
            time_logs: self.time_logs@,
        }
    }
}

} // verus!
