//! State of the fc-basic contract.
use std::collections::BTreeMap;
use vstd::prelude::*;
use crate::fc_stor::msg::FcrossTx;
use crate::fc_stor::state::{channel_view, ChannelInfo, ChannelView, TimeInfo, MAX_PENDING_LEN};

verus! {

/// Everything the contract keeps in storage.
pub struct ContractState {
    pub chain_id: u16,
    /// The multi-future of each executed transaction (key 0: the original balance).
    pub mf_map: BTreeMap<u32, Vec<Option<i64>>>,
    /// Whether the chain has voted on each executed transaction.
    pub mf_vote_map: BTreeMap<u32, bool>,
    pub history: Vec<u32>,
    pub pending: Vec<u32>,
    pub waiting: Vec<FcrossTx>,
    pub my_channel: Option<ChannelInfo>,
    pub err_logs: String,
    pub time_logs: BTreeMap<u32, TimeInfo>,
}

/// The contract's state as plain values.
#[verifier::ext_equal]
pub struct StateView {
    pub chain_id: u16,
    pub mf_map: Map<u32, Seq<Option<i64>>>,
    pub mf_vote_map: Map<u32, bool>,
    pub history: Seq<u32>,
    pub pending: Seq<u32>,
    pub waiting: Seq<FcrossTx>,
    pub my_channel: Option<ChannelView>,
    pub err_logs: Seq<char>,
    pub time_logs: Map<u32, TimeInfo>,
}

/// The multi-futures as plain values.
pub open spec fn mf_map_view(m: Map<u32, Vec<Option<i64>>>) -> Map<u32, Seq<Option<i64>>> {
    m.map_values(|v: Vec<Option<i64>>| v@)
}

impl View for ContractState {
    type V = StateView;

    open spec fn view(&self) -> StateView {
        StateView {
            chain_id: self.chain_id,
            mf_map: mf_map_view(self.mf_map@),
            mf_vote_map: self.mf_vote_map@,
            history: self.history@,
            pending: self.pending@,
            waiting: self.waiting@,
            my_channel: channel_view(self.my_channel),
            err_logs: self.err_logs@,
            time_logs: self.time_logs@,
        }
    }
}

impl StateView {
    /// The pending list stays within its bound.
    pub open spec fn wf(self) -> bool {
        self.pending.len() <= MAX_PENDING_LEN
    }
}

} // verus!
