//! State of the single-round coordinator.
use std::collections::BTreeMap;
use vstd::prelude::*;
use crate::chain::ascending;
use crate::fc_stor::state::{channel_keys, ChannelView};

verus! {

/// The IBC channel to an application chain.
#[derive(Debug, PartialEq, Eq)]
pub struct ChannelInfo {
    pub channel_id: String,
    /// whether the channel is completely set up
    pub finalized: bool,
}

impl View for ChannelInfo {
    type V = ChannelView;

    open spec fn view(&self) -> ChannelView {
        ChannelView { channel_id: self.channel_id@, finalized: self.finalized }
    }
}

/// Everything the contract keeps in storage.
pub struct ContractState {
    /// How many application chains vote on each transaction.
    pub chain_num: u16,
    /// The chains that voted for each open transaction, in the order of their votes.
    pub opening_votes: BTreeMap<u32, Vec<u16>>,
    /// The decision on each closed transaction (`true`: commit).
    pub closed_votes: BTreeMap<u32, bool>,
    /// The channel to each application chain with its connection id, in
    /// ascending order of connection id.
    pub my_channels: Vec<(String, ChannelInfo)>,
    pub err_logs: String,
}

/// The contract's state as plain values.
#[verifier::ext_equal]
pub struct StateView {
    pub chain_num: u16,
    pub opening_votes: Map<u32, Seq<u16>>,
    pub closed_votes: Map<u32, bool>,
    pub my_channels: Seq<(Seq<char>, ChannelView)>,
    pub err_logs: Seq<char>,
}

/// The voters of the open transactions as plain values.
pub open spec fn votes_view(m: Map<u32, Vec<u16>>) -> Map<u32, Seq<u16>> {
    m.map_values(|v: Vec<u16>| v@)
}

/// The channels as plain values.
pub open spec fn channels_view(c: Seq<(String, ChannelInfo)>) -> Seq<(Seq<char>, ChannelView)> {
    c.map_values(|e: (String, ChannelInfo)| (e.0@, e.1@))
}

impl View for ContractState {
    type V = StateView;

    open spec fn view(&self) -> StateView {
        StateView {
            chain_num: self.chain_num,
            opening_votes: votes_view(self.opening_votes@),
            closed_votes: self.closed_votes@,
            my_channels: channels_view(self.my_channels@),
            err_logs: self.err_logs@,
        }
    }
}

impl StateView {
    /// No transaction is both open and decided, no chain appears twice among
    /// the voters of an open transaction, and the channels are listed in
    /// ascending order of connection id.
    pub open spec fn wf(self) -> bool {
        &&& ascending(channel_keys(self.my_channels))
        &&& forall|t: u32| #[trigger] self.opening_votes.contains_key(t) ==> !self.closed_votes.contains_key(t)
        &&& forall|t: u32| #[trigger] self.opening_votes.contains_key(t) ==> self.opening_votes[t].no_duplicates()
    }
}

} // verus!
