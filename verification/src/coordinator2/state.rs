//! State of the two-round coordinator.
use std::collections::BTreeMap;
use vstd::prelude::*;
use crate::chain::ascending;
use crate::fc_stor::state::{channel_keys, ChannelView};

verus! {

/// The IBC channel to an application chain.
#[derive(Debug, PartialEq, Eq)]
pub struct ChannelInfo {
    pub channel_id: String,
    /// whether the channel is completely set up
    pub finalized: bool,
}

impl View for ChannelInfo {
    type V = ChannelView;

    open spec fn view(&self) -> ChannelView {
        ChannelView { channel_id: self.channel_id@, finalized: self.finalized }
    }
}

/// Everything the contract keeps in storage.
pub struct ContractState {
    /// How many application chains vote on each transaction.
    pub chain_num: u16,
    /// The chains that voted for each transaction in the open status round.
    pub opening_r1_votes: BTreeMap<u32, Vec<u16>>,
    /// The gathered dependencies and the chains that voted, for each
    /// transaction in the open validity round.
    pub opening_r2_votes: BTreeMap<u32, (Vec<u32>, Vec<u16>)>,
    /// Transactions whose validity votes are all in, waiting for their
    /// dependencies to be decided.
    pub ready_txs: Vec<u32>,
    /// The decision of the status round (`true`: advance).
    pub closed_r1_votes: BTreeMap<u32, bool>,
    /// The decision of the validity round (`true`: commit).
    pub closed_r2_votes: BTreeMap<u32, bool>,
    /// The channel to each application chain with its connection id, in
    /// ascending order of connection id.
    pub my_channels: Vec<(String, ChannelInfo)>,
    pub err_logs: String,
}

/// The contract's state as plain values.
#[verifier::ext_equal]
pub struct StateView {
    pub chain_num: u16,
    pub opening_r1_votes: Map<u32, Seq<u16>>,
    pub opening_r2_votes: Map<u32, (Seq<u32>, Seq<u16>)>,
    pub ready_txs: Seq<u32>,
    pub closed_r1_votes: Map<u32, bool>,
    pub closed_r2_votes: Map<u32, bool>,
    pub my_channels: Seq<(Seq<char>, ChannelView)>,
    pub err_logs: Seq<char>,
}

/// The status-round voters as plain values.
pub open spec fn r1_view(m: Map<u32, Vec<u16>>) -> Map<u32, Seq<u16>> {
    m.map_values(|v: Vec<u16>| v@)
}

/// The validity-round votes as plain values.
pub open spec fn r2_view(m: Map<u32, (Vec<u32>, Vec<u16>)>) -> Map<u32, (Seq<u32>, Seq<u16>)> {
    m.map_values(|v: (Vec<u32>, Vec<u16>)| (v.0@, v.1@))
}

/// The channels as plain values.
pub open spec fn channels_view(c: Seq<(String, ChannelInfo)>) -> Seq<(Seq<char>, ChannelView)> {
    c.map_values(|e: (String, ChannelInfo)| (e.0@, e.1@))
}

impl View for ContractState {
    type V = StateView;

    open spec fn view(&self) -> StateView {
        StateView {
            chain_num: self.chain_num,
            opening_r1_votes: r1_view(self.opening_r1_votes@),
            opening_r2_votes: r2_view(self.opening_r2_votes@),
            ready_txs: self.ready_txs@,
            closed_r1_votes: self.closed_r1_votes@,
            closed_r2_votes: self.closed_r2_votes@,
            my_channels: channels_view(self.my_channels@),
            err_logs: self.err_logs@,
        }
    }
}

/// All validity votes of a transaction are in: its count of voters has
/// reached `chain_num` (counted in `u16`, as the contract compares them).
pub open spec fn reached(count: nat, chain_num: u16) -> bool {
    if chain_num == 0 {
        count >= 0x10000
    } else {
        count >= chain_num
    }
}

impl StateView {
    /// The rounds are consistent: a round is never both open and closed, no
    /// chain is counted twice in a round, the validity round opens only after
    /// the status round advanced the transaction, and the channels are listed
    /// in ascending order of connection id.
    pub open spec fn rounds_wf(self) -> bool {
        &&& ascending(channel_keys(self.my_channels))
        &&& forall|t: u32| #[trigger] self.opening_r1_votes.contains_key(t) ==> !self.closed_r1_votes.contains_key(t)
            && self.opening_r1_votes[t].no_duplicates()
        &&& forall|t: u32| #[trigger] self.opening_r2_votes.contains_key(t) ==> self.closed_r1_votes.contains_key(t)
            && self.closed_r1_votes[t] && !self.closed_r2_votes.contains_key(t)
            && self.opening_r2_votes[t].1.no_duplicates()
        &&& forall|t: u32| #[trigger] self.closed_r2_votes.contains_key(t) ==> self.closed_r1_votes.contains_key(t)
            && self.closed_r1_votes[t]
    }

    /// `ready` lists transactions once each, each with its validity round
    /// open and all its votes in.
    pub open spec fn ready_wf(self, ready: Seq<u32>) -> bool {
        &&& ready.no_duplicates()
        &&& forall|i: int| 0 <= i < ready.len() ==> self.opening_r2_votes.contains_key(#[trigger] ready[i])
            && reached(self.opening_r2_votes[ready[i]].1.len(), self.chain_num)
    }

    /// The state is consistent (see `rounds_wf` and `ready_wf`).
    pub open spec fn wf(self) -> bool {
        self.rounds_wf() && self.ready_wf(self.ready_txs)
    }
}

} // verus!
