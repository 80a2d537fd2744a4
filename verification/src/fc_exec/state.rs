//! State of the fc-exec contract.
use std::collections::BTreeMap;
use vstd::prelude::*;
pub use crate::fc_stor::state::TimeInfo;
use crate::fc_exec::msg::FcrossTx;

verus! {

/// Most transactions executed on the multi-future at once.
pub const MAX_PENDING_LEN: usize = 10;

/// Most transactions executed on value ranges at once.
pub const MAX_SECONDARY_PENDING_LEN: usize = 8;

/// A transaction executed on the range of possible balances.
#[derive(Clone, Copy, Debug, PartialEq, Eq)]
pub struct ScopeExecutedTx {
    pub tx: FcrossTx,
    /// (lower bound, upper bound) of the balance after this transaction.
    pub updated_scope: (i64, i64),
    pub voted: bool,
    pub received_instruction: Option<bool>,
}

/// The IBC channel to the coordinator.
#[derive(Debug, PartialEq, Eq)]
pub struct ChannelInfo {
    pub channel_id: String,
    /// whether the channel is completely set up
    pub finalized: bool,
}

/// A channel seen as plain values.
#[verifier::ext_equal]
pub struct ChannelView {
    pub channel_id: Seq<char>,
    pub finalized: bool,
}

impl View for ChannelInfo {
    type V = ChannelView;

    open spec fn view(&self) -> ChannelView {
        ChannelView { channel_id: self.channel_id@, finalized: self.finalized }
    }
}

/// Everything the contract keeps in storage.
pub struct ContractState {
    pub chain_id: u16,
    /// One balance per branch: bit `i` of a branch's index tells whether the
    /// `i`-th pending transaction is taken as committed.
    pub mfs: Vec<Option<i64>>,
    pub history: Vec<u32>,
    /// (tx_id, voted)
    pub pending: Vec<(u32, bool)>,
    pub secondary: Vec<ScopeExecutedTx>,
    pub waiting: Vec<FcrossTx>,
    pub my_channel: Option<ChannelInfo>,
    pub err_logs: String,
    pub time_logs: BTreeMap<u32, TimeInfo>,
}

/// The contract's state as plain values.
#[verifier::ext_equal]
pub struct StateView {
    pub chain_id: u16,
    pub mfs: Seq<Option<i64>>,
    pub history: Seq<u32>,
    pub pending: Seq<(u32, bool)>,
    pub secondary: Seq<ScopeExecutedTx>,
    pub waiting: Seq<FcrossTx>,
    pub my_channel: Option<ChannelView>,
    pub err_logs: Seq<char>,
    pub time_logs: Map<u32, TimeInfo>,
}

impl View for ContractState {
    type V = StateView;

    open spec fn view(&self) -> StateView {
        StateView {
            chain_id: self.chain_id,
            mfs: self.mfs@,
            history: self.history@,
            pending: self.pending@,
            secondary: self.secondary@,
            waiting: self.waiting@,
            my_channel: match self.my_channel {
                Some(c) => Some(c@),
                None => None,
            },
            err_logs: self.err_logs@,
            time_logs: self.time_logs@,
        }
    }
}

impl ContractState {
    /// The invariant the contract keeps: one branch for every combination of
    /// outcomes of the pending transactions, and lists within their bounds.
    pub open spec fn wf(&self) -> bool {
        self@.wf()
    }
}

impl StateView {
    /// See [`ContractState::wf`].
    pub open spec fn wf(self) -> bool {
        &&& self.pending.len() <= MAX_PENDING_LEN
        &&& self.mfs.len() == vstd::arithmetic::power2::pow2(self.pending.len())
        &&& self.secondary.len() <= MAX_SECONDARY_PENDING_LEN
    }
}

} // verus!
