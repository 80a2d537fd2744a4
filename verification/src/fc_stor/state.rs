//! State types of the multi-future application chains.
use vstd::prelude::*;

verus! {

/// Most transactions pending at once.
pub const MAX_PENDING_LEN: u32 = 12;

/// The IBC channel to the coordinator.
#[derive(Debug, PartialEq, Eq)]
pub struct ChannelInfo {
    pub channel_id: String,
    /// whether the channel is completely set up
    pub finalized: bool,
}

/// A channel seen as plain values.
#[verifier::ext_equal]
pub struct ChannelView {
    pub channel_id: Seq<char>,
    pub finalized: bool,
}

impl View for ChannelInfo {
    type V = ChannelView;

    open spec fn view(&self) -> ChannelView {
        ChannelView { channel_id: self.channel_id@, finalized: self.finalized }
    }
}

/// The connection ids of channels listed by connection id.
pub open spec fn channel_keys(c: Seq<(Seq<char>, ChannelView)>) -> Seq<Seq<char>> {
    c.map_values(|e: (Seq<char>, ChannelView)| e.0)
}

/// The view of an optional channel.
pub open spec fn channel_view(c: Option<ChannelInfo>) -> Option<ChannelView> {
    match c {
        Some(c) => Some(c@),
        None => None,
    }
}

/// A copy of an optional channel.
pub fn copy_channel(c: &Option<ChannelInfo>) -> (r: Option<ChannelInfo>)
    ensures
        channel_view(r) == channel_view(*c),
{
    match c {
        Some(c) => Some(ChannelInfo { channel_id: c.channel_id.clone(), finalized: c.finalized }),
        None => None,
    }
}

/// When a transaction reached the chain and when its instruction applied
/// (block times in nanoseconds).
#[derive(Clone, Copy, Debug, PartialEq, Eq)]
pub struct TimeInfo {
    pub start_time: u64,
    pub end_time: Option<u64>,
}

} // verus!
