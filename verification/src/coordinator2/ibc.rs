//! The IBC handshake of the coordinator: one channel per connection, kept in
//! ascending order of connection id.
use vstd::prelude::*;
use crate::chain::{ascending, entry_keys, key_lt, key_position, lemma_insert_ascending, lemma_key_lt_irreflexive, AttrView};
use crate::fc_stor::state::{channel_keys, ChannelView};
use crate::coordinator2::state::{channels_view, ChannelInfo, ContractState, StateView};

verus! {

/// Why the coordinator refuses a step of the handshake.
#[derive(Clone, Copy, Debug, PartialEq, Eq)]
pub enum ChannelError {
    /// The connection already has a channel.
    ConnectionAlreadyExists,
    /// The connection has no channel.
    ChannelNotFound,
    /// The channel being connected is not the one opened on the connection.
    InconsistentChannelId,
    /// The channel is already set up.
    ChannelAlreadyEstablished,
    /// Channels are never closed.
    ClosingNotAllowed,
}

/// Where the channel of `connection_id` is listed.
pub open spec fn key_index(channels: Seq<(Seq<char>, ChannelView)>, connection_id: Seq<char>) -> int {
    choose|i: int| 0 <= i < channels.len() && channels[i].0 == connection_id
}

/// Connecting a channel: its connection must have it opened, not yet set up.
pub open spec fn spec_channel_connect(
    channels: Seq<(Seq<char>, ChannelView)>,
    connection_id: Seq<char>,
    channel_id: Seq<char>,
) -> Result<Seq<(Seq<char>, ChannelView)>, ChannelError> {
    if !channel_keys(channels).contains(connection_id) {
        Err(ChannelError::ChannelNotFound)
    } else {
        let i = key_index(channels, connection_id);
        let c = channels[i].1;
        if c.channel_id != channel_id {
            Err(ChannelError::InconsistentChannelId)
        } else if c.finalized {
            Err(ChannelError::ChannelAlreadyEstablished)
        } else {
            Ok(channels.update(i, (connection_id, ChannelView { finalized: true, ..c })))
        }
    }
}

proof fn lemma_keys_of_view(v: Seq<(String, ChannelInfo)>)
    ensures
        entry_keys(v) == channel_keys(channels_view(v)),
{
    assert(entry_keys(v) =~= channel_keys(channels_view(v)));
}

/// Ascending keys list each key once.
proof fn lemma_ascending_unique(keys: Seq<Seq<char>>, i: int, j: int)
    requires
        ascending(keys),
        0 <= i < keys.len(),
        0 <= j < keys.len(),
        keys[i] == keys[j],
    ensures
        i == j,
{
    if i < j {
        lemma_key_lt_irreflexive(keys[i]);
    } else if j < i {
        lemma_key_lt_irreflexive(keys[i]);
    }
}

fn find_connection(channels: &Vec<(String, ChannelInfo)>, connection_id: &String) -> (r: Option<usize>)
    ensures
        match r {
            Some(i) => i < channels@.len() && channels@[i as int].0@ == connection_id@,
            None => !channel_keys(channels_view(channels@)).contains(connection_id@),
        },
{
    let mut i: usize = 0;
    while i < channels.len()
        invariant
            i <= channels@.len(),
            forall|j: int| 0 <= j < i ==> channels@[j].0@ != connection_id@,
        decreases channels@.len() - i,
    {
        if channels[i].0 == *connection_id {
            return Some(i);
        }
        i = i + 1;
    }
    proof {
        let keys = channel_keys(channels_view(channels@));
        if keys.contains(connection_id@) {
            let j = choose|j: int| 0 <= j < keys.len() && keys[j] == connection_id@;
            assert(channels@[j].0@ == keys[j]);
        }
    }
    None
}

impl ContractState {
    /// Opens a channel on a connection that has none; it is listed at the
    /// place of its connection id.
    pub fn ibc_channel_open(&mut self, connection_id: String, channel_id: String) -> (r: Result<(), ChannelError>)
        requires
            ascending(channel_keys(old(self)@.my_channels)),
        ensures
            channel_keys(old(self)@.my_channels).contains(connection_id@) ==> r == Err::<(), ChannelError>(
                ChannelError::ConnectionAlreadyExists,
            ) && final(self)@ == old(self)@,
            !channel_keys(old(self)@.my_channels).contains(connection_id@) ==> r is Ok && ascending(
                channel_keys(final(self)@.my_channels),
            ) && final(self)@ == (StateView { my_channels: final(self)@.my_channels, ..old(self)@ })
                && exists|p: int|
                0 <= p <= old(self)@.my_channels.len() && final(self)@.my_channels
                    == #[trigger] old(self)@.my_channels.insert(
                    p,
                    (connection_id@, ChannelView { channel_id: channel_id@, finalized: false }),
                ),
    {
        if let Some(i) = find_connection(&self.my_channels, &connection_id) {
            assert(channel_keys(self@.my_channels)[i as int] == connection_id@);
            return Err(ChannelError::ConnectionAlreadyExists);
        }
        proof {
            lemma_keys_of_view(self.my_channels@);
        }
        let p = key_position(&self.my_channels, &connection_id);
        let ghost s0 = self@;
        let ghost keys = entry_keys(self.my_channels@);
        let ghost k = connection_id@;
        let entry = (connection_id, ChannelInfo { channel_id, finalized: false });
        let ghost ev = (entry.0@, entry.1@);
        let ghost v0 = self.my_channels@;
        self.my_channels.insert(p, entry);
        proof {
            assert(channels_view(self.my_channels@) =~= channels_view(v0).insert(p as int, ev));
            lemma_insert_ascending(keys, p as int, k);
            assert(channel_keys(channels_view(self.my_channels@)) =~= keys.insert(p as int, k));
            assert(self@ =~= StateView { my_channels: s0.my_channels.insert(p as int, ev), ..s0 });
        }
        Ok(())
    }

    /// Marks the channel of a connection as set up; the attribute names the connection.
    pub fn ibc_channel_connect(&mut self, connection_id: &String, channel_id: &String) -> (r: Result<
        Vec<(String, String)>,
        ChannelError,
    >)
        requires
            ascending(channel_keys(old(self)@.my_channels)),
        ensures
            match spec_channel_connect(old(self)@.my_channels, connection_id@, channel_id@) {
                Ok(c) => r matches Ok(attrs) && final(self)@ == (StateView { my_channels: c, ..old(self)@ })
                    && attrs.deep_view() == seq![("established_connection_id"@, connection_id@)],
                Err(e) => r matches Err(e2) && e2 == e && final(self)@ == old(self)@,
            },
    {
        let i = match find_connection(&self.my_channels, connection_id) {
            None => {
                return Err(ChannelError::ChannelNotFound);
            },
            Some(i) => i,
        };
        let ghost s0 = self@;
        let ghost keys = channel_keys(s0.my_channels);
        proof {
            let j = key_index(s0.my_channels, connection_id@);
            assert(keys[i as int] == connection_id@);
            assert(keys.contains(connection_id@));
            assert(0 <= j < s0.my_channels.len() && s0.my_channels[j].0 == connection_id@);
            assert(keys[j] == connection_id@);
            lemma_ascending_unique(keys, i as int, j);
        }
        if self.my_channels[i].1.channel_id != *channel_id {
            return Err(ChannelError::InconsistentChannelId);
        }
        if self.my_channels[i].1.finalized {
            return Err(ChannelError::ChannelAlreadyEstablished);
        }
        let entry = (
            self.my_channels[i].0.clone(),
            ChannelInfo { channel_id: self.my_channels[i].1.channel_id.clone(), finalized: true },
        );
        let ghost ev = (entry.0@, entry.1@);
        let ghost v0 = self.my_channels@;
        self.my_channels.set(i, entry);
        let mut attrs: Vec<(String, String)> = Vec::new();
        attrs.push((String::from_str("established_connection_id"), connection_id.clone()));
        proof {
            assert(channels_view(self.my_channels@) =~= channels_view(v0).update(i as int, ev));
            assert(self@ =~= StateView { my_channels: s0.my_channels.update(i as int, ev), ..s0 });
            assert(attrs.deep_view() =~= seq![("established_connection_id"@, connection_id@)]);
        }
        Ok(attrs)
    }
}

/// Closing a channel is always refused.
pub fn ibc_channel_close() -> (r: Result<(), ChannelError>)
    ensures
        r == Err::<(), ChannelError>(ChannelError::ClosingNotAllowed),
{
    Err(ChannelError::ClosingNotAllowed)
}

} // verus!
