//! The IBC handshake of an application chain with its single channel, and
//! the instruction packets it receives from the coordinator.
use vstd::prelude::*;
use crate::chain::{Action, ActionView, AttrView, Outcome};
use crate::fc_stor::error::{error_text, ContractError, ErrorView};
use crate::fc_stor::msg::{FcrossTx, Instruction, Vote};
use crate::fc_stor::state::{channel_view, ChannelInfo, ChannelView};
use crate::fc_basic::contract::{partial_step_matches, spec_finalize_step, Response};
use crate::fc_basic::state::{ContractState, StateView};

verus! {

/// Why the chain refuses a step of the handshake.
#[derive(Clone, Copy, Debug, PartialEq, Eq)]
pub enum ChannelError {
    /// A channel is already registered.
    ChannelAlreadyExists,
    /// No channel is registered.
    ChannelNotFound,
    /// The channel being connected is not the registered one.
    InconsistentChannelId,
    /// The channel is already set up.
    ChannelAlreadyEstablished,
    /// Channels are never closed.
    ClosingNotAllowed,
}

/// Opening a channel: only one channel per contract.
pub open spec fn spec_channel_open(my_channel: Option<ChannelView>, channel_id: Seq<char>) -> Result<
    ChannelView,
    ChannelError,
> {
    if my_channel is Some {
        Err(ChannelError::ChannelAlreadyExists)
    } else {
        Ok(ChannelView { channel_id, finalized: false })
    }
}

/// Registers the channel being opened.
pub fn ibc_channel_open(my_channel: &mut Option<ChannelInfo>, channel_id: String) -> (r: Result<
    (),
    ChannelError,
>)
    ensures
        match spec_channel_open(channel_view(*old(my_channel)), channel_id@) {
            Ok(c) => r is Ok && channel_view(*final(my_channel)) == Some(c),
            Err(e) => r == Err::<(), ChannelError>(e) && channel_view(*final(my_channel)) == channel_view(
                *old(my_channel),
            ),
        },
{
    if my_channel.is_some() {
        return Err(ChannelError::ChannelAlreadyExists);
    }
    *my_channel = Some(ChannelInfo { channel_id, finalized: false });
    Ok(())
}

/// Connecting a channel: it must be the registered one, not yet set up.
pub open spec fn spec_channel_connect(my_channel: Option<ChannelView>, channel_id: Seq<char>) -> Result<
    ChannelView,
    ChannelError,
> {
    match my_channel {
        None => Err(ChannelError::ChannelNotFound),
        Some(c) => if c.channel_id != channel_id {
            Err(ChannelError::InconsistentChannelId)
        } else if c.finalized {
            Err(ChannelError::ChannelAlreadyEstablished)
        } else {
            Ok(ChannelView { finalized: true, ..c })
        },
    }
}

/// Marks the registered channel as set up; the attribute names it.
pub fn ibc_channel_connect(my_channel: &mut Option<ChannelInfo>, channel_id: &String) -> (r: Result<
    Vec<(String, String)>,
    ChannelError,
>)
    ensures
        match spec_channel_connect(channel_view(*old(my_channel)), channel_id@) {
            Ok(c) => r matches Ok(attrs) && channel_view(*final(my_channel)) == Some(c)
                && attrs.deep_view() == seq![("established_channel"@, c.channel_id)],
            Err(e) => r matches Err(e2) && e2 == e && channel_view(*final(my_channel))
                == channel_view(*old(my_channel)),
        },
{
    match my_channel {
        None => Err(ChannelError::ChannelNotFound),
        Some(c) => {
            if c.channel_id != *channel_id {
                return Err(ChannelError::InconsistentChannelId);
            }
            if c.finalized {
                return Err(ChannelError::ChannelAlreadyEstablished);
            }
            c.finalized = true;
            let mut attrs: Vec<(String, String)> = Vec::new();
            attrs.push((String::from_str("established_channel"), c.channel_id.clone()));
            assert(attrs.deep_view() =~= seq![("established_channel"@, c.channel_id@)]);
            Ok(attrs)
        },
    }
}

/// What the chain acknowledges to an instruction packet: the attributes and
/// messages of the finalization, the acknowledgement text, and the error
/// when the finalization failed (then the attributes and messages are empty).
pub struct Receipt {
    pub attributes: Vec<(String, String)>,
    pub messages: Vec<Action<Vote, FcrossTx>>,
    pub ack: String,
    pub failure: Option<ContractError>,
}

/// A receipt as plain values.
#[verifier::ext_equal]
pub struct ReceiptView {
    pub attributes: Seq<AttrView>,
    pub messages: Seq<ActionView<Vote, FcrossTx>>,
    pub ack: Seq<char>,
    pub failure: Option<ErrorView>,
}

impl View for Receipt {
    type V = ReceiptView;

    open spec fn view(&self) -> ReceiptView {
        ReceiptView {
            attributes: self.attributes.deep_view(),
            messages: self.messages.deep_view(),
            ack: self.ack@,
            failure: match self.failure {
                Some(e) => Some(e@),
                None => None,
            },
        }
    }
}

/// The receipt of an instruction packet on `s`, or `None` where the
/// contract panics.
pub open spec fn receipt_of(s: StateView, now: u64, instruction: Instruction) -> Option<ReceiptView> {
    match spec_finalize_step(s, now, instruction) {
        Outcome::Done((_, (a, m))) => Some(ReceiptView { attributes: a, messages: m, ack: "mf_success"@, failure: None }),
        Outcome::Failed((_, e)) => Some(
            ReceiptView { attributes: seq![], messages: seq![], ack: "mf_force_success"@, failure: Some(e) },
        ),
        Outcome::Aborted => None,
    }
}

impl ContractState {
    /// Finalizes the transaction that a packet's instruction decides; a
    /// failed finalization keeps what it wrote before the failure.
    pub fn packet_receive_handler(&mut self, now: u64, instruction: Instruction) -> (r: Outcome<
        Response,
        ContractError,
    >)
        requires
            old(self).wf(),
        ensures
            final(self).wf(),
            partial_step_matches(spec_finalize_step(old(self)@, now, instruction), old(self)@, final(self)@, r),
    {
        self.finalize_step(now, instruction)
    }

    /// Finalizes the transaction that a packet's instruction decides, and
    /// acknowledges the packet: a failed finalization is still acknowledged
    /// as a success, the state keeps what the finalization wrote before the
    /// failure, and a line with the error's debug text is appended to the
    /// error log (the error is also reported in the receipt). `None`
    /// marks the instructions on which the contract panics, and leaves
    /// the state as it was.
    pub fn ibc_packet_receive(&mut self, now: u64, instruction: Instruction) -> (r: Option<Receipt>)
        requires
            old(self).wf(),
        ensures
            final(self).wf(),
            match r {
                Some(rc) => receipt_of(old(self)@, now, instruction) == Some(rc@),
                None => receipt_of(old(self)@, now, instruction) is None,
            },
            match spec_finalize_step(old(self)@, now, instruction) {
                Outcome::Done((s2, _)) => final(self)@ == s2,
                Outcome::Failed((s2, e)) => final(self)@ == (StateView {
                    err_logs: s2.err_logs + "\n"@ + error_text(e),
                    ..s2
                }),
                Outcome::Aborted => final(self)@ == old(self)@,
            },
    {
        match self.packet_receive_handler(now, instruction) {
            Outcome::Done(resp) => Some(
                Receipt {
                    attributes: resp.attributes,
                    messages: resp.messages,
                    ack: String::from_str("mf_success"),
                    failure: None,
                },
            ),
            Outcome::Failed(e) => {
                let text = e.debug_text();
                self.log_failure(text.as_str());
                let attributes: Vec<(String, String)> = Vec::new();
                let messages: Vec<Action<Vote, FcrossTx>> = Vec::new();
                assert(attributes.deep_view() =~= seq![]);
                assert(messages.deep_view() =~= seq![]);
                Some(Receipt { attributes, messages, ack: String::from_str("mf_force_success"), failure: Some(e) })
            },
            Outcome::Aborted => None,
        }
    }

    /// Acknowledges a packet whose instruction cannot be read: the error's
    /// text goes to the log, and the packet is still acknowledged as a success.
    pub fn unreadable_packet(&mut self, text: &str) -> (r: Receipt)
        requires
            old(self).wf(),
        ensures
            final(self).wf(),
            final(self)@ == (StateView { err_logs: old(self)@.err_logs + "\n"@ + text@, ..old(self)@ }),
            r@ == (ReceiptView { attributes: seq![], messages: seq![], ack: "mf_force_success"@, failure: None }),
    {
        self.log_failure(text);
        let attributes: Vec<(String, String)> = Vec::new();
        let messages: Vec<Action<Vote, FcrossTx>> = Vec::new();
        assert(attributes.deep_view() =~= seq![]);
        assert(messages.deep_view() =~= seq![]);
        Receipt { attributes, messages, ack: String::from_str("mf_force_success"), failure: None }
    }

    /// Appends a line with the text of an error to the error log.
    pub fn log_failure(&mut self, text: &str)
        requires
            old(self).wf(),
        ensures
            final(self).wf(),
            final(self)@ == (StateView { err_logs: old(self)@.err_logs + "\n"@ + text@, ..old(self)@ }),
    {
        let ghost s0 = self@;
        let logs = self.err_logs.clone().concat("\n").concat(text);
        self.err_logs = logs;
        assert(self@ =~= StateView { err_logs: s0.err_logs + "\n"@ + text@, ..s0 });
    }
}

/// Closing a channel is always refused.
pub fn ibc_channel_close() -> (r: Result<(), ChannelError>)
    ensures
        r == Err::<(), ChannelError>(ChannelError::ClosingNotAllowed),
{
    Err(ChannelError::ClosingNotAllowed)
}

} // verus!
