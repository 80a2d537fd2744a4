//! Vote counting of the two-round coordinator.
use std::collections::BTreeMap;
use vstd::prelude::*;
use crate::chain::{
    copy_entries, entries_ascending, keys_ascending, lemma_keys_ascending_unique, sorted_keys, copy_vec, packet_timeout, text_attr, time_is_ok, time_ok, timeout_at, AttrView, Outcome, Packet,
    PacketView, StdFailure, StoredItem,
};
use crate::render::{dec_nat, dec_u64};
use crate::fc_stor::state::ChannelView;
use crate::coordinator2::error::{error_text, ContractError};
use crate::coordinator2::msg::{
    AllClosedVotesResp, ClosedVotesResp, ExecuteMsg, InstantiateMsg, Instruction, MyLogsResp, OpeningVotesResp,
    StatusInstruction, StatusVote, ValidityInstruction, ValidityVote, Vote,
};
use crate::coordinator2::state::{channels_view, r1_view, r2_view, ChannelInfo, ContractState, StateView};

verus! {

/// What the contract answers to a vote: event attributes and the instruction
/// packets it sends to the application chains.
pub struct Response {
    pub attributes: Vec<(String, String)>,
    pub messages: Vec<Packet<Instruction>>,
}

/// A response as plain values.
#[verifier::ext_equal]
pub struct ResponseView {
    pub attributes: Seq<AttrView>,
    pub messages: Seq<PacketView<Instruction>>,
}

impl View for Response {
    type V = ResponseView;

    open spec fn view(&self) -> ResponseView {
        ResponseView { attributes: self.attributes.deep_view(), messages: self.messages.deep_view() }
    }
}

/// Attributes and packets of a step.
pub type Out = (Seq<AttrView>, Seq<PacketView<Instruction>>);

/// How a vote ends: with the new state and the output; with an error, and the
/// state the contract had written when the error came; or in a panic of the
/// contract.
pub type Step = Outcome<(StateView, Out), (StateView, ContractError)>;

/// The packets that carry `instr` to every channel, in the order of the channels.
pub open spec fn instruction_packets(
    channels: Seq<(Seq<char>, ChannelView)>,
    instr: Instruction,
    now: u64,
) -> Seq<PacketView<Instruction>> {
    channels.map_values(
        |c: (Seq<char>, ChannelView)|
            PacketView { channel_id: c.1.channel_id, data: instr, timeout: timeout_at(now) as u64 },
    )
}

/// Packets can be sent to the channels at block time `now`: there is no
/// channel, or the timeout can be represented.
pub open spec fn can_send(channels: Seq<(Seq<char>, ChannelView)>, now: u64) -> bool {
    channels.len() == 0 || time_ok(now)
}

/// The attribute that records a vote.
pub open spec fn vote_attr(tx_id: u32, chain_id: u16) -> AttrView {
    ("new_vote"@, dec_nat(tx_id as nat) + "-"@ + dec_nat(chain_id as nat))
}

/// The attribute that records a decision of the status round.
pub open spec fn decision_attr(advance: bool) -> AttrView {
    ("instruction"@, if advance { "committed"@ } else { "aborted"@ })
}

/// The chains that have voted for `tx_id` in the status round.
pub open spec fn r1_voters(s: StateView, tx_id: u32) -> Seq<u16> {
    if s.opening_r1_votes.contains_key(tx_id) {
        s.opening_r1_votes[tx_id]
    } else {
        seq![]
    }
}

/// Closes the status round of `tx_id` with `advance` and instructs every chain.
pub open spec fn close_r1(s: StateView, now: u64, tx_id: u32, advance: bool, a0: Seq<AttrView>) -> Step {
    if !can_send(s.my_channels, now) {
        Outcome::Aborted
    } else {
        Outcome::Done(
            (
                StateView {
                    opening_r1_votes: s.opening_r1_votes.remove(tx_id),
                    closed_r1_votes: s.closed_r1_votes.insert(tx_id, advance),
                    ..s
                },
                (
                    a0.push(decision_attr(advance)),
                    instruction_packets(
                        s.my_channels,
                        Instruction::Status(StatusInstruction { tx_id, advancement: advance }),
                        now,
                    ),
                ),
            ),
        )
    }
}

/// A status vote: ignored once the round is closed, refused when the chain
/// has voted already; a vote against closes the round negatively, and the
/// vote that completes `chain_num` votes for it closes it positively.
pub open spec fn spec_add_r1_vote(s: StateView, now: u64, v: StatusVote) -> Step {
    let a0 = seq![vote_attr(v.tx_id, v.chain_id)];
    if !s.opening_r1_votes.contains_key(v.tx_id) && s.closed_r1_votes.contains_key(v.tx_id) {
        Outcome::Done((s, (a0, seq![])))
    } else if r1_voters(s, v.tx_id).contains(v.chain_id) {
        Outcome::Failed((s, ContractError::AlreadyVoted { tx_id: v.tx_id, chain_id: v.chain_id }))
    } else if !v.status {
        close_r1(s, now, v.tx_id, false, a0)
    } else if (r1_voters(s, v.tx_id).len() + 1) as u16 == s.chain_num {
        close_r1(s, now, v.tx_id, true, a0)
    } else {
        Outcome::Done(
            (
                StateView {
                    opening_r1_votes: s.opening_r1_votes.insert(
                        v.tx_id,
                        r1_voters(s, v.tx_id).push(v.chain_id),
                    ),
                    ..s
                },
                (a0, seq![]),
            ),
        )
    }
}

/// What the status round says of a list of dependencies: `None` when the
/// first one not advanced is still undecided, `Some(false)` when it was
/// aborted, `Some(true)` when all advanced.
pub open spec fn dep_verdict(closed_r1: Map<u32, bool>, deps: Seq<u32>) -> Option<bool>
    decreases deps.len(),
{
    if deps.len() == 0 {
        Some(true)
    } else if !closed_r1.contains_key(deps[0]) {
        None
    } else if !closed_r1[deps[0]] {
        Some(false)
    } else {
        dep_verdict(closed_r1, deps.drop_first())
    }
}

/// Every element but `tx_id`.
pub open spec fn other_than(tx_id: u32) -> spec_fn(u32) -> bool {
    |x: u32| x != tx_id
}

/// The elements not yet in `deps`.
pub open spec fn not_in(deps: Seq<u32>) -> spec_fn(u32) -> bool {
    |d: u32| !deps.contains(d)
}

/// Goes through the ready transactions `snap` from `i` on: each one whose
/// dependencies are all decided gets its validity decision, sent to every
/// chain, and leaves the open votes and the ready list `ready`; `acc` holds
/// the packets sent so far. The ready list is stored only at the end.
pub open spec fn spec_check_ready(
    s: StateView,
    now: u64,
    snap: Seq<u32>,
    i: nat,
    ready: Seq<u32>,
    acc: Seq<PacketView<Instruction>>,
) -> Outcome<(StateView, Seq<PacketView<Instruction>>), (StateView, ContractError)>
    decreases snap.len() - i,
{
    if i >= snap.len() {
        Outcome::Done((StateView { ready_txs: ready, ..s }, acc))
    } else {
        let tx_id = snap[i as int];
        if !s.opening_r2_votes.contains_key(tx_id) {
            Outcome::Failed((s, ContractError::StdError(StdFailure::NotFound(StoredItem::ValidityVotes(tx_id)))))
        } else {
            match dep_verdict(s.closed_r1_votes, s.opening_r2_votes[tx_id].0) {
                None => spec_check_ready(s, now, snap, i + 1, ready, acc),
                Some(commit) => if !can_send(s.my_channels, now) {
                    Outcome::Aborted
                } else {
                    spec_check_ready(
                        StateView {
                            opening_r2_votes: s.opening_r2_votes.remove(tx_id),
                            closed_r2_votes: s.closed_r2_votes.insert(tx_id, commit),
                            ..s
                        },
                        now,
                        snap,
                        i + 1,
                        ready.filter(other_than(tx_id)),
                        acc + instruction_packets(
                            s.my_channels,
                            Instruction::Validity(ValidityInstruction { tx_id, commitment: commit }),
                            now,
                        ),
                    )
                },
            }
        }
    }
}

/// The gathered dependencies and voters of `tx_id` in the validity round.
pub open spec fn r2_entry(s: StateView, tx_id: u32) -> (Seq<u32>, Seq<u16>) {
    if s.opening_r2_votes.contains_key(tx_id) {
        s.opening_r2_votes[tx_id]
    } else {
        (seq![], seq![])
    }
}

/// A validity vote: allowed only once the status round advanced the
/// transaction and while its validity round is open, refused when the chain
/// has voted already. Its new dependencies join the gathered ones, and the
/// vote that completes `chain_num` voters makes the transaction ready, after
/// which every ready transaction whose dependencies are decided is decided.
pub open spec fn spec_add_r2_vote(s: StateView, now: u64, v: ValidityVote) -> Step {
    let tx_id = v.tx_id;
    let a0 = seq![vote_attr(tx_id, v.chain_id)];
    if !s.closed_r1_votes.contains_key(tx_id) {
        Outcome::Failed((s, ContractError::StatusVoteUnfinished(tx_id)))
    } else if !s.closed_r1_votes[tx_id] {
        Outcome::Failed((s, ContractError::ValidityVoteNotAllowed(tx_id)))
    } else if s.closed_r2_votes.contains_key(tx_id) {
        Outcome::Failed((s, ContractError::TxClosed(tx_id)))
    } else if r2_entry(s, tx_id).1.contains(v.chain_id) {
        Outcome::Failed((s, ContractError::AlreadyVoted { tx_id, chain_id: v.chain_id }))
    } else {
        let deps = r2_entry(s, tx_id).0;
        let entry = (deps + v.dependencies@.filter(not_in(deps)), r2_entry(s, tx_id).1.push(v.chain_id));
        let s1 = StateView { opening_r2_votes: s.opening_r2_votes.insert(tx_id, entry), ..s };
        if entry.1.len() as u16 == s.chain_num {
            let s2 = StateView { ready_txs: s.ready_txs.push(tx_id), ..s1 };
            match spec_check_ready(s2, now, s2.ready_txs, 0, s2.ready_txs, seq![]) {
                Outcome::Done((s3, m)) => Outcome::Done((s3, (a0, m))),
                Outcome::Failed(x) => Outcome::Failed(x),
                Outcome::Aborted => Outcome::Aborted,
            }
        } else {
            Outcome::Done((s1, (a0, seq![])))
        }
    }
}

/// A request to the contract.
pub open spec fn spec_execute(s: StateView, now: u64, msg: ExecuteMsg) -> Step {
    match msg {
        ExecuteMsg::AddStatusVote { vote } => spec_add_r1_vote(s, now, vote),
        ExecuteMsg::AddValidityVote { vote } => spec_add_r2_vote(s, now, vote),
    }
}

/// A vote received in an IBC packet.
pub open spec fn spec_receive(s: StateView, now: u64, vote: Vote) -> Step {
    match vote {
        Vote::Status(v) => spec_add_r1_vote(s, now, v),
        Vote::Validity(v) => spec_add_r2_vote(s, now, v),
    }
}

/// The state right after instantiation.
pub open spec fn initial_state(msg: InstantiateMsg) -> StateView {
    StateView {
        chain_num: msg.chain_num,
        opening_r1_votes: Map::empty(),
        opening_r2_votes: Map::empty(),
        ready_txs: seq![],
        closed_r1_votes: Map::empty(),
        closed_r2_votes: Map::empty(),
        my_channels: seq![],
        err_logs: "start:"@,
    }
}

/// The attributes of instantiation.
pub open spec fn instantiate_attrs(msg: InstantiateMsg) -> Seq<AttrView> {
    seq![("method"@, "instantiate"@), ("chain_num"@, dec_nat(msg.chain_num as nat))]
}

/// How the state reached by a vote, and what it returned, match its spec.
pub open spec fn core_matches(
    spec: Step,
    r: Outcome<(ContractState, Vec<(String, String)>, Vec<Packet<Instruction>>), (ContractState, ContractError)>,
) -> bool {
    match spec {
        Outcome::Done((s2, (a, m))) => r matches Outcome::Done((st, at, ms)) && st@ == s2 && at.deep_view()
            == a && ms.deep_view() == m,
        Outcome::Failed((s2, e)) => r matches Outcome::Failed((st, e2)) && st@ == s2 && e2 == e,
        Outcome::Aborted => r is Aborted,
    }
}

/// How a request on `old` relates to what the function returned and to the
/// state it left: a refused request leaves the state as it was.
pub open spec fn step_matches(spec: Step, old: StateView, new: StateView, r: Outcome<Response, ContractError>) -> bool {
    match spec {
        Outcome::Done((s2, (a, m))) => r matches Outcome::Done(resp) && new == s2
            && resp@.attributes == a && resp@.messages == m,
        Outcome::Failed((_, e)) => r matches Outcome::Failed(e2) && e2 == e && new == old,
        Outcome::Aborted => r is Aborted && new == old,
    }
}

} // verus!

verus! {

/// The instruction packets to every channel, in the order of the channels;
/// each times out `PACKET_LIFETIME_SECONDS` after `now`.
pub fn create_instruction_msg(my_instruction: Instruction, channels: &Vec<(String, ChannelInfo)>, now: u64) -> (r:
    Vec<Packet<Instruction>>)
    requires
        can_send(channels_view(channels@), now),
    ensures
        r.deep_view() == instruction_packets(channels_view(channels@), my_instruction, now),
{
    let ghost target = instruction_packets(channels_view(channels@), my_instruction, now);
    let mut out: Vec<Packet<Instruction>> = Vec::new();
    let mut i: usize = 0;
    while i < channels.len()
        invariant
            i <= channels@.len(),
            can_send(channels_view(channels@), now),
            target == instruction_packets(channels_view(channels@), my_instruction, now),
            out.deep_view() =~= target.subrange(0, i as int),
        decreases channels@.len() - i,
    {
        let timeout = packet_timeout(now);
        let p = Packet { channel_id: channels[i].1.channel_id.clone(), data: my_instruction, timeout };
        let ghost before = out.deep_view();
        out.push(p);
        proof {
            assert(out.deep_view() =~= before.push(p.deep_view()));
            assert(target.subrange(0, i + 1) =~= target.subrange(0, i as int).push(target[i as int]));
        }
        i = i + 1;
    }
    assert(target.subrange(0, channels@.len() as int) =~= target);
    out
}

fn contains_chain(v: &Vec<u16>, x: u16) -> (b: bool)
    ensures
        b == v@.contains(x),
{
    let mut i: usize = 0;
    while i < v.len()
        invariant
            i <= v@.len(),
            forall|j: int| 0 <= j < i ==> v@[j] != x,
        decreases v@.len() - i,
    {
        if v[i] == x {
            assert(v@[i as int] == x);
            return true;
        }
        i = i + 1;
    }
    false
}

fn contains_tx(v: &Vec<u32>, x: u32) -> (b: bool)
    ensures
        b == v@.contains(x),
{
    let mut i: usize = 0;
    while i < v.len()
        invariant
            i <= v@.len(),
            forall|j: int| 0 <= j < i ==> v@[j] != x,
        decreases v@.len() - i,
    {
        if v[i] == x {
            assert(v@[i as int] == x);
            return true;
        }
        i = i + 1;
    }
    false
}

/// Filtering one more element of `v`.
proof fn lemma_filter_step(v: Seq<u32>, i: int, keep: spec_fn(u32) -> bool)
    requires
        0 <= i < v.len(),
    ensures
        v.take(i + 1).filter(keep) == if keep(v[i]) {
            v.take(i).filter(keep).push(v[i])
        } else {
            v.take(i).filter(keep)
        },
{
    reveal(Seq::filter);
    assert(v.take(i + 1).drop_last() =~= v.take(i));
    assert(v.take(i + 1).last() == v[i]);
}

/// The elements of `v` other than `tx_id`.
fn without(v: &Vec<u32>, tx_id: u32) -> (r: Vec<u32>)
    ensures
        r@ == v@.filter(other_than(tx_id)),
{
    let mut out: Vec<u32> = Vec::new();
    let mut i: usize = 0;
    proof {
        reveal(Seq::filter);
        assert(v@.take(0) =~= seq![]);
    }
    while i < v.len()
        invariant
            i <= v@.len(),
            out@ == v@.take(i as int).filter(other_than(tx_id)),
        decreases v@.len() - i,
    {
        proof {
            lemma_filter_step(v@, i as int, other_than(tx_id));
        }
        if v[i] != tx_id {
            out.push(v[i]);
        }
        i = i + 1;
    }
    assert(v@.take(v@.len() as int) =~= v@);
    out
}

/// The elements of `new` not in `deps`, in order.
fn fresh_dependencies(deps: &Vec<u32>, new: &Vec<u32>) -> (r: Vec<u32>)
    ensures
        r@ == new@.filter(not_in(deps@)),
{
    let mut out: Vec<u32> = Vec::new();
    let mut i: usize = 0;
    proof {
        reveal(Seq::filter);
        assert(new@.take(0) =~= seq![]);
    }
    while i < new.len()
        invariant
            i <= new@.len(),
            out@ == new@.take(i as int).filter(not_in(deps@)),
        decreases new@.len() - i,
    {
        proof {
            lemma_filter_step(new@, i as int, not_in(deps@));
        }
        if !contains_tx(deps, new[i]) {
            out.push(new[i]);
        }
        i = i + 1;
    }
    assert(new@.take(new@.len() as int) =~= new@);
    out
}

/// What the status round says of `deps`.
fn dep_verdict_exec(closed_r1: &BTreeMap<u32, bool>, deps: &Vec<u32>) -> (r: Option<bool>)
    ensures
        r == dep_verdict(closed_r1@, deps@),
{
    let mut i: usize = 0;
    assert(deps@.skip(0) =~= deps@);
    while i < deps.len()
        invariant
            i <= deps@.len(),
            dep_verdict(closed_r1@, deps@) == dep_verdict(closed_r1@, deps@.skip(i as int)),
        decreases deps@.len() - i,
    {
        let d = deps[i];
        assert(deps@.skip(i as int)[0] == d);
        match closed_r1.get(&d) {
            None => {
                return None;
            },
            Some(advanced) => {
                if !*advanced {
                    return Some(false);
                }
            },
        }
        assert(deps@.skip(i as int).drop_first() =~= deps@.skip(i + 1));
        i = i + 1;
    }
    assert(deps@.skip(i as int) =~= seq![]);
    Some(true)
}

fn vote_attr_exec(tx_id: u32, chain_id: u16) -> (a: (String, String))
    ensures
        a.deep_view() == vote_attr(tx_id, chain_id),
{
    let value = dec_u64(tx_id as u64).concat("-").concat(dec_u64(chain_id as u64).as_str());
    proof {
        reveal_strlit("-");
    }
    (String::from_str("new_vote"), value)
}

proof fn lemma_r1_insert(m: Map<u32, Vec<u16>>, k: u32, v: Vec<u16>)
    ensures
        r1_view(m.insert(k, v)) == r1_view(m).insert(k, v@),
{
    assert(r1_view(m.insert(k, v)) =~= r1_view(m).insert(k, v@));
}

proof fn lemma_r1_remove(m: Map<u32, Vec<u16>>, k: u32)
    ensures
        r1_view(m.remove(k)) == r1_view(m).remove(k),
{
    assert(r1_view(m.remove(k)) =~= r1_view(m).remove(k));
}

proof fn lemma_r2_insert(m: Map<u32, (Vec<u32>, Vec<u16>)>, k: u32, v: (Vec<u32>, Vec<u16>))
    ensures
        r2_view(m.insert(k, v)) == r2_view(m).insert(k, (v.0@, v.1@)),
{
    assert(r2_view(m.insert(k, v)) =~= r2_view(m).insert(k, (v.0@, v.1@)));
}

proof fn lemma_r2_remove(m: Map<u32, (Vec<u32>, Vec<u16>)>, k: u32)
    ensures
        r2_view(m.remove(k)) == r2_view(m).remove(k),
{
    assert(r2_view(m.remove(k)) =~= r2_view(m).remove(k));
}

} // verus!

verus! {

/// A copy of the channels.
fn copy_channels(c: &Vec<(String, ChannelInfo)>) -> (r: Vec<(String, ChannelInfo)>)
    ensures
        channels_view(r@) == channels_view(c@),
{
    let mut out: Vec<(String, ChannelInfo)> = Vec::new();
    let mut i: usize = 0;
    while i < c.len()
        invariant
            i <= c@.len(),
            channels_view(out@) =~= channels_view(c@).subrange(0, i as int),
        decreases c@.len() - i,
    {
        let e = (c[i].0.clone(), ChannelInfo { channel_id: c[i].1.channel_id.clone(), finalized: c[i].1.finalized });
        let ghost before = out@;
        out.push(e);
        proof {
            assert(channels_view(out@) =~= channels_view(before).push((e.0@, e.1@)));
        }
        i = i + 1;
    }
    out
}

impl ContractState {
    /// A copy of the state.
    pub fn copy(&self) -> (r: Self)
        ensures
            r@ == self@,
    {
        let r = ContractState {
            chain_num: self.chain_num,
            opening_r1_votes: self.opening_r1_votes.clone(),
            opening_r2_votes: self.opening_r2_votes.clone(),
            ready_txs: copy_vec(&self.ready_txs),
            closed_r1_votes: self.closed_r1_votes.clone(),
            closed_r2_votes: self.closed_r2_votes.clone(),
            my_channels: copy_channels(&self.my_channels),
            err_logs: self.err_logs.clone(),
        };
        assert(r@ =~= self@);
        r
    }
}

/// Closes the status round of `tx_id` with `advance`; `attrs` holds the
/// vote's attribute.
fn close_r1_exec(s: ContractState, now: u64, tx_id: u32, advance: bool, attrs: Vec<(String, String)>) -> (r:
    Outcome<(ContractState, Vec<(String, String)>, Vec<Packet<Instruction>>), (ContractState, ContractError)>)
    ensures
        core_matches(close_r1(s@, now, tx_id, advance, attrs.deep_view()), r),
{
    if s.my_channels.len() > 0 && !time_is_ok(now) {
        return Outcome::Aborted;
    }
    let msgs = create_instruction_msg(
        Instruction::Status(StatusInstruction { tx_id, advancement: advance }),
        &s.my_channels,
        now,
    );
    let mut s = s;
    let ghost s0 = s@;
    proof {
        lemma_r1_remove(s.opening_r1_votes@, tx_id);
    }
    s.opening_r1_votes.remove(&tx_id);
    s.closed_r1_votes.insert(tx_id, advance);
    let mut attrs = attrs;
    let ghost a0 = attrs.deep_view();
    if advance {
        attrs.push(text_attr("instruction", "committed"));
    } else {
        attrs.push(text_attr("instruction", "aborted"));
    }
    proof {
        assert(attrs.deep_view() =~= a0.push(decision_attr(advance)));
        assert(s@ =~= StateView {
            opening_r1_votes: s0.opening_r1_votes.remove(tx_id),
            closed_r1_votes: s0.closed_r1_votes.insert(tx_id, advance),
            ..s0
        });
    }
    Outcome::Done((s, attrs, msgs))
}

/// Records a chain's vote in the status round (see `spec_add_r1_vote`).
pub fn add_r1_vote(s: ContractState, now: u64, new_vote: &StatusVote) -> (r: Outcome<
    (ContractState, Vec<(String, String)>, Vec<Packet<Instruction>>),
    (ContractState, ContractError),
>)
    ensures
        core_matches(spec_add_r1_vote(s@, now, *new_vote), r),
{
    let tx_id = new_vote.tx_id;
    let mut attrs: Vec<(String, String)> = Vec::new();
    attrs.push(vote_attr_exec(tx_id, new_vote.chain_id));
    let mut msgs: Vec<Packet<Instruction>> = Vec::new();
    assert(attrs.deep_view() =~= seq![vote_attr(tx_id, new_vote.chain_id)]);
    assert(msgs.deep_view() =~= seq![]);
    let mut voted: Vec<u16> = match s.opening_r1_votes.get(&tx_id) {
        None => {
            if s.closed_r1_votes.contains_key(&tx_id) {
                return Outcome::Done((s, attrs, msgs));
            }
            Vec::new()
        },
        Some(v) => v.clone(),
    };
    assert(voted@ =~= r1_voters(s@, tx_id));
    if contains_chain(&voted, new_vote.chain_id) {
        return Outcome::Failed((s, ContractError::AlreadyVoted { tx_id, chain_id: new_vote.chain_id }));
    }
    if !new_vote.status {
        return close_r1_exec(s, now, tx_id, false, attrs);
    }
    voted.push(new_vote.chain_id);
    if (voted.len() as u16) == s.chain_num {
        return close_r1_exec(s, now, tx_id, true, attrs);
    }
    let mut s = s;
    let ghost s0 = s@;
    proof {
        lemma_r1_insert(s.opening_r1_votes@, tx_id, voted);
    }
    s.opening_r1_votes.insert(tx_id, voted);
    assert(s@ =~= StateView {
        opening_r1_votes: s0.opening_r1_votes.insert(tx_id, r1_voters(s0, tx_id).push(new_vote.chain_id)),
        ..s0
    });
    Outcome::Done((s, attrs, msgs))
}

/// Gives the validity decision of every ready transaction whose dependencies
/// have all been decided in the status round (see `spec_check_ready`).
pub fn check_ready_vote(s: ContractState, now: u64) -> (r: Outcome<
    (ContractState, Vec<Packet<Instruction>>),
    (ContractState, ContractError),
>)
    ensures
        match spec_check_ready(s@, now, s@.ready_txs, 0, s@.ready_txs, seq![]) {
            Outcome::Done((s2, m)) => r matches Outcome::Done((st, ms)) && st@ == s2 && ms.deep_view() == m,
            Outcome::Failed((s2, e)) => r matches Outcome::Failed((st, e2)) && st@ == s2 && e2 == e,
            Outcome::Aborted => r is Aborted,
        },
{
    let ghost s_in = s@;
    let ghost goal = spec_check_ready(s@, now, s@.ready_txs, 0, s@.ready_txs, seq![]);
    let snap = copy_vec(&s.ready_txs);
    let mut ready = copy_vec(&s.ready_txs);
    let mut msgs: Vec<Packet<Instruction>> = Vec::new();
    let mut st = s;
    let mut i: usize = 0;
    assert(msgs.deep_view() =~= seq![]);
    while i < snap.len()
        invariant
            i <= snap@.len(),
            goal == spec_check_ready(s_in, now, s_in.ready_txs, 0, s_in.ready_txs, seq![]),
            s_in == s@,
            goal == spec_check_ready(st@, now, snap@, i as nat, ready@, msgs.deep_view()),
        decreases snap@.len() - i,
    {
        let tx_id = snap[i];
        let deps = match st.opening_r2_votes.get(&tx_id) {
            None => {
                return Outcome::Failed(
                    (st, ContractError::StdError(StdFailure::NotFound(StoredItem::ValidityVotes(tx_id)))),
                );
            },
            Some(e) => copy_vec(&e.0),
        };
        assert(deps@ == st@.opening_r2_votes[tx_id].0);
        match dep_verdict_exec(&st.closed_r1_votes, &deps) {
            None => {},
            Some(commit) => {
                if st.my_channels.len() > 0 && !time_is_ok(now) {
                    return Outcome::Aborted;
                }
                let p = create_instruction_msg(
                    Instruction::Validity(ValidityInstruction { tx_id, commitment: commit }),
                    &st.my_channels,
                    now,
                );
                let ghost s0 = st@;
                let ghost m0 = msgs.deep_view();
                let ghost pd = p.deep_view();
                let mut p = p;
                msgs.append(&mut p);
                proof {
                    lemma_r2_remove(st.opening_r2_votes@, tx_id);
                }
                st.opening_r2_votes.remove(&tx_id);
                ready = without(&ready, tx_id);
                st.closed_r2_votes.insert(tx_id, commit);
                proof {
                    assert(msgs.deep_view() =~= m0 + pd);
                    assert(st@ =~= StateView {
                        opening_r2_votes: s0.opening_r2_votes.remove(tx_id),
                        closed_r2_votes: s0.closed_r2_votes.insert(tx_id, commit),
                        ..s0
                    });
                }
            },
        }
        i = i + 1;
    }
    let ghost s0 = st@;
    st.ready_txs = ready;
    assert(st@ =~= StateView { ready_txs: ready@, ..s0 });
    Outcome::Done((st, msgs))
}

/// Records a chain's vote in the validity round (see `spec_add_r2_vote`).
pub fn add_r2_vote(s: ContractState, now: u64, new_vote: &ValidityVote) -> (r: Outcome<
    (ContractState, Vec<(String, String)>, Vec<Packet<Instruction>>),
    (ContractState, ContractError),
>)
    ensures
        core_matches(spec_add_r2_vote(s@, now, *new_vote), r),
{
    let tx_id = new_vote.tx_id;
    let mut attrs: Vec<(String, String)> = Vec::new();
    attrs.push(vote_attr_exec(tx_id, new_vote.chain_id));
    assert(attrs.deep_view() =~= seq![vote_attr(tx_id, new_vote.chain_id)]);
    match s.closed_r1_votes.get(&tx_id) {
        None => {
            return Outcome::Failed((s, ContractError::StatusVoteUnfinished(tx_id)));
        },
        Some(advanced) => {
            if !*advanced {
                return Outcome::Failed((s, ContractError::ValidityVoteNotAllowed(tx_id)));
            }
        },
    }
    if s.closed_r2_votes.contains_key(&tx_id) {
        return Outcome::Failed((s, ContractError::TxClosed(tx_id)));
    }
    let (mut deps, mut chains) = match s.opening_r2_votes.get(&tx_id) {
        None => (Vec::new(), Vec::new()),
        Some(e) => (copy_vec(&e.0), copy_vec(&e.1)),
    };
    assert(deps@ =~= r2_entry(s@, tx_id).0 && chains@ =~= r2_entry(s@, tx_id).1);
    if contains_chain(&chains, new_vote.chain_id) {
        return Outcome::Failed((s, ContractError::AlreadyVoted { tx_id, chain_id: new_vote.chain_id }));
    }
    chains.push(new_vote.chain_id);
    let mut fresh = fresh_dependencies(&deps, &new_vote.dependencies);
    let ghost d0 = deps@;
    let ghost f0 = fresh@;
    deps.append(&mut fresh);
    assert(deps@ =~= d0 + f0);
    let full = (chains.len() as u16) == s.chain_num;
    let mut st = s;
    let ghost s0 = st@;
    proof {
        lemma_r2_insert(st.opening_r2_votes@, tx_id, (deps, chains));
    }
    st.opening_r2_votes.insert(tx_id, (deps, chains));
    let ghost entry = (d0 + new_vote.dependencies@.filter(not_in(d0)), r2_entry(s0, tx_id).1.push(
        new_vote.chain_id,
    ));
    assert(st@ =~= StateView { opening_r2_votes: s0.opening_r2_votes.insert(tx_id, entry), ..s0 });
    if full {
        let ghost s1 = st@;
        st.ready_txs.push(tx_id);
        assert(st@ =~= StateView { ready_txs: s0.ready_txs.push(tx_id), ..s1 });
        match check_ready_vote(st, now) {
            Outcome::Done((st2, m)) => Outcome::Done((st2, attrs, m)),
            Outcome::Failed(x) => Outcome::Failed(x),
            Outcome::Aborted => Outcome::Aborted,
        }
    } else {
        let msgs: Vec<Packet<Instruction>> = Vec::new();
        assert(msgs.deep_view() =~= seq![]);
        Outcome::Done((st, attrs, msgs))
    }
}

} // verus!

verus! {

/// What the contract acknowledges to a packet: the attributes and packets of
/// the vote, the acknowledgement text, and the error when the vote failed
/// (then the attributes and packets are empty).
pub struct Receipt {
    pub attributes: Vec<(String, String)>,
    pub messages: Vec<Packet<Instruction>>,
    pub ack: String,
    pub failure: Option<ContractError>,
}

/// A receipt as plain values.
#[verifier::ext_equal]
pub struct ReceiptView {
    pub attributes: Seq<AttrView>,
    pub messages: Seq<PacketView<Instruction>>,
    pub ack: Seq<char>,
    pub failure: Option<ContractError>,
}

impl View for Receipt {
    type V = ReceiptView;

    open spec fn view(&self) -> ReceiptView {
        ReceiptView {
            attributes: self.attributes.deep_view(),
            messages: self.messages.deep_view(),
            ack: self.ack@,
            failure: self.failure,
        }
    }
}

/// The receipt of a packet whose vote ended as `step` says (`None` on a panic).
pub open spec fn receipt_of(step: Step) -> Option<ReceiptView> {
    match step {
        Outcome::Done((_, (a, m))) => Some(
            ReceiptView { attributes: a, messages: m, ack: "coordinator_success"@, failure: None },
        ),
        Outcome::Failed((_, e)) => Some(
            ReceiptView {
                attributes: seq![],
                messages: seq![],
                ack: "coordinator_force_success"@,
                failure: Some(e),
            },
        ),
        Outcome::Aborted => None,
    }
}

/// The state right after instantiation, and its attributes.
pub fn instantiate(msg: InstantiateMsg) -> (r: (ContractState, Vec<(String, String)>))
    ensures
        r.0@ == initial_state(msg),
        r.0@.wf(),
        r.1.deep_view() == instantiate_attrs(msg),
{
    let state = ContractState {
        chain_num: msg.chain_num,
        opening_r1_votes: BTreeMap::new(),
        opening_r2_votes: BTreeMap::new(),
        ready_txs: Vec::new(),
        closed_r1_votes: BTreeMap::new(),
        closed_r2_votes: BTreeMap::new(),
        my_channels: Vec::new(),
        err_logs: String::from_str("start:"),
    };
    let mut attrs: Vec<(String, String)> = Vec::new();
    attrs.push(text_attr("method", "instantiate"));
    attrs.push((String::from_str("chain_num"), dec_u64(msg.chain_num as u64)));
    proof {
        assert(attrs.deep_view() =~= instantiate_attrs(msg));
        assert(r1_view(Map::<u32, Vec<u16>>::empty()) =~= Map::empty());
        assert(r2_view(Map::<u32, (Vec<u32>, Vec<u16>)>::empty()) =~= Map::empty());
        assert(channels_view(Seq::<(String, ChannelInfo)>::empty()) =~= seq![]);
        assert(state@ =~= initial_state(msg));
    }
    (state, attrs)
}

fn run_vote(s: ContractState, now: u64, status: Option<&StatusVote>, validity: Option<&ValidityVote>) -> (r:
    Outcome<(ContractState, Vec<(String, String)>, Vec<Packet<Instruction>>), (ContractState, ContractError)>)
    requires
        status is Some || validity is Some,
    ensures
        status is Some ==> core_matches(spec_add_r1_vote(s@, now, *status->0), r),
        status is None ==> core_matches(spec_add_r2_vote(s@, now, *validity->0), r),
{
    match status {
        Some(v) => add_r1_vote(s, now, v),
        None => match validity {
            Some(v) => add_r2_vote(s, now, v),
            None => Outcome::Aborted,
        },
    }
}

impl ContractState {
    /// Handles a request; a refused request leaves the state as it was (the
    /// chain reverts its writes), and `Aborted` marks the requests on which
    /// the contract panics.
    pub fn execute_outcome(&mut self, now: u64, msg: &ExecuteMsg) -> (r: Outcome<Response, ContractError>)
        ensures
            step_matches(spec_execute(old(self)@, now, *msg), old(self)@, final(self)@, r),
    {
        let work = self.copy();
        let r = match msg {
            ExecuteMsg::AddStatusVote { vote } => run_vote(work, now, Some(vote), None),
            ExecuteMsg::AddValidityVote { vote } => run_vote(work, now, None, Some(vote)),
        };
        match r {
            Outcome::Done((st, attributes, messages)) => {
                *self = st;
                Outcome::Done(Response { attributes, messages })
            },
            Outcome::Failed((_, e)) => Outcome::Failed(e),
            Outcome::Aborted => Outcome::Aborted,
        }
    }

    /// Handles a request on which the contract does not panic.
    pub fn execute(&mut self, now: u64, msg: &ExecuteMsg) -> (r: Result<Response, ContractError>)
        requires
            !(spec_execute(old(self)@, now, *msg) is Aborted),
        ensures
            match spec_execute(old(self)@, now, *msg) {
                Outcome::Done((s2, (a, m))) => r matches Ok(resp) && final(self)@ == s2
                    && resp@.attributes == a && resp@.messages == m,
                Outcome::Failed((_, e)) => r == Err::<Response, ContractError>(e) && final(self)@ == old(self)@,
                Outcome::Aborted => false,
            },
    {
        match self.execute_outcome(now, msg) {
            Outcome::Done(resp) => Ok(resp),
            Outcome::Failed(e) => Err(e),
            Outcome::Aborted => Err(ContractError::TxClosed(0)),
        }
    }

    /// Handles a request, or returns `None` (leaving the state as it was)
    /// exactly on the requests on which the contract panics.
    pub fn try_execute(&mut self, now: u64, msg: &ExecuteMsg) -> (r: Option<Result<Response, ContractError>>)
        ensures
            match spec_execute(old(self)@, now, *msg) {
                Outcome::Done((s2, (a, m))) => r matches Some(Ok(resp)) && final(self)@ == s2
                    && resp@.attributes == a && resp@.messages == m,
                Outcome::Failed((_, e)) => r == Some(Err::<Response, ContractError>(e)) && final(self)@
                    == old(self)@,
                Outcome::Aborted => r is None && final(self)@ == old(self)@,
            },
    {
        match self.execute_outcome(now, msg) {
            Outcome::Done(resp) => Some(Ok(resp)),
            Outcome::Failed(e) => Some(Err(e)),
            Outcome::Aborted => None,
        }
    }

    /// Handles a vote received in a packet. Unlike a request, a vote that
    /// fails keeps what it had written before the error came; `Aborted`
    /// (a panic) leaves the state as it was.
    pub fn packet_receive_handler(&mut self, now: u64, vote: &Vote) -> (r: Outcome<Response, ContractError>)
        ensures
            match spec_receive(old(self)@, now, *vote) {
                Outcome::Done((s2, (a, m))) => r matches Outcome::Done(resp) && final(self)@ == s2
                    && resp@.attributes == a && resp@.messages == m,
                Outcome::Failed((s2, e)) => r == Outcome::<Response, ContractError>::Failed(e) && final(self)@
                    == s2,
                Outcome::Aborted => r is Aborted && final(self)@ == old(self)@,
            },
    {
        let work = self.copy();
        let r = match vote {
            Vote::Status(v) => run_vote(work, now, Some(v), None),
            Vote::Validity(v) => run_vote(work, now, None, Some(v)),
        };
        match r {
            Outcome::Done((st, attributes, messages)) => {
                *self = st;
                Outcome::Done(Response { attributes, messages })
            },
            Outcome::Failed((st, e)) => {
                *self = st;
                Outcome::Failed(e)
            },
            Outcome::Aborted => Outcome::Aborted,
        }
    }

    /// Handles a vote received in a packet and acknowledges it: a failed
    /// vote is still acknowledged as a success, the state keeps what the vote
    /// wrote before the failure, and a line with the error's debug text is
    /// appended to the error log (the error is also reported in the receipt).
    /// `None` marks the votes on which the contract panics, and leaves the
    /// state as it was.
    pub fn ibc_packet_receive(&mut self, now: u64, vote: &Vote) -> (r: Option<Receipt>)
        ensures
            match r {
                Some(rc) => receipt_of(spec_receive(old(self)@, now, *vote)) == Some(rc@),
                None => receipt_of(spec_receive(old(self)@, now, *vote)) is None,
            },
            match spec_receive(old(self)@, now, *vote) {
                Outcome::Done((s2, _)) => final(self)@ == s2,
                Outcome::Failed((s2, e)) => final(self)@ == (StateView {
                    err_logs: s2.err_logs + "\n"@ + error_text(e),
                    ..s2
                }),
                Outcome::Aborted => final(self)@ == old(self)@,
            },
    {
        match self.packet_receive_handler(now, vote) {
            Outcome::Done(resp) => Some(
                Receipt {
                    attributes: resp.attributes,
                    messages: resp.messages,
                    ack: String::from_str("coordinator_success"),
                    failure: None,
                },
            ),
            Outcome::Failed(e) => {
                let text = e.debug_text();
                self.log_failure(text.as_str());
                let attributes: Vec<(String, String)> = Vec::new();
                let messages: Vec<Packet<Instruction>> = Vec::new();
                assert(attributes.deep_view() =~= seq![]);
                assert(messages.deep_view() =~= seq![]);
                Some(
                    Receipt {
                        attributes,
                        messages,
                        ack: String::from_str("coordinator_force_success"),
                        failure: Some(e),
                    },
                )
            },
            Outcome::Aborted => None,
        }
    }

    /// Acknowledges a packet whose vote cannot be read: the error's text goes
    /// to the log, and the packet is still acknowledged as a success.
    pub fn unreadable_packet(&mut self, text: &str) -> (r: Receipt)
        ensures
            final(self)@ == (StateView { err_logs: old(self)@.err_logs + "\n"@ + text@, ..old(self)@ }),
            r@ == (ReceiptView {
                attributes: seq![],
                messages: seq![],
                ack: "coordinator_force_success"@,
                failure: None,
            }),
    {
        self.log_failure(text);
        let attributes: Vec<(String, String)> = Vec::new();
        let messages: Vec<Packet<Instruction>> = Vec::new();
        assert(attributes.deep_view() =~= seq![]);
        assert(messages.deep_view() =~= seq![]);
        Receipt { attributes, messages, ack: String::from_str("coordinator_force_success"), failure: None }
    }

    /// Appends a line with the text of an error to the error log.
    pub fn log_failure(&mut self, text: &str)
        ensures
            final(self)@ == (StateView { err_logs: old(self)@.err_logs + "\n"@ + text@, ..old(self)@ }),
    {
        let ghost s0 = self@;
        let logs = self.err_logs.clone().concat("\n").concat(text);
        self.err_logs = logs;
        assert(self@ =~= StateView { err_logs: s0.err_logs + "\n"@ + text@, ..s0 });
    }
}

} // verus!

verus! {

impl ContractState {
    /// The open votes of both rounds, in ascending order of transaction.
    pub fn opening_votes(&self) -> (r: OpeningVotesResp)
        ensures
            r.r1_votes.deep_view() == entries_ascending(self@.opening_r1_votes),
            r.r2_votes.deep_view() == entries_ascending(self@.opening_r2_votes),
    {
        let keys = sorted_keys(&self.opening_r1_votes);
        let ghost m = self@.opening_r1_votes;
        proof {
            lemma_keys_ascending_unique(m, keys@);
        }
        let mut r1: Vec<(u32, Vec<u16>)> = Vec::new();
        let mut i: usize = 0;
        while i < keys.len()
            invariant
                i <= keys@.len(),
                m == self@.opening_r1_votes,
                keys@ == keys_ascending(m),
                forall|k: u32| m.contains_key(k) <==> keys@.contains(k),
                r1.deep_view() =~= keys@.take(i as int).map_values(|k: u32| (k, m[k])),
            decreases keys@.len() - i,
        {
            let k = keys[i];
            assert(keys@.contains(k));
            let v = match self.opening_r1_votes.get(&k) {
                Some(v) => v.clone(),
                None => vstd::pervasive::unreached(),
            };
            let ghost before = r1.deep_view();
            assert(v.deep_view() =~= v@);
            r1.push((k, v));
            proof {
                assert(r1.deep_view() =~= before.push((k, v@)));
                assert(keys@.take(i + 1).map_values(|k: u32| (k, m[k])) =~= keys@.take(i as int).map_values(
                    |k: u32| (k, m[k]),
                ).push((k, m[k])));
            }
            i = i + 1;
        }
        assert(keys@.take(keys@.len() as int) =~= keys@);
        let keys2 = sorted_keys(&self.opening_r2_votes);
        let ghost m2 = self@.opening_r2_votes;
        proof {
            lemma_keys_ascending_unique(m2, keys2@);
        }
        let mut r2: Vec<(u32, (Vec<u32>, Vec<u16>))> = Vec::new();
        let mut j: usize = 0;
        while j < keys2.len()
            invariant
                j <= keys2@.len(),
                m2 == self@.opening_r2_votes,
                keys2@ == keys_ascending(m2),
                forall|k: u32| m2.contains_key(k) <==> keys2@.contains(k),
                r2.deep_view() =~= keys2@.take(j as int).map_values(|k: u32| (k, m2[k])),
            decreases keys2@.len() - j,
        {
            let k = keys2[j];
            assert(keys2@.contains(k));
            let v = match self.opening_r2_votes.get(&k) {
                Some(v) => (copy_vec(&v.0), copy_vec(&v.1)),
                None => vstd::pervasive::unreached(),
            };
            let ghost before = r2.deep_view();
            assert(v.0.deep_view() =~= v.0@ && v.1.deep_view() =~= v.1@);
            r2.push((k, v));
            proof {
                assert(r2.deep_view() =~= before.push((k, (v.0@, v.1@))));
                assert(keys2@.take(j + 1).map_values(|k: u32| (k, m2[k])) =~= keys2@.take(j as int).map_values(
                    |k: u32| (k, m2[k]),
                ).push((k, m2[k])));
            }
            j = j + 1;
        }
        assert(keys2@.take(keys2@.len() as int) =~= keys2@);
        OpeningVotesResp { r1_votes: r1, r2_votes: r2 }
    }

    /// The decisions of the status round, in ascending order of transaction.
    pub fn closed_votes(&self) -> (r: ClosedVotesResp)
        ensures
            r.votes@ == entries_ascending(self@.closed_r1_votes),
    {
        ClosedVotesResp { votes: copy_entries(&self.closed_r1_votes) }
    }

    /// The decisions of both rounds, in ascending order of transaction.
    pub fn all_closed_votes(&self) -> (r: AllClosedVotesResp)
        ensures
            r.r1_votes@ == entries_ascending(self@.closed_r1_votes),
            r.r2_votes@ == entries_ascending(self@.closed_r2_votes),
    {
        AllClosedVotesResp {
            r1_votes: copy_entries(&self.closed_r1_votes),
            r2_votes: copy_entries(&self.closed_r2_votes),
        }
    }

    /// The error log.
    pub fn my_logs(&self) -> (r: MyLogsResp)
        ensures
            r.logs@ == self@.err_logs,
    {
        MyLogsResp { logs: self.err_logs.clone() }
    }
}

} // verus!
