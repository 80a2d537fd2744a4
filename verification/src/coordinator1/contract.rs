//! Vote counting of the single-round coordinator.
use std::collections::BTreeMap;
use vstd::prelude::*;
use crate::chain::{
    copy_entries, entries_ascending, keys_ascending, lemma_keys_ascending_unique, sorted_keys, packet_timeout, text_attr, time_is_ok, time_ok, timeout_at, AttrView, Outcome, Packet, PacketView};
use crate::render::{dec_nat, dec_u64};
use crate::fc_stor::state::ChannelView;
use crate::coordinator1::error::ContractError;
use crate::coordinator1::msg::{
    ClosedVotesResp, ExecuteMsg, InstantiateMsg, Instruction, MyLogsResp, OpeningVotesResp, Vote,
};
use crate::coordinator1::state::{channels_view, votes_view, ChannelInfo, ContractState, StateView};

verus! {

/// What the contract answers to a vote: event attributes and the instruction
/// packets it sends to the application chains.
pub struct Response {
    pub attributes: Vec<(String, String)>,
    pub messages: Vec<Packet<Instruction>>,
}

/// A response as plain values.
#[verifier::ext_equal]
pub struct ResponseView {
    pub attributes: Seq<AttrView>,
    pub messages: Seq<PacketView<Instruction>>,
}

impl View for Response {
    type V = ResponseView;

    open spec fn view(&self) -> ResponseView {
        ResponseView { attributes: self.attributes.deep_view(), messages: self.messages.deep_view() }
    }
}

/// Attributes and packets of a step.
pub type Out = (Seq<AttrView>, Seq<PacketView<Instruction>>);

/// The packets that carry `instr` to every channel, in the order of the channels.
pub open spec fn instruction_packets(
    channels: Seq<(Seq<char>, ChannelView)>,
    instr: Instruction,
    now: u64,
) -> Seq<PacketView<Instruction>> {
    channels.map_values(
        |c: (Seq<char>, ChannelView)|
            PacketView { channel_id: c.1.channel_id, data: instr, timeout: timeout_at(now) as u64 },
    )
}

/// Packets can be sent to the channels at block time `now`: there is no
/// channel, or the timeout can be represented.
pub open spec fn can_send(channels: Seq<(Seq<char>, ChannelView)>, now: u64) -> bool {
    channels.len() == 0 || time_ok(now)
}

/// The attribute that records a vote.
pub open spec fn vote_attr(v: Vote) -> AttrView {
    ("new_vote"@, dec_nat(v.tx_id as nat) + "-"@ + dec_nat(v.chain_id as nat))
}

/// The attribute that records a decision.
pub open spec fn decision_attr(commit: bool) -> AttrView {
    ("instruction"@, if commit { "committed"@ } else { "aborted"@ })
}

/// Closes the vote on `v.tx_id` with decision `commit` and instructs every chain.
pub open spec fn close_vote(s: StateView, now: u64, v: Vote, commit: bool) -> Outcome<
    (StateView, Out),
    ContractError,
> {
    if !can_send(s.my_channels, now) {
        Outcome::Aborted
    } else {
        Outcome::Done(
            (
                StateView {
                    opening_votes: s.opening_votes.remove(v.tx_id),
                    closed_votes: s.closed_votes.insert(v.tx_id, commit),
                    ..s
                },
                (
                    seq![vote_attr(v), decision_attr(commit)],
                    instruction_packets(s.my_channels, Instruction { tx_id: v.tx_id, commitment: commit }, now),
                ),
            ),
        )
    }
}

/// The chains that have voted for `tx_id` (none when the vote is not open).
pub open spec fn voters(s: StateView, tx_id: u32) -> Seq<u16> {
    if s.opening_votes.contains_key(tx_id) {
        s.opening_votes[tx_id]
    } else {
        seq![]
    }
}

/// A new vote: refused once the transaction is decided or when the chain has
/// voted already; a vote against aborts the transaction, and the vote that
/// completes `chain_num` votes for it commits it.
pub open spec fn spec_add_vote(s: StateView, now: u64, v: Vote) -> Outcome<(StateView, Out), ContractError> {
    if !s.opening_votes.contains_key(v.tx_id) && s.closed_votes.contains_key(v.tx_id) {
        Outcome::Failed(ContractError::AlreadyClosed { tx_id: v.tx_id })
    } else if voters(s, v.tx_id).contains(v.chain_id) {
        Outcome::Failed(ContractError::AlreadyVoted { tx_id: v.tx_id, chain_id: v.chain_id })
    } else if !v.success {
        close_vote(s, now, v, false)
    } else if (voters(s, v.tx_id).len() + 1) as u16 == s.chain_num {
        close_vote(s, now, v, true)
    } else {
        Outcome::Done(
            (
                StateView {
                    opening_votes: s.opening_votes.insert(v.tx_id, voters(s, v.tx_id).push(v.chain_id)),
                    ..s
                },
                (seq![vote_attr(v)], seq![]),
            ),
        )
    }
}

/// A request to the contract.
pub open spec fn spec_execute(s: StateView, now: u64, msg: ExecuteMsg) -> Outcome<(StateView, Out), ContractError> {
    match msg {
        ExecuteMsg::AddVote { vote } => spec_add_vote(s, now, vote),
    }
}

/// The state right after instantiation.
pub open spec fn initial_state(msg: InstantiateMsg) -> StateView {
    StateView {
        chain_num: msg.chain_num,
        opening_votes: Map::empty(),
        closed_votes: Map::empty(),
        my_channels: seq![],
        err_logs: "start:"@,
    }
}

/// The attributes of instantiation.
pub open spec fn instantiate_attrs(msg: InstantiateMsg) -> Seq<AttrView> {
    seq![("method"@, "instantiate"@), ("chain_num"@, dec_nat(msg.chain_num as nat))]
}

/// How a step of the contract on `old` relates to what the function returned
/// and to the state it left.
pub open spec fn step_matches(
    spec: Outcome<(StateView, Out), ContractError>,
    old: StateView,
    new: StateView,
    r: Outcome<Response, ContractError>,
) -> bool {
    match spec {
        Outcome::Done((s2, (a, m))) => r matches Outcome::Done(resp) && new == s2
            && resp@.attributes == a && resp@.messages == m,
        Outcome::Failed(e) => r matches Outcome::Failed(e2) && e2 == e && new == old,
        Outcome::Aborted => r is Aborted && new == old,
    }
}

} // verus!

verus! {

/// The instruction packets for `tx_id` to every channel, in the order of the
/// channels; each times out `PACKET_LIFETIME_SECONDS` after `now`.
pub fn create_instruction(tx_id: u32, commitment: bool, channels: &Vec<(String, ChannelInfo)>, now: u64) -> (r: Vec<
    Packet<Instruction>,
>)
    requires
        can_send(channels_view(channels@), now),
    ensures
        r.deep_view() == instruction_packets(
            channels_view(channels@),
            Instruction { tx_id, commitment },
            now,
        ),
{
    let instr = Instruction { tx_id, commitment };
    let ghost target = instruction_packets(channels_view(channels@), instr, now);
    let mut out: Vec<Packet<Instruction>> = Vec::new();
    let mut i: usize = 0;
    while i < channels.len()
        invariant
            i <= channels@.len(),
            can_send(channels_view(channels@), now),
            target == instruction_packets(channels_view(channels@), instr, now),
            out.deep_view() =~= target.subrange(0, i as int),
        decreases channels@.len() - i,
    {
        let timeout = packet_timeout(now);
        let p = Packet { channel_id: channels[i].1.channel_id.clone(), data: instr, timeout };
        let ghost before = out.deep_view();
        out.push(p);
        proof {
            assert(out.deep_view() =~= before.push(p.deep_view()));
            assert(target.subrange(0, i + 1) =~= target.subrange(0, i as int).push(target[i as int]));
        }
        i = i + 1;
    }
    assert(target.subrange(0, channels@.len() as int) =~= target);
    out
}

fn contains_chain(v: &Vec<u16>, x: u16) -> (b: bool)
    ensures
        b == v@.contains(x),
{
    let mut i: usize = 0;
    while i < v.len()
        invariant
            i <= v@.len(),
            forall|j: int| 0 <= j < i ==> v@[j] != x,
        decreases v@.len() - i,
    {
        if v[i] == x {
            assert(v@[i as int] == x);
            return true;
        }
        i = i + 1;
    }
    false
}

fn vote_attr_exec(v: &Vote) -> (a: (String, String))
    ensures
        a.deep_view() == vote_attr(*v),
{
    let value = dec_u64(v.tx_id as u64).concat("-").concat(dec_u64(v.chain_id as u64).as_str());
    proof {
        reveal_strlit("-");
    }
    (String::from_str("new_vote"), value)
}

proof fn lemma_votes_insert(m: Map<u32, Vec<u16>>, k: u32, v: Vec<u16>)
    ensures
        votes_view(m.insert(k, v)) == votes_view(m).insert(k, v@),
{
    assert(votes_view(m.insert(k, v)) =~= votes_view(m).insert(k, v@));
}

proof fn lemma_votes_remove(m: Map<u32, Vec<u16>>, k: u32)
    ensures
        votes_view(m.remove(k)) == votes_view(m).remove(k),
{
    assert(votes_view(m.remove(k)) =~= votes_view(m).remove(k));
}

/// The state right after instantiation, and its attributes.
pub fn instantiate(msg: InstantiateMsg) -> (r: (ContractState, Vec<(String, String)>))
    ensures
        r.0@ == initial_state(msg),
        r.0@.wf(),
        r.1.deep_view() == instantiate_attrs(msg),
{
    let state = ContractState {
        chain_num: msg.chain_num,
        opening_votes: BTreeMap::new(),
        closed_votes: BTreeMap::new(),
        my_channels: Vec::new(),
        err_logs: String::from_str("start:"),
    };
    let mut attrs: Vec<(String, String)> = Vec::new();
    attrs.push(text_attr("method", "instantiate"));
    attrs.push((String::from_str("chain_num"), dec_u64(msg.chain_num as u64)));
    proof {
        assert(attrs.deep_view() =~= instantiate_attrs(msg));
        assert(votes_view(Map::<u32, Vec<u16>>::empty()) =~= Map::empty());
        assert(channels_view(Seq::<(String, ChannelInfo)>::empty()) =~= seq![]);
        assert(state@ =~= initial_state(msg));
    }
    (state, attrs)
}

impl ContractState {
    /// Closes the vote on the voted transaction with `commit` and instructs
    /// every chain; `attrs` holds the vote's attribute.
    fn close(&mut self, now: u64, v: &Vote, commit: bool, attrs: Vec<(String, String)>) -> (r: Outcome<
        (Vec<(String, String)>, Vec<Packet<Instruction>>),
        ContractError,
    >)
        requires
            attrs.deep_view() == seq![vote_attr(*v)],
        ensures
            match close_vote(old(self)@, now, *v, commit) {
                Outcome::Done((s2, (a, m))) => r matches Outcome::Done((at, ms)) && final(self)@ == s2
                    && at.deep_view() == a && ms.deep_view() == m,
                Outcome::Failed(e) => false,
                Outcome::Aborted => r is Aborted && final(self)@ == old(self)@,
            },
    {
        if self.my_channels.len() > 0 && !time_is_ok(now) {
            return Outcome::Aborted;
        }
        let msgs = create_instruction(v.tx_id, commit, &self.my_channels, now);
        proof {
            lemma_votes_remove(self.opening_votes@, v.tx_id);
        }
        self.opening_votes.remove(&v.tx_id);
        self.closed_votes.insert(v.tx_id, commit);
        let mut attrs = attrs;
        let ghost a0 = attrs.deep_view();
        if commit {
            attrs.push(text_attr("instruction", "committed"));
        } else {
            attrs.push(text_attr("instruction", "aborted"));
        }
        proof {
            assert(attrs.deep_view() =~= a0.push(decision_attr(commit)));
            assert(attrs.deep_view() =~= seq![vote_attr(*v), decision_attr(commit)]);
            let s0 = old(self)@;
            assert(self@ =~= StateView {
                opening_votes: s0.opening_votes.remove(v.tx_id),
                closed_votes: s0.closed_votes.insert(v.tx_id, commit),
                ..s0
            });
        }
        Outcome::Done((attrs, msgs))
    }

    /// Records a chain's vote on a transaction. A refused vote leaves the
    /// state as it was, and so does `Aborted`, which marks the votes on which
    /// the contract panics.
    pub fn add_vote(&mut self, now: u64, new_vote: &Vote) -> (r: Outcome<
        (Vec<(String, String)>, Vec<Packet<Instruction>>),
        ContractError,
    >)
        ensures
            match spec_add_vote(old(self)@, now, *new_vote) {
                Outcome::Done((s2, (a, m))) => r matches Outcome::Done((at, ms)) && final(self)@ == s2
                    && at.deep_view() == a && ms.deep_view() == m,
                Outcome::Failed(e) => r matches Outcome::Failed(e2) && e2 == e && final(self)@ == old(self)@,
                Outcome::Aborted => r is Aborted && final(self)@ == old(self)@,
            },
    {
        let tx_id = new_vote.tx_id;
        let mut voted: Vec<u16> = match self.opening_votes.get(&tx_id) {
            None => {
                if self.closed_votes.contains_key(&tx_id) {
                    return Outcome::Failed(ContractError::AlreadyClosed { tx_id });
                }
                Vec::new()
            },
            Some(v) => v.clone(),
        };
        assert(voted@ =~= voters(self@, tx_id));
        if contains_chain(&voted, new_vote.chain_id) {
            return Outcome::Failed(ContractError::AlreadyVoted { tx_id, chain_id: new_vote.chain_id });
        }
        let mut attrs: Vec<(String, String)> = Vec::new();
        attrs.push(vote_attr_exec(new_vote));
        assert(attrs.deep_view() =~= seq![vote_attr(*new_vote)]);
        if !new_vote.success {
            return self.close(now, new_vote, false, attrs);
        }
        voted.push(new_vote.chain_id);
        if (voted.len() as u16) == self.chain_num {
            return self.close(now, new_vote, true, attrs);
        }
        proof {
            lemma_votes_insert(self.opening_votes@, tx_id, voted);
        }
        self.opening_votes.insert(tx_id, voted);
        let msgs: Vec<Packet<Instruction>> = Vec::new();
        proof {
            assert(msgs.deep_view() =~= seq![]);
            let s0 = old(self)@;
            assert(self@ =~= StateView {
                opening_votes: s0.opening_votes.insert(tx_id, voters(s0, tx_id).push(new_vote.chain_id)),
                ..s0
            });
        }
        Outcome::Done((attrs, msgs))
    }

    /// Handles a request; when it fails the state is left as it was, and
    /// `Aborted` marks the requests on which the contract panics.
    pub fn execute_outcome(&mut self, now: u64, msg: &ExecuteMsg) -> (r: Outcome<Response, ContractError>)
        ensures
            step_matches(spec_execute(old(self)@, now, *msg), old(self)@, final(self)@, r),
    {
        match msg {
            ExecuteMsg::AddVote { vote } => match self.add_vote(now, vote) {
                Outcome::Done((attributes, messages)) => Outcome::Done(Response { attributes, messages }),
                Outcome::Failed(e) => Outcome::Failed(e),
                Outcome::Aborted => Outcome::Aborted,
            },
        }
    }

    /// Handles a request on which the contract does not panic.
    pub fn execute(&mut self, now: u64, msg: &ExecuteMsg) -> (r: Result<Response, ContractError>)
        requires
            !(spec_execute(old(self)@, now, *msg) is Aborted),
        ensures
            match spec_execute(old(self)@, now, *msg) {
                Outcome::Done((s2, (a, m))) => r matches Ok(resp) && final(self)@ == s2
                    && resp@.attributes == a && resp@.messages == m,
                Outcome::Failed(e) => r == Err::<Response, ContractError>(e) && final(self)@ == old(self)@,
                Outcome::Aborted => false,
            },
    {
        match self.execute_outcome(now, msg) {
            Outcome::Done(resp) => Ok(resp),
            Outcome::Failed(e) => Err(e),
            Outcome::Aborted => Err(ContractError::AlreadyClosed { tx_id: 0 }),
        }
    }

    /// Handles a request, or returns `None` (leaving the state as it was)
    /// exactly on the requests on which the contract panics.
    pub fn try_execute(&mut self, now: u64, msg: &ExecuteMsg) -> (r: Option<Result<Response, ContractError>>)
        ensures
            match spec_execute(old(self)@, now, *msg) {
                Outcome::Done((s2, (a, m))) => r matches Some(Ok(resp)) && final(self)@ == s2
                    && resp@.attributes == a && resp@.messages == m,
                Outcome::Failed(e) => r == Some(Err::<Response, ContractError>(e)) && final(self)@ == old(self)@,
                Outcome::Aborted => r is None && final(self)@ == old(self)@,
            },
    {
        match self.execute_outcome(now, msg) {
            Outcome::Done(resp) => Some(Ok(resp)),
            Outcome::Failed(e) => Some(Err(e)),
            Outcome::Aborted => None,
        }
    }
}

} // verus!

verus! {

/// Every step keeps the state well formed: no transaction is both open and
/// decided, and no chain is counted twice for a transaction.
pub proof fn lemma_step_keeps_wf(s: StateView, now: u64, msg: ExecuteMsg)
    requires
        s.wf(),
    ensures
        spec_execute(s, now, msg) matches Outcome::Done((s2, _)) ==> s2.wf(),
{
    let ExecuteMsg::AddVote { vote } = msg;
    if let Outcome::Done((s2, _)) = spec_execute(s, now, msg) {
        let t = vote.tx_id;
        assert forall|k: u32| #[trigger] s2.opening_votes.contains_key(k) implies !s2.closed_votes.contains_key(k)
            && s2.opening_votes[k].no_duplicates() by {
            if k == t {
                let v = voters(s, t);
                assert(!v.contains(vote.chain_id));
                assert forall|i: int, j: int| 0 <= i < j < v.push(vote.chain_id).len() implies v.push(
                    vote.chain_id,
                )[i] != v.push(vote.chain_id)[j] by {
                    if j == v.len() {
                        assert(v[i] == v.push(vote.chain_id)[i]);
                    }
                }
            }
        }
    }
}

/// A decision is final: once a transaction is decided, every later vote on it
/// is refused with `AlreadyClosed` and its decision stays as it was.
pub proof fn lemma_decision_is_final(s: StateView, now: u64, msg: ExecuteMsg, t: u32)
    requires
        s.wf(),
        s.closed_votes.contains_key(t),
    ensures
        spec_execute(s, now, msg) matches Outcome::Done((s2, _)) ==> s2.closed_votes.contains_key(t)
            && s2.closed_votes[t] == s.closed_votes[t] && !s2.opening_votes.contains_key(t),
        (msg matches ExecuteMsg::AddVote { vote } && vote.tx_id == t) ==> spec_execute(s, now, msg)
            == Outcome::<(StateView, Out), ContractError>::Failed(ContractError::AlreadyClosed { tx_id: t }),
{
}

/// A transaction is committed only by the vote in favour that completes
/// `chain_num` distinct voters, all of which voted in favour; the decision is
/// sent to every channel.
pub proof fn lemma_commit_needs_every_chain(s: StateView, now: u64, msg: ExecuteMsg, t: u32)
    requires
        s.wf(),
        !s.closed_votes.contains_key(t),
    ensures
        spec_execute(s, now, msg) matches Outcome::Done((s2, (_, m))) ==> (s2.closed_votes.contains_key(t)
            && s2.closed_votes[t] ==> {
            let vote = msg->vote;
            &&& vote.tx_id == t
            &&& vote.success
            &&& voters(s, t).push(vote.chain_id).no_duplicates()
            &&& voters(s, t).push(vote.chain_id).len() as u16 == s.chain_num
            &&& m == instruction_packets(s.my_channels, Instruction { tx_id: t, commitment: true }, now)
        }),
{
    let ExecuteMsg::AddVote { vote } = msg;
    if let Outcome::Done((s2, _)) = spec_execute(s, now, msg) {
        if s2.closed_votes.contains_key(t) && s2.closed_votes[t] && vote.tx_id == t {
            let v = voters(s, t);
            assert forall|i: int, j: int| 0 <= i < j < v.push(vote.chain_id).len() implies v.push(
                vote.chain_id,
            )[i] != v.push(vote.chain_id)[j] by {
                if j == v.len() {
                    assert(v[i] == v.push(vote.chain_id)[i]);
                }
            }
        }
    }
}

/// A vote against an undecided transaction, from a chain that has not voted
/// on it, aborts the transaction and sends the abort to every channel (unless
/// the packets' timeout cannot be represented).
pub proof fn lemma_vote_against_aborts(s: StateView, now: u64, vote: Vote)
    requires
        !s.closed_votes.contains_key(vote.tx_id),
        !voters(s, vote.tx_id).contains(vote.chain_id),
        !vote.success,
        can_send(s.my_channels, now),
    ensures
        spec_add_vote(s, now, vote) matches Outcome::Done((s2, (a, m))) && s2.closed_votes[vote.tx_id]
            == false && !s2.opening_votes.contains_key(vote.tx_id) && a == seq![
            vote_attr(vote),
            decision_attr(false),
        ] && m == instruction_packets(
            s.my_channels,
            Instruction { tx_id: vote.tx_id, commitment: false },
            now,
        ),
{
}

} // verus!

verus! {

impl ContractState {
    /// The open transactions with the chains that voted for them, in
    /// ascending order of transaction.
    pub fn opening_votes(&self) -> (r: OpeningVotesResp)
        ensures
            r.votes.deep_view() == entries_ascending(self@.opening_votes),
    {
        let keys = sorted_keys(&self.opening_votes);
        let ghost m = self@.opening_votes;
        proof {
            lemma_keys_ascending_unique(m, keys@);
        }
        let mut out: Vec<(u32, Vec<u16>)> = Vec::new();
        let mut i: usize = 0;
        while i < keys.len()
            invariant
                i <= keys@.len(),
                m == self@.opening_votes,
                keys@ == keys_ascending(m),
                forall|k: u32| m.contains_key(k) <==> keys@.contains(k),
                out.deep_view() =~= keys@.take(i as int).map_values(|k: u32| (k, m[k])),
            decreases keys@.len() - i,
        {
            let k = keys[i];
            assert(keys@.contains(k));
            let v = match self.opening_votes.get(&k) {
                Some(v) => v.clone(),
                None => vstd::pervasive::unreached(),
            };
            let ghost before = out.deep_view();
            assert(v.deep_view() =~= v@);
            out.push((k, v));
            proof {
                assert(out.deep_view() =~= before.push((k, v@)));
                assert(keys@.take(i + 1).map_values(|k: u32| (k, m[k])) =~= keys@.take(i as int).map_values(
                    |k: u32| (k, m[k]),
                ).push((k, m[k])));
            }
            i = i + 1;
        }
        assert(keys@.take(keys@.len() as int) =~= keys@);
        OpeningVotesResp { votes: out }
    }

    /// The decided transactions with their decision, in ascending order of transaction.
    pub fn closed_votes(&self) -> (r: ClosedVotesResp)
        ensures
            r.votes@ == entries_ascending(self@.closed_votes),
    {
        ClosedVotesResp { votes: copy_entries(&self.closed_votes) }
    }

    /// The error log.
    pub fn my_logs(&self) -> (r: MyLogsResp)
        ensures
            r.logs@ == self@.err_logs,
    {
        MyLogsResp { logs: self.err_logs.clone() }
    }
}

} // verus!
