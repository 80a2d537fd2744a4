//! Execution and finalization of transactions in the vanilla contract.
use std::collections::BTreeMap;
use vstd::prelude::*;
use crate::fc_stor::utils::{time_log_lines, time_log_texts};
use crate::chain::{
    append_reply, copy_vec, skip_vec, text_attr, time_is_ok, time_ok, timeout_at, Action,
    ActionView, AttrView, Outcome, Packet, PacketView, Reply, StdFailure, StoredItem, with_prefix,
};
use crate::render::{bool_string, bool_text, dec_int, dec_i64, dec_nat, dec_u64};
use crate::fc_exec::contract::{apply_value, value_fits, value_fits_exec};
use crate::fc_basic::contract::vec_contains;
use crate::fc_stor::error::{ContractError, ErrorView};
use crate::fc_stor::msg::{ExecuteMsg, FcrossTx, InstantiateMsg, Instruction, MyTimeLogsResp, Operation, Vote};
use crate::fc_stor::state::ChannelView;
use crate::fc_stor::utils::get_timeout;
use crate::vanilla::state::{channel_view, copy_channel, ChannelInfo, ContractState, StateView, TimeInfo};

verus! {

/// A request the contract sends to itself.
#[derive(Clone, Copy, Debug, PartialEq, Eq)]
pub enum NextRequest {
    /// Execute the next waiting transaction.
    ExecuteTx(FcrossTx),
    /// Apply an instruction that arrived before its transaction.
    FinalizeTx(Instruction),
}

/// The response of the contract.
pub type Response = Reply<Vote, NextRequest>;

/// Attributes and messages of a step.
pub type Out = (Seq<AttrView>, Seq<ActionView<Vote, NextRequest>>);

/// Builds the vote packet.
pub fn give_vote(tx_id: u32, chain_id: u16, status: bool, channel_id: String, now: u64) -> (p: Packet<Vote>)
    requires
        time_ok(now),
    ensures
        p@ == (PacketView {
            channel_id: channel_id@,
            data: Vote { tx_id, chain_id, success: status },
            timeout: timeout_at(now) as u64,
        }),
{
    Packet { channel_id, data: Vote { tx_id, chain_id, success: status }, timeout: get_timeout(now) }
}

/// The vote for `tx_id`, or why it cannot be sent.
pub open spec fn vote_outcome(s: StateView, tx_id: u32, success: bool, now: u64) -> Outcome<
    ActionView<Vote, NextRequest>,
    ErrorView,
> {
    match s.my_channel {
        None => Outcome::Failed(ErrorView::StdError(StdFailure::NotFound(StoredItem::ChannelInfo))),
        Some(c) => if time_ok(now) {
            Outcome::Done(
                ActionView::Send(
                    PacketView {
                        channel_id: c.channel_id,
                        data: Vote { tx_id, chain_id: s.chain_id, success },
                        timeout: timeout_at(now) as u64,
                    },
                ),
            )
        } else {
            Outcome::Aborted
        },
    }
}

/// The waiting list after the next transaction is sent back to the contract,
/// and that request.
pub open spec fn pull_spec(waiting: Seq<FcrossTx>) -> (Seq<FcrossTx>, Seq<ActionView<Vote, NextRequest>>) {
    if waiting.len() == 0 {
        (waiting, seq![])
    } else {
        (
            waiting.subrange(1, waiting.len() as int),
            seq![ActionView::Call(NextRequest::ExecuteTx(waiting[0]))],
        )
    }
}

/// An attribute whose value is a number.
pub open spec fn num_attr(key: Seq<char>, n: nat) -> AttrView {
    (key, dec_nat(n))
}

/// A new transaction: refused when seen before, queued while another one
/// holds the balance, early aborted (and the next one pulled) when the balance
/// does not cover it, and otherwise holding the balance until its
/// instruction, which may already be cached.
pub open spec fn spec_execute_tx(s: StateView, now: u64, tx: FcrossTx) -> Outcome<(StateView, Out), ErrorView> {
    let id = tx.tx_id;
    if s.history.contains(id) {
        Outcome::Failed(ErrorView::ExecutionTxIdAlreadyExist { sent_id: id })
    } else {
        match s.pending_tx {
            Some((p, _)) => Outcome::Done(
                (
                    StateView { waiting: s.waiting.push(tx), ..s },
                    (
                        seq![num_attr("state_locked"@, p.tx_id as nat), num_attr("cached_tx"@, id as nat)],
                        seq![],
                    ),
                ),
            ),
            None => if !value_fits(Some(s.current_state), tx.operation) {
                Outcome::Aborted
            } else {
                let nv = apply_value(Some(s.current_state), tx.operation);
                match vote_outcome(s, id, nv is Some, now) {
                    Outcome::Done(v) => match nv {
                        None => {
                            let (w2, pm) = pull_spec(s.waiting);
                            Outcome::Done(
                                (
                                    StateView {
                                        history: s.history.push(id),
                                        time_logs: s.time_logs.insert(
                                            id,
                                            TimeInfo { start_time: now, end_time: Some(now) },
                                        ),
                                        waiting: w2,
                                        ..s
                                    },
                                    (seq![num_attr("early_abort"@, id as nat)], seq![v] + pm),
                                ),
                            )
                        },
                        Some(x) => {
                            let cached = s.cached_instructions.contains_key(id);
                            let fm = if cached {
                                seq![
                                    ActionView::Call(
                                        NextRequest::FinalizeTx(
                                            Instruction { tx_id: id, commitment: s.cached_instructions[id] },
                                        ),
                                    ),
                                ]
                            } else {
                                seq![]
                            };
                            Outcome::Done(
                                (
                                    StateView {
                                        time_logs: s.time_logs.insert(
                                            id,
                                            TimeInfo { start_time: now, end_time: None },
                                        ),
                                        pending_tx: Some((tx, x)),
                                        cached_instructions: s.cached_instructions.remove(id),
                                        ..s
                                    },
                                    (seq![num_attr("executed_tx"@, id as nat)], seq![v] + fm),
                                ),
                            )
                        },
                    },
                    Outcome::Failed(e) => Outcome::Failed(e),
                    Outcome::Aborted => Outcome::Aborted,
                }
            },
        }
    }
}

/// The instruction for a transaction: applied when it is the one holding the
/// balance (the new balance kept only on commit, the next waiting one pulled);
/// otherwise cached for later unless the transaction has already finished.
pub open spec fn spec_finalize_tx(s: StateView, now: u64, instr: Instruction) -> Outcome<
    (StateView, Out),
    ErrorView,
> {
    let id = instr.tx_id;
    let c = instr.commitment;
    match s.pending_tx {
        Some((p, v)) if p.tx_id == id => if !s.time_logs.contains_key(id) {
            Outcome::Failed(ErrorView::StdError(StdFailure::NotFound(StoredItem::TimeInfo(id))))
        } else {
            let (w2, pm) = pull_spec(s.waiting);
            Outcome::Done(
                (
                    StateView {
                        current_state: if c {
                            v
                        } else {
                            s.current_state
                        },
                        history: s.history.push(id),
                        pending_tx: None,
                        waiting: w2,
                        time_logs: s.time_logs.insert(
                            id,
                            TimeInfo { start_time: s.time_logs[id].start_time, end_time: Some(now) },
                        ),
                        ..s
                    },
                    (seq![num_attr("finalized_tx"@, id as nat), ("committed"@, bool_text(c))], pm),
                ),
            )
        },
        _ => {
            let current = match s.pending_tx {
                Some((p, _)) => dec_nat(p.tx_id as nat),
                None => "None"@,
            };
            let mismatch = ("mismatch_happened_"@ + dec_nat(id as nat), "current_tx_"@ + current);
            if !s.history.contains(id) {
                Outcome::Done(
                    (
                        StateView { cached_instructions: s.cached_instructions.insert(id, c), ..s },
                        (
                            seq![("cached_instruction"@, dec_nat(id as nat) + "-"@ + bool_text(c)), mismatch],
                            seq![],
                        ),
                    ),
                )
            } else {
                Outcome::Done((s, (seq![mismatch], seq![])))
            }
        },
    }
}

/// How a step of the contract on `old` relates to what the function returned
/// and to the state it left.
pub open spec fn step_matches(
    spec: Outcome<(StateView, Out), ErrorView>,
    old: StateView,
    new: StateView,
    r: Outcome<Response, ContractError>,
) -> bool {
    match spec {
        Outcome::Done((s2, (a, m))) => r matches Outcome::Done(resp) && new == s2
            && resp@.attributes == a && resp@.messages == m,
        Outcome::Failed(e) => r matches Outcome::Failed(e2) && e2@ == e && new == old,
        Outcome::Aborted => r is Aborted && new == old,
    }
}

/// An attribute with a literal key and a numeric value.
fn num_attr_exec(key: &str, n: u64) -> (a: (String, String))
    ensures
        a.deep_view() == num_attr(key@, n as nat),
{
    (String::from_str(key), dec_u64(n))
}

impl ContractState {
    /// Sends the next waiting transaction back to the contract.
    pub fn pull_execution_request(&mut self) -> (r: Vec<Action<Vote, NextRequest>>)
        ensures
            (final(self)@.waiting, r.deep_view()) == pull_spec(old(self)@.waiting),
            final(self)@ == (StateView { waiting: final(self)@.waiting, ..old(self)@ }),
    {
        let mut msgs: Vec<Action<Vote, NextRequest>> = Vec::new();
        if self.waiting.len() == 0 {
            assert(msgs.deep_view() =~= seq![]);
            return msgs;
        }
        let ghost w0 = self.waiting@;
        let next = self.waiting.remove(0);
        assert(self.waiting@ =~= w0.subrange(1, w0.len() as int));
        msgs.push(Action::Call(NextRequest::ExecuteTx(next)));
        assert(msgs.deep_view() =~= seq![ActionView::<Vote, NextRequest>::Call(NextRequest::ExecuteTx(next))]);
        msgs
    }

    /// The request to apply a cached instruction for `tx_id`, which leaves the cache.
    pub fn new_finalization_request(&mut self, tx_id: u32) -> (r: Vec<Action<Vote, NextRequest>>)
        ensures
            final(self)@ == (StateView {
                cached_instructions: old(self)@.cached_instructions.remove(tx_id),
                ..old(self)@
            }),
            r.deep_view() == if old(self)@.cached_instructions.contains_key(tx_id) {
                seq![
                    ActionView::<Vote, NextRequest>::Call(
                        NextRequest::FinalizeTx(
                            Instruction { tx_id, commitment: old(self)@.cached_instructions[tx_id] },
                        ),
                    ),
                ]
            } else {
                seq![]
            },
    {
        let mut msgs: Vec<Action<Vote, NextRequest>> = Vec::new();
        match self.cached_instructions.remove(&tx_id) {
            None => {
                assert(msgs.deep_view() =~= seq![]);
            },
            Some(commitment) => {
                msgs.push(Action::Call(NextRequest::FinalizeTx(Instruction { tx_id, commitment })));
                assert(msgs.deep_view() =~= seq![
                    ActionView::<Vote, NextRequest>::Call(
                        NextRequest::FinalizeTx(Instruction { tx_id, commitment }),
                    ),
                ]);
            },
        }
        msgs
    }

    /// Executes a new transaction (see [`spec_execute_tx`]).
    pub fn execute_tx(&mut self, now: u64, tx: FcrossTx) -> (r: Outcome<Response, ContractError>)
        ensures
            step_matches(spec_execute_tx(old(self)@, now, tx), old(self)@, final(self)@, r),
    {
        let id = tx.tx_id;
        if vec_contains(&self.history, id) {
            return Outcome::Failed(ContractError::ExecutionTxIdAlreadyExist { sent_id: id });
        }
        if let Some((p, _)) = self.pending_tx {
            self.waiting.push(tx);
            let mut attrs: Vec<(String, String)> = Vec::new();
            attrs.push(num_attr_exec("state_locked", p.tx_id as u64));
            attrs.push(num_attr_exec("cached_tx", id as u64));
            let resp = Response { attributes: attrs, messages: Vec::new() };
            assert(resp@.attributes =~= seq![
                num_attr("state_locked"@, p.tx_id as nat),
                num_attr("cached_tx"@, id as nat),
            ]);
            assert(resp@.messages =~= seq![]);
            assert(self@ =~= StateView { waiting: old(self)@.waiting.push(tx), ..old(self)@ });
            return Outcome::Done(resp);
        }
        if !value_fits_exec(Some(self.current_state), &tx.operation) {
            return Outcome::Aborted;
        }
        let new_value = match tx.operation {
            Operation::CreditBalance { amount } => Some(self.current_state + amount),
            Operation::DebitBalance { amount } => {
                if self.current_state >= amount {
                    Some(self.current_state - amount)
                } else {
                    None
                }
            },
        };
        assert(new_value == apply_value(Some(self.current_state), tx.operation));
        let vote = match &self.my_channel {
            None => {
                return Outcome::Failed(
                    ContractError::StdError(StdFailure::NotFound(StoredItem::ChannelInfo)),
                );
            },
            Some(c) => {
                if !time_is_ok(now) {
                    return Outcome::Aborted;
                }
                give_vote(id, self.chain_id, new_value.is_some(), c.channel_id.clone(), now)
            },
        };
        let mut msgs: Vec<Action<Vote, NextRequest>> = Vec::new();
        let ghost vp = vote@;
        msgs.push(Action::Send(vote));
        assert(msgs.deep_view() =~= seq![ActionView::<Vote, NextRequest>::Send(vp)]);
        let mut attrs: Vec<(String, String)> = Vec::new();
        match new_value {
            None => {
                self.history.push(id);
                self.time_logs.insert(id, TimeInfo { start_time: now, end_time: Some(now) });
                let mut pm = self.pull_execution_request();
                let ghost m0 = msgs.deep_view();
                let ghost pd = pm.deep_view();
                msgs.append(&mut pm);
                assert(msgs.deep_view() =~= m0 + pd);
                attrs.push(num_attr_exec("early_abort", id as u64));
                assert(attrs.deep_view() =~= seq![num_attr("early_abort"@, id as nat)]);
                Outcome::Done(Response { attributes: attrs, messages: msgs })
            },
            Some(x) => {
                self.time_logs.insert(id, TimeInfo { start_time: now, end_time: None });
                self.pending_tx = Some((tx, x));
                let mut fm = self.new_finalization_request(id);
                let ghost m0 = msgs.deep_view();
                let ghost pd = fm.deep_view();
                msgs.append(&mut fm);
                assert(msgs.deep_view() =~= m0 + pd);
                attrs.push(num_attr_exec("executed_tx", id as u64));
                assert(attrs.deep_view() =~= seq![num_attr("executed_tx"@, id as nat)]);
                Outcome::Done(Response { attributes: attrs, messages: msgs })
            },
        }
    }

    /// Applies the coordinator's instruction (see [`spec_finalize_tx`]).
    pub fn finalize_tx(&mut self, now: u64, instr: Instruction) -> (r: Outcome<Response, ContractError>)
        ensures
            step_matches(spec_finalize_tx(old(self)@, now, instr), old(self)@, final(self)@, r),
    {
        let id = instr.tx_id;
        let c = instr.commitment;
        let mut attrs: Vec<(String, String)> = Vec::new();
        let matching = match self.pending_tx {
            Some((p, _)) => p.tx_id == id,
            None => false,
        };
        if !matching {
            let current = match self.pending_tx {
                Some((p, _)) => dec_u64(p.tx_id as u64),
                None => String::from_str("None"),
            };
            let mismatch = (
                String::from_str("mismatch_happened_").concat(dec_u64(id as u64).as_str()),
                String::from_str("current_tx_").concat(current.as_str()),
            );
            let ghost mv = mismatch.deep_view();
            if !vec_contains(&self.history, id) {
                self.cached_instructions.insert(id, c);
                let value = dec_u64(id as u64).concat("-").concat(bool_string(c).as_str());
                attrs.push((String::from_str("cached_instruction"), value));
            }
            attrs.push(mismatch);
            proof {
                if !old(self)@.history.contains(id) {
                    assert(attrs.deep_view() =~= seq![
                        ("cached_instruction"@, dec_nat(id as nat) + "-"@ + bool_text(c)),
                        mv,
                    ]);
                } else {
                    assert(attrs.deep_view() =~= seq![mv]);
                }
            }
            let resp = Response { attributes: attrs, messages: Vec::new() };
            assert(resp@.messages =~= seq![]);
            return Outcome::Done(resp);
        }
        let v = match self.pending_tx {
            Some((_, v)) => v,
            None => 0,
        };
        let start_time = match self.time_logs.get(&id) {
            None => {
                return Outcome::Failed(
                    ContractError::StdError(StdFailure::NotFound(StoredItem::TimeInfo(id))),
                );
            },
            Some(t) => t.start_time,
        };
        if c {
            self.current_state = v;
        }
        self.history.push(id);
        self.pending_tx = None;
        let pm = self.pull_execution_request();
        self.time_logs.insert(id, TimeInfo { start_time, end_time: Some(now) });
        attrs.push(num_attr_exec("finalized_tx", id as u64));
        attrs.push((String::from_str("committed"), bool_string(c)));
        assert(attrs.deep_view() =~= seq![num_attr("finalized_tx"@, id as nat), ("committed"@, bool_text(c))]);
        Outcome::Done(Response { attributes: attrs, messages: pm })
    }
}

} // verus!

verus! {

/// A list of new transactions, executed one after the other; the first
/// failure fails them all.
pub open spec fn spec_execute_txs(s: StateView, now: u64, txs: Seq<FcrossTx>, i: nat) -> Outcome<
    (StateView, Out),
    ErrorView,
>
    decreases txs.len() - i,
{
    if i >= txs.len() {
        Outcome::Done((s, (seq![], seq![])))
    } else {
        match spec_execute_tx(s, now, txs[i as int]) {
            Outcome::Done((s2, (a, m))) => with_prefix(a, m, spec_execute_txs(s2, now, txs, i + 1)),
            Outcome::Failed(e) => Outcome::Failed(e),
            Outcome::Aborted => Outcome::Aborted,
        }
    }
}

/// A request to the contract.
pub open spec fn spec_execute(s: StateView, now: u64, msg: ExecuteMsg) -> Outcome<(StateView, Out), ErrorView> {
    match msg {
        ExecuteMsg::ExecuteTxs { fcross_txs } => spec_execute_txs(s, now, fcross_txs@, 0),
        ExecuteMsg::FinalizeTx { instruction } => spec_finalize_tx(s, now, instruction),
    }
}

/// The state right after instantiation.
pub open spec fn initial_state(msg: InstantiateMsg) -> StateView {
    StateView {
        chain_id: msg.chain_id,
        current_state: msg.original_value,
        history: seq![0],
        pending_tx: None,
        waiting: seq![],
        cached_instructions: Map::empty(),
        my_channel: None,
        err_logs: "start:"@,
        time_logs: Map::empty(),
    }
}

/// The attributes of instantiation.
pub open spec fn instantiate_attrs(msg: InstantiateMsg) -> Seq<AttrView> {
    seq![
        ("method"@, "instantiate"@),
        ("initiated_chain"@, dec_nat(msg.chain_id as nat)),
        ("original_value"@, dec_int(msg.original_value as int)),
    ]
}

/// Sets up the contract with the original balance and nothing pending.
pub fn instantiate(msg: InstantiateMsg) -> (r: (ContractState, Vec<(String, String)>))
    ensures
        r.0@ == initial_state(msg),
        r.1.deep_view() == instantiate_attrs(msg),
{
    let mut history: Vec<u32> = Vec::new();
    history.push(0);
    let state = ContractState {
        chain_id: msg.chain_id,
        current_state: msg.original_value,
        history,
        pending_tx: None,
        waiting: Vec::new(),
        cached_instructions: BTreeMap::new(),
        my_channel: None,
        err_logs: String::from_str("start:"),
        time_logs: BTreeMap::new(),
    };
    let mut attrs: Vec<(String, String)> = Vec::new();
    attrs.push(text_attr("method", "instantiate"));
    attrs.push((String::from_str("initiated_chain"), dec_u64(msg.chain_id as u64)));
    attrs.push((String::from_str("original_value"), dec_i64(msg.original_value)));
    proof {
        assert(attrs.deep_view() =~= instantiate_attrs(msg));
        assert(state@ =~= initial_state(msg));
    }
    (state, attrs)
}

impl ContractState {
    /// A copy of the state.
    pub fn copy(&self) -> (r: Self)
        ensures
            r@ == self@,
    {
        let r = ContractState {
            chain_id: self.chain_id,
            current_state: self.current_state,
            history: copy_vec(&self.history),
            pending_tx: self.pending_tx,
            waiting: copy_vec(&self.waiting),
            cached_instructions: self.cached_instructions.clone(),
            my_channel: copy_channel(&self.my_channel),
            err_logs: self.err_logs.clone(),
            time_logs: self.time_logs.clone(),
        };
        assert(r@ =~= self@);
        r
    }

    fn execute_txs_from(&mut self, now: u64, txs: &Vec<FcrossTx>, i: usize) -> (r: Outcome<Response, ContractError>)
        requires
            i <= txs@.len(),
        ensures
            match spec_execute_txs(old(self)@, now, txs@, i as nat) {
                Outcome::Done((s2, (a, m))) => r matches Outcome::Done(resp) && final(self)@ == s2
                    && resp@.attributes == a && resp@.messages == m,
                Outcome::Failed(e) => r matches Outcome::Failed(e2) && e2@ == e,
                Outcome::Aborted => r is Aborted,
            },
        decreases txs@.len() - i,
    {
        if i >= txs.len() {
            let resp = Response { attributes: Vec::new(), messages: Vec::new() };
            assert(resp@.attributes =~= seq![]);
            assert(resp@.messages =~= seq![]);
            return Outcome::Done(resp);
        }
        match self.execute_tx(now, txs[i]) {
            Outcome::Done(first) => {
                match self.execute_txs_from(now, txs, i + 1) {
                    Outcome::Done(rest) => {
                        let mut attrs = first.attributes;
                        let mut msgs = first.messages;
                        append_reply(&mut attrs, &mut msgs, rest.attributes, rest.messages);
                        Outcome::Done(Response { attributes: attrs, messages: msgs })
                    },
                    Outcome::Failed(e) => Outcome::Failed(e),
                    Outcome::Aborted => Outcome::Aborted,
                }
            },
            Outcome::Failed(e) => Outcome::Failed(e),
            Outcome::Aborted => Outcome::Aborted,
        }
    }

    /// Handles a request; when it fails the state is left as it was, and
    /// `Aborted` marks the requests on which the contract panics.
    pub fn execute_outcome(&mut self, now: u64, msg: &ExecuteMsg) -> (r: Outcome<Response, ContractError>)
        ensures
            step_matches(spec_execute(old(self)@, now, *msg), old(self)@, final(self)@, r),
    {
        match msg {
            ExecuteMsg::ExecuteTxs { fcross_txs } => {
                let mut work = self.copy();
                let r = work.execute_txs_from(now, fcross_txs, 0);
                match r {
                    Outcome::Done(resp) => {
                        *self = work;
                        Outcome::Done(resp)
                    },
                    Outcome::Failed(e) => Outcome::Failed(e),
                    Outcome::Aborted => Outcome::Aborted,
                }
            },
            ExecuteMsg::FinalizeTx { instruction } => self.finalize_tx(now, *instruction),
        }
    }

    /// Handles a request on which the contract does not panic.
    pub fn execute(&mut self, now: u64, msg: &ExecuteMsg) -> (r: Result<Response, ContractError>)
        requires
            !(spec_execute(old(self)@, now, *msg) is Aborted),
        ensures
            match spec_execute(old(self)@, now, *msg) {
                Outcome::Done((s2, (a, m))) => r matches Ok(resp) && final(self)@ == s2
                    && resp@.attributes == a && resp@.messages == m,
                Outcome::Failed(e) => r matches Err(e2) && e2@ == e && final(self)@ == old(self)@,
                Outcome::Aborted => false,
            },
    {
        match self.execute_outcome(now, msg) {
            Outcome::Done(resp) => Ok(resp),
            Outcome::Failed(e) => Err(e),
            Outcome::Aborted => Err(ContractError::UpperBound { max_length: 0 }),
        }
    }

    /// Handles a request, or returns `None` (leaving the state as it was)
    /// exactly on the requests on which the contract panics.
    pub fn try_execute(&mut self, now: u64, msg: &ExecuteMsg) -> (r: Option<Result<Response, ContractError>>)
        ensures
            match spec_execute(old(self)@, now, *msg) {
                Outcome::Done((s2, (a, m))) => r matches Some(Ok(resp)) && final(self)@ == s2
                    && resp@.attributes == a && resp@.messages == m,
                Outcome::Failed(e) => r matches Some(Err(e2)) && e2@ == e && final(self)@ == old(self)@,
                Outcome::Aborted => r is None && final(self)@ == old(self)@,
            },
    {
        match self.execute_outcome(now, msg) {
            Outcome::Done(resp) => Some(Ok(resp)),
            Outcome::Failed(e) => Some(Err(e)),
            Outcome::Aborted => None,
        }
    }
}

} // verus!

verus! {

impl ContractState {
    /// The time log, one line per transaction in ascending order of transaction.
    pub fn my_time_logs(&self) -> (r: MyTimeLogsResp)
        ensures
            r.logs.deep_view() == time_log_texts(self@.time_logs),
    {
        MyTimeLogsResp { logs: time_log_lines(&self.time_logs) }
    }
}

} // verus!

verus! {

proof fn lemma_executing_keeps_balance(s: StateView, now: u64, txs: Seq<FcrossTx>, i: nat)
    ensures
        spec_execute_txs(s, now, txs, i) matches Outcome::Done((s2, _)) ==> s2.current_state == s.current_state,
    decreases txs.len() - i,
{
    if i < txs.len() {
        if let Outcome::Done((s2, _)) = spec_execute_tx(s, now, txs[i as int]) {
            lemma_executing_keeps_balance(s2, now, txs, i + 1);
        }
    }
}

/// `msg` is the instruction that commits the transaction holding the balance
/// in `s`, and `s2` holds the balance that transaction left.
pub open spec fn commits_pending(s: StateView, s2: StateView, msg: ExecuteMsg) -> bool {
    match msg {
        ExecuteMsg::FinalizeTx { instruction } => instruction.commitment && match s.pending_tx {
            Some((p, v)) => p.tx_id == instruction.tx_id && s2.current_state == v,
            None => false,
        },
        ExecuteMsg::ExecuteTxs { .. } => false,
    }
}

/// The balance changes only when the instruction for the transaction holding
/// it commits that transaction, and then it becomes the balance that
/// transaction left.
pub proof fn lemma_balance_changes_only_on_commit(s: StateView, now: u64, msg: ExecuteMsg)
    ensures
        match spec_execute(s, now, msg) {
            Outcome::Done((s2, _)) => s2.current_state != s.current_state ==> commits_pending(s, s2, msg),
            _ => true,
        },
{
    match msg {
        ExecuteMsg::ExecuteTxs { fcross_txs } => lemma_executing_keeps_balance(s, now, fcross_txs@, 0),
        ExecuteMsg::FinalizeTx { instruction } => {},
    }
}

} // verus!

verus! {

proof fn lemma_executing_extends_history(s: StateView, now: u64, txs: Seq<FcrossTx>, i: nat)
    ensures
        spec_execute_txs(s, now, txs, i) matches Outcome::Done((s2, _)) ==> s.history.is_prefix_of(s2.history),
    decreases txs.len() - i,
{
    if i < txs.len() {
        if let Outcome::Done((s2, _)) = spec_execute_tx(s, now, txs[i as int]) {
            lemma_executing_extends_history(s2, now, txs, i + 1);
            assert(s.history.is_prefix_of(s2.history));
        }
    }
}

/// The history of finished transactions only grows: every request keeps it
/// as the beginning of the new history.
pub proof fn lemma_history_only_grows(s: StateView, now: u64, msg: ExecuteMsg)
    ensures
        spec_execute(s, now, msg) matches Outcome::Done((s2, _)) ==> s.history.is_prefix_of(s2.history),
{
    match msg {
        ExecuteMsg::ExecuteTxs { fcross_txs } => lemma_executing_extends_history(s, now, fcross_txs@, 0),
        ExecuteMsg::FinalizeTx { instruction } => {
            if let Outcome::Done((s2, _)) = spec_finalize_tx(s, now, instruction) {
                assert(s.history.is_prefix_of(s2.history));
            }
        },
    }
}

/// An early abort (the balance does not cover the transaction) releases the
/// balance as a finalization does: the balance stays as it was, a vote
/// against the transaction is sent, and then the first waiting transaction
/// leaves the waiting list and is sent back to be executed.
pub proof fn lemma_early_abort_pulls_next(s: StateView, now: u64, tx: FcrossTx)
    requires
        s.pending_tx is None,
    ensures
        match spec_execute_tx(s, now, tx) {
            Outcome::Done((s2, (_, m))) => s2.pending_tx is None ==> {
                &&& s2.current_state == s.current_state
                &&& m.len() >= 1
                &&& (m[0] matches ActionView::Send(p) && p.data == (Vote {
                    tx_id: tx.tx_id,
                    chain_id: s.chain_id,
                    success: false,
                }))
                &&& s.waiting.len() > 0 ==> s2.waiting == s.waiting.subrange(1, s.waiting.len() as int)
                    && m.len() == 2 && m[1] == ActionView::<Vote, NextRequest>::Call(
                    NextRequest::ExecuteTx(s.waiting[0]),
                )
                &&& s.waiting.len() == 0 ==> s2.waiting.len() == 0 && m.len() == 1
            },
            _ => true,
        },
{
}

/// The instruction for the transaction holding the balance releases it: the
/// balance becomes the one the transaction left when it commits and stays
/// when it aborts, and the first waiting transaction leaves the waiting list
/// and is sent back to be executed.
pub proof fn lemma_finalization_pulls_next(s: StateView, now: u64, instr: Instruction)
    requires
        s.pending_tx matches Some((p, _)) && p.tx_id == instr.tx_id,
    ensures
        match spec_finalize_tx(s, now, instr) {
            Outcome::Done((s2, (_, m))) => {
                &&& s2.pending_tx is None
                &&& s2.current_state == if instr.commitment {
                    (s.pending_tx->0).1
                } else {
                    s.current_state
                }
                &&& s.waiting.len() > 0 ==> s2.waiting == s.waiting.subrange(1, s.waiting.len() as int)
                    && m == seq![ActionView::<Vote, NextRequest>::Call(NextRequest::ExecuteTx(s.waiting[0]))]
                &&& s.waiting.len() == 0 ==> s2.waiting.len() == 0 && m.len() == 0
            },
            _ => true,
        },
{
}

/// A transaction executed while no other one holds the balance holds it
/// with the balance its operation leaves: a credit always, a debit when the
/// balance covers it. A debit the balance does not cover is aborted at once
/// and holds nothing.
pub proof fn lemma_execution_holds_new_balance(s: StateView, now: u64, tx: FcrossTx)
    requires
        s.pending_tx is None,
    ensures
        match spec_execute_tx(s, now, tx) {
            Outcome::Done((s2, _)) => match tx.operation {
                Operation::CreditBalance { amount } => s2.pending_tx matches Some((t, v)) && t == tx && v
                    == s.current_state + amount,
                Operation::DebitBalance { amount } => if s.current_state >= amount {
                    s2.pending_tx matches Some((t, v)) && t == tx && v == s.current_state - amount
                } else {
                    s2.pending_tx is None
                },
            },
            _ => true,
        },
{
}

} // verus!
