//! Execution and finalization of transactions in the fc-basic contract.
use std::collections::BTreeMap;
use vstd::prelude::*;
use vstd::arithmetic::power2::pow2;
use crate::chain::{
    append_reply, copy_vec, skip_vec, text_attr, time_is_ok, time_ok, timeout_at, Action,
    ActionView, AttrView, Outcome, Packet, PacketView, Reply, StdFailure, StoredItem, with_prefix,
};
use crate::render::{bool_string, bool_text, dec_int, dec_i64, dec_nat, dec_u64};
use crate::fc_exec::contract::{apply_all, execute_app_logic, has_none, has_some, values_fit, values_fit_exec};
use crate::fc_stor::error::{ContractError, ErrorView};
use crate::fc_stor::msg::{
    ExecuteMsg, FcrossTx, InstantiateMsg, Instruction, MultifutureResp, MyTimeLogsResp, Operation, Vote,
};
use crate::fc_basic::msg::AllMfsResp;
use crate::fc_stor::state::{channel_view, copy_channel, ChannelInfo, ChannelView, TimeInfo, MAX_PENDING_LEN};
use crate::fc_stor::utils::{get_timeout, time_log_lines, time_log_texts};
use crate::fc_basic::state::{mf_map_view, ContractState, StateView};

verus! {

/// Whether a transaction succeeds in every branch, fails in every branch,
/// or does either depending on the branch.
#[derive(Clone, Copy, Debug, PartialEq, Eq)]
pub enum ExecutionStatus {
    Success,
    Failure,
    Uncertainty,
}

/// The status of a transaction whose results in the branches are `vals`.
pub open spec fn status_of(vals: Seq<Option<i64>>) -> ExecutionStatus {
    if has_some(vals) && !has_none(vals) {
        ExecutionStatus::Success
    } else if !has_some(vals) && has_none(vals) {
        ExecutionStatus::Failure
    } else {
        ExecutionStatus::Uncertainty
    }
}

/// The status lets the chain vote.
pub open spec fn certain(st: ExecutionStatus) -> bool {
    st != ExecutionStatus::Uncertainty
}

/// The branches a status is read from: all of them, or (when the inherited
/// half is trimmed) the second half.
pub open spec fn trimmed(values: Seq<Option<i64>>, trim_inherited: bool) -> Seq<Option<i64>> {
    if trim_inherited {
        values.subrange((values.len() / 2) as int, values.len() as int)
    } else {
        values
    }
}

/// The status of a transaction read off its multi-future.
pub fn check_execution_stautus(values: &Vec<Option<i64>>, trim_inherited: bool) -> (st: ExecutionStatus)
    requires
        trimmed(values@, trim_inherited).len() > 0,
    ensures
        st == status_of(trimmed(values@, trim_inherited)),
{
    let start = if trim_inherited {
        values.len() / 2
    } else {
        0
    };
    let mut some = false;
    let mut none = false;
    let mut i: usize = start;
    let ghost vals = trimmed(values@, trim_inherited);
    assert(vals =~= values@.subrange(start as int, values@.len() as int));
    while i < values.len()
        invariant
            start <= i <= values@.len(),
            vals == values@.subrange(start as int, values@.len() as int),
            some == has_some(vals.take(i - start)),
            none == has_none(vals.take(i - start)),
        decreases values@.len() - i,
    {
        proof {
            let t = vals.take(i - start);
            let t1 = vals.take(i - start + 1);
            assert(t1[t.len() as int] == values@[i as int]);
            assert forall|j: int| 0 <= j < t.len() implies t[j] == #[trigger] t1[j] by {}
            if has_some(t1) {
                let j = choose|j: int| 0 <= j < t1.len() && #[trigger] t1[j] is Some;
                if j < t.len() {
                    assert(t[j] is Some);
                }
            }
            if has_none(t1) {
                let j = choose|j: int| 0 <= j < t1.len() && #[trigger] t1[j] is None;
                if j < t.len() {
                    assert(t[j] is None);
                }
            }
            if has_some(t) {
                let j = choose|j: int| 0 <= j < t.len() && #[trigger] t[j] is Some;
                assert(t1[j] is Some);
            }
            if has_none(t) {
                let j = choose|j: int| 0 <= j < t.len() && #[trigger] t[j] is None;
                assert(t1[j] is None);
            }
        }
        match values[i] {
            Some(_) => {
                some = true;
            },
            None => {
                none = true;
            },
        }
        i = i + 1;
    }
    assert(vals.take(i - start) =~= vals);
    if some && !none {
        ExecutionStatus::Success
    } else if !some && none {
        ExecutionStatus::Failure
    } else {
        proof {
            if !some {
                assert(vals[0] is None);
            }
        }
        ExecutionStatus::Uncertainty
    }
}

/// Builds the vote packet for a transaction whose status is certain.
pub fn give_vote(tx_id: u32, chain_id: u16, status: ExecutionStatus, channel_id: String, now: u64) -> (p:
    Packet<Vote>)
    requires
        certain(status),
        time_ok(now),
    ensures
        p@ == (PacketView {
            channel_id: channel_id@,
            data: Vote { tx_id, chain_id, success: status == ExecutionStatus::Success },
            timeout: timeout_at(now) as u64,
        }),
{
    let success = match status {
        ExecutionStatus::Success => true,
        _ => false,
    };
    Packet { channel_id, data: Vote { tx_id, chain_id, success }, timeout: get_timeout(now) }
}

/// Text of a multi-future: its branches separated by commas.
pub fn format_mf(mf: &Vec<Option<i64>>) -> (s: String)
    ensures
        s@ == crate::fc_exec::contract::mf_text(mf@),
{
    crate::fc_exec::contract::format_mf(mf)
}

/// Debug text of an operation.
pub open spec fn operation_debug(op: Operation) -> Seq<char> {
    match op {
        Operation::CreditBalance { amount } => "CreditBalance { amount: "@ + dec_int(amount as int)
            + " }"@,
        Operation::DebitBalance { amount } => "DebitBalance { amount: "@ + dec_int(amount as int)
            + " }"@,
    }
}

/// Debug text of a transaction.
pub open spec fn tx_debug(tx: FcrossTx) -> Seq<char> {
    "FcrossTx { tx_id: "@ + dec_nat(tx.tx_id as nat) + ", operation: "@ + operation_debug(
        tx.operation,
    ) + " }"@
}

/// Debug text of a transaction.
pub fn tx_debug_string(tx: FcrossTx) -> (s: String)
    ensures
        s@ == tx_debug(tx),
{
    let op = match tx.operation {
        Operation::CreditBalance { amount } => String::from_str("CreditBalance { amount: ").concat(
            dec_i64(amount).as_str(),
        ).concat(" }"),
        Operation::DebitBalance { amount } => String::from_str("DebitBalance { amount: ").concat(
            dec_i64(amount).as_str(),
        ).concat(" }"),
    };
    String::from_str("FcrossTx { tx_id: ").concat(dec_u64(tx.tx_id as u64).as_str()).concat(
        ", operation: ",
    ).concat(op.as_str()).concat(" }")
}

/// Attributes and messages of part of a step.
pub type Out = (Seq<AttrView>, Seq<ActionView<Vote, FcrossTx>>);

/// The response of the contract.
pub type Response = Reply<Vote, FcrossTx>;

/// The vote for `tx_id` through `channel`, or why it cannot be sent.
pub open spec fn vote_outcome(
    chain_id: u16,
    channel: Option<ChannelView>,
    tx_id: u32,
    success: bool,
    now: u64,
) -> Outcome<ActionView<Vote, FcrossTx>, ErrorView> {
    match channel {
        None => Outcome::Failed(ErrorView::StdError(StdFailure::NotFound(StoredItem::ChannelInfo))),
        Some(c) => if time_ok(now) {
            Outcome::Done(
                ActionView::Send(
                    PacketView {
                        channel_id: c.channel_id,
                        data: Vote { tx_id, chain_id, success },
                        timeout: timeout_at(now) as u64,
                    },
                ),
            )
        } else {
            Outcome::Aborted
        },
    }
}

/// An attribute whose value is a number.
pub open spec fn num_attr(key: Seq<char>, n: nat) -> AttrView {
    (key, dec_nat(n))
}

/// A new transaction: refused when its id was seen before, queued when the
/// pending list is full, and otherwise executed on every branch of the latest
/// multi-future, which it extends.
pub open spec fn spec_execute_tx(s: StateView, now: u64, tx: FcrossTx) -> Outcome<(StateView, Out), ErrorView> {
    let id = tx.tx_id;
    if s.history.contains(id) {
        Outcome::Failed(ErrorView::ExecutionTxIdAlreadyExist { sent_id: id })
    } else if s.pending.len() >= MAX_PENDING_LEN {
        Outcome::Done(
            (
                StateView { waiting: s.waiting.push(tx), ..s },
                (
                    seq![num_attr("lenth_overflow"@, s.pending.len()), ("cached_tx"@, tx_debug(tx))],
                    seq![],
                ),
            ),
        )
    } else if s.history.len() == 0 {
        Outcome::Aborted
    } else if !s.mf_map.contains_key(s.history.last()) {
        Outcome::Failed(ErrorView::StdError(StdFailure::NotFound(StoredItem::Multifuture(s.history.last()))))
    } else {
        let old = s.mf_map[s.history.last()];
        if !values_fit(old, tx.operation) || old.len() == 0 {
            Outcome::Aborted
        } else {
            let new = apply_all(old, tx.operation);
            let st = status_of(new);
            let mf = old + new;
            let s2 = StateView {
                time_logs: s.time_logs.insert(id, TimeInfo { start_time: now, end_time: None }),
                mf_map: s.mf_map.insert(id, mf),
                mf_vote_map: s.mf_vote_map.insert(id, certain(st)),
                pending: s.pending.push(id),
                history: s.history.push(id),
                ..s
            };
            let tail = seq![
                num_attr("executed_tx"@, id as nat),
                num_attr("new_mf_"@ + dec_nat(id as nat) + "_len"@, mf.len()),
            ];
            if certain(st) {
                match vote_outcome(s.chain_id, s.my_channel, id, st == ExecutionStatus::Success, now) {
                    Outcome::Done(v) => Outcome::Done(
                        (s2, (seq![("voted"@, "true"@)] + tail, seq![v])),
                    ),
                    Outcome::Failed(e) => Outcome::Failed(e),
                    Outcome::Aborted => Outcome::Aborted,
                }
            } else {
                Outcome::Done((s2, (seq![("voted"@, "false"@)] + tail, seq![])))
            }
        }
    }
}

/// The branches of `mf` whose index has bit `pos` equal to `n`, in order.
pub open spec fn keep_bits(mf: Seq<Option<i64>>, pos: nat, n: int) -> Seq<Option<i64>>
    decreases mf.len(),
{
    if mf.len() == 0 {
        seq![]
    } else {
        let prev = keep_bits(mf.drop_last(), pos, n);
        if ((mf.len() - 1) / (pow2(pos) as int)) % 2 == n {
            prev.push(mf.last())
        } else {
            prev
        }
    }
}

/// First index from `i` on of `x` in `s`.
pub open spec fn index_of(s: Seq<u32>, x: u32, i: nat) -> Option<nat>
    decreases s.len() - i,
{
    if i >= s.len() {
        None
    } else if s[i as int] == x {
        Some(i)
    } else {
        index_of(s, x, i + 1)
    }
}

/// The multi-futures and vote flags of the contract.
pub type MapsView = (Map<u32, Seq<Option<i64>>>, Map<u32, bool>);

/// The multi-futures of the transactions `hist[j..]` once pending transaction
/// `pos` is decided with outcome `n`, with votes for those that were waiting
/// for a certain status. A failure carries the multi-futures and vote flags
/// as they stood when it came: those already updated stay updated.
pub open spec fn update_spec(
    s: StateView,
    now: u64,
    pos: nat,
    n: int,
    hist: Seq<u32>,
    j: nat,
    mfm: Map<u32, Seq<Option<i64>>>,
    vm: Map<u32, bool>,
) -> Outcome<(MapsView, Out), (MapsView, ErrorView)>
    decreases hist.len() - j,
{
    if j >= hist.len() {
        Outcome::Done(((mfm, vm), (seq![], seq![])))
    } else {
        let i = hist[j as int];
        if !mfm.contains_key(i) {
            Outcome::Failed(((mfm, vm), ErrorView::StdError(StdFailure::NotFound(StoredItem::Multifuture(i)))))
        } else {
            let old = mfm[i];
            let upd = keep_bits(old, pos, n);
            let mfm2 = mfm.insert(i, upd);
            let a0 = (
                "updated_mf_"@ + dec_nat(i as nat),
                "len_"@ + dec_nat(old.len()) + "_to_"@ + dec_nat(upd.len()),
            );
            if !vm.contains_key(i) {
                Outcome::Failed(((mfm2, vm), ErrorView::StdError(StdFailure::NotFound(StoredItem::VoteFlag(i)))))
            } else if vm[i] {
                with_prefix(seq![a0], seq![], update_spec(s, now, pos, n, hist, j + 1, mfm2, vm))
            } else if upd.len() == 0 {
                Outcome::Aborted
            } else {
                let st = status_of(trimmed(upd, true));
                if certain(st) {
                    match vote_outcome(s.chain_id, s.my_channel, i, st == ExecutionStatus::Success, now) {
                        Outcome::Done(v) => with_prefix(
                            seq![
                                a0,
                                (
                                    "newly_voted_tx_"@ + dec_nat(i as nat),
                                    if st == ExecutionStatus::Success {
                                        "success"@
                                    } else {
                                        "failure"@
                                    },
                                ),
                            ],
                            seq![v],
                            update_spec(s, now, pos, n, hist, j + 1, mfm2, vm.insert(i, true)),
                        ),
                        Outcome::Failed(e) => Outcome::Failed(((mfm2, vm), e)),
                        Outcome::Aborted => Outcome::Aborted,
                    }
                } else {
                    with_prefix(seq![a0], seq![], update_spec(s, now, pos, n, hist, j + 1, mfm2, vm))
                }
            }
        }
    }
}

/// The coordinator's instruction for a pending transaction: the multi-futures
/// of it and of every later transaction keep the branches that agree with the
/// decision, the transactions whose status becomes certain are voted for, and
/// the first waiting transaction is sent back to the contract. A failure
/// carries the state as the instruction left it up to the failure: the end
/// time of the transaction is logged before the channel is read, and the
/// multi-futures and votes are written one transaction after the other.
pub open spec fn spec_finalize_step(s: StateView, now: u64, instr: Instruction) -> Outcome<
    (StateView, Out),
    (StateView, ErrorView),
> {
    let id = instr.tx_id;
    let n: int = if instr.commitment {
        1
    } else {
        0
    };
    match index_of(s.pending, id, 0) {
        None => Outcome::Failed((s, ErrorView::FinalizationTxNotFound { sent_id: id, expected_id: s.pending })),
        Some(pos) => if !s.time_logs.contains_key(id) {
            Outcome::Failed((s, ErrorView::StdError(StdFailure::NotFound(StoredItem::TimeInfo(id)))))
        } else {
            let ended = s.time_logs.insert(
                id,
                TimeInfo { start_time: s.time_logs[id].start_time, end_time: Some(now) },
            );
            let s1 = StateView { time_logs: ended, ..s };
            if s.my_channel is None {
                Outcome::Failed((s1, ErrorView::StdError(StdFailure::NotFound(StoredItem::ChannelInfo))))
            } else {
                match index_of(s.history, id, 0) {
                    None => Outcome::Aborted,
                    Some(hpos) => match update_spec(
                        s,
                        now,
                        pos,
                        n,
                        s.history.subrange(hpos as int, s.history.len() as int),
                        0,
                        s.mf_map,
                        s.mf_vote_map,
                    ) {
                        Outcome::Done(((mfm, vm), (a, m))) => {
                            let next = if s.waiting.len() != 0 {
                                seq![ActionView::Call(s.waiting[0])]
                            } else {
                                seq![]
                            };
                            let waiting = if s.waiting.len() != 0 {
                                s.waiting.subrange(1, s.waiting.len() as int)
                            } else {
                                s.waiting
                            };
                            Outcome::Done(
                                (
                                    StateView {
                                        mf_map: mfm,
                                        mf_vote_map: vm,
                                        waiting,
                                        pending: s.pending.remove(pos as int),
                                        time_logs: ended,
                                        ..s
                                    },
                                    (
                                        a + seq![
                                            num_attr("finalized_tx"@, id as nat),
                                            ("committed"@, bool_text(instr.commitment)),
                                        ],
                                        m + next,
                                    ),
                                ),
                            )
                        },
                        Outcome::Failed(((mfm, vm), e)) => Outcome::Failed(
                            (StateView { mf_map: mfm, mf_vote_map: vm, ..s1 }, e),
                        ),
                        Outcome::Aborted => Outcome::Aborted,
                    },
                }
            }
        },
    }
}

/// The coordinator's instruction as a request to the contract: a failure
/// undoes everything the instruction wrote.
pub open spec fn spec_finalize_tx(s: StateView, now: u64, instr: Instruction) -> Outcome<
    (StateView, Out),
    ErrorView,
> {
    match spec_finalize_step(s, now, instr) {
        Outcome::Done(x) => Outcome::Done(x),
        Outcome::Failed((_, e)) => Outcome::Failed(e),
        Outcome::Aborted => Outcome::Aborted,
    }
}

/// How a step that keeps what it wrote before a failure relates to what the
/// function returned and to the state it left.
pub open spec fn partial_step_matches(
    spec: Outcome<(StateView, Out), (StateView, ErrorView)>,
    old: StateView,
    new: StateView,
    r: Outcome<Response, ContractError>,
) -> bool {
    match spec {
        Outcome::Done((s2, (a, m))) => r matches Outcome::Done(resp) && new == s2
            && resp@.attributes == a && resp@.messages == m,
        Outcome::Failed((s2, e)) => r matches Outcome::Failed(e2) && e2@ == e && new == s2,
        Outcome::Aborted => r is Aborted && new == old,
    }
}

/// How a step of the contract on `old` relates to what the function returned
/// and to the state it left.
pub open spec fn step_matches(
    spec: Outcome<(StateView, Out), ErrorView>,
    old: StateView,
    new: StateView,
    r: Outcome<Response, ContractError>,
) -> bool {
    match spec {
        Outcome::Done((s2, (a, m))) => r matches Outcome::Done(resp) && new == s2
            && resp@.attributes == a && resp@.messages == m,
        Outcome::Failed(e) => r matches Outcome::Failed(e2) && e2@ == e && new == old,
        Outcome::Aborted => r is Aborted && new == old,
    }
}

} // verus!

verus! {

/// The branches of `mf` whose index has bit `pos` equal to `n`.
pub fn keep_bits_exec(mf: &Vec<Option<i64>>, pos: usize, n: usize) -> (r: Vec<Option<i64>>)
    requires
        pos < 32,
        n <= 1,
    ensures
        r@ == keep_bits(mf@, pos as nat, n as int),
{
    let mut out: Vec<Option<i64>> = Vec::new();
    let mut j: usize = 0;
    while j < mf.len()
        invariant
            j <= mf@.len(),
            pos < 32,
            n <= 1,
            out@ == keep_bits(mf@.take(j as int), pos as nat, n as int),
        decreases mf@.len() - j,
    {
        proof {
            vstd::bits::lemma_usize_shr_is_div(j, pos);
            let x = j >> pos;
            assert(x & 1 == x % 2) by (bit_vector);
            assert(mf@.take(j as int + 1).drop_last() =~= mf@.take(j as int));
        }
        if (j >> pos) & 1 == n {
            out.push(mf[j]);
        }
        j = j + 1;
    }
    assert(mf@.take(j as int) =~= mf@);
    out
}

fn index_of_exec(s: &Vec<u32>, x: u32, i: usize) -> (r: Option<usize>)
    requires
        i <= s@.len(),
    ensures
        r is None <==> index_of(s@, x, i as nat) is None,
        r matches Some(h) ==> index_of(s@, x, i as nat) == Some(h as nat) && h < s@.len(),
    decreases s@.len() - i,
{
    if i >= s.len() {
        None
    } else if s[i] == x {
        Some(i)
    } else {
        index_of_exec(s, x, i + 1)
    }
}

proof fn lemma_mf_map_insert(m: Map<u32, Vec<Option<i64>>>, k: u32, v: Vec<Option<i64>>)
    ensures
        mf_map_view(m.insert(k, v)) == mf_map_view(m).insert(k, v@),
{
    assert(mf_map_view(m.insert(k, v)) =~= mf_map_view(m).insert(k, v@));
}

/// An attribute with a literal key and a numeric value.
fn num_attr_exec(key: &str, n: u64) -> (a: (String, String))
    ensures
        a.deep_view() == num_attr(key@, n as nat),
{
    (String::from_str(key), dec_u64(n))
}

/// The vote for `tx_id` through `channel`, or why it cannot be sent.
fn vote_action(chain_id: u16, channel: &Option<ChannelInfo>, tx_id: u32, success: bool, now: u64) -> (r:
    Outcome<Action<Vote, FcrossTx>, ContractError>)
    ensures
        match vote_outcome(chain_id, channel_view(*channel), tx_id, success, now) {
            Outcome::Done(v) => r matches Outcome::Done(a) && a.deep_view() == v,
            Outcome::Failed(e) => r matches Outcome::Failed(e2) && e2@ == e,
            Outcome::Aborted => r is Aborted,
        },
{
    match channel {
        None => Outcome::Failed(ContractError::StdError(StdFailure::NotFound(StoredItem::ChannelInfo))),
        Some(c) => {
            if !time_is_ok(now) {
                return Outcome::Aborted;
            }
            let status = if success {
                ExecutionStatus::Success
            } else {
                ExecutionStatus::Failure
            };
            Outcome::Done(Action::Send(give_vote(tx_id, chain_id, status, c.channel_id.clone(), now)))
        },
    }
}

impl ContractState {
    /// The state as plain values, with its bound.
    pub open spec fn wf(&self) -> bool {
        self@.wf()
    }

    /// Executes a new transaction (see [`spec_execute_tx`]).
    pub fn execute_tx(&mut self, now: u64, tx: FcrossTx) -> (r: Outcome<Response, ContractError>)
        requires
            old(self).wf(),
        ensures
            final(self).wf(),
            step_matches(spec_execute_tx(old(self)@, now, tx), old(self)@, final(self)@, r),
    {
        let id = tx.tx_id;
        if vec_contains(&self.history, id) {
            return Outcome::Failed(ContractError::ExecutionTxIdAlreadyExist { sent_id: id });
        }
        let pending_len = self.pending.len();
        if pending_len >= MAX_PENDING_LEN as usize {
            self.waiting.push(tx);
            let mut attrs: Vec<(String, String)> = Vec::new();
            attrs.push(num_attr_exec("lenth_overflow", pending_len as u64));
            attrs.push((String::from_str("cached_tx"), tx_debug_string(tx)));
            let resp = Response { attributes: attrs, messages: Vec::new() };
            proof {
                assert(resp@.attributes =~= seq![
                    num_attr("lenth_overflow"@, pending_len as nat),
                    ("cached_tx"@, tx_debug(tx)),
                ]);
                assert(resp@.messages =~= seq![]);
                assert(self@ =~= StateView { waiting: old(self)@.waiting.push(tx), ..old(self)@ });
            }
            return Outcome::Done(resp);
        }
        if self.history.len() == 0 {
            return Outcome::Aborted;
        }
        let last = self.history[self.history.len() - 1];
        let old_values = match self.mf_map.get(&last) {
            None => {
                return Outcome::Failed(
                    ContractError::StdError(StdFailure::NotFound(StoredItem::Multifuture(last))),
                );
            },
            Some(v) => copy_vec(v),
        };
        if !values_fit_exec(&old_values, &tx.operation) || old_values.len() == 0 {
            return Outcome::Aborted;
        }
        let new_values = execute_app_logic(&old_values, &tx.operation);
        let status = check_execution_stautus(&new_values, false);
        let certain_now = match status {
            ExecutionStatus::Uncertainty => false,
            _ => true,
        };
        let mut attrs: Vec<(String, String)> = Vec::new();
        let mut msgs: Vec<Action<Vote, FcrossTx>> = Vec::new();
        if certain_now {
            let success = match status {
                ExecutionStatus::Success => true,
                _ => false,
            };
            match vote_action(self.chain_id, &self.my_channel, id, success, now) {
                Outcome::Done(v) => {
                    let ghost vd = v.deep_view();
                    msgs.push(v);
                    attrs.push(text_attr("voted", "true"));
                    assert(msgs.deep_view() =~= seq![vd]);
                },
                Outcome::Failed(e) => {
                    return Outcome::Failed(e);
                },
                Outcome::Aborted => {
                    return Outcome::Aborted;
                },
            }
        } else {
            attrs.push(text_attr("voted", "false"));
        }
        let mut mf = old_values;
        let mut nv = new_values;
        let ghost old_v = mf@;
        let ghost new_v = nv@;
        mf.append(&mut nv);
        assert(mf@ =~= old_v + new_v);
        let mf_len = mf.len();
        proof {
            lemma_mf_map_insert(self.mf_map@, id, mf);
        }
        self.time_logs.insert(id, TimeInfo { start_time: now, end_time: None });
        self.mf_map.insert(id, mf);
        self.mf_vote_map.insert(id, certain_now);
        self.pending.push(id);
        self.history.push(id);
        let ghost a0 = attrs.deep_view();
        attrs.push(num_attr_exec("executed_tx", id as u64));
        let key = String::from_str("new_mf_").concat(dec_u64(id as u64).as_str()).concat("_len");
        attrs.push((key, dec_u64(mf_len as u64)));
        proof {
            assert(attrs.deep_view() =~= a0 + seq![
                num_attr("executed_tx"@, id as nat),
                num_attr("new_mf_"@ + dec_nat(id as nat) + "_len"@, mf_len as nat),
            ]);
            let s0 = old(self)@;
            assert(self@ =~= StateView {
                time_logs: s0.time_logs.insert(id, TimeInfo { start_time: now, end_time: None }),
                mf_map: s0.mf_map.insert(id, old_v + new_v),
                mf_vote_map: s0.mf_vote_map.insert(id, certain(status)),
                pending: s0.pending.push(id),
                history: s0.history.push(id),
                ..s0
            });
            if certain_now {
                assert(a0 =~= seq![("voted"@, "true"@)]);
            } else {
                assert(a0 =~= seq![("voted"@, "false"@)]);
                assert(msgs.deep_view() =~= seq![]);
            }
        }
        Outcome::Done(Response { attributes: attrs, messages: msgs })
    }
}

/// Whether `x` is in `v`.
pub fn vec_contains(v: &Vec<u32>, x: u32) -> (b: bool)
    ensures
        b == v@.contains(x),
{
    let mut i: usize = 0;
    while i < v.len()
        invariant
            i <= v@.len(),
            forall|j: int| 0 <= j < i ==> v@[j] != x,
        decreases v@.len() - i,
    {
        if v[i] == x {
            assert(v@[i as int] == x);
            return true;
        }
        i = i + 1;
    }
    false
}

} // verus!

verus! {

impl ContractState {
    fn update_exec(
        &self,
        now: u64,
        pos: usize,
        n: usize,
        hist: &Vec<u32>,
        j: usize,
        mfm: BTreeMap<u32, Vec<Option<i64>>>,
        vm: BTreeMap<u32, bool>,
    ) -> (r: Outcome<
        (BTreeMap<u32, Vec<Option<i64>>>, BTreeMap<u32, bool>, Vec<(String, String)>, Vec<Action<Vote, FcrossTx>>),
        (BTreeMap<u32, Vec<Option<i64>>>, BTreeMap<u32, bool>, ContractError),
    >)
        requires
            pos < 32,
            n <= 1,
            j <= hist@.len(),
        ensures
            match update_spec(self@, now, pos as nat, n as int, hist@, j as nat, mf_map_view(mfm@), vm@) {
                Outcome::Done(((m1, v1), (a, m))) => r matches Outcome::Done((m2, v2, a2, ms2))
                    && mf_map_view(m2@) == m1 && v2@ == v1 && a2.deep_view() == a && ms2.deep_view() == m,
                Outcome::Failed(((m1, v1), e)) => r matches Outcome::Failed((m2, v2, e2))
                    && mf_map_view(m2@) == m1 && v2@ == v1 && e2@ == e,
                Outcome::Aborted => r is Aborted,
            },
        decreases hist@.len() - j,
    {
        let mut mfm = mfm;
        let mut vm = vm;
        if j >= hist.len() {
            let r = (mfm, vm, Vec::new(), Vec::new());
            assert(r.2.deep_view() =~= seq![]);
            assert(r.3.deep_view() =~= seq![]);
            return Outcome::Done(r);
        }
        let i = hist[j];
        let old = match mfm.get(&i) {
            None => {
                return Outcome::Failed(
                    (mfm, vm, ContractError::StdError(StdFailure::NotFound(StoredItem::Multifuture(i)))),
                );
            },
            Some(v) => copy_vec(v),
        };
        let upd = keep_bits_exec(&old, pos, n);
        let old_len = old.len();
        let upd_len = upd.len();
        let upd_copy = copy_vec(&upd);
        proof {
            lemma_mf_map_insert(mfm@, i, upd);
        }
        mfm.insert(i, upd);
        let key = String::from_str("updated_mf_").concat(dec_u64(i as u64).as_str());
        let value = String::from_str("len_").concat(dec_u64(old_len as u64).as_str()).concat(
            "_to_",
        ).concat(dec_u64(upd_len as u64).as_str());
        let a0 = (key, value);
        let ghost a0v = a0.deep_view();
        let voted = match vm.get(&i) {
            None => {
                return Outcome::Failed(
                    (mfm, vm, ContractError::StdError(StdFailure::NotFound(StoredItem::VoteFlag(i)))),
                );
            },
            Some(b) => *b,
        };
        if voted {
            match self.update_exec(now, pos, n, hist, j + 1, mfm, vm) {
                Outcome::Done((m2, v2, a2, ms2)) => {
                    let mut attrs: Vec<(String, String)> = Vec::new();
                    attrs.push(a0);
                    assert(attrs.deep_view() =~= seq![a0v]);
                    let mut msgs: Vec<Action<Vote, FcrossTx>> = Vec::new();
                    assert(msgs.deep_view() =~= seq![]);
                    append_reply(&mut attrs, &mut msgs, a2, ms2);
                    return Outcome::Done((m2, v2, attrs, msgs));
                },
                Outcome::Failed(e) => {
                    return Outcome::Failed(e);
                },
                Outcome::Aborted => {
                    return Outcome::Aborted;
                },
            }
        }
        if upd_len == 0 {
            return Outcome::Aborted;
        }
        let st = check_execution_stautus(&upd_copy, true);
        match st {
            ExecutionStatus::Uncertainty => {
                match self.update_exec(now, pos, n, hist, j + 1, mfm, vm) {
                    Outcome::Done((m2, v2, a2, ms2)) => {
                        let mut attrs: Vec<(String, String)> = Vec::new();
                        attrs.push(a0);
                        assert(attrs.deep_view() =~= seq![a0v]);
                        let mut msgs: Vec<Action<Vote, FcrossTx>> = Vec::new();
                        assert(msgs.deep_view() =~= seq![]);
                        append_reply(&mut attrs, &mut msgs, a2, ms2);
                        Outcome::Done((m2, v2, attrs, msgs))
                    },
                    Outcome::Failed(e) => Outcome::Failed(e),
                    Outcome::Aborted => Outcome::Aborted,
                }
            },
            _ => {
                let success = match st {
                    ExecutionStatus::Success => true,
                    _ => false,
                };
                match vote_action(self.chain_id, &self.my_channel, i, success, now) {
                    Outcome::Done(v) => {
                        vm.insert(i, true);
                        match self.update_exec(now, pos, n, hist, j + 1, mfm, vm) {
                            Outcome::Done((m2, v2, a2, ms2)) => {
                                let mut attrs: Vec<(String, String)> = Vec::new();
                                attrs.push(a0);
                                let key = String::from_str("newly_voted_tx_").concat(
                                    dec_u64(i as u64).as_str(),
                                );
                                let value = if success {
                                    String::from_str("success")
                                } else {
                                    String::from_str("failure")
                                };
                                let a1 = (key, value);
                                let ghost a1v = a1.deep_view();
                                attrs.push(a1);
                                assert(attrs.deep_view() =~= seq![a0v, a1v]);
                                let ghost vd = v.deep_view();
                                let mut msgs: Vec<Action<Vote, FcrossTx>> = Vec::new();
                                msgs.push(v);
                                assert(msgs.deep_view() =~= seq![vd]);
                                append_reply(&mut attrs, &mut msgs, a2, ms2);
                                Outcome::Done((m2, v2, attrs, msgs))
                            },
                            Outcome::Failed(e) => Outcome::Failed(e),
                            Outcome::Aborted => Outcome::Aborted,
                        }
                    },
                    Outcome::Failed(e) => Outcome::Failed((mfm, vm, e)),
                    Outcome::Aborted => Outcome::Aborted,
                }
            },
        }
    }

    /// Applies the coordinator's instruction (see [`spec_finalize_step`]);
    /// a failure keeps what was written before it.
    pub fn finalize_step(&mut self, now: u64, instr: Instruction) -> (r: Outcome<Response, ContractError>)
        requires
            old(self).wf(),
        ensures
            final(self).wf(),
            partial_step_matches(spec_finalize_step(old(self)@, now, instr), old(self)@, final(self)@, r),
    {
        let id = instr.tx_id;
        let n: usize = if instr.commitment {
            1
        } else {
            0
        };
        let pos = match index_of_exec(&self.pending, id, 0) {
            None => {
                return Outcome::Failed(
                    ContractError::FinalizationTxNotFound { sent_id: id, expected_id: copy_vec(&self.pending) },
                );
            },
            Some(p) => p,
        };
        let start_time = match self.time_logs.get(&id) {
            None => {
                return Outcome::Failed(
                    ContractError::StdError(StdFailure::NotFound(StoredItem::TimeInfo(id))),
                );
            },
            Some(t) => t.start_time,
        };
        if self.my_channel.is_none() {
            self.time_logs.insert(id, TimeInfo { start_time, end_time: Some(now) });
            return Outcome::Failed(
                ContractError::StdError(StdFailure::NotFound(StoredItem::ChannelInfo)),
            );
        }
        let hpos = match index_of_exec(&self.history, id, 0) {
            None => {
                return Outcome::Aborted;
            },
            Some(h) => h,
        };
        let hist = skip_vec(&self.history, hpos);
        let mfm = self.mf_map.clone();
        let vm = self.mf_vote_map.clone();
        assert(mf_map_view(mfm@) == self@.mf_map);
        assert(vm@ == self@.mf_vote_map);
        assert(hist@ == self@.history.subrange(hpos as int, self@.history.len() as int));
        let (mfm2, vm2, mut attrs, mut msgs) = match self.update_exec(now, pos, n, &hist, 0, mfm, vm) {
            Outcome::Done(x) => x,
            Outcome::Failed((mfm1, vm1, e)) => {
                self.mf_map = mfm1;
                self.mf_vote_map = vm1;
                self.time_logs.insert(id, TimeInfo { start_time, end_time: Some(now) });
                return Outcome::Failed(e);
            },
            Outcome::Aborted => {
                return Outcome::Aborted;
            },
        };
        let ghost m0 = msgs.deep_view();
        if self.waiting.len() != 0 {
            let next = self.waiting[0];
            msgs.push(Action::Call(next));
            assert(msgs.deep_view() =~= m0 + seq![ActionView::<Vote, FcrossTx>::Call(next)]);
            self.waiting = skip_vec(&self.waiting, 1);
        } else {
            assert(msgs.deep_view() =~= m0 + seq![]);
        }
        self.mf_map = mfm2;
        self.mf_vote_map = vm2;
        self.pending.remove(pos);
        self.time_logs.insert(id, TimeInfo { start_time, end_time: Some(now) });
        let ghost a0 = attrs.deep_view();
        attrs.push(num_attr_exec("finalized_tx", id as u64));
        attrs.push((String::from_str("committed"), bool_string(instr.commitment)));
        assert(attrs.deep_view() =~= a0 + seq![
            num_attr("finalized_tx"@, id as nat),
            ("committed"@, bool_text(instr.commitment)),
        ]);
        Outcome::Done(Response { attributes: attrs, messages: msgs })
    }

    /// Applies the coordinator's instruction as a request (see
    /// [`spec_finalize_tx`]): a failure leaves the state as it was.
    pub fn finalize_tx(&mut self, now: u64, instr: Instruction) -> (r: Outcome<Response, ContractError>)
        requires
            old(self).wf(),
        ensures
            final(self).wf(),
            step_matches(spec_finalize_tx(old(self)@, now, instr), old(self)@, final(self)@, r),
    {
        let mut work = self.copy();
        match work.finalize_step(now, instr) {
            Outcome::Done(resp) => {
                *self = work;
                Outcome::Done(resp)
            },
            Outcome::Failed(e) => Outcome::Failed(e),
            Outcome::Aborted => Outcome::Aborted,
        }
    }
}

} // verus!

verus! {

/// A list of new transactions, executed one after the other; the first
/// failure fails them all.
pub open spec fn spec_execute_txs(s: StateView, now: u64, txs: Seq<FcrossTx>, i: nat) -> Outcome<
    (StateView, Out),
    ErrorView,
>
    decreases txs.len() - i,
{
    if i >= txs.len() {
        Outcome::Done((s, (seq![], seq![])))
    } else {
        match spec_execute_tx(s, now, txs[i as int]) {
            Outcome::Done((s2, (a, m))) => with_prefix(a, m, spec_execute_txs(s2, now, txs, i + 1)),
            Outcome::Failed(e) => Outcome::Failed(e),
            Outcome::Aborted => Outcome::Aborted,
        }
    }
}

/// A request to the contract.
pub open spec fn spec_execute(s: StateView, now: u64, msg: ExecuteMsg) -> Outcome<(StateView, Out), ErrorView> {
    match msg {
        ExecuteMsg::ExecuteTxs { fcross_txs } => spec_execute_txs(s, now, fcross_txs@, 0),
        ExecuteMsg::FinalizeTx { instruction } => spec_finalize_tx(s, now, instruction),
    }
}

/// The state right after instantiation.
pub open spec fn initial_state(msg: InstantiateMsg) -> StateView {
    StateView {
        chain_id: msg.chain_id,
        mf_map: Map::empty().insert(0, seq![Some(msg.original_value)]),
        mf_vote_map: Map::empty(),
        history: seq![0],
        pending: seq![],
        waiting: seq![],
        my_channel: None,
        err_logs: "start:"@,
        time_logs: Map::empty(),
    }
}

/// The attributes of instantiation.
pub open spec fn instantiate_attrs(msg: InstantiateMsg) -> Seq<AttrView> {
    seq![
        ("method"@, "instantiate"@),
        ("initiated_chain"@, dec_nat(msg.chain_id as nat)),
        ("original_value"@, dec_int(msg.original_value as int)),
    ]
}

/// Sets up the contract: the original balance as the multi-future of the
/// placeholder transaction 0, which starts the history.
pub fn instantiate(msg: InstantiateMsg) -> (r: (ContractState, Vec<(String, String)>))
    ensures
        r.0@ == initial_state(msg),
        r.0.wf(),
        r.1.deep_view() == instantiate_attrs(msg),
{
    let mut first: Vec<Option<i64>> = Vec::new();
    first.push(Some(msg.original_value));
    let mut mf_map: BTreeMap<u32, Vec<Option<i64>>> = BTreeMap::new();
    proof {
        lemma_mf_map_insert(mf_map@, 0, first);
    }
    mf_map.insert(0, first);
    let mut history: Vec<u32> = Vec::new();
    history.push(0);
    let state = ContractState {
        chain_id: msg.chain_id,
        mf_map,
        mf_vote_map: BTreeMap::new(),
        history,
        pending: Vec::new(),
        waiting: Vec::new(),
        my_channel: None,
        err_logs: String::from_str("start:"),
        time_logs: BTreeMap::new(),
    };
    let mut attrs: Vec<(String, String)> = Vec::new();
    attrs.push(text_attr("method", "instantiate"));
    attrs.push((String::from_str("initiated_chain"), dec_u64(msg.chain_id as u64)));
    attrs.push((String::from_str("original_value"), dec_i64(msg.original_value)));
    proof {
        assert(mf_map_view(Map::<u32, Vec<Option<i64>>>::empty()) =~= Map::empty());
        assert(attrs.deep_view() =~= instantiate_attrs(msg));
        assert(state@ =~= initial_state(msg));
    }
    (state, attrs)
}

impl ContractState {
    /// A copy of the state.
    pub fn copy(&self) -> (r: Self)
        ensures
            r@ == self@,
    {
        let r = ContractState {
            chain_id: self.chain_id,
            mf_map: self.mf_map.clone(),
            mf_vote_map: self.mf_vote_map.clone(),
            history: copy_vec(&self.history),
            pending: copy_vec(&self.pending),
            waiting: copy_vec(&self.waiting),
            my_channel: copy_channel(&self.my_channel),
            err_logs: self.err_logs.clone(),
            time_logs: self.time_logs.clone(),
        };
        assert(r@ =~= self@);
        r
    }

    fn execute_txs_from(&mut self, now: u64, txs: &Vec<FcrossTx>, i: usize) -> (r: Outcome<Response, ContractError>)
        requires
            old(self).wf(),
            i <= txs@.len(),
        ensures
            final(self).wf(),
            match spec_execute_txs(old(self)@, now, txs@, i as nat) {
                Outcome::Done((s2, (a, m))) => r matches Outcome::Done(resp) && final(self)@ == s2
                    && resp@.attributes == a && resp@.messages == m,
                Outcome::Failed(e) => r matches Outcome::Failed(e2) && e2@ == e,
                Outcome::Aborted => r is Aborted,
            },
        decreases txs@.len() - i,
    {
        if i >= txs.len() {
            let resp = Response { attributes: Vec::new(), messages: Vec::new() };
            assert(resp@.attributes =~= seq![]);
            assert(resp@.messages =~= seq![]);
            return Outcome::Done(resp);
        }
        match self.execute_tx(now, txs[i]) {
            Outcome::Done(first) => {
                match self.execute_txs_from(now, txs, i + 1) {
                    Outcome::Done(rest) => {
                        let mut attrs = first.attributes;
                        let mut msgs = first.messages;
                        append_reply(&mut attrs, &mut msgs, rest.attributes, rest.messages);
                        Outcome::Done(Response { attributes: attrs, messages: msgs })
                    },
                    Outcome::Failed(e) => Outcome::Failed(e),
                    Outcome::Aborted => Outcome::Aborted,
                }
            },
            Outcome::Failed(e) => Outcome::Failed(e),
            Outcome::Aborted => Outcome::Aborted,
        }
    }

    /// Handles a request; when it fails the state is left as it was, and
    /// `Aborted` marks the requests on which the contract panics.
    pub fn execute_outcome(&mut self, now: u64, msg: &ExecuteMsg) -> (r: Outcome<Response, ContractError>)
        requires
            old(self).wf(),
        ensures
            final(self).wf(),
            step_matches(spec_execute(old(self)@, now, *msg), old(self)@, final(self)@, r),
    {
        match msg {
            ExecuteMsg::ExecuteTxs { fcross_txs } => {
                let mut work = self.copy();
                let r = work.execute_txs_from(now, fcross_txs, 0);
                match r {
                    Outcome::Done(resp) => {
                        *self = work;
                        Outcome::Done(resp)
                    },
                    Outcome::Failed(e) => Outcome::Failed(e),
                    Outcome::Aborted => Outcome::Aborted,
                }
            },
            ExecuteMsg::FinalizeTx { instruction } => self.finalize_tx(now, *instruction),
        }
    }

    /// Handles a request on which the contract does not panic.
    pub fn execute(&mut self, now: u64, msg: &ExecuteMsg) -> (r: Result<Response, ContractError>)
        requires
            old(self).wf(),
            !(spec_execute(old(self)@, now, *msg) is Aborted),
        ensures
            final(self).wf(),
            match spec_execute(old(self)@, now, *msg) {
                Outcome::Done((s2, (a, m))) => r matches Ok(resp) && final(self)@ == s2
                    && resp@.attributes == a && resp@.messages == m,
                Outcome::Failed(e) => r matches Err(e2) && e2@ == e && final(self)@ == old(self)@,
                Outcome::Aborted => false,
            },
    {
        match self.execute_outcome(now, msg) {
            Outcome::Done(resp) => Ok(resp),
            Outcome::Failed(e) => Err(e),
            Outcome::Aborted => Err(ContractError::UpperBound { max_length: MAX_PENDING_LEN }),
        }
    }

    /// Handles a request, or returns `None` (leaving the state as it was)
    /// exactly on the requests on which the contract panics.
    pub fn try_execute(&mut self, now: u64, msg: &ExecuteMsg) -> (r: Option<Result<Response, ContractError>>)
        requires
            old(self).wf(),
        ensures
            final(self).wf(),
            match spec_execute(old(self)@, now, *msg) {
                Outcome::Done((s2, (a, m))) => r matches Some(Ok(resp)) && final(self)@ == s2
                    && resp@.attributes == a && resp@.messages == m,
                Outcome::Failed(e) => r matches Some(Err(e2)) && e2@ == e && final(self)@ == old(self)@,
                Outcome::Aborted => r is None && final(self)@ == old(self)@,
            },
    {
        match self.execute_outcome(now, msg) {
            Outcome::Done(resp) => Some(Ok(resp)),
            Outcome::Failed(e) => Some(Err(e)),
            Outcome::Aborted => None,
        }
    }
}

} // verus!

verus! {

/// The first position from `i` on of a transaction in `history` without a
/// multi-future (the length of `history` when there is none).
pub open spec fn first_missing(mf_map: Map<u32, Seq<Option<i64>>>, history: Seq<u32>, i: nat) -> nat
    decreases history.len() - i,
{
    if i >= history.len() {
        i
    } else if !mf_map.contains_key(history[i as int]) {
        i
    } else {
        first_missing(mf_map, history, i + 1)
    }
}

proof fn lemma_first_missing(mf_map: Map<u32, Seq<Option<i64>>>, history: Seq<u32>, i: nat, k: nat)
    requires
        i <= k < history.len(),
        forall|j: int| i <= j < k ==> mf_map.contains_key(#[trigger] history[j]),
        !mf_map.contains_key(history[k as int]),
    ensures
        first_missing(mf_map, history, i) == k,
    decreases k - i,
{
    if i < k {
        lemma_first_missing(mf_map, history, i + 1, k);
    }
}

/// The multi-futures of the transactions in `history`, each with its id,
/// or the first that is missing.
pub open spec fn all_mfs_spec(mf_map: Map<u32, Seq<Option<i64>>>, history: Seq<u32>) -> Result<
    Seq<(u32, Seq<char>)>,
    StdFailure,
> {
    if exists|i: int| 0 <= i < history.len() && !mf_map.contains_key(#[trigger] history[i]) {
        Err(StdFailure::NotFound(StoredItem::Multifuture(history[first_missing(mf_map, history, 0) as int])))
    } else {
        Ok(history.map_values(|id: u32| (id, crate::fc_exec::contract::mf_text(mf_map[id]))))
    }
}

impl ContractState {
    /// The multi-future of a transaction, one text per branch.
    pub fn multifuture(&self, tx_id: u32) -> (r: Result<MultifutureResp, StdFailure>)
        ensures
            self@.mf_map.contains_key(tx_id) ==> (r matches Ok(resp) && resp.futures.deep_view()
                == self@.mf_map[tx_id].map_values(|o: Option<i64>| crate::fc_exec::contract::option_text(o))),
            !self@.mf_map.contains_key(tx_id) ==> r == Err::<MultifutureResp, StdFailure>(
                StdFailure::NotFound(StoredItem::Multifuture(tx_id)),
            ),
    {
        match self.mf_map.get(&tx_id) {
            None => Err(StdFailure::NotFound(StoredItem::Multifuture(tx_id))),
            Some(mf) => Ok(MultifutureResp { futures: crate::fc_exec::contract::future_texts(mf) }),
        }
    }

    /// The multi-future of every transaction in the history, in the order of
    /// the history.
    pub fn all_mfs(&self) -> (r: Result<AllMfsResp, StdFailure>)
        ensures
            match all_mfs_spec(self@.mf_map, self@.history) {
                Ok(m) => r matches Ok(resp) && resp.mfs.deep_view() == m,
                Err(e) => r == Err::<AllMfsResp, StdFailure>(e),
            },
    {
        let mut out: Vec<(u32, String)> = Vec::new();
        let mut i: usize = 0;
        let ghost h = self@.history;
        let ghost mm = self@.mf_map;
        while i < self.history.len()
            invariant
                i <= h.len(),
                h == self@.history,
                mm == self@.mf_map,
                forall|j: int| 0 <= j < i ==> mm.contains_key(#[trigger] h[j]),
                out.deep_view() =~= h.take(i as int).map_values(
                    |id: u32| (id, crate::fc_exec::contract::mf_text(mm[id])),
                ),
            decreases h.len() - i,
        {
            let id = self.history[i];
            let text = match self.mf_map.get(&id) {
                None => {
                    assert(!mm.contains_key(h[i as int]));
                    proof {
                        lemma_first_missing(mm, h, 0, i as nat);
                    }
                    return Err(StdFailure::NotFound(StoredItem::Multifuture(id)));
                },
                Some(mf) => format_mf(mf),
            };
            let ghost before = out.deep_view();
            out.push((id, text));
            proof {
                assert(out.deep_view() =~= before.push((id, text@)));
                assert(h.take(i + 1).map_values(|id: u32| (id, crate::fc_exec::contract::mf_text(mm[id])))
                    =~= h.take(i as int).map_values(
                    |id: u32| (id, crate::fc_exec::contract::mf_text(mm[id])),
                ).push((id, crate::fc_exec::contract::mf_text(mm[id]))));
            }
            i = i + 1;
        }
        assert(h.take(h.len() as int) =~= h);
        Ok(AllMfsResp { mfs: out })
    }

    /// The time log, one line per transaction in ascending order of transaction.
    pub fn my_time_logs(&self) -> (r: MyTimeLogsResp)
        ensures
            r.logs.deep_view() == time_log_texts(self@.time_logs),
    {
        MyTimeLogsResp { logs: time_log_lines(&self.time_logs) }
    }
}

} // verus!
