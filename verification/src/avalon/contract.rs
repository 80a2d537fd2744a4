//! Batched execution and the two voting rounds of the avalon contract.
use std::collections::BTreeMap;
use vstd::prelude::*;
use crate::fc_stor::utils::{time_log_lines, time_log_texts};
use crate::chain::{
    append_reply, copy_vec, skip_vec, text_attr, time_is_ok, time_ok, timeout_at, Action,
    ActionView, AttrView, Outcome, Packet, PacketView, Reply, StdFailure, StoredItem, with_prefix,
};
use crate::render::{bool_string, bool_text, dec_int, dec_i64, dec_nat, dec_u64, join, join_strings};
use crate::fc_stor::state::ChannelView;
use crate::fc_stor::utils::get_timeout;
use crate::avalon::error::{ContractError, ErrorView};
use crate::avalon::msg::{
    ExecuteMsg, FcrossTx, InstantiateMsg, MyTimeLogsResp, Operation, StatusInstruction, StatusVote,
    ValidityInstruction, ValidityVote, Vote, VoteView,
};
use crate::avalon::state::{
    channel_view, copy_channel, ChannelInfo, ContractState, PendingTx, StateView, TimeInfo, BATCH_NUM,
};

verus! {

/// The response of the contract: votes, and status instructions it sends to itself.
pub type Response = Reply<Vote, StatusInstruction>;

/// Attributes and messages of a step.
pub type Out = (Seq<AttrView>, Seq<ActionView<VoteView, StatusInstruction>>);

/// The balance after `op` when the previous one is `latest` (computed without
/// bounds); `None` once a debit exceeds the balance.
pub open spec fn op_value(latest: Option<i64>, op: Operation) -> Option<int> {
    match latest {
        None => None,
        Some(v) => match op {
            Operation::CreditBalance { amount } => Some(v + amount),
            Operation::DebitBalance { amount } => if v >= amount {
                Some(v - amount)
            } else {
                None
            },
        },
    }
}

/// `op` stays within `i64`.
pub open spec fn op_fits(latest: Option<i64>, op: Operation) -> bool {
    match op_value(latest, op) {
        Some(r) => i64::MIN <= r <= i64::MAX,
        None => true,
    }
}

/// The balance after `op`.
pub open spec fn op_apply(latest: Option<i64>, op: Operation) -> Option<i64> {
    match op_value(latest, op) {
        Some(r) => Some(r as i64),
        None => None,
    }
}

/// The batch entries from `i` on, each transaction executed on the balance the
/// previous one left; `None` when a balance leaves `i64`.
pub open spec fn batch_pending(latest: Option<i64>, batch: Seq<FcrossTx>, i: nat) -> Option<Seq<PendingTx>>
    decreases batch.len() - i,
{
    if i >= batch.len() {
        Some(seq![])
    } else if !op_fits(latest, batch[i as int].operation) {
        None
    } else {
        let nl = op_apply(latest, batch[i as int].operation);
        match batch_pending(nl, batch, i + 1) {
            Some(rest) => Some(seq![(batch[i as int], nl, false, false)] + rest),
            None => None,
        }
    }
}

/// The time logs with the start time of each entry from `i` on.
pub open spec fn start_times(tl: Map<u32, TimeInfo>, pend: Seq<PendingTx>, i: nat, now: u64) -> Map<u32, TimeInfo>
    decreases pend.len() - i,
{
    if i >= pend.len() {
        tl
    } else {
        start_times(
            tl.insert(pend[i as int].0.tx_id, TimeInfo { start_time: now, end_time: None }),
            pend,
            i + 1,
            now,
        )
    }
}

/// The status votes for the entries from `i` on.
pub open spec fn status_votes(
    pend: Seq<PendingTx>,
    i: nat,
    chain_id: u16,
    channel_id: Seq<char>,
    now: u64,
) -> Seq<ActionView<VoteView, StatusInstruction>>
    decreases pend.len() - i,
{
    if i >= pend.len() {
        seq![]
    } else {
        seq![
            ActionView::Send(
                PacketView {
                    channel_id,
                    data: VoteView::Status(
                        StatusVote {
                            tx_id: pend[i as int].0.tx_id,
                            chain_id,
                            status: pend[i as int].1 is Some,
                        },
                    ),
                    timeout: timeout_at(now) as u64,
                },
            ),
        ] + status_votes(pend, i + 1, chain_id, channel_id, now)
    }
}

/// The time logs with the end time of each entry from `i` on; `None` when an
/// entry has no time log.
pub open spec fn end_times(tl: Map<u32, TimeInfo>, pend: Seq<PendingTx>, i: nat, now: u64) -> Option<
    Map<u32, TimeInfo>,
>
    decreases pend.len() - i,
{
    if i >= pend.len() {
        Some(tl)
    } else {
        let id = pend[i as int].0.tx_id;
        if !tl.contains_key(id) {
            None
        } else {
            end_times(
                tl.insert(id, TimeInfo { start_time: tl[id].start_time, end_time: Some(now) }),
                pend,
                i + 1,
                now,
            )
        }
    }
}

/// The first transaction (from entry `i` on) whose time log is missing, as
/// `end_times` meets it.
pub open spec fn first_unlogged(tl: Map<u32, TimeInfo>, pend: Seq<PendingTx>, i: nat, now: u64) -> u32
    decreases pend.len() - i,
{
    if i >= pend.len() {
        0
    } else {
        let id = pend[i as int].0.tx_id;
        if !tl.contains_key(id) {
            id
        } else {
            first_unlogged(
                tl.insert(id, TimeInfo { start_time: tl[id].start_time, end_time: Some(now) }),
                pend,
                i + 1,
                now,
            )
        }
    }
}

/// The balance left by the last entry (from `i` on) that was not aborted.
pub open spec fn last_value(cur: i64, pend: Seq<PendingTx>, i: nat) -> i64
    decreases pend.len() - i,
{
    if i >= pend.len() {
        cur
    } else {
        last_value(
            match pend[i as int].1 {
                Some(v) => v,
                None => cur,
            },
            pend,
            i + 1,
        )
    }
}

/// Every entry of the batch is aborted or has both its instructions.
pub open spec fn all_settled(pend: Seq<PendingTx>) -> bool {
    forall|i: int| 0 <= i < pend.len() ==> (#[trigger] pend[i]).1 is None || (pend[i].2 && pend[i].3)
}

/// The ids of the batch entries, as text separated by dashes.
pub open spec fn ids_text(ids: Seq<u32>) -> Seq<char> {
    join(ids.map_values(|i: u32| dec_nat(i as nat)), "-"@)
}

/// The ids of the entries.
pub open spec fn pending_ids(pend: Seq<PendingTx>) -> Seq<u32> {
    pend.map_values(|p: PendingTx| p.0.tx_id)
}

/// The ids of the transactions.
pub open spec fn tx_ids(txs: Seq<FcrossTx>) -> Seq<u32> {
    txs.map_values(|t: FcrossTx| t.tx_id)
}

/// Cached status instructions for the entries (from `i` on) not aborted:
/// each leaves the cache and is sent back to the contract.
pub open spec fn prep_requests(cache: Map<u32, bool>, pend: Seq<PendingTx>, i: nat) -> (
    Map<u32, bool>,
    Seq<ActionView<VoteView, StatusInstruction>>,
)
    decreases pend.len() - i,
{
    if i >= pend.len() {
        (cache, seq![])
    } else {
        let id = pend[i as int].0.tx_id;
        if pend[i as int].1 is Some && cache.contains_key(id) {
            let (c2, r) = prep_requests(cache.remove(id), pend, i + 1);
            (c2, seq![ActionView::Call(StatusInstruction { tx_id: id, advancement: cache[id] })] + r)
        } else {
            prep_requests(cache, pend, i + 1)
        }
    }
}

/// Executes a batch: each transaction on the balance the previous one left,
/// a status vote for each, then the batch finishes at once when it can, and
/// otherwise cached status instructions are sent back to the contract.
pub open spec fn batch_spec(s: StateView, now: u64, batch: Seq<FcrossTx>) -> Outcome<(StateView, Out), ErrorView>
    decreases s.waiting.len(), 1nat,
{
    match batch_pending(Some(s.current_state), batch, 0) {
        None => Outcome::Aborted,
        Some(pend) => match s.my_channel {
            None => Outcome::Failed(ErrorView::StdError(StdFailure::NotFound(StoredItem::ChannelInfo))),
            Some(c) => if pend.len() > 0 && !time_ok(now) {
                Outcome::Aborted
            } else {
                let votes = status_votes(pend, 0, s.chain_id, c.channel_id, now);
                let s1 = StateView {
                    time_logs: start_times(s.time_logs, pend, 0, now),
                    pending: pend,
                    ..s
                };
                match finish_spec(s1, now) {
                    Outcome::Done(Some((s2, (a, m)))) => Outcome::Done((s2, (a, votes + m))),
                    Outcome::Done(None) => {
                        let (cache2, preps) = prep_requests(s1.cached_status_instructions, pend, 0);
                        Outcome::Done(
                            (
                                StateView { cached_status_instructions: cache2, ..s1 },
                                (seq![("executed_batch"@, ids_text(tx_ids(batch)))], votes + preps),
                            ),
                        )
                    },
                    Outcome::Failed(e) => Outcome::Failed(e),
                    Outcome::Aborted => Outcome::Aborted,
                }
            },
        },
    }
}

/// Finishes the batch when every entry is aborted or has both instructions:
/// the entries go to the history, the balance becomes the last one left, and
/// the next full batch of waiting transactions is executed. `None` when the
/// batch cannot finish yet.
pub open spec fn finish_spec(s: StateView, now: u64) -> Outcome<Option<(StateView, Out)>, ErrorView>
    decreases s.waiting.len(), 0nat,
{
    let p = s.pending;
    if !all_settled(p) {
        Outcome::Done(None)
    } else {
        let a0 = seq![("finished_batch"@, "true"@), ("batch_info"@, ids_text(pending_ids(p)))];
        match end_times(s.time_logs, p, 0, now) {
            None => Outcome::Failed(
                ErrorView::StdError(StdFailure::NotFound(StoredItem::TimeInfo(first_unlogged(s.time_logs, p, 0, now)))),
            ),
            Some(tl) => {
                let s1 = StateView {
                    history: s.history + p.map_values(|x: PendingTx| (x.0.tx_id, x.1 is Some)),
                    pending: seq![],
                    current_state: last_value(s.current_state, p, 0),
                    time_logs: tl,
                    ..s
                };
                if s1.waiting.len() >= BATCH_NUM {
                    let s2 = StateView {
                        waiting: s1.waiting.subrange(BATCH_NUM as int, s1.waiting.len() as int),
                        ..s1
                    };
                    match batch_spec(s2, now, s1.waiting.take(BATCH_NUM as int)) {
                        Outcome::Done((s3, (a, m))) => Outcome::Done(Some((s3, (a0 + a, m)))),
                        Outcome::Failed(e) => Outcome::Failed(e),
                        Outcome::Aborted => Outcome::Aborted,
                    }
                } else {
                    Outcome::Done(Some((s1, (a0, seq![]))))
                }
            },
        }
    }
}

/// Whether transaction `id` is in the history.
pub open spec fn history_has(h: Seq<(u32, bool)>, id: u32) -> bool {
    exists|i: int| 0 <= i < h.len() && (#[trigger] h[i]).0 == id
}

/// First index from `i` on of the batch entry for `id`.
pub open spec fn first_pending(p: Seq<PendingTx>, id: u32, i: nat) -> Option<nat>
    decreases p.len() - i,
{
    if i >= p.len() {
        None
    } else if p[i as int].0.tx_id == id {
        Some(i)
    } else {
        first_pending(p, id, i + 1)
    }
}

/// An attribute whose value is a number.
pub open spec fn num_attr(key: Seq<char>, n: nat) -> AttrView {
    (key, dec_nat(n))
}

/// A new transaction joins the waiting list; once a full batch waits and no
/// batch is being voted on, it is executed.
pub open spec fn spec_add_tx(s: StateView, now: u64, tx: FcrossTx) -> Outcome<(StateView, Out), ErrorView> {
    let w = s.waiting.push(tx);
    let a0 = seq![num_attr("added_tx"@, tx.tx_id as nat)];
    if w.len() < BATCH_NUM {
        Outcome::Done((StateView { waiting: w, ..s }, (a0, seq![])))
    } else if s.pending.len() == 0 {
        with_prefix(
            a0,
            seq![],
            batch_spec(
                StateView { waiting: w.subrange(BATCH_NUM as int, w.len() as int), ..s },
                now,
                w.take(BATCH_NUM as int),
            ),
        )
    } else if s.pending.len() == BATCH_NUM {
        Outcome::Done((StateView { waiting: w, ..s }, (a0, seq![])))
    } else {
        Outcome::Failed(ErrorView::UnexpectedPendingTxsNumber(s.pending.len() as usize))
    }
}

/// After an instruction changed the batch: finish it when it can.
pub open spec fn after_instruction(
    s1: StateView,
    now: u64,
    a: Seq<AttrView>,
    m: Seq<ActionView<VoteView, StatusInstruction>>,
) -> Outcome<(StateView, Out), ErrorView> {
    match finish_spec(s1, now) {
        Outcome::Done(Some((s2, (a2, m2)))) => Outcome::Done((s2, (a + a2, m + m2))),
        Outcome::Done(None) => Outcome::Done((s1, (a, m))),
        Outcome::Failed(e) => Outcome::Failed(e),
        Outcome::Aborted => Outcome::Aborted,
    }
}

/// The entries with the new balance cleared from `p` on (up to a full batch).
pub open spec fn abort_from(pend: Seq<PendingTx>, p: nat) -> Seq<PendingTx> {
    Seq::new(
        pend.len(),
        |i: int|
            if p <= i < BATCH_NUM {
                (pend[i].0, None::<i64>, pend[i].2, pend[i].3)
            } else {
                pend[i]
            },
    )
}

/// A status instruction: cached when its transaction has not been executed,
/// ignored when it was early aborted; otherwise the transaction is prepared —
/// a negative instruction aborts it and every later entry of the batch, a
/// positive one sends the validity vote naming the earlier entries.
pub open spec fn spec_prepare_tx(s: StateView, now: u64, instr: StatusInstruction) -> Outcome<
    (StateView, Out),
    ErrorView,
> {
    let id = instr.tx_id;
    let adv = instr.advancement;
    match first_pending(s.pending, id, 0) {
        None => if history_has(s.history, id) {
            Outcome::Done((s, (seq![num_attr("already_early_aborted"@, id as nat)], seq![])))
        } else {
            Outcome::Done(
                (
                    StateView {
                        cached_status_instructions: s.cached_status_instructions.insert(id, adv),
                        ..s
                    },
                    (seq![("cached_r1_instruction"@, dec_nat(id as nat) + "-"@ + bool_text(adv))], seq![]),
                ),
            )
        },
        Some(p) => if s.pending[p as int].2 {
            Outcome::Failed(ErrorView::TxAlreadyPrepared(id))
        } else {
            let e = s.pending[p as int];
            let pend1 = s.pending.update(p as int, (e.0, e.1, true, e.3));
            if !adv {
                if s.pending.len() < BATCH_NUM {
                    Outcome::Aborted
                } else {
                    after_instruction(StateView { pending: abort_from(pend1, p), ..s }, now, seq![], seq![])
                }
            } else {
                match s.my_channel {
                    None => Outcome::Failed(
                        ErrorView::StdError(StdFailure::NotFound(StoredItem::ChannelInfo)),
                    ),
                    Some(c) => if !time_ok(now) {
                        Outcome::Aborted
                    } else {
                        let vote = ActionView::Send(
                            PacketView {
                                channel_id: c.channel_id,
                                data: VoteView::Validity {
                                    tx_id: id,
                                    chain_id: s.chain_id,
                                    dependencies: pending_ids(pend1.take(p as int)),
                                },
                                timeout: timeout_at(now) as u64,
                            },
                        );
                        after_instruction(StateView { pending: pend1, ..s }, now, seq![], seq![vote])
                    },
                }
            }
        },
    }
}

/// A validity instruction: ignored when its transaction is already finished,
/// refused for a transaction never executed, prepared instructions only, and
/// once; a negative one aborts the transaction.
pub open spec fn spec_finalize_tx(s: StateView, now: u64, instr: ValidityInstruction) -> Outcome<
    (StateView, Out),
    ErrorView,
> {
    let id = instr.tx_id;
    match first_pending(s.pending, id, 0) {
        None => if history_has(s.history, id) {
            Outcome::Done((s, (seq![num_attr("already_aborted"@, id as nat)], seq![])))
        } else {
            Outcome::Failed(
                ErrorView::UnexpectedValidityInstruction {
                    received_tx_id: id,
                    received_commitment: instr.commitment,
                    expected_tx_ids: pending_ids(s.pending),
                },
            )
        },
        Some(p) => {
            let e = s.pending[p as int];
            if !e.2 {
                Outcome::Failed(ErrorView::TxUnprepared(id))
            } else if e.3 {
                Outcome::Failed(ErrorView::TxAlreadyFinalized(id))
            } else {
                let nv = if instr.commitment {
                    e.1
                } else {
                    None
                };
                after_instruction(
                    StateView { pending: s.pending.update(p as int, (e.0, nv, e.2, true)), ..s },
                    now,
                    seq![],
                    seq![],
                )
            }
        },
    }
}

/// How a step of the contract on `old` relates to what the function returned
/// and to the state it left.
pub open spec fn step_matches(
    spec: Outcome<(StateView, Out), ErrorView>,
    old: StateView,
    new: StateView,
    r: Outcome<Response, ContractError>,
) -> bool {
    match spec {
        Outcome::Done((s2, (a, m))) => r matches Outcome::Done(resp) && new == s2
            && resp@.attributes == a && resp@.messages == m,
        Outcome::Failed(e) => r matches Outcome::Failed(e2) && e2@ == e && new == old,
        Outcome::Aborted => r is Aborted && new == old,
    }
}

} // verus!

verus! {

/// The balance after `op`, when it stays within `i64`.
fn op_apply_exec(latest: Option<i64>, operation: Operation) -> (r: Option<Option<i64>>)
    ensures
        match r {
            Some(v) => op_fits(latest, operation) && v == op_apply(latest, operation),
            None => !op_fits(latest, operation),
        },
{
    match latest {
        None => Some(None),
        Some(v) => match operation {
            Operation::CreditBalance { amount } => {
                let w: i128 = v as i128 + amount as i128;
                if w < i64::MIN as i128 || w > i64::MAX as i128 {
                    None
                } else {
                    Some(Some(w as i64))
                }
            },
            Operation::DebitBalance { amount } => {
                if v >= amount {
                    let w: i128 = v as i128 - amount as i128;
                    if w < i64::MIN as i128 || w > i64::MAX as i128 {
                        None
                    } else {
                        Some(Some(w as i64))
                    }
                } else {
                    Some(None)
                }
            },
        },
    }
}

fn batch_pending_exec(latest: Option<i64>, batch: &Vec<FcrossTx>, i: usize) -> (r: Option<Vec<PendingTx>>)
    requires
        i <= batch@.len(),
    ensures
        match batch_pending(latest, batch@, i as nat) {
            Some(p) => r matches Some(v) && v@ == p,
            None => r is None,
        },
    decreases batch@.len() - i,
{
    if i >= batch.len() {
        let v: Vec<PendingTx> = Vec::new();
        assert(v@ =~= seq![]);
        return Some(v);
    }
    let tx = batch[i];
    match op_apply_exec(latest, tx.operation) {
        None => None,
        Some(nl) => match batch_pending_exec(nl, batch, i + 1) {
            Some(rest) => {
                let mut rest = rest;
                let ghost r0 = rest@;
                rest.insert(0, (tx, nl, false, false));
                assert(rest@ =~= seq![(tx, nl, false, false)] + r0);
                Some(rest)
            },
            None => None,
        },
    }
}

fn start_times_exec(tl: &mut BTreeMap<u32, TimeInfo>, pend: &Vec<PendingTx>, i: usize, now: u64)
    requires
        i <= pend@.len(),
    ensures
        final(tl)@ == start_times(old(tl)@, pend@, i as nat, now),
    decreases pend@.len() - i,
{
    if i >= pend.len() {
        return;
    }
    tl.insert(pend[i].0.tx_id, TimeInfo { start_time: now, end_time: None });
    start_times_exec(tl, pend, i + 1, now);
}

/// The status-round vote of this chain on a transaction.
pub fn give_status_vote(tx_id: u32, chain_id: u16, status: bool, channel_id: String, now: u64) -> (p: Packet<Vote>)
    requires
        time_ok(now),
    ensures
        p.deep_view() == (PacketView {
            channel_id: channel_id@,
            data: VoteView::Status(StatusVote { tx_id, chain_id, status }),
            timeout: timeout_at(now) as u64,
        }),
{
    Packet { channel_id, data: Vote::Status(StatusVote { tx_id, chain_id, status }), timeout: get_timeout(now) }
}

/// The validity-round vote of this chain on a transaction, naming the
/// transactions it depends on.
pub fn give_validity_vote(tx_id: u32, chain_id: u16, dependencies: Vec<u32>, channel_id: String, now: u64) -> (p:
    Packet<Vote>)
    requires
        time_ok(now),
    ensures
        p.deep_view() == (PacketView {
            channel_id: channel_id@,
            data: VoteView::Validity { tx_id, chain_id, dependencies: dependencies@ },
            timeout: timeout_at(now) as u64,
        }),
{
    Packet {
        channel_id,
        data: Vote::Validity(ValidityVote { tx_id, chain_id, dependencies }),
        timeout: get_timeout(now),
    }
}

/// The status instruction cached for a transaction, taken out of the cache,
/// to be sent back to the contract.
pub fn new_preparation_request(cache: &mut BTreeMap<u32, bool>, tx_id: u32) -> (r: Option<StatusInstruction>)
    ensures
        old(cache)@.contains_key(tx_id) ==> r == Some(
            StatusInstruction { tx_id, advancement: old(cache)@[tx_id] },
        ) && final(cache)@ == old(cache)@.remove(tx_id),
        !old(cache)@.contains_key(tx_id) ==> r is None && final(cache)@ == old(cache)@,
{
    match cache.remove(&tx_id) {
        Some(advancement) => Some(StatusInstruction { tx_id, advancement }),
        None => None,
    }
}

/// The next batch, taken off the waiting list once a full batch waits.
pub fn try_pull_new_batch(waiting: &mut Vec<FcrossTx>) -> (r: Option<Vec<FcrossTx>>)
    ensures
        old(waiting)@.len() >= BATCH_NUM ==> (r matches Some(b) && b@ == old(waiting)@.take(BATCH_NUM as int)
            && final(waiting)@ == old(waiting)@.subrange(BATCH_NUM as int, old(waiting)@.len() as int)),
        old(waiting)@.len() < BATCH_NUM ==> r is None && final(waiting)@ == old(waiting)@,
{
    if waiting.len() < BATCH_NUM {
        return None;
    }
    let mut batch = copy_vec(waiting);
    batch.truncate(BATCH_NUM);
    assert(batch@ =~= old(waiting)@.take(BATCH_NUM as int));
    let rest = skip_vec(waiting, BATCH_NUM);
    *waiting = rest;
    Some(batch)
}

fn status_votes_exec(pend: &Vec<PendingTx>, i: usize, chain_id: u16, channel_id: &String, now: u64) -> (r: Vec<
    Action<Vote, StatusInstruction>,
>)
    requires
        i <= pend@.len(),
        time_ok(now),
    ensures
        r.deep_view() == status_votes(pend@, i as nat, chain_id, channel_id@, now),
    decreases pend@.len() - i,
{
    if i >= pend.len() {
        let v: Vec<Action<Vote, StatusInstruction>> = Vec::new();
        assert(v.deep_view() =~= seq![]);
        return v;
    }
    let e = pend[i];
    let a = Action::Send(give_status_vote(e.0.tx_id, chain_id, e.1.is_some(), channel_id.clone(), now));
    let ghost ad = a.deep_view();
    let mut rest = status_votes_exec(pend, i + 1, chain_id, channel_id, now);
    let ghost r0 = rest.deep_view();
    rest.insert(0, a);
    assert(rest.deep_view() =~= seq![ad] + r0);
    rest
}

fn end_times_exec(tl: BTreeMap<u32, TimeInfo>, pend: &Vec<PendingTx>, i: usize, now: u64) -> (r: Result<
    BTreeMap<u32, TimeInfo>,
    u32,
>)
    requires
        i <= pend@.len(),
    ensures
        match end_times(tl@, pend@, i as nat, now) {
            Some(m) => r matches Ok(t) && t@ == m,
            None => r == Err::<BTreeMap<u32, TimeInfo>, u32>(first_unlogged(tl@, pend@, i as nat, now)),
        },
    decreases pend@.len() - i,
{
    if i >= pend.len() {
        return Ok(tl);
    }
    let id = pend[i].0.tx_id;
    let mut tl = tl;
    let start_time = match tl.get(&id) {
        None => {
            return Err(id);
        },
        Some(t) => t.start_time,
    };
    tl.insert(id, TimeInfo { start_time, end_time: Some(now) });
    end_times_exec(tl, pend, i + 1, now)
}

fn last_value_exec(cur: i64, pend: &Vec<PendingTx>, i: usize) -> (r: i64)
    requires
        i <= pend@.len(),
    ensures
        r == last_value(cur, pend@, i as nat),
    decreases pend@.len() - i,
{
    if i >= pend.len() {
        return cur;
    }
    let next = match pend[i].1 {
        Some(v) => v,
        None => cur,
    };
    last_value_exec(next, pend, i + 1)
}

fn all_settled_exec(pend: &Vec<PendingTx>) -> (b: bool)
    ensures
        b == all_settled(pend@),
{
    let mut i: usize = 0;
    while i < pend.len()
        invariant
            i <= pend@.len(),
            forall|j: int| 0 <= j < i ==> (#[trigger] pend@[j]).1 is None || (pend@[j].2 && pend@[j].3),
        decreases pend@.len() - i,
    {
        let e = pend[i];
        if !(e.1.is_none() || (e.2 && e.3)) {
            return false;
        }
        i = i + 1;
    }
    true
}

/// The ids as text separated by dashes.
fn ids_string(ids: &Vec<u32>) -> (s: String)
    ensures
        s@ == ids_text(ids@),
{
    let mut parts: Vec<String> = Vec::new();
    let mut i: usize = 0;
    while i < ids.len()
        invariant
            i <= ids@.len(),
            parts.deep_view() =~= ids@.take(i as int).map_values(|k: u32| dec_nat(k as nat)),
        decreases ids@.len() - i,
    {
        let t = dec_u64(ids[i] as u64);
        let ghost old_parts = parts.deep_view();
        parts.push(t);
        proof {
            assert(parts.deep_view() =~= old_parts.push(t@));
            assert(ids@.take(i as int + 1).map_values(|k: u32| dec_nat(k as nat)) =~= ids@.take(
                i as int,
            ).map_values(|k: u32| dec_nat(k as nat)).push(dec_nat(ids@[i as int] as nat)));
        }
        i = i + 1;
    }
    assert(ids@.take(i as int) =~= ids@);
    join_strings(&parts, "-")
}

/// The ids of the first `count` entries.
fn pending_ids_exec(pend: &Vec<PendingTx>, count: usize) -> (r: Vec<u32>)
    requires
        count <= pend@.len(),
    ensures
        r@ == pending_ids(pend@.take(count as int)),
{
    let mut out: Vec<u32> = Vec::new();
    let mut i: usize = 0;
    while i < count
        invariant
            i <= count <= pend@.len(),
            out@ =~= pending_ids(pend@.take(i as int)),
        decreases count - i,
    {
        out.push(pend[i].0.tx_id);
        i = i + 1;
        assert(pend@.take(i as int).drop_last() =~= pend@.take(i as int - 1));
    }
    out
}

/// The ids of the transactions.
fn tx_ids_exec(txs: &Vec<FcrossTx>) -> (r: Vec<u32>)
    ensures
        r@ == tx_ids(txs@),
{
    let mut out: Vec<u32> = Vec::new();
    let mut i: usize = 0;
    while i < txs.len()
        invariant
            i <= txs@.len(),
            out@ =~= tx_ids(txs@.take(i as int)),
        decreases txs@.len() - i,
    {
        out.push(txs[i].tx_id);
        i = i + 1;
        assert(txs@.take(i as int).drop_last() =~= txs@.take(i as int - 1));
    }
    assert(txs@.take(i as int) =~= txs@);
    out
}

fn prep_requests_exec(cache: &mut BTreeMap<u32, bool>, pend: &Vec<PendingTx>, i: usize) -> (r: Vec<
    Action<Vote, StatusInstruction>,
>)
    requires
        i <= pend@.len(),
    ensures
        (final(cache)@, r.deep_view()) == prep_requests(old(cache)@, pend@, i as nat),
    decreases pend@.len() - i,
{
    if i >= pend.len() {
        let v: Vec<Action<Vote, StatusInstruction>> = Vec::new();
        assert(v.deep_view() =~= seq![]);
        return v;
    }
    let id = pend[i].0.tx_id;
    if pend[i].1.is_some() {
        match new_preparation_request(cache, id) {
            Some(instr) => {
                let a = Action::Call(instr);
                let ghost ad = a.deep_view();
                let mut rest = prep_requests_exec(cache, pend, i + 1);
                let ghost r0 = rest.deep_view();
                rest.insert(0, a);
                assert(rest.deep_view() =~= seq![ad] + r0);
                return rest;
            },
            None => {},
        }
    }
    prep_requests_exec(cache, pend, i + 1)
}

/// An attribute with a literal key and a numeric value.
fn num_attr_exec(key: &str, n: u64) -> (a: (String, String))
    ensures
        a.deep_view() == num_attr(key@, n as nat),
{
    (String::from_str(key), dec_u64(n))
}

/// Executes a batch (see [`batch_spec`]).
pub fn execute_batch(s: ContractState, now: u64, batch: Vec<FcrossTx>) -> (r: Outcome<
    (ContractState, Vec<(String, String)>, Vec<Action<Vote, StatusInstruction>>),
    ContractError,
>)
    ensures
        match batch_spec(s@, now, batch@) {
            Outcome::Done((s2, (a, m))) => r matches Outcome::Done((st, at, ms)) && st@ == s2
                && at.deep_view() == a && ms.deep_view() == m,
            Outcome::Failed(e) => r matches Outcome::Failed(e2) && e2@ == e,
            Outcome::Aborted => r is Aborted,
        },
    decreases s.waiting@.len(), 1nat,
{
    let mut s = s;
    let pend = match batch_pending_exec(Some(s.current_state), &batch, 0) {
        None => {
            return Outcome::Aborted;
        },
        Some(p) => p,
    };
    let votes = match &s.my_channel {
        None => {
            return Outcome::Failed(
                ContractError::StdError(StdFailure::NotFound(StoredItem::ChannelInfo)),
            );
        },
        Some(c) => {
            if pend.len() > 0 && !time_is_ok(now) {
                return Outcome::Aborted;
            }
            if pend.len() == 0 {
                let v: Vec<Action<Vote, StatusInstruction>> = Vec::new();
                assert(v.deep_view() =~= status_votes(pend@, 0, s.chain_id, c.channel_id@, now));
                v
            } else {
                status_votes_exec(&pend, 0, s.chain_id, &c.channel_id, now)
            }
        },
    };
    start_times_exec(&mut s.time_logs, &pend, 0, now);
    s.pending = copy_vec(&pend);
    let ghost s1 = s@;
    match try_finish_batch(s, now) {
        Outcome::Done((s2, Some((a, m)))) => {
            let mut msgs = votes;
            let mut attrs: Vec<(String, String)> = Vec::new();
            assert(attrs.deep_view() =~= seq![]);
            append_reply(&mut attrs, &mut msgs, a, m);
            assert(attrs.deep_view() =~= a.deep_view());
            Outcome::Done((s2, attrs, msgs))
        },
        Outcome::Done((s2, None)) => {
            let mut s2 = s2;
            let preps = prep_requests_exec(&mut s2.cached_status_instructions, &pend, 0);
            let mut msgs = votes;
            let mut attrs: Vec<(String, String)> = Vec::new();
            let ids = tx_ids_exec(&batch);
            attrs.push((String::from_str("executed_batch"), ids_string(&ids)));
            let ghost a1 = attrs.deep_view();
            append_reply(&mut attrs, &mut msgs, Vec::new(), preps);
            assert(attrs.deep_view() =~= a1);
            assert(s2@ =~= StateView {
                cached_status_instructions: prep_requests(s1.cached_status_instructions, pend@, 0).0,
                ..s1
            });
            Outcome::Done((s2, attrs, msgs))
        },
        Outcome::Failed(e) => Outcome::Failed(e),
        Outcome::Aborted => Outcome::Aborted,
    }
}

/// Finishes the batch when it can (see [`finish_spec`]); the state comes back
/// unchanged when it cannot yet.
pub fn try_finish_batch(s: ContractState, now: u64) -> (r: Outcome<
    (ContractState, Option<(Vec<(String, String)>, Vec<Action<Vote, StatusInstruction>>)>),
    ContractError,
>)
    ensures
        match finish_spec(s@, now) {
            Outcome::Done(Some((s2, (a, m)))) => r matches Outcome::Done((st, Some((at, ms))))
                && st@ == s2 && at.deep_view() == a && ms.deep_view() == m,
            Outcome::Done(None) => r matches Outcome::Done((st, None)) && st@ == s@,
            Outcome::Failed(e) => r matches Outcome::Failed(e2) && e2@ == e,
            Outcome::Aborted => r is Aborted,
        },
    decreases s.waiting@.len(), 0nat,
{
    let mut s = s;
    if !all_settled_exec(&s.pending) {
        return Outcome::Done((s, None));
    }
    let ghost s0 = s@;
    let mut attrs: Vec<(String, String)> = Vec::new();
    attrs.push(text_attr("finished_batch", "true"));
    let ids = pending_ids_exec(&s.pending, s.pending.len());
    assert(s.pending@.take(s.pending@.len() as int) =~= s.pending@);
    attrs.push((String::from_str("batch_info"), ids_string(&ids)));
    let ghost a0 = seq![("finished_batch"@, "true"@), ("batch_info"@, ids_text(pending_ids(s0.pending)))];
    assert(attrs.deep_view() =~= a0);
    let tl = s.time_logs.clone();
    let tl = match end_times_exec(tl, &s.pending, 0, now) {
        Err(id) => {
            return Outcome::Failed(ContractError::StdError(StdFailure::NotFound(StoredItem::TimeInfo(id))));
        },
        Ok(t) => t,
    };
    let mut hist = copy_vec(&s.history);
    let mut i: usize = 0;
    while i < s.pending.len()
        invariant
            i <= s.pending@.len(),
            s.pending@ == s0.pending,
            hist@ =~= s0.history + s0.pending.take(i as int).map_values(
                |x: PendingTx| (x.0.tx_id, x.1 is Some),
            ),
        decreases s.pending@.len() - i,
    {
        let e = s.pending[i];
        hist.push((e.0.tx_id, e.1.is_some()));
        i = i + 1;
        assert(s0.pending.take(i as int).drop_last() =~= s0.pending.take(i as int - 1));
    }
    assert(s0.pending.take(i as int) =~= s0.pending);
    s.history = hist;
    let cur = last_value_exec(s.current_state, &s.pending, 0);
    s.current_state = cur;
    s.time_logs = tl;
    s.pending = Vec::new();
    let ghost s1 = s@;
    assert(s1.history =~= s0.history + s0.pending.map_values(|x: PendingTx| (x.0.tx_id, x.1 is Some)));
    assert(s1.time_logs == end_times(s0.time_logs, s0.pending, 0, now)->0);
    assert(s1 =~= StateView {
        history: s0.history + s0.pending.map_values(|x: PendingTx| (x.0.tx_id, x.1 is Some)),
        pending: seq![],
        current_state: last_value(s0.current_state, s0.pending, 0),
        time_logs: end_times(s0.time_logs, s0.pending, 0, now)->0,
        ..s0
    });
    if let Some(batch) = try_pull_new_batch(&mut s.waiting) {
        assert(s@ =~= StateView {
            waiting: s1.waiting.subrange(BATCH_NUM as int, s1.waiting.len() as int),
            ..s1
        });
        match execute_batch(s, now, batch) {
            Outcome::Done((s3, a, m)) => {
                let mut msgs: Vec<Action<Vote, StatusInstruction>> = Vec::new();
                append_reply(&mut attrs, &mut msgs, a, m);
                assert(msgs.deep_view() =~= m.deep_view());
                Outcome::Done((s3, Some((attrs, msgs))))
            },
            Outcome::Failed(e) => Outcome::Failed(e),
            Outcome::Aborted => Outcome::Aborted,
        }
    } else {
        let msgs: Vec<Action<Vote, StatusInstruction>> = Vec::new();
        assert(msgs.deep_view() =~= seq![]);
        Outcome::Done((s, Some((attrs, msgs))))
    }
}

} // verus!

verus! {

fn first_pending_exec(p: &Vec<PendingTx>, id: u32, i: usize) -> (r: Option<usize>)
    requires
        i <= p@.len(),
    ensures
        r is None <==> first_pending(p@, id, i as nat) is None,
        r matches Some(h) ==> first_pending(p@, id, i as nat) == Some(h as nat) && h < p@.len(),
    decreases p@.len() - i,
{
    if i >= p.len() {
        None
    } else if p[i].0.tx_id == id {
        Some(i)
    } else {
        first_pending_exec(p, id, i + 1)
    }
}

fn history_has_exec(h: &Vec<(u32, bool)>, id: u32) -> (b: bool)
    ensures
        b == history_has(h@, id),
{
    let mut i: usize = 0;
    while i < h.len()
        invariant
            i <= h@.len(),
            forall|j: int| 0 <= j < i ==> (#[trigger] h@[j]).0 != id,
        decreases h@.len() - i,
    {
        if h[i].0 == id {
            assert(h@[i as int].0 == id);
            return true;
        }
        i = i + 1;
    }
    false
}

/// Executes a step's outcome, then finishes the batch when it can.
fn after_instruction_exec(
    s: ContractState,
    now: u64,
    attrs: Vec<(String, String)>,
    msgs: Vec<Action<Vote, StatusInstruction>>,
) -> (r: Outcome<(ContractState, Vec<(String, String)>, Vec<Action<Vote, StatusInstruction>>), ContractError>)
    ensures
        match after_instruction(s@, now, attrs.deep_view(), msgs.deep_view()) {
            Outcome::Done((s2, (a, m))) => r matches Outcome::Done((st, at, ms)) && st@ == s2
                && at.deep_view() == a && ms.deep_view() == m,
            Outcome::Failed(e) => r matches Outcome::Failed(e2) && e2@ == e,
            Outcome::Aborted => r is Aborted,
        },
{
    let mut attrs = attrs;
    let mut msgs = msgs;
    match try_finish_batch(s, now) {
        Outcome::Done((s2, Some((a, m)))) => {
            append_reply(&mut attrs, &mut msgs, a, m);
            Outcome::Done((s2, attrs, msgs))
        },
        Outcome::Done((s2, None)) => Outcome::Done((s2, attrs, msgs)),
        Outcome::Failed(e) => Outcome::Failed(e),
        Outcome::Aborted => Outcome::Aborted,
    }
}

/// Adds a transaction (see [`spec_add_tx`]).
pub fn add_tx(s: ContractState, now: u64, tx: FcrossTx) -> (r: Outcome<
    (ContractState, Vec<(String, String)>, Vec<Action<Vote, StatusInstruction>>),
    ContractError,
>)
    ensures
        match spec_add_tx(s@, now, tx) {
            Outcome::Done((s2, (a, m))) => r matches Outcome::Done((st, at, ms)) && st@ == s2
                && at.deep_view() == a && ms.deep_view() == m,
            Outcome::Failed(e) => r matches Outcome::Failed(e2) && e2@ == e,
            Outcome::Aborted => r is Aborted,
        },
{
    let mut s = s;
    let ghost s0 = s@;
    s.waiting.push(tx);
    let mut attrs: Vec<(String, String)> = Vec::new();
    attrs.push(num_attr_exec("added_tx", tx.tx_id as u64));
    assert(attrs.deep_view() =~= seq![num_attr("added_tx"@, tx.tx_id as nat)]);
    let msgs: Vec<Action<Vote, StatusInstruction>> = Vec::new();
    assert(msgs.deep_view() =~= seq![]);
    if s.waiting.len() < BATCH_NUM {
        return Outcome::Done((s, attrs, msgs));
    }
    let pl = s.pending.len();
    if pl == 0 {
        let mut batch = copy_vec(&s.waiting);
        batch.truncate(BATCH_NUM);
        assert(batch@ =~= s0.waiting.push(tx).take(BATCH_NUM as int));
        s.waiting = skip_vec(&s.waiting, BATCH_NUM);
        match execute_batch(s, now, batch) {
            Outcome::Done((s2, a, m)) => {
                let mut msgs = msgs;
                append_reply(&mut attrs, &mut msgs, a, m);
                assert(msgs.deep_view() =~= m.deep_view());
                Outcome::Done((s2, attrs, msgs))
            },
            Outcome::Failed(e) => Outcome::Failed(e),
            Outcome::Aborted => Outcome::Aborted,
        }
    } else if pl == BATCH_NUM {
        Outcome::Done((s, attrs, msgs))
    } else {
        Outcome::Failed(ContractError::UnexpectedPendingTxsNumber(pl))
    }
}

/// Applies a status instruction (see [`spec_prepare_tx`]).
pub fn prepare_tx(s: ContractState, now: u64, instr: StatusInstruction) -> (r: Outcome<
    (ContractState, Vec<(String, String)>, Vec<Action<Vote, StatusInstruction>>),
    ContractError,
>)
    ensures
        match spec_prepare_tx(s@, now, instr) {
            Outcome::Done((s2, (a, m))) => r matches Outcome::Done((st, at, ms)) && st@ == s2
                && at.deep_view() == a && ms.deep_view() == m,
            Outcome::Failed(e) => r matches Outcome::Failed(e2) && e2@ == e,
            Outcome::Aborted => r is Aborted,
        },
{
    let mut s = s;
    let ghost s0 = s@;
    let id = instr.tx_id;
    let adv = instr.advancement;
    let mut attrs: Vec<(String, String)> = Vec::new();
    let mut msgs: Vec<Action<Vote, StatusInstruction>> = Vec::new();
    let p = match first_pending_exec(&s.pending, id, 0) {
        None => {
            if history_has_exec(&s.history, id) {
                attrs.push(num_attr_exec("already_early_aborted", id as u64));
                assert(attrs.deep_view() =~= seq![num_attr("already_early_aborted"@, id as nat)]);
            } else {
                s.cached_status_instructions.insert(id, adv);
                let value = dec_u64(id as u64).concat("-").concat(bool_string(adv).as_str());
                attrs.push((String::from_str("cached_r1_instruction"), value));
                assert(attrs.deep_view() =~= seq![
                    ("cached_r1_instruction"@, dec_nat(id as nat) + "-"@ + bool_text(adv)),
                ]);
            }
            assert(msgs.deep_view() =~= seq![]);
            return Outcome::Done((s, attrs, msgs));
        },
        Some(p) => p,
    };
    if s.pending[p].2 {
        return Outcome::Failed(ContractError::TxAlreadyPrepared(id));
    }
    let e = s.pending[p];
    s.pending.set(p, (e.0, e.1, true, e.3));
    let ghost pend1 = s.pending@;
    assert(attrs.deep_view() =~= seq![]);
    assert(msgs.deep_view() =~= seq![]);
    if !adv {
        if s.pending.len() < BATCH_NUM {
            return Outcome::Aborted;
        }
        let mut pend = copy_vec(&s.pending);
        let mut j: usize = p;
        while j < BATCH_NUM
            invariant
                p <= j,
                j <= BATCH_NUM || j == p,
                BATCH_NUM <= pend1.len(),
                pend@ =~= Seq::new(
                    pend1.len(),
                    |i: int|
                        if p <= i < j {
                            (pend1[i].0, None::<i64>, pend1[i].2, pend1[i].3)
                        } else {
                            pend1[i]
                        },
                ),
            decreases BATCH_NUM - j,
        {
            let x = pend[j];
            pend.set(j, (x.0, None, x.2, x.3));
            j = j + 1;
        }
        assert(pend@ =~= abort_from(pend1, p as nat));
        s.pending = pend;
        assert(s@ =~= StateView { pending: abort_from(pend1, p as nat), ..s0 });
        return after_instruction_exec(s, now, attrs, msgs);
    }
    let vote = match &s.my_channel {
        None => {
            return Outcome::Failed(
                ContractError::StdError(StdFailure::NotFound(StoredItem::ChannelInfo)),
            );
        },
        Some(c) => {
            if !time_is_ok(now) {
                return Outcome::Aborted;
            }
            let deps = pending_ids_exec(&s.pending, p);
            Action::Send(give_validity_vote(id, s.chain_id, deps, c.channel_id.clone(), now))
        },
    };
    let ghost vd = vote.deep_view();
    msgs.push(vote);
    assert(msgs.deep_view() =~= seq![vd]);
    assert(s@ =~= StateView { pending: pend1, ..s0 });
    after_instruction_exec(s, now, attrs, msgs)
}

/// Applies a validity instruction (see [`spec_finalize_tx`]).
pub fn finalize_tx(s: ContractState, now: u64, instr: ValidityInstruction) -> (r: Outcome<
    (ContractState, Vec<(String, String)>, Vec<Action<Vote, StatusInstruction>>),
    ContractError,
>)
    ensures
        match spec_finalize_tx(s@, now, instr) {
            Outcome::Done((s2, (a, m))) => r matches Outcome::Done((st, at, ms)) && st@ == s2
                && at.deep_view() == a && ms.deep_view() == m,
            Outcome::Failed(e) => r matches Outcome::Failed(e2) && e2@ == e,
            Outcome::Aborted => r is Aborted,
        },
{
    let mut s = s;
    let ghost s0 = s@;
    let id = instr.tx_id;
    let mut attrs: Vec<(String, String)> = Vec::new();
    let msgs: Vec<Action<Vote, StatusInstruction>> = Vec::new();
    assert(msgs.deep_view() =~= seq![]);
    let p = match first_pending_exec(&s.pending, id, 0) {
        None => {
            if history_has_exec(&s.history, id) {
                attrs.push(num_attr_exec("already_aborted", id as u64));
                assert(attrs.deep_view() =~= seq![num_attr("already_aborted"@, id as nat)]);
                return Outcome::Done((s, attrs, msgs));
            }
            let expected = pending_ids_exec(&s.pending, s.pending.len());
            assert(s0.pending.take(s0.pending.len() as int) =~= s0.pending);
            return Outcome::Failed(
                ContractError::UnexpectedValidityInstruction {
                    received_tx_id: id,
                    received_commitment: instr.commitment,
                    expected_tx_ids: expected,
                },
            );
        },
        Some(p) => p,
    };
    let e = s.pending[p];
    if !e.2 {
        return Outcome::Failed(ContractError::TxUnprepared(id));
    }
    if e.3 {
        return Outcome::Failed(ContractError::TxAlreadyFinalized(id));
    }
    let nv = if instr.commitment {
        e.1
    } else {
        None
    };
    s.pending.set(p, (e.0, nv, e.2, true));
    assert(attrs.deep_view() =~= seq![]);
    after_instruction_exec(s, now, attrs, msgs)
}

} // verus!

verus! {

/// A list of new transactions, added one after the other; the first failure
/// fails them all.
pub open spec fn spec_add_txs(s: StateView, now: u64, txs: Seq<FcrossTx>, i: nat) -> Outcome<
    (StateView, Out),
    ErrorView,
>
    decreases txs.len() - i,
{
    if i >= txs.len() {
        Outcome::Done((s, (seq![], seq![])))
    } else {
        match spec_add_tx(s, now, txs[i as int]) {
            Outcome::Done((s2, (a, m))) => with_prefix(a, m, spec_add_txs(s2, now, txs, i + 1)),
            Outcome::Failed(e) => Outcome::Failed(e),
            Outcome::Aborted => Outcome::Aborted,
        }
    }
}

/// A request to the contract.
pub open spec fn spec_execute(s: StateView, now: u64, msg: ExecuteMsg) -> Outcome<(StateView, Out), ErrorView> {
    match msg {
        ExecuteMsg::ExecuteTxs { fcross_txs } => spec_add_txs(s, now, fcross_txs@, 0),
        ExecuteMsg::PrepareTx { instruction } => spec_prepare_tx(s, now, instruction),
        ExecuteMsg::FinalizeTx { instruction } => spec_finalize_tx(s, now, instruction),
    }
}

/// The state right after instantiation.
pub open spec fn initial_state(msg: InstantiateMsg) -> StateView {
    StateView {
        chain_id: msg.chain_id,
        current_state: msg.original_value,
        history: seq![],
        pending: seq![],
        waiting: seq![],
        cached_status_instructions: Map::empty(),
        my_channel: None,
        err_logs: "start:"@,
        time_logs: Map::empty(),
    }
}

/// The attributes of instantiation.
pub open spec fn instantiate_attrs(msg: InstantiateMsg) -> Seq<AttrView> {
    seq![
        ("method"@, "instantiate"@),
        ("initiated_chain"@, dec_nat(msg.chain_id as nat)),
        ("original_value"@, dec_int(msg.original_value as int)),
    ]
}

/// Sets up the contract with the original balance and empty lists.
pub fn instantiate(msg: InstantiateMsg) -> (r: (ContractState, Vec<(String, String)>))
    ensures
        r.0@ == initial_state(msg),
        r.0@.wf(),
        r.1.deep_view() == instantiate_attrs(msg),
{
    let state = ContractState {
        chain_id: msg.chain_id,
        current_state: msg.original_value,
        history: Vec::new(),
        pending: Vec::new(),
        waiting: Vec::new(),
        cached_status_instructions: BTreeMap::new(),
        my_channel: None,
        err_logs: String::from_str("start:"),
        time_logs: BTreeMap::new(),
    };
    let mut attrs: Vec<(String, String)> = Vec::new();
    attrs.push(text_attr("method", "instantiate"));
    attrs.push((String::from_str("initiated_chain"), dec_u64(msg.chain_id as u64)));
    attrs.push((String::from_str("original_value"), dec_i64(msg.original_value)));
    proof {
        assert(attrs.deep_view() =~= instantiate_attrs(msg));
        assert(state@ =~= initial_state(msg));
    }
    (state, attrs)
}

fn add_txs_from(s: ContractState, now: u64, txs: &Vec<FcrossTx>, i: usize) -> (r: Outcome<
    (ContractState, Vec<(String, String)>, Vec<Action<Vote, StatusInstruction>>),
    ContractError,
>)
    requires
        i <= txs@.len(),
    ensures
        match spec_add_txs(s@, now, txs@, i as nat) {
            Outcome::Done((s2, (a, m))) => r matches Outcome::Done((st, at, ms)) && st@ == s2
                && at.deep_view() == a && ms.deep_view() == m,
            Outcome::Failed(e) => r matches Outcome::Failed(e2) && e2@ == e,
            Outcome::Aborted => r is Aborted,
        },
    decreases txs@.len() - i,
{
    if i >= txs.len() {
        let a: Vec<(String, String)> = Vec::new();
        let m: Vec<Action<Vote, StatusInstruction>> = Vec::new();
        assert(a.deep_view() =~= seq![]);
        assert(m.deep_view() =~= seq![]);
        return Outcome::Done((s, a, m));
    }
    match add_tx(s, now, txs[i]) {
        Outcome::Done((s2, a, m)) => match add_txs_from(s2, now, txs, i + 1) {
            Outcome::Done((s3, a2, m2)) => {
                let mut a = a;
                let mut m = m;
                append_reply(&mut a, &mut m, a2, m2);
                Outcome::Done((s3, a, m))
            },
            Outcome::Failed(e) => Outcome::Failed(e),
            Outcome::Aborted => Outcome::Aborted,
        },
        Outcome::Failed(e) => Outcome::Failed(e),
        Outcome::Aborted => Outcome::Aborted,
    }
}

impl ContractState {
    /// A copy of the state.
    pub fn copy(&self) -> (r: Self)
        ensures
            r@ == self@,
    {
        let r = ContractState {
            chain_id: self.chain_id,
            current_state: self.current_state,
            history: copy_vec(&self.history),
            pending: copy_vec(&self.pending),
            waiting: copy_vec(&self.waiting),
            cached_status_instructions: self.cached_status_instructions.clone(),
            my_channel: copy_channel(&self.my_channel),
            err_logs: self.err_logs.clone(),
            time_logs: self.time_logs.clone(),
        };
        assert(r@ =~= self@);
        r
    }

    /// Handles a request; when it fails the state is left as it was, and
    /// `Aborted` marks the requests on which the contract panics.
    pub fn execute_outcome(&mut self, now: u64, msg: &ExecuteMsg) -> (r: Outcome<Response, ContractError>)
        ensures
            step_matches(spec_execute(old(self)@, now, *msg), old(self)@, final(self)@, r),
    {
        let work = self.copy();
        let r = match msg {
            ExecuteMsg::ExecuteTxs { fcross_txs } => add_txs_from(work, now, fcross_txs, 0),
            ExecuteMsg::PrepareTx { instruction } => prepare_tx(work, now, *instruction),
            ExecuteMsg::FinalizeTx { instruction } => finalize_tx(work, now, *instruction),
        };
        match r {
            Outcome::Done((st, attributes, messages)) => {
                *self = st;
                Outcome::Done(Response { attributes, messages })
            },
            Outcome::Failed(e) => Outcome::Failed(e),
            Outcome::Aborted => Outcome::Aborted,
        }
    }

    /// Handles a request on which the contract does not panic.
    pub fn execute(&mut self, now: u64, msg: &ExecuteMsg) -> (r: Result<Response, ContractError>)
        requires
            !(spec_execute(old(self)@, now, *msg) is Aborted),
        ensures
            match spec_execute(old(self)@, now, *msg) {
                Outcome::Done((s2, (a, m))) => r matches Ok(resp) && final(self)@ == s2
                    && resp@.attributes == a && resp@.messages == m,
                Outcome::Failed(e) => r matches Err(e2) && e2@ == e && final(self)@ == old(self)@,
                Outcome::Aborted => false,
            },
    {
        match self.execute_outcome(now, msg) {
            Outcome::Done(resp) => Ok(resp),
            Outcome::Failed(e) => Err(e),
            Outcome::Aborted => Err(ContractError::TxUnprepared(0)),
        }
    }

    /// Handles a request, or returns `None` (leaving the state as it was)
    /// exactly on the requests on which the contract panics.
    pub fn try_execute(&mut self, now: u64, msg: &ExecuteMsg) -> (r: Option<Result<Response, ContractError>>)
        ensures
            match spec_execute(old(self)@, now, *msg) {
                Outcome::Done((s2, (a, m))) => r matches Some(Ok(resp)) && final(self)@ == s2
                    && resp@.attributes == a && resp@.messages == m,
                Outcome::Failed(e) => r matches Some(Err(e2)) && e2@ == e && final(self)@ == old(self)@,
                Outcome::Aborted => r is None && final(self)@ == old(self)@,
            },
    {
        match self.execute_outcome(now, msg) {
            Outcome::Done(resp) => Some(Ok(resp)),
            Outcome::Failed(e) => Some(Err(e)),
            Outcome::Aborted => None,
        }
    }
}

} // verus!

verus! {

impl ContractState {
    /// The time log, one line per transaction in ascending order of transaction.
    pub fn my_time_logs(&self) -> (r: MyTimeLogsResp)
        ensures
            r.logs.deep_view() == time_log_texts(self@.time_logs),
    {
        MyTimeLogsResp { logs: time_log_lines(&self.time_logs) }
    }
}

} // verus!

verus! {

proof fn lemma_batch_pending_len(latest: Option<i64>, batch: Seq<FcrossTx>, i: nat)
    requires
        i <= batch.len(),
    ensures
        batch_pending(latest, batch, i) matches Some(p) ==> p.len() == batch.len() - i,
    decreases batch.len() - i,
{
    if i < batch.len() && op_fits(latest, batch[i as int].operation) {
        lemma_batch_pending_len(op_apply(latest, batch[i as int].operation), batch, i + 1);
    }
}

proof fn lemma_batch_keeps_wf(s: StateView, now: u64, batch: Seq<FcrossTx>)
    requires
        batch.len() == BATCH_NUM,
    ensures
        batch_spec(s, now, batch) matches Outcome::Done((s2, _)) ==> s2.wf(),
    decreases s.waiting.len(), 1nat,
{
    lemma_batch_pending_len(Some(s.current_state), batch, 0);
    if let Some(pend) = batch_pending(Some(s.current_state), batch, 0) {
        if let Some(c) = s.my_channel {
            let s1 = StateView { time_logs: start_times(s.time_logs, pend, 0, now), pending: pend, ..s };
            lemma_finish_keeps_wf(s1, now);
        }
    }
}

proof fn lemma_finish_keeps_wf(s: StateView, now: u64)
    ensures
        finish_spec(s, now) matches Outcome::Done(Some((s2, _))) ==> s2.wf(),
    decreases s.waiting.len(), 0nat,
{
    let p = s.pending;
    if all_settled(p) {
        if let Some(tl) = end_times(s.time_logs, p, 0, now) {
            let s1 = StateView {
                history: s.history + p.map_values(|x: PendingTx| (x.0.tx_id, x.1 is Some)),
                pending: seq![],
                current_state: last_value(s.current_state, p, 0),
                time_logs: tl,
                ..s
            };
            if s1.waiting.len() >= BATCH_NUM {
                let s2 = StateView { waiting: s1.waiting.subrange(BATCH_NUM as int, s1.waiting.len() as int), ..s1 };
                lemma_batch_keeps_wf(s2, now, s1.waiting.take(BATCH_NUM as int));
            }
        }
    }
}

proof fn lemma_add_txs_keep_wf(s: StateView, now: u64, txs: Seq<FcrossTx>, i: nat)
    requires
        s.wf(),
    ensures
        spec_add_txs(s, now, txs, i) matches Outcome::Done((s2, _)) ==> s2.wf(),
    decreases txs.len() - i,
{
    if i < txs.len() {
        let tx = txs[i as int];
        let w = s.waiting.push(tx);
        if w.len() >= BATCH_NUM && s.pending.len() == 0 {
            lemma_batch_keeps_wf(
                StateView { waiting: w.subrange(BATCH_NUM as int, w.len() as int), ..s },
                now,
                w.take(BATCH_NUM as int),
            );
        }
        if let Outcome::Done((s2, _)) = spec_add_tx(s, now, tx) {
            lemma_add_txs_keep_wf(s2, now, txs, i + 1);
        }
    }
}

/// Adding one transaction keeps the batch empty or full. While no full
/// batch waits, the transaction only joins the waiting list. Once one waits,
/// a half-full batch in progress makes the request fail with
/// `UnexpectedPendingTxsNumber`.
pub proof fn lemma_add_tx_keeps_batch_whole(s: StateView, now: u64, tx: FcrossTx)
    ensures
        s.wf() ==> (spec_add_tx(s, now, tx) matches Outcome::Done((s2, _)) ==> s2.wf()),
        !s.wf() && s.waiting.len() + 1 >= BATCH_NUM ==> spec_add_tx(s, now, tx) == Outcome::<
            (StateView, Out),
            ErrorView,
        >::Failed(ErrorView::UnexpectedPendingTxsNumber(s.pending.len() as usize)),
        s.waiting.len() + 1 < BATCH_NUM ==> (spec_add_tx(s, now, tx) matches Outcome::Done((s2, _))
            && s2.waiting == s.waiting.push(tx) && s2.pending == s.pending),
{
    let w = s.waiting.push(tx);
    if w.len() >= BATCH_NUM && s.pending.len() == 0 {
        lemma_batch_keeps_wf(
            StateView { waiting: w.subrange(BATCH_NUM as int, w.len() as int), ..s },
            now,
            w.take(BATCH_NUM as int),
        );
    }
}

proof fn lemma_prepare_keeps_wf(s: StateView, now: u64, instr: StatusInstruction)
    requires
        s.wf(),
    ensures
        spec_prepare_tx(s, now, instr) matches Outcome::Done((s2, _)) ==> s2.wf(),
{
    if let Some(p) = first_pending(s.pending, instr.tx_id, 0) {
        lemma_first_pending_bound(s.pending, instr.tx_id, 0);
        let e = s.pending[p as int];
        let pend1 = s.pending.update(p as int, (e.0, e.1, true, e.3));
        lemma_finish_keeps_wf(StateView { pending: abort_from(pend1, p), ..s }, now);
        lemma_finish_keeps_wf(StateView { pending: pend1, ..s }, now);
    }
}

proof fn lemma_finalize_keeps_wf(s: StateView, now: u64, instr: ValidityInstruction)
    requires
        s.wf(),
    ensures
        spec_finalize_tx(s, now, instr) matches Outcome::Done((s2, _)) ==> s2.wf(),
{
    if let Some(p) = first_pending(s.pending, instr.tx_id, 0) {
        lemma_first_pending_bound(s.pending, instr.tx_id, 0);
        let e = s.pending[p as int];
        let nv = if instr.commitment {
            e.1
        } else {
            None
        };
        lemma_finish_keeps_wf(StateView { pending: s.pending.update(p as int, (e.0, nv, e.2, true)), ..s }, now);
    }
}

proof fn lemma_first_pending_bound(p: Seq<PendingTx>, id: u32, i: nat)
    ensures
        first_pending(p, id, i) matches Some(k) ==> i <= k < p.len(),
    decreases p.len() - i,
{
    if i < p.len() && p[i as int].0.tx_id != id {
        lemma_first_pending_bound(p, id, i + 1);
    }
}

/// The batch being voted on is always either empty or a full batch: every
/// request keeps it so.
pub proof fn lemma_step_keeps_batch_whole(s: StateView, now: u64, msg: ExecuteMsg)
    requires
        s.wf(),
    ensures
        spec_execute(s, now, msg) matches Outcome::Done((s2, _)) ==> s2.wf(),
{
    match msg {
        ExecuteMsg::ExecuteTxs { fcross_txs } => lemma_add_txs_keep_wf(s, now, fcross_txs@, 0),
        ExecuteMsg::PrepareTx { instruction } => lemma_prepare_keeps_wf(s, now, instruction),
        ExecuteMsg::FinalizeTx { instruction } => lemma_finalize_keeps_wf(s, now, instruction),
    }
}

} // verus!

verus! {

proof fn lemma_batch_extends_history(s: StateView, now: u64, batch: Seq<FcrossTx>)
    ensures
        batch_spec(s, now, batch) matches Outcome::Done((s2, _)) ==> s.history.is_prefix_of(s2.history),
    decreases s.waiting.len(), 1nat,
{
    if let Some(pend) = batch_pending(Some(s.current_state), batch, 0) {
        if let Some(c) = s.my_channel {
            let s1 = StateView { time_logs: start_times(s.time_logs, pend, 0, now), pending: pend, ..s };
            lemma_finish_extends_history(s1, now);
            assert(s.history.is_prefix_of(s1.history));
        }
    }
}

proof fn lemma_finish_extends_history(s: StateView, now: u64)
    ensures
        finish_spec(s, now) matches Outcome::Done(Some((s2, _))) ==> s.history.is_prefix_of(s2.history),
    decreases s.waiting.len(), 0nat,
{
    let p = s.pending;
    if all_settled(p) {
        if let Some(tl) = end_times(s.time_logs, p, 0, now) {
            let s1 = StateView {
                history: s.history + p.map_values(|x: PendingTx| (x.0.tx_id, x.1 is Some)),
                pending: seq![],
                current_state: last_value(s.current_state, p, 0),
                time_logs: tl,
                ..s
            };
            assert(s.history.is_prefix_of(s1.history));
            if s1.waiting.len() >= BATCH_NUM {
                let s2 = StateView { waiting: s1.waiting.subrange(BATCH_NUM as int, s1.waiting.len() as int), ..s1 };
                lemma_batch_extends_history(s2, now, s1.waiting.take(BATCH_NUM as int));
            }
        }
    }
}

proof fn lemma_add_txs_extend_history(s: StateView, now: u64, txs: Seq<FcrossTx>, i: nat)
    ensures
        spec_add_txs(s, now, txs, i) matches Outcome::Done((s2, _)) ==> s.history.is_prefix_of(s2.history),
    decreases txs.len() - i,
{
    if i < txs.len() {
        let tx = txs[i as int];
        let w = s.waiting.push(tx);
        if w.len() >= BATCH_NUM && s.pending.len() == 0 {
            lemma_batch_extends_history(
                StateView { waiting: w.subrange(BATCH_NUM as int, w.len() as int), ..s },
                now,
                w.take(BATCH_NUM as int),
            );
        }
        if let Outcome::Done((s2, _)) = spec_add_tx(s, now, tx) {
            assert(s.history.is_prefix_of(s2.history));
            lemma_add_txs_extend_history(s2, now, txs, i + 1);
        }
    }
}

/// The history of finished transactions only grows: every request keeps it
/// as the beginning of the new history.
pub proof fn lemma_history_only_grows(s: StateView, now: u64, msg: ExecuteMsg)
    ensures
        spec_execute(s, now, msg) matches Outcome::Done((s2, _)) ==> s.history.is_prefix_of(s2.history),
{
    match msg {
        ExecuteMsg::ExecuteTxs { fcross_txs } => lemma_add_txs_extend_history(s, now, fcross_txs@, 0),
        ExecuteMsg::PrepareTx { instruction } => {
            if let Some(p) = first_pending(s.pending, instruction.tx_id, 0) {
                lemma_first_pending_bound(s.pending, instruction.tx_id, 0);
                let e = s.pending[p as int];
                let pend1 = s.pending.update(p as int, (e.0, e.1, true, e.3));
                lemma_finish_extends_history(StateView { pending: abort_from(pend1, p), ..s }, now);
                lemma_finish_extends_history(StateView { pending: pend1, ..s }, now);
            }
            assert(s.history.is_prefix_of(s.history));
        },
        ExecuteMsg::FinalizeTx { instruction } => {
            if let Some(p) = first_pending(s.pending, instruction.tx_id, 0) {
                lemma_first_pending_bound(s.pending, instruction.tx_id, 0);
                let e = s.pending[p as int];
                let nv = if instruction.commitment {
                    e.1
                } else {
                    None
                };
                lemma_finish_extends_history(
                    StateView { pending: s.pending.update(p as int, (e.0, nv, e.2, true)), ..s },
                    now,
                );
            }
            assert(s.history.is_prefix_of(s.history));
        },
    }
}

/// The balance the entries from `i` on leave: the value of the last entry
/// that was not aborted, or the balance before when every one was aborted.
proof fn lemma_last_value(cur: i64, pend: Seq<PendingTx>, i: nat)
    requires
        i <= pend.len(),
    ensures
        (forall|j: int| i <= j < pend.len() ==> (#[trigger] pend[j]).1 is None) ==> last_value(cur, pend, i)
            == cur,
        forall|k: int|
            i <= k < pend.len() && (#[trigger] pend[k]).1 is Some && (forall|j: int|
                k < j < pend.len() ==> (#[trigger] pend[j]).1 is None) ==> last_value(cur, pend, i)
                == pend[k].1->0,
    decreases pend.len() - i,
{
    if i < pend.len() {
        let next = match pend[i as int].1 {
            Some(v) => v,
            None => cur,
        };
        lemma_last_value(next, pend, i + 1);
    }
}

/// When a batch finishes (and no full batch waits to follow it), the balance
/// becomes the value left by the last entry that was not aborted, and stays
/// as it was when every entry was aborted.
pub proof fn lemma_finished_batch_balance(s: StateView, now: u64)
    requires
        s.waiting.len() < BATCH_NUM,
    ensures
        match finish_spec(s, now) {
            Outcome::Done(Some((s2, _))) => {
                &&& (forall|j: int| 0 <= j < s.pending.len() ==> (#[trigger] s.pending[j]).1 is None)
                    ==> s2.current_state == s.current_state
                &&& forall|k: int|
                    0 <= k < s.pending.len() && (#[trigger] s.pending[k]).1 is Some && (forall|j: int|
                        k < j < s.pending.len() ==> (#[trigger] s.pending[j]).1 is None) ==> s2.current_state
                        == s.pending[k].1->0
            },
            _ => true,
        },
{
    lemma_last_value(s.current_state, s.pending, 0);
}

/// Executing a batch executes its transactions one after the other: each
/// entry holds its transaction and the balance its operation leaves on the
/// balance the entry before it left (the first one on the balance before the
/// batch), and no instruction has arrived for any entry yet.
pub proof fn lemma_batch_runs_in_order(latest: Option<i64>, batch: Seq<FcrossTx>, i: nat)
    requires
        i <= batch.len(),
    ensures
        batch_pending(latest, batch, i) matches Some(pend) ==> {
            &&& pend.len() == batch.len() - i
            &&& forall|k: int| 0 <= k < pend.len() ==> (#[trigger] pend[k]).0 == batch[i + k] && !pend[k].2 && !pend[k].3
            &&& pend.len() > 0 ==> pend[0].1 == op_apply(latest, batch[i as int].operation)
            &&& forall|j: int, k: int|
                0 <= j && k == j + 1 && k < pend.len() ==> (#[trigger] pend[k]).1 == op_apply(
                    (#[trigger] pend[j]).1,
                    batch[i + k].operation,
                )
        },
    decreases batch.len() - i,
{
    if i < batch.len() && op_fits(latest, batch[i as int].operation) {
        let nl = op_apply(latest, batch[i as int].operation);
        lemma_batch_runs_in_order(nl, batch, i + 1);
        if let Some(rest) = batch_pending(nl, batch, i + 1) {
            let pend = seq![(batch[i as int], nl, false, false)] + rest;
            assert forall|j: int, k: int| 0 <= j && k == j + 1 && k < pend.len() implies (#[trigger] pend[k]).1
                == op_apply((#[trigger] pend[j]).1, batch[i + k].operation) by {
                assert(pend[k] == rest[k - 1]);
                if j == 0 {
                    assert(pend[0].1 == nl);
                } else {
                    assert(pend[j] == rest[j - 1]);
                }
            }
            assert forall|k: int| 0 <= k < pend.len() implies (#[trigger] pend[k]).0 == batch[i + k] && !pend[k].2
                && !pend[k].3 by {
                if k > 0 {
                    assert(pend[k] == rest[k - 1]);
                }
            }
        }
    }
}

} // verus!
