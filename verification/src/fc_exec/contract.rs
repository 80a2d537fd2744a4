//! Execution and finalization of transactions in the fc-exec contract.
use vstd::prelude::*;
use vstd::arithmetic::power2::pow2;
use crate::chain::{
    packet_timeout, time_is_ok, time_ok, timeout_at, AttrView, Outcome, Packet, PacketView,
    StdFailure, StoredItem,
};
use crate::render::{bool_string, bool_text, dec_int, dec_i64, dec_nat, dec_u64, join, join_strings};
use crate::fc_exec::msg::{
    ExecuteMsg, FcrossTx, InstantiateMsg, Instruction, MultifutureResp, MyTimeLogsResp, Operation, Vote,
};
use crate::fc_stor::utils::{time_log_lines, time_log_texts};
use crate::fc_exec::state::{
    ChannelInfo, ChannelView, ContractState, ScopeExecutedTx, StateView, TimeInfo,
    MAX_PENDING_LEN, MAX_SECONDARY_PENDING_LEN,
};
use crate::fc_exec::error::ContractError;

verus! {

/// Whether a transaction succeeds in every branch, fails in every branch,
/// or does either depending on the branch.
#[derive(Clone, Copy, Debug, PartialEq, Eq)]
pub enum ExecutionStatus {
    Success,
    Failure,
    Uncertainty,
}

/// The balance after `op` on balance `v`, or `None` when a debit exceeds it
/// (computed without bounds).
pub open spec fn apply_op(v: int, op: Operation) -> Option<int> {
    match op {
        Operation::DebitBalance { amount } => if v >= amount {
            Some(v - amount)
        } else {
            None
        },
        Operation::CreditBalance { amount } => Some(v + amount),
    }
}

/// `op` on `v` stays within `i64`.
pub open spec fn value_fits(v: Option<i64>, op: Operation) -> bool {
    match v {
        None => true,
        Some(x) => match apply_op(x as int, op) {
            Some(r) => i64::MIN <= r <= i64::MAX,
            None => true,
        },
    }
}

/// The branch value after `op`: failed branches stay failed.
pub open spec fn apply_value(v: Option<i64>, op: Operation) -> Option<i64> {
    match v {
        None => None,
        Some(x) => match apply_op(x as int, op) {
            Some(r) => Some(r as i64),
            None => None,
        },
    }
}

/// `op` stays within `i64` on every branch.
pub open spec fn values_fit(vals: Seq<Option<i64>>, op: Operation) -> bool {
    forall|i: int| 0 <= i < vals.len() ==> value_fits(#[trigger] vals[i], op)
}

/// Every branch after `op`.
pub open spec fn apply_all(vals: Seq<Option<i64>>, op: Operation) -> Seq<Option<i64>> {
    Seq::new(vals.len(), |i: int| apply_value(vals[i], op))
}

/// Some branch holds a balance.
pub open spec fn has_some(vals: Seq<Option<i64>>) -> bool {
    exists|i: int| 0 <= i < vals.len() && #[trigger] vals[i] is Some
}

/// Some branch has failed.
pub open spec fn has_none(vals: Seq<Option<i64>>) -> bool {
    exists|i: int| 0 <= i < vals.len() && #[trigger] vals[i] is None
}

/// The status of a transaction whose results in the branches are `vals`.
pub open spec fn status_of(vals: Seq<Option<i64>>) -> ExecutionStatus {
    if has_some(vals) && !has_none(vals) {
        ExecutionStatus::Success
    } else if !has_some(vals) && has_none(vals) {
        ExecutionStatus::Failure
    } else {
        ExecutionStatus::Uncertainty
    }
}

/// The status lets the chain vote.
pub open spec fn certain(st: ExecutionStatus) -> bool {
    st != ExecutionStatus::Uncertainty
}

/// The branches in which pending transaction `pos` is the last one taken as
/// committed: indexes from `2^pos` up to `2^(pos+1)`.
pub open spec fn newest_branches(mfs: Seq<Option<i64>>, pos: nat) -> Seq<Option<i64>> {
    mfs.subrange(pow2(pos) as int, pow2(pos + 1) as int)
}

/// `op` on a range of balances can be computed without overflow, and a debit
/// never keeps the lower bound while losing the upper one.
pub open spec fn scope_defined(old: (i64, i64), op: Operation) -> bool {
    &&& value_fits(Some(old.0), op)
    &&& value_fits(Some(old.1), op)
    &&& !(apply_value(Some(old.0), op) is Some && apply_value(Some(old.1), op) is None)
}

/// The range of balances after `op` and the status of the transaction.
pub open spec fn scope_step(old: (i64, i64), op: Operation) -> ((i64, i64), ExecutionStatus) {
    match (apply_value(Some(old.0), op), apply_value(Some(old.1), op)) {
        (Some(l), Some(u)) => (
            (if l < old.0 { l } else { old.0 }, if u > old.1 { u } else { old.1 }),
            ExecutionStatus::Success,
        ),
        (None, Some(u)) => ((0, if u > old.1 { u } else { old.1 }), ExecutionStatus::Uncertainty),
        _ => (old, ExecutionStatus::Failure),
    }
}

/// Smallest and largest balance of the branches, starting from (100000, -100000).
pub open spec fn mfs_scope(mfs: Seq<Option<i64>>) -> (i64, i64)
    decreases mfs.len(),
{
    if mfs.len() == 0 {
        (100000i64, -100000i64)
    } else {
        let prev = mfs_scope(mfs.drop_last());
        match mfs.last() {
            Some(v) => (if v < prev.0 { v } else { prev.0 }, if v > prev.1 { v } else { prev.1 }),
            None => prev,
        }
    }
}

/// Text of one branch.
pub open spec fn option_text(o: Option<i64>) -> Seq<char> {
    match o {
        Some(i) => dec_int(i as int),
        None => "None"@,
    }
}

/// Text of a multi-future: its branches separated by commas.
pub open spec fn mf_text(mf: Seq<Option<i64>>) -> Seq<char> {
    join(mf.map_values(|o: Option<i64>| option_text(o)), ","@)
}

fn apply_one(v: Option<i64>, operation: &Operation) -> (r: Option<i64>)
    requires
        value_fits(v, *operation),
    ensures
        r == apply_value(v, *operation),
{
    match v {
        None => None,
        Some(x) => match operation {
            Operation::DebitBalance { amount } => {
                if x >= *amount {
                    Some(x - *amount)
                } else {
                    None
                }
            },
            Operation::CreditBalance { amount } => Some(x + *amount),
        },
    }
}

/// Applies the operation to every branch of a multi-future.
pub fn execute_app_logic(original_values: &Vec<Option<i64>>, operation: &Operation) -> (r: Vec<
    Option<i64>,
>)
    requires
        values_fit(original_values@, *operation),
    ensures
        r@ == apply_all(original_values@, *operation),
{
    let mut out: Vec<Option<i64>> = Vec::new();
    let mut i: usize = 0;
    while i < original_values.len()
        invariant
            i <= original_values.len(),
            values_fit(original_values@, *operation),
            out@ =~= apply_all(original_values@, *operation).take(i as int),
        decreases original_values.len() - i,
    {
        let v = apply_one(original_values[i], operation);
        out.push(v);
        i = i + 1;
    }
    assert(apply_all(original_values@, *operation).take(i as int) =~= apply_all(
        original_values@,
        *operation,
    ));
    out
}

/// The status of a list of branch results (at least one).
pub fn status_of_values(values: &[Option<i64>]) -> (st: ExecutionStatus)
    requires
        values@.len() > 0,
    ensures
        st == status_of(values@),
{
    let mut some = false;
    let mut none = false;
    let mut i: usize = 0;
    while i < values.len()
        invariant
            i <= values@.len(),
            some == has_some(values@.take(i as int)),
            none == has_none(values@.take(i as int)),
        decreases values@.len() - i,
    {
        proof {
            let t = values@.take(i as int);
            let t1 = values@.take(i as int + 1);
            assert(t1[i as int] == values@[i as int]);
            assert forall|j: int| 0 <= j < t.len() implies t[j] == #[trigger] t1[j] by {}
            if has_some(t1) {
                let j = choose|j: int| 0 <= j < t1.len() && #[trigger] t1[j] is Some;
                if j < i {
                    assert(t[j] is Some);
                }
            }
            if has_none(t1) {
                let j = choose|j: int| 0 <= j < t1.len() && #[trigger] t1[j] is None;
                if j < i {
                    assert(t[j] is None);
                }
            }
            if has_some(t) {
                let j = choose|j: int| 0 <= j < t.len() && #[trigger] t[j] is Some;
                assert(t1[j] is Some);
            }
            if has_none(t) {
                let j = choose|j: int| 0 <= j < t.len() && #[trigger] t[j] is None;
                assert(t1[j] is None);
            }
        }
        match values[i] {
            Some(_) => {
                some = true;
            },
            None => {
                none = true;
            },
        }
        i = i + 1;
    }
    assert(values@.take(i as int) =~= values@);
    if some && !none {
        ExecutionStatus::Success
    } else if !some && none {
        ExecutionStatus::Failure
    } else {
        proof {
            let j = 0int;
            if !some {
                assert(values@[j] is None);
            }
        }
        ExecutionStatus::Uncertainty
    }
}

proof fn lemma_pow2_bound(pos: nat, len: nat)
    requires
        pow2(pos + 1) <= len,
        len <= usize::MAX,
    ensures
        pos + 1 < usize::BITS,
        pow2(pos) < pow2(pos + 1),
{
    vstd::arithmetic::power2::lemma_pow2_strictly_increases(pos, pos + 1);
    vstd::arithmetic::power2::lemma2_to64();
    vstd::arithmetic::power2::lemma2_to64_rest();
    if pos + 1 >= usize::BITS {
        if pos + 1 > usize::BITS {
            vstd::arithmetic::power2::lemma_pow2_strictly_increases(usize::BITS as nat, pos + 1);
        }
        assert(pow2(usize::BITS as nat) > usize::MAX);
    }
}

/// Shifts `1` left by `e` bits.
pub fn pow2_usize(e: usize) -> (r: usize)
    requires
        e < usize::BITS,
        pow2(e as nat) <= usize::MAX,
    ensures
        r == pow2(e as nat),
{
    proof {
        vstd::bits::lemma_usize_shl_is_mul(1, e);
    }
    1usize << e
}

/// The status of pending transaction `pos`, read off the branches in which it
/// is the newest one taken as committed.
pub fn check_execution_stautus(mfs: &Vec<Option<i64>>, pos: usize) -> (st: ExecutionStatus)
    requires
        pow2(pos as nat + 1) <= mfs@.len(),
    ensures
        st == status_of(newest_branches(mfs@, pos as nat)),
{
    let n = mfs.len();
    proof {
        lemma_pow2_bound(pos as nat, n as nat);
    }
    let lo = pow2_usize(pos);
    let hi = pow2_usize(pos + 1);
    let values = slice_subrange(mfs.as_slice(), lo, hi);
    status_of_values(values)
}

/// The elements of `s` from `lo` up to `hi`.
fn slice_subrange<T>(s: &[T], lo: usize, hi: usize) -> (r: &[T])
    requires
        lo <= hi <= s@.len(),
    ensures
        r@ == s@.subrange(lo as int, hi as int),
{
    &s[lo..hi]
}

/// Executes `op` on the range of balances.
pub fn scope_execute_app_logic(old_scope: (i64, i64), operation: &Operation) -> (r: (
    (i64, i64),
    ExecutionStatus,
))
    requires
        scope_defined(old_scope, *operation),
    ensures
        r == scope_step(old_scope, *operation),
{
    let mut bounds: Vec<Option<i64>> = Vec::new();
    bounds.push(Some(old_scope.0));
    bounds.push(Some(old_scope.1));
    let new_scope = execute_app_logic(&bounds, operation);
    let lower = new_scope[0];
    let upper = new_scope[1];
    match (lower, upper) {
        (Some(l), Some(u)) => {
            let lo = if l < old_scope.0 {
                l
            } else {
                old_scope.0
            };
            let hi = if u > old_scope.1 {
                u
            } else {
                old_scope.1
            };
            ((lo, hi), ExecutionStatus::Success)
        },
        (None, Some(u)) => {
            let hi = if u > old_scope.1 {
                u
            } else {
                old_scope.1
            };
            ((0, hi), ExecutionStatus::Uncertainty)
        },
        _ => (old_scope, ExecutionStatus::Failure),
    }
}

/// The range of balances of a multi-future.
pub fn get_mfs_scope(mfs: &Vec<Option<i64>>) -> (r: (i64, i64))
    ensures
        r == mfs_scope(mfs@),
{
    let mut min_value: i64 = 100000;
    let mut max_value: i64 = -100000;
    let mut i: usize = 0;
    while i < mfs.len()
        invariant
            i <= mfs.len(),
            (min_value, max_value) == mfs_scope(mfs@.take(i as int)),
        decreases mfs.len() - i,
    {
        assert(mfs@.take(i as int + 1).drop_last() =~= mfs@.take(i as int));
        match mfs[i] {
            Some(v) => {
                if v < min_value {
                    min_value = v;
                }
                if v > max_value {
                    max_value = v;
                }
            },
            None => {},
        }
        i = i + 1;
    }
    assert(mfs@.take(i as int) =~= mfs@);
    (min_value, max_value)
}

/// Text of one branch.
pub fn option_string(o: Option<i64>) -> (s: String)
    ensures
        s@ == option_text(o),
{
    match o {
        Some(i) => dec_i64(i),
        None => String::from_str("None"),
    }
}

/// Text of a multi-future.
pub fn format_mf(mf: &Vec<Option<i64>>) -> (s: String)
    ensures
        s@ == mf_text(mf@),
{
    let mut parts: Vec<String> = Vec::new();
    let mut i: usize = 0;
    while i < mf.len()
        invariant
            i <= mf.len(),
            parts.deep_view() =~= mf@.take(i as int).map_values(|o: Option<i64>| option_text(o)),
        decreases mf.len() - i,
    {
        let t = option_string(mf[i]);
        let ghost old_parts = parts.deep_view();
        parts.push(t);
        proof {
            assert(parts.deep_view() =~= old_parts.push(t@));
            assert(mf@.take(i as int + 1).map_values(|o: Option<i64>| option_text(o)) =~= mf@.take(
                i as int,
            ).map_values(|o: Option<i64>| option_text(o)).push(option_text(mf@[i as int])));
        }
        i = i + 1;
    }
    assert(mf@.take(i as int) =~= mf@);
    join_strings(&parts, ",")
}

} // verus!

verus! {

/// Whether `op` on `v` stays within `i64`.
pub fn value_fits_exec(v: Option<i64>, operation: &Operation) -> (b: bool)
    ensures
        b == value_fits(v, *operation),
{
    match v {
        None => true,
        Some(x) => match operation {
            Operation::DebitBalance { amount } => {
                if x >= *amount {
                    let r: i128 = x as i128 - *amount as i128;
                    i64::MIN as i128 <= r && r <= i64::MAX as i128
                } else {
                    true
                }
            },
            Operation::CreditBalance { amount } => {
                let r: i128 = x as i128 + *amount as i128;
                i64::MIN as i128 <= r && r <= i64::MAX as i128
            },
        },
    }
}

/// Whether `op` stays within `i64` on every branch.
pub fn values_fit_exec(vals: &Vec<Option<i64>>, operation: &Operation) -> (b: bool)
    ensures
        b == values_fit(vals@, *operation),
{
    let mut i: usize = 0;
    while i < vals.len()
        invariant
            i <= vals.len(),
            forall|j: int| 0 <= j < i ==> value_fits(#[trigger] vals@[j], *operation),
        decreases vals.len() - i,
    {
        if !value_fits_exec(vals[i], operation) {
            return false;
        }
        i = i + 1;
    }
    true
}

/// Whether `op` can be executed on the range of balances.
pub fn scope_is_defined(old: (i64, i64), operation: &Operation) -> (b: bool)
    ensures
        b == scope_defined(old, *operation),
{
    if !value_fits_exec(Some(old.0), operation) || !value_fits_exec(Some(old.1), operation) {
        return false;
    }
    let l = apply_one(Some(old.0), operation);
    let u = apply_one(Some(old.1), operation);
    !(l.is_some() && u.is_none())
}

/// What the contract answers to a request: event attributes and the votes it
/// sends to the coordinator.
pub struct Response {
    pub attributes: Vec<(String, String)>,
    pub messages: Vec<Packet<Vote>>,
}

/// A response as plain values.
#[verifier::ext_equal]
pub struct ResponseView {
    pub attributes: Seq<AttrView>,
    pub messages: Seq<PacketView<Vote>>,
}

impl View for Response {
    type V = ResponseView;

    open spec fn view(&self) -> ResponseView {
        ResponseView { attributes: self.attributes.deep_view(), messages: self.messages.deep_view() }
    }
}

/// Attributes and votes produced by part of a step.
pub type Out = (Seq<AttrView>, Seq<PacketView<Vote>>);

/// The vote packet for `tx_id`, or why it cannot be sent.
pub open spec fn vote_outcome(
    chain_id: u16,
    channel: Option<ChannelView>,
    tx_id: u32,
    success: bool,
    now: u64,
) -> Outcome<PacketView<Vote>, ContractError> {
    match channel {
        None => Outcome::Failed(ContractError::StdError(StdFailure::NotFound(StoredItem::ChannelInfo))),
        Some(c) => if time_ok(now) {
            Outcome::Done(
                PacketView {
                    channel_id: c.channel_id,
                    data: Vote { tx_id, chain_id, success },
                    timeout: timeout_at(now) as u64,
                },
            )
        } else {
            Outcome::Aborted
        },
    }
}

/// The attribute that records a vote.
pub open spec fn vote_attr(tx_id: u32, success: bool) -> AttrView {
    ("vote_"@ + dec_nat(tx_id as nat), bool_text(success))
}

/// An attribute whose value is a number.
pub open spec fn num_attr(key: Seq<char>, n: nat) -> AttrView {
    (key, dec_nat(n))
}

/// `o` with `a` and `m` put in front of its attributes and votes.
pub open spec fn prefixed<S>(
    a: Seq<AttrView>,
    m: Seq<PacketView<Vote>>,
    o: Outcome<(S, Out), ContractError>,
) -> Outcome<(S, Out), ContractError> {
    match o {
        Outcome::Done((st, (a2, m2))) => Outcome::Done((st, (a + a2, m + m2))),
        Outcome::Failed(e) => Outcome::Failed(e),
        Outcome::Aborted => Outcome::Aborted,
    }
}

/// The scope-executed transactions from `i` on, flushed from range `last`:
/// committed ones move the range, aborted ones keep it, undecided ones move it
/// and are voted for once their status is certain.
pub open spec fn flush_spec(
    chain_id: u16,
    channel: Option<ChannelView>,
    now: u64,
    sec: Seq<ScopeExecutedTx>,
    i: nat,
    last: (i64, i64),
) -> Outcome<(Seq<ScopeExecutedTx>, Out), ContractError>
    decreases sec.len() - i,
{
    if i >= sec.len() {
        Outcome::Done((sec, (seq![], seq![])))
    } else {
        let stx = sec[i as int];
        match stx.received_instruction {
            Some(false) => flush_spec(
                chain_id,
                channel,
                now,
                sec.update(i as int, ScopeExecutedTx { updated_scope: last, ..stx }),
                i + 1,
                last,
            ),
            _ => if !scope_defined(last, stx.tx.operation) {
                Outcome::Aborted
            } else {
                let (u, st) = scope_step(last, stx.tx.operation);
                let moved = ScopeExecutedTx { updated_scope: u, ..stx };
                if stx.received_instruction is None && !stx.voted && certain(st) {
                    match vote_outcome(
                        chain_id,
                        channel,
                        stx.tx.tx_id,
                        st == ExecutionStatus::Success,
                        now,
                    ) {
                        Outcome::Done(pkt) => prefixed(
                            seq![vote_attr(stx.tx.tx_id, st == ExecutionStatus::Success)],
                            seq![pkt],
                            flush_spec(
                                chain_id,
                                channel,
                                now,
                                sec.update(i as int, ScopeExecutedTx { voted: true, ..moved }),
                                i + 1,
                                u,
                            ),
                        ),
                        Outcome::Failed(e) => Outcome::Failed(e),
                        Outcome::Aborted => Outcome::Aborted,
                    }
                } else {
                    flush_spec(chain_id, channel, now, sec.update(i as int, moved), i + 1, u)
                }
            },
        }
    }
}

/// Builds the vote packet for a transaction whose status is certain.
pub fn generate_vote(
    tx_id: u32,
    chain_id: u16,
    status: ExecutionStatus,
    channel_id: String,
    now: u64,
) -> (p: Packet<Vote>)
    requires
        certain(status),
        time_ok(now),
    ensures
        p@ == (PacketView {
            channel_id: channel_id@,
            data: Vote { tx_id, chain_id, success: status == ExecutionStatus::Success },
            timeout: timeout_at(now) as u64,
        }),
{
    let success = match status {
        ExecutionStatus::Success => true,
        _ => false,
    };
    Packet { channel_id, data: Vote { tx_id, chain_id, success }, timeout: packet_timeout(now) }
}

/// The view of an optional channel.
pub open spec fn channel_view(c: Option<ChannelInfo>) -> Option<ChannelView> {
    match c {
        Some(c) => Some(c@),
        None => None,
    }
}

/// The vote for `tx_id`, or why it cannot be sent.
fn vote_for(chain_id: u16, channel: &Option<ChannelInfo>, tx_id: u32, success: bool, now: u64) -> (r:
    Outcome<Packet<Vote>, ContractError>)
    ensures
        match vote_outcome(chain_id, channel_view(*channel), tx_id, success, now) {
            Outcome::Done(p) => r matches Outcome::Done(q) && q@ == p,
            Outcome::Failed(e) => r matches Outcome::Failed(e2) && e2 == e,
            Outcome::Aborted => r is Aborted,
        },
{
    match channel {
        None => Outcome::Failed(ContractError::StdError(StdFailure::NotFound(StoredItem::ChannelInfo))),
        Some(c) => {
            if !time_is_ok(now) {
                return Outcome::Aborted;
            }
            let status = if success {
                ExecutionStatus::Success
            } else {
                ExecutionStatus::Failure
            };
            Outcome::Done(generate_vote(tx_id, chain_id, status, c.channel_id.clone(), now))
        },
    }
}

/// The attribute `vote_<tx_id>` = `success`.
fn vote_attr_exec(tx_id: u32, success: bool) -> (a: (String, String))
    ensures
        a.deep_view() == vote_attr(tx_id, success),
{
    let key = String::from_str("vote_").concat(dec_u64(tx_id as u64).as_str());
    (key, bool_string(success))
}

/// An attribute with a literal key and a numeric value.
fn num_attr_exec(key: &str, n: u64) -> (a: (String, String))
    ensures
        a.deep_view() == num_attr(key@, n as nat),
{
    (String::from_str(key), dec_u64(n))
}

/// Re-computes the ranges of the scope-executed transactions from `start_pos`
/// on, starting from range `start_scope`, and votes for those whose status
/// has become certain.
pub fn flush_secondary_list(
    chain_id: u16,
    my_channel: &Option<ChannelInfo>,
    now: u64,
    secondary: Vec<ScopeExecutedTx>,
    start_pos: usize,
    start_scope: (i64, i64),
) -> (r: Outcome<(Vec<ScopeExecutedTx>, Vec<(String, String)>, Vec<Packet<Vote>>), ContractError>)
    ensures
        match flush_spec(chain_id, channel_view(*my_channel), now, secondary@, start_pos as nat, start_scope) {
            Outcome::Done((sec, (a, m))) => r matches Outcome::Done((sec2, a2, m2)) && sec2@ == sec
                && a2.deep_view() == a && m2.deep_view() == m && sec2@.len() == secondary@.len(),
            Outcome::Failed(e) => r matches Outcome::Failed(e2) && e2 == e,
            Outcome::Aborted => r is Aborted,
        },
    decreases secondary@.len() - start_pos,
{
    let mut secondary = secondary;
    if start_pos >= secondary.len() {
        return Outcome::Done((secondary, Vec::new(), Vec::new()));
    }
    let stx = secondary[start_pos];
    match stx.received_instruction {
        Some(false) => {
            secondary.set(start_pos, ScopeExecutedTx { updated_scope: start_scope, ..stx });
            flush_secondary_list(chain_id, my_channel, now, secondary, start_pos + 1, start_scope)
        },
        _ => {
            if !scope_is_defined(start_scope, &stx.tx.operation) {
                return Outcome::Aborted;
            }
            let (u, st) = scope_execute_app_logic(start_scope, &stx.tx.operation);
            let moved = ScopeExecutedTx { updated_scope: u, ..stx };
            let certain_now = match st {
                ExecutionStatus::Uncertainty => false,
                _ => true,
            };
            let success = match st {
                ExecutionStatus::Success => true,
                _ => false,
            };
            if stx.received_instruction.is_none() && !stx.voted && certain_now {
                match vote_for(chain_id, my_channel, stx.tx.tx_id, success, now) {
                    Outcome::Done(pkt) => {
                        secondary.set(start_pos, ScopeExecutedTx { voted: true, ..moved });
                        match flush_secondary_list(
                            chain_id,
                            my_channel,
                            now,
                            secondary,
                            start_pos + 1,
                            u,
                        ) {
                            Outcome::Done((sec, mut attrs, mut msgs)) => {
                                let ghost a0 = attrs.deep_view();
                                let ghost m0 = msgs.deep_view();
                                attrs.insert(0, vote_attr_exec(stx.tx.tx_id, success));
                                msgs.insert(0, pkt);
                                proof {
                                    assert(attrs.deep_view() =~= seq![vote_attr(stx.tx.tx_id, success)] + a0);
                                    assert(msgs.deep_view() =~= seq![pkt@] + m0);
                                }
                                Outcome::Done((sec, attrs, msgs))
                            },
                            Outcome::Failed(e) => Outcome::Failed(e),
                            Outcome::Aborted => Outcome::Aborted,
                        }
                    },
                    Outcome::Failed(e) => Outcome::Failed(e),
                    Outcome::Aborted => Outcome::Aborted,
                }
            } else {
                secondary.set(start_pos, moved);
                flush_secondary_list(chain_id, my_channel, now, secondary, start_pos + 1, u)
            }
        },
    }
}

} // verus!

verus! {

/// The range the next scope-executed transaction starts from: the range of
/// the last one, or that of the multi-future.
pub open spec fn current_scope(s: StateView) -> (i64, i64) {
    if s.secondary.len() > 0 {
        s.secondary.last().updated_scope
    } else {
        mfs_scope(s.mfs)
    }
}

/// The votes and attributes for a status: one vote when it is certain.
pub open spec fn vote_if_certain(
    s: StateView,
    tx_id: u32,
    attr_id: u32,
    st: ExecutionStatus,
    now: u64,
) -> Outcome<Out, ContractError> {
    if certain(st) {
        match vote_outcome(s.chain_id, s.my_channel, tx_id, st == ExecutionStatus::Success, now) {
            Outcome::Done(p) => Outcome::Done(
                (seq![vote_attr(attr_id, st == ExecutionStatus::Success)], seq![p]),
            ),
            Outcome::Failed(e) => Outcome::Failed(e),
            Outcome::Aborted => Outcome::Aborted,
        }
    } else {
        Outcome::Done((seq![], seq![]))
    }
}

/// A new transaction: queued when both lists are full, executed on the range
/// of balances when only the pending list is full, and otherwise executed on
/// every branch of the multi-future, which doubles.
pub open spec fn spec_execute_tx(s: StateView, now: u64, tx: FcrossTx) -> Outcome<
    (StateView, Out),
    ContractError,
> {
    let id = tx.tx_id;
    let started = s.time_logs.insert(id, TimeInfo { start_time: now, end_time: None });
    if s.pending.len() >= MAX_PENDING_LEN {
        if s.secondary.len() >= MAX_SECONDARY_PENDING_LEN {
            Outcome::Done((StateView { waiting: s.waiting.push(tx), ..s }, (seq![], seq![])))
        } else if !scope_defined(current_scope(s), tx.operation) {
            Outcome::Aborted
        } else {
            let (new_scope, st) = scope_step(current_scope(s), tx.operation);
            let stx = ScopeExecutedTx {
                tx,
                updated_scope: new_scope,
                voted: certain(st),
                received_instruction: None,
            };
            let s2 = StateView {
                time_logs: started,
                secondary: s.secondary.push(stx),
                history: s.history.push(id),
                ..s
            };
            match vote_if_certain(s, id, id, st, now) {
                Outcome::Done((a, m)) => Outcome::Done(
                    (
                        s2,
                        (
                            a + seq![
                                num_attr("scope_executed_tx"@, id as nat),
                                (
                                    "scope"@,
                                    dec_int(new_scope.0 as int) + "-"@ + dec_int(new_scope.1 as int),
                                ),
                            ],
                            m,
                        ),
                    ),
                ),
                Outcome::Failed(e) => Outcome::Failed(e),
                Outcome::Aborted => Outcome::Aborted,
            }
        }
    } else if !values_fit(s.mfs, tx.operation) {
        Outcome::Aborted
    } else {
        let mfs2 = s.mfs + apply_all(s.mfs, tx.operation);
        let st = status_of(newest_branches(mfs2, s.pending.len()));
        let s2 = StateView {
            mfs: mfs2,
            time_logs: started,
            pending: s.pending.push((id, certain(st))),
            history: s.history.push(id),
            ..s
        };
        match vote_if_certain(s, id, id, st, now) {
            Outcome::Done((a, m)) => Outcome::Done(
                (
                    s2,
                    (
                        a + seq![
                            num_attr("executed_tx"@, id as nat),
                            num_attr("new_mf_"@ + dec_nat(id as nat) + "_len"@, mfs2.len()),
                        ],
                        m,
                    ),
                ),
            ),
            Outcome::Failed(e) => Outcome::Failed(e),
            Outcome::Aborted => Outcome::Aborted,
        }
    }
}

/// How a step of the contract on `old` relates to what the function returned
/// and to the state it left.
pub open spec fn step_matches(
    spec: Outcome<(StateView, Out), ContractError>,
    old: StateView,
    new: StateView,
    r: Outcome<Response, ContractError>,
) -> bool {
    match spec {
        Outcome::Done((s2, (a, m))) => r matches Outcome::Done(resp) && new == s2
            && resp@.attributes == a && resp@.messages == m,
        Outcome::Failed(e) => r matches Outcome::Failed(e2) && e2 == e && new == old,
        Outcome::Aborted => r is Aborted && new == old,
    }
}

impl ContractState {
    /// The vote for `tx_id` when `st` is certain, with its attribute.
    fn vote_if_certain_exec(&self, tx_id: u32, attr_id: u32, st: ExecutionStatus, now: u64) -> (r:
        Outcome<(Vec<(String, String)>, Vec<Packet<Vote>>), ContractError>)
        ensures
            match vote_if_certain(self@, tx_id, attr_id, st, now) {
                Outcome::Done((a, m)) => r matches Outcome::Done((a2, m2)) && a2.deep_view() == a
                    && m2.deep_view() == m,
                Outcome::Failed(e) => r matches Outcome::Failed(e2) && e2 == e,
                Outcome::Aborted => r is Aborted,
            },
    {
        let mut attrs: Vec<(String, String)> = Vec::new();
        let mut msgs: Vec<Packet<Vote>> = Vec::new();
        let success = match st {
            ExecutionStatus::Success => true,
            _ => false,
        };
        match st {
            ExecutionStatus::Uncertainty => {},
            _ => {
                match vote_for(self.chain_id, &self.my_channel, tx_id, success, now) {
                    Outcome::Done(p) => {
                        msgs.push(p);
                        attrs.push(vote_attr_exec(attr_id, success));
                        proof {
                            assert(attrs.deep_view() =~= seq![vote_attr(attr_id, success)]);
                            assert(msgs.deep_view() =~= seq![p@]);
                        }
                    },
                    Outcome::Failed(e) => {
                        return Outcome::Failed(e);
                    },
                    Outcome::Aborted => {
                        return Outcome::Aborted;
                    },
                }
            },
        }
        proof {
            if !certain(st) {
                assert(attrs.deep_view() =~= seq![]);
                assert(msgs.deep_view() =~= seq![]);
            }
        }
        Outcome::Done((attrs, msgs))
    }

    /// Executes a new transaction (see [`spec_execute_tx`]).
    pub fn execute_tx(&mut self, now: u64, tx: FcrossTx) -> (r: Outcome<Response, ContractError>)
        requires
            old(self).wf(),
        ensures
            final(self).wf(),
            step_matches(spec_execute_tx(old(self)@, now, tx), old(self)@, final(self)@, r),
    {
        let tx_id = tx.tx_id;
        let pending_len = self.pending.len();
        if pending_len >= MAX_PENDING_LEN {
            if self.secondary.len() >= MAX_SECONDARY_PENDING_LEN {
                self.waiting.push(tx);
                let resp = Response { attributes: Vec::new(), messages: Vec::new() };
                assert(resp@.attributes =~= seq![]);
                assert(resp@.messages =~= seq![]);
                return Outcome::Done(resp);
            }
            let old_scope = if self.secondary.len() > 0 {
                self.secondary[self.secondary.len() - 1].updated_scope
            } else {
                get_mfs_scope(&self.mfs)
            };
            if !scope_is_defined(old_scope, &tx.operation) {
                return Outcome::Aborted;
            }
            let (new_scope, status) = scope_execute_app_logic(old_scope, &tx.operation);
            let (mut attrs, msgs) = match self.vote_if_certain_exec(tx_id, tx_id, status, now) {
                Outcome::Done(x) => x,
                Outcome::Failed(e) => {
                    return Outcome::Failed(e);
                },
                Outcome::Aborted => {
                    return Outcome::Aborted;
                },
            };
            let voted = match status {
                ExecutionStatus::Uncertainty => false,
                _ => true,
            };
            self.time_logs.insert(tx_id, TimeInfo { start_time: now, end_time: None });
            self.secondary.push(
                ScopeExecutedTx { tx, voted, received_instruction: None, updated_scope: new_scope },
            );
            self.history.push(tx_id);
            let ghost a0 = attrs.deep_view();
            attrs.push(num_attr_exec("scope_executed_tx", tx_id as u64));
            let scope_text = dec_i64(new_scope.0).concat("-").concat(dec_i64(new_scope.1).as_str());
            attrs.push((String::from_str("scope"), scope_text));
            proof {
                assert(attrs.deep_view() =~= a0 + seq![
                    num_attr("scope_executed_tx"@, tx_id as nat),
                    ("scope"@, dec_int(new_scope.0 as int) + "-"@ + dec_int(new_scope.1 as int)),
                ]);
                assert(self@ =~= StateView {
                    time_logs: old(self)@.time_logs.insert(
                        tx_id,
                        TimeInfo { start_time: now, end_time: None },
                    ),
                    secondary: old(self)@.secondary.push(
                        ScopeExecutedTx {
                            tx,
                            updated_scope: new_scope,
                            voted: certain(status),
                            received_instruction: None,
                        },
                    ),
                    history: old(self)@.history.push(tx_id),
                    ..old(self)@
                });
            }
            return Outcome::Done(Response { attributes: attrs, messages: msgs });
        }
        if !values_fit_exec(&self.mfs, &tx.operation) {
            return Outcome::Aborted;
        }
        let new_values = execute_app_logic(&self.mfs, &tx.operation);
        let mut mfs = self.mfs.clone();
        let mut nv = new_values;
        mfs.append(&mut nv);
        proof {
            vstd::arithmetic::power2::lemma_pow2_unfold(pending_len as nat + 1);
            assert(mfs@ =~= old(self)@.mfs + apply_all(old(self)@.mfs, tx.operation));
        }
        let status = check_execution_stautus(&mfs, pending_len);
        let (mut attrs, msgs) = match self.vote_if_certain_exec(tx_id, tx_id, status, now) {
            Outcome::Done(x) => x,
            Outcome::Failed(e) => {
                return Outcome::Failed(e);
            },
            Outcome::Aborted => {
                return Outcome::Aborted;
            },
        };
        let voted = match status {
            ExecutionStatus::Uncertainty => false,
            _ => true,
        };
        let mfs_len = mfs.len();
        self.mfs = mfs;
        self.time_logs.insert(tx_id, TimeInfo { start_time: now, end_time: None });
        self.pending.push((tx_id, voted));
        self.history.push(tx_id);
        let ghost a0 = attrs.deep_view();
        attrs.push(num_attr_exec("executed_tx", tx_id as u64));
        let key = String::from_str("new_mf_").concat(dec_u64(tx_id as u64).as_str()).concat("_len");
        attrs.push((key, dec_u64(mfs_len as u64)));
        proof {
            assert(attrs.deep_view() =~= a0 + seq![
                num_attr("executed_tx"@, tx_id as nat),
                num_attr("new_mf_"@ + dec_nat(tx_id as nat) + "_len"@, mfs_len as nat),
            ]);
        }
        Outcome::Done(Response { attributes: attrs, messages: msgs })
    }
}

} // verus!

verus! {

/// Index, in the old multi-future, of branch `k` of the multi-future that
/// keeps only the branches where pending transaction `pos` has outcome `n`
/// (bit `pos` of the old index set to `n`).
pub open spec fn branch_index(k: int, pos: nat, n: int) -> int {
    let p = pow2(pos) as int;
    (k / p) * (2 * p) + n * p + k % p
}

/// The multi-future once pending transaction `pos` is decided with outcome
/// `n` (1 committed, 0 aborted): the branches that agree with the decision.
pub open spec fn select_branches(mfs: Seq<Option<i64>>, pos: nat, n: int) -> Seq<Option<i64>> {
    Seq::new(mfs.len() / 2, |k: int| mfs[branch_index(k, pos, n)])
}

/// First index from `i` on of the pending transaction `id`.
pub open spec fn first_pending(p: Seq<(u32, bool)>, id: u32, i: nat) -> Option<nat>
    decreases p.len() - i,
{
    if i >= p.len() {
        None
    } else if p[i as int].0 == id {
        Some(i)
    } else {
        first_pending(p, id, i + 1)
    }
}

/// First index from `i` on of the scope-executed transaction `id`.
pub open spec fn first_secondary(p: Seq<ScopeExecutedTx>, id: u32, i: nat) -> Option<nat>
    decreases p.len() - i,
{
    if i >= p.len() {
        None
    } else if p[i as int].tx.tx_id == id {
        Some(i)
    } else {
        first_secondary(p, id, i + 1)
    }
}

/// First index from `i` on of a scope-executed transaction still undecided.
pub open spec fn first_undecided(p: Seq<ScopeExecutedTx>, i: nat) -> Option<nat>
    decreases p.len() - i,
{
    if i >= p.len() {
        None
    } else if p[i as int].received_instruction is None {
        Some(i)
    } else {
        first_undecided(p, i + 1)
    }
}

/// Votes, from index `i` on, for the pending transactions not yet voted for
/// whose status has become certain; the attributes name `attr_id`.
pub open spec fn revote_spec(
    s: StateView,
    now: u64,
    attr_id: u32,
    mfs: Seq<Option<i64>>,
    pending: Seq<(u32, bool)>,
    i: nat,
) -> Outcome<(Seq<(u32, bool)>, Out), ContractError>
    decreases pending.len() - i,
{
    if i >= pending.len() {
        Outcome::Done((pending, (seq![], seq![])))
    } else if pending[i as int].1 {
        revote_spec(s, now, attr_id, mfs, pending, i + 1)
    } else {
        let st = status_of(newest_branches(mfs, i));
        if certain(st) {
            match vote_if_certain(s, pending[i as int].0, attr_id, st, now) {
                Outcome::Done((a, m)) => prefixed(
                    a,
                    m,
                    revote_spec(
                        s,
                        now,
                        attr_id,
                        mfs,
                        pending.update(i as int, (pending[i as int].0, true)),
                        i + 1,
                    ),
                ),
                Outcome::Failed(e) => Outcome::Failed(e),
                Outcome::Aborted => Outcome::Aborted,
            }
        } else {
            revote_spec(s, now, attr_id, mfs, pending, i + 1)
        }
    }
}

/// The multi-future after the committed ones among the first `count`
/// scope-executed transactions (from `j` on); `None` on overflow.
pub open spec fn apply_decided(
    mfs: Seq<Option<i64>>,
    sec: Seq<ScopeExecutedTx>,
    j: nat,
    count: nat,
) -> Option<Seq<Option<i64>>>
    decreases count - j,
{
    if j >= count {
        Some(mfs)
    } else if sec[j as int].received_instruction == Some(true) {
        if values_fit(mfs, sec[j as int].tx.operation) {
            apply_decided(apply_all(mfs, sec[j as int].tx.operation), sec, j + 1, count)
        } else {
            None
        }
    } else {
        apply_decided(mfs, sec, j + 1, count)
    }
}

/// A waiting transaction entering the secondary list.
pub open spec fn fresh_secondary(tx: FcrossTx) -> ScopeExecutedTx {
    ScopeExecutedTx { tx, updated_scope: (0, 0), voted: false, received_instruction: None }
}

/// Moves up to `count` waiting transactions to the secondary list, logging
/// their start time.
pub open spec fn transfer_spec(
    sec: Seq<ScopeExecutedTx>,
    wait: Seq<FcrossTx>,
    tl: Map<u32, TimeInfo>,
    now: u64,
    count: nat,
) -> (Seq<ScopeExecutedTx>, Seq<FcrossTx>, Map<u32, TimeInfo>)
    decreases count,
{
    if count == 0 || wait.len() == 0 {
        (sec, wait, tl)
    } else {
        transfer_spec(
            sec.push(fresh_secondary(wait[0])),
            wait.subrange(1, wait.len() as int),
            tl.insert(wait[0].tx_id, TimeInfo { start_time: now, end_time: None }),
            now,
            (count - 1) as nat,
        )
    }
}

/// The smaller of two numbers.
pub open spec fn min_nat(a: nat, b: nat) -> nat {
    if a < b {
        a
    } else {
        b
    }
}

/// After the pending list lost a transaction: the next transaction (first
/// scope-executed one, else first waiting one) joins the multi-future, the
/// secondary list is refilled from the waiting list and flushed.
pub open spec fn refill_spec(
    s: StateView,
    now: u64,
    attr_id: u32,
    mfs: Seq<Option<i64>>,
    pending: Seq<(u32, bool)>,
    sec: Seq<ScopeExecutedTx>,
    tl: Map<u32, TimeInfo>,
) -> Outcome<(StateView, Out), ContractError> {
    let from_secondary = sec.len() > 0;
    let new_tx = if from_secondary {
        sec[0].tx
    } else {
        s.waiting[0]
    };
    let voted = from_secondary && sec[0].voted;
    let sec3 = if from_secondary {
        sec.subrange(1, sec.len() as int)
    } else {
        sec
    };
    let wait3 = if from_secondary {
        s.waiting
    } else {
        s.waiting.subrange(1, s.waiting.len() as int)
    };
    let tl3 = if from_secondary {
        tl
    } else {
        tl.insert(new_tx.tx_id, TimeInfo { start_time: now, end_time: None })
    };
    if !values_fit(mfs, new_tx.operation) {
        Outcome::Aborted
    } else {
        let mfs3 = mfs + apply_all(mfs, new_tx.operation);
        let st = status_of(newest_branches(mfs3, pending.len()));
        let vo = if !voted {
            vote_if_certain(s, new_tx.tx_id, attr_id, st, now)
        } else {
            Outcome::Done((seq![], seq![]))
        };
        match vo {
            Outcome::Done((a2, m2)) => {
                let pend3 = pending.push((new_tx.tx_id, certain(st)));
                let num = min_nat((MAX_SECONDARY_PENDING_LEN - sec3.len()) as nat, wait3.len());
                let (sec4, wait4, tl4) = transfer_spec(sec3, wait3, tl3, now, num);
                match flush_spec(s.chain_id, s.my_channel, now, sec4, 0, mfs_scope(mfs3)) {
                    Outcome::Done((sec5, (a3, m3))) => Outcome::Done(
                        (
                            StateView {
                                mfs: mfs3,
                                pending: pend3,
                                secondary: sec5,
                                waiting: wait4,
                                time_logs: tl4,
                                ..s
                            },
                            (a2 + a3, m2 + m3),
                        ),
                    ),
                    Outcome::Failed(e) => Outcome::Failed(e),
                    Outcome::Aborted => Outcome::Aborted,
                }
            },
            Outcome::Failed(e) => Outcome::Failed(e),
            Outcome::Aborted => Outcome::Aborted,
        }
    }
}

/// The coordinator's instruction for a transaction. For a pending one: the
/// multi-future keeps the branches that agree with the decision, the other
/// pending transactions are voted for once certain, decided scope-executed
/// transactions at the head are applied, and the freed place is refilled. For
/// a scope-executed one: the instruction is recorded and the ranges from it
/// on are recomputed.
pub open spec fn spec_finalize_tx(s: StateView, now: u64, instr: Instruction) -> Outcome<
    (StateView, Out),
    ContractError,
> {
    let id = instr.tx_id;
    let c = instr.commitment;
    let head = seq![num_attr("finalized_tx"@, id as nat), ("committed"@, bool_text(c))];
    let ended = s.time_logs.insert(
        id,
        TimeInfo { start_time: s.time_logs[id].start_time, end_time: Some(now) },
    );
    match first_pending(s.pending, id, 0) {
        None => match first_secondary(s.secondary, id, 0) {
            None => Outcome::Failed(ContractError::TxNotFound(id)),
            Some(pos) => if !s.time_logs.contains_key(id) {
                Outcome::Failed(ContractError::StdError(StdFailure::NotFound(StoredItem::TimeInfo(id))))
            } else {
                let sec1 = s.secondary.update(
                    pos as int,
                    ScopeExecutedTx { received_instruction: Some(c), ..s.secondary[pos as int] },
                );
                let start = if pos == 0 {
                    mfs_scope(s.mfs)
                } else {
                    sec1[pos - 1].updated_scope
                };
                match flush_spec(s.chain_id, s.my_channel, now, sec1, pos, start) {
                    Outcome::Done((sec2, (a, m))) => Outcome::Done(
                        (
                            StateView { secondary: sec2, time_logs: ended, ..s },
                            (
                                head + a + seq![
                                    num_attr("finalized_scope_tx"@, id as nat),
                                    ("committed"@, bool_text(c)),
                                ],
                                m,
                            ),
                        ),
                    ),
                    Outcome::Failed(e) => Outcome::Failed(e),
                    Outcome::Aborted => Outcome::Aborted,
                }
            },
        },
        Some(pos) => if !s.time_logs.contains_key(id) {
            Outcome::Failed(ContractError::StdError(StdFailure::NotFound(StoredItem::TimeInfo(id))))
        } else {
            let n: int = if c {
                1
            } else {
                0
            };
            let mfs1 = select_branches(s.mfs, pos, n);
            match revote_spec(s, now, id, mfs1, s.pending.remove(pos as int), pos) {
                Outcome::Done((pend2, (a1, m1))) => {
                    let count = match first_undecided(s.secondary, 0) {
                        Some(p) => p,
                        None => 0,
                    };
                    match apply_decided(mfs1, s.secondary, 0, count) {
                        None => Outcome::Aborted,
                        Some(mfs2) => {
                            let sec2 = s.secondary.subrange(count as int, s.secondary.len() as int);
                            if sec2.len() == 0 && s.waiting.len() == 0 {
                                Outcome::Done(
                                    (
                                        StateView {
                                            mfs: mfs2,
                                            pending: pend2,
                                            secondary: sec2,
                                            time_logs: ended,
                                            ..s
                                        },
                                        (head + a1, m1),
                                    ),
                                )
                            } else {
                                prefixed(
                                    head + a1,
                                    m1,
                                    refill_spec(s, now, id, mfs2, pend2, sec2, ended),
                                )
                            }
                        },
                    }
                },
                Outcome::Failed(e) => Outcome::Failed(e),
                Outcome::Aborted => Outcome::Aborted,
            }
        },
    }
}

} // verus!

verus! {

proof fn lemma_branch_index_bound(k: int, p: int, q: int, n: int)
    requires
        p > 0,
        q > 0,
        0 <= k < q * p,
        0 <= n <= 1,
    ensures
        0 <= (k / p) * (2 * p) + n * p + k % p < 2 * (q * p),
        0 <= (k / p) * (2 * p),
        0 <= n * p,
        0 <= k % p,
        2 * p <= 2 * (q * p),
{
    vstd::arithmetic::div_mod::lemma_fundamental_div_mod(k, p);
    vstd::arithmetic::div_mod::lemma_mod_bound(k, p);
    vstd::arithmetic::div_mod::lemma_div_pos_is_pos(k, p);
    let d = k / p;
    let r = k % p;
    assert(d < q) by (nonlinear_arith)
        requires
            k == p * d + r,
            0 <= r,
            k < q * p,
            p > 0,
    ;
    assert(0 <= d * (2 * p) + n * p + r < 2 * (q * p) && 0 <= d * (2 * p) && 0 <= n * p && 2 * p
        <= 2 * (q * p)) by (nonlinear_arith)
        requires
            d < q,
            0 <= d,
            0 <= r < p,
            0 <= n <= 1,
            p > 0,
            q > 0,
    ;
}

/// The multi-future once pending transaction `pos` (of `k` pending ones) is
/// decided with outcome `n`.
fn select_branches_exec(mfs: &Vec<Option<i64>>, k: usize, pos: usize, n: usize) -> (r: Vec<Option<i64>>)
    requires
        mfs@.len() == pow2(k as nat),
        pos < k,
        n <= 1,
    ensures
        r@ == select_branches(mfs@, pos as nat, n as int),
        r@.len() == pow2((k - 1) as nat),
{
    let len = mfs.len();
    proof {
        vstd::arithmetic::power2::lemma_pow2_unfold(k as nat);
        vstd::arithmetic::power2::lemma_pow2_adds((k - 1 - pos) as nat, pos as nat);
        vstd::arithmetic::power2::lemma_pow2_pos((k - 1 - pos) as nat);
        vstd::arithmetic::power2::lemma_pow2_pos(pos as nat);
        vstd::arithmetic::power2::lemma_pow2_strictly_increases(pos as nat, k as nat);
        if pos + 1 < k {
            vstd::arithmetic::power2::lemma_pow2_strictly_increases(pos as nat + 1, k as nat);
        }
        lemma_pow2_bound(pos as nat, len as nat);
    }
    let p = pow2_usize(pos);
    let half = len / 2;
    let ghost q = pow2((k - 1 - pos) as nat) as int;
    assert(half == q * p);
    let mut out: Vec<Option<i64>> = Vec::new();
    let mut j: usize = 0;
    while j < half
        invariant
            j <= half,
            half == len / 2,
            len == 2 * half,
            len == mfs@.len(),
            half == q * p,
            q > 0,
            p > 0,
            p == pow2(pos as nat),
            n <= 1,
            out@ =~= select_branches(mfs@, pos as nat, n as int).take(j as int),
        decreases half - j,
    {
        proof {
            lemma_branch_index_bound(j as int, p as int, q, n as int);
        }
        let idx = (j / p) * (2 * p) + n * p + j % p;
        assert(idx == branch_index(j as int, pos as nat, n as int));
        out.push(mfs[idx]);
        j = j + 1;
    }
    assert(select_branches(mfs@, pos as nat, n as int).take(j as int) =~= select_branches(
        mfs@,
        pos as nat,
        n as int,
    ));
    out
}

fn first_pending_exec(p: &Vec<(u32, bool)>, id: u32, i: usize) -> (r: Option<usize>)
    requires
        i <= p@.len(),
    ensures
        match first_pending(p@, id, i as nat) {
            Some(x) => r == Some(x as usize) && x < p@.len() && p@[x as int].0 == id,
            None => r is None,
        },
    decreases p@.len() - i,
{
    if i >= p.len() {
        None
    } else if p[i].0 == id {
        Some(i)
    } else {
        first_pending_exec(p, id, i + 1)
    }
}

fn first_secondary_exec(p: &Vec<ScopeExecutedTx>, id: u32, i: usize) -> (r: Option<usize>)
    requires
        i <= p@.len(),
    ensures
        match first_secondary(p@, id, i as nat) {
            Some(x) => r == Some(x as usize) && x < p@.len(),
            None => r is None,
        },
    decreases p@.len() - i,
{
    if i >= p.len() {
        None
    } else if p[i].tx.tx_id == id {
        Some(i)
    } else {
        first_secondary_exec(p, id, i + 1)
    }
}

fn first_undecided_exec(p: &Vec<ScopeExecutedTx>, i: usize) -> (r: Option<usize>)
    requires
        i <= p@.len(),
    ensures
        match first_undecided(p@, i as nat) {
            Some(x) => r == Some(x as usize) && x < p@.len(),
            None => r is None,
        },
    decreases p@.len() - i,
{
    if i >= p.len() {
        None
    } else if p[i].received_instruction.is_none() {
        Some(i)
    } else {
        first_undecided_exec(p, i + 1)
    }
}

proof fn lemma_apply_decided_len(mfs: Seq<Option<i64>>, sec: Seq<ScopeExecutedTx>, j: nat, count: nat)
    ensures
        apply_decided(mfs, sec, j, count) matches Some(m) ==> m.len() == mfs.len(),
    decreases count - j,
{
    if j < count {
        if sec[j as int].received_instruction == Some(true) {
            if values_fit(mfs, sec[j as int].tx.operation) {
                lemma_apply_decided_len(apply_all(mfs, sec[j as int].tx.operation), sec, j + 1, count);
            }
        } else {
            lemma_apply_decided_len(mfs, sec, j + 1, count);
        }
    }
}

fn apply_decided_exec(mfs: Vec<Option<i64>>, sec: &Vec<ScopeExecutedTx>, j: usize, count: usize) -> (r:
    Option<Vec<Option<i64>>>)
    requires
        j <= count <= sec@.len(),
    ensures
        match apply_decided(mfs@, sec@, j as nat, count as nat) {
            Some(m) => r matches Some(v) && v@ == m,
            None => r is None,
        },
    decreases count - j,
{
    if j >= count {
        return Some(mfs);
    }
    if sec[j].received_instruction == Some(true) {
        if !values_fit_exec(&mfs, &sec[j].tx.operation) {
            return None;
        }
        let next = execute_app_logic(&mfs, &sec[j].tx.operation);
        apply_decided_exec(next, sec, j + 1, count)
    } else {
        apply_decided_exec(mfs, sec, j + 1, count)
    }
}

fn transfer_exec(
    sec: &mut Vec<ScopeExecutedTx>,
    wait: &mut Vec<FcrossTx>,
    tl: &mut std::collections::BTreeMap<u32, TimeInfo>,
    now: u64,
    count: usize,
)
    ensures
        (final(sec)@, final(wait)@, final(tl)@) == transfer_spec(
            old(sec)@,
            old(wait)@,
            old(tl)@,
            now,
            count as nat,
        ),
        final(sec)@.len() == old(sec)@.len() + min_nat(count as nat, old(wait)@.len()),
    decreases count,
{
    if count == 0 || wait.len() == 0 {
        return;
    }
    let ghost w0 = wait@;
    let tx = wait.remove(0);
    assert(wait@ =~= w0.subrange(1, w0.len() as int));
    tl.insert(tx.tx_id, TimeInfo { start_time: now, end_time: None });
    sec.push(fresh_secondary_exec(tx));
    transfer_exec(sec, wait, tl, now, count - 1);
}

fn fresh_secondary_exec(tx: FcrossTx) -> (r: ScopeExecutedTx)
    ensures
        r == fresh_secondary(tx),
{
    ScopeExecutedTx { tx, updated_scope: (0, 0), voted: false, received_instruction: None }
}

} // verus!

verus! {

/// The elements of `v` from `count` on.
fn skip_exec<T: Copy>(v: &Vec<T>, count: usize) -> (r: Vec<T>)
    requires
        count <= v@.len(),
    ensures
        r@ == v@.subrange(count as int, v@.len() as int),
{
    let mut out: Vec<T> = Vec::new();
    let mut i: usize = count;
    while i < v.len()
        invariant
            count <= i <= v@.len(),
            out@ =~= v@.subrange(count as int, i as int),
        decreases v@.len() - i,
    {
        out.push(v[i]);
        i = i + 1;
    }
    out
}

/// Appends the attributes and votes of `b` to those of `a`.
fn append_out(
    a: &mut Vec<(String, String)>,
    am: &mut Vec<Packet<Vote>>,
    b: Vec<(String, String)>,
    bm: Vec<Packet<Vote>>,
)
    ensures
        final(a).deep_view() == old(a).deep_view() + b.deep_view(),
        final(am).deep_view() == old(am).deep_view() + bm.deep_view(),
{
    let ghost a0 = a.deep_view();
    let ghost m0 = am.deep_view();
    let ghost bd = b.deep_view();
    let ghost bmd = bm.deep_view();
    let mut b = b;
    let mut bm = bm;
    a.append(&mut b);
    am.append(&mut bm);
    assert(a.deep_view() =~= a0 + bd);
    assert(am.deep_view() =~= m0 + bmd);
}

impl ContractState {
    fn revote_exec(
        &self,
        now: u64,
        attr_id: u32,
        mfs: &Vec<Option<i64>>,
        pending: Vec<(u32, bool)>,
        i: usize,
    ) -> (r: Outcome<(Vec<(u32, bool)>, Vec<(String, String)>, Vec<Packet<Vote>>), ContractError>)
        requires
            i <= pending@.len(),
            mfs@.len() == pow2(pending@.len()),
        ensures
            match revote_spec(self@, now, attr_id, mfs@, pending@, i as nat) {
                Outcome::Done((p, (a, m))) => r matches Outcome::Done((p2, a2, m2)) && p2@ == p
                    && a2.deep_view() == a && m2.deep_view() == m && p2@.len() == pending@.len(),
                Outcome::Failed(e) => r matches Outcome::Failed(e2) && e2 == e,
                Outcome::Aborted => r is Aborted,
            },
        decreases pending@.len() - i,
    {
        let mut pending = pending;
        if i >= pending.len() {
            let r = (pending, Vec::new(), Vec::new());
            assert(r.1.deep_view() =~= seq![]);
            assert(r.2.deep_view() =~= seq![]);
            return Outcome::Done(r);
        }
        if pending[i].1 {
            return self.revote_exec(now, attr_id, mfs, pending, i + 1);
        }
        proof {
            if i + 1 < pending@.len() {
                vstd::arithmetic::power2::lemma_pow2_strictly_increases(
                    i as nat + 1,
                    pending@.len(),
                );
            }
        }
        let st = check_execution_stautus(mfs, i);
        match st {
            ExecutionStatus::Uncertainty => self.revote_exec(now, attr_id, mfs, pending, i + 1),
            _ => {
                let tx_id = pending[i].0;
                match self.vote_if_certain_exec(tx_id, attr_id, st, now) {
                    Outcome::Done((a, m)) => {
                        pending.set(i, (tx_id, true));
                        match self.revote_exec(now, attr_id, mfs, pending, i + 1) {
                            Outcome::Done((p2, a2, m2)) => {
                                let mut a = a;
                                let mut m = m;
                                append_out(&mut a, &mut m, a2, m2);
                                Outcome::Done((p2, a, m))
                            },
                            Outcome::Failed(e) => Outcome::Failed(e),
                            Outcome::Aborted => Outcome::Aborted,
                        }
                    },
                    Outcome::Failed(e) => Outcome::Failed(e),
                    Outcome::Aborted => Outcome::Aborted,
                }
            },
        }
    }

    fn refill_exec(
        &self,
        now: u64,
        attr_id: u32,
        mfs: Vec<Option<i64>>,
        pending: Vec<(u32, bool)>,
        sec: Vec<ScopeExecutedTx>,
        tl: std::collections::BTreeMap<u32, TimeInfo>,
    ) -> (r: Outcome<
        (
            Vec<Option<i64>>,
            Vec<(u32, bool)>,
            Vec<ScopeExecutedTx>,
            Vec<FcrossTx>,
            std::collections::BTreeMap<u32, TimeInfo>,
            Vec<(String, String)>,
            Vec<Packet<Vote>>,
        ),
        ContractError,
    >)
        requires
            sec@.len() > 0 || self@.waiting.len() > 0,
            mfs@.len() == pow2(pending@.len()),
            sec@.len() <= MAX_SECONDARY_PENDING_LEN,
        ensures
            match refill_spec(self@, now, attr_id, mfs@, pending@, sec@, tl@) {
                Outcome::Done((s2, (a, m))) => r matches Outcome::Done((m3, p3, s3, w3, t3, a3, ms3))
                    && m3@ == s2.mfs && p3@ == s2.pending && s3@ == s2.secondary && w3@ == s2.waiting
                    && t3@ == s2.time_logs && a3.deep_view() == a && ms3.deep_view() == m
                    && p3@.len() == pending@.len() + 1 && m3@.len() == 2 * mfs@.len()
                    && s3@.len() <= MAX_SECONDARY_PENDING_LEN,
                Outcome::Failed(e) => r matches Outcome::Failed(e2) && e2 == e,
                Outcome::Aborted => r is Aborted,
            },
    {
        let mut sec = sec;
        let mut tl = tl;
        let mut wait = self.waiting.clone();
        assert(wait@ =~= self@.waiting);
        let from_secondary = sec.len() > 0;
        let (new_tx, voted) = if from_secondary {
            let ghost s0 = sec@;
            let stx = sec.remove(0);
            assert(sec@ =~= s0.subrange(1, s0.len() as int));
            (stx.tx, stx.voted)
        } else {
            let ghost w0 = wait@;
            let tx = wait.remove(0);
            assert(wait@ =~= w0.subrange(1, w0.len() as int));
            tl.insert(tx.tx_id, TimeInfo { start_time: now, end_time: None });
            (tx, false)
        };
        if !values_fit_exec(&mfs, &new_tx.operation) {
            return Outcome::Aborted;
        }
        let new_values = execute_app_logic(&mfs, &new_tx.operation);
        let mut mfs = mfs;
        let ghost mfs0 = mfs@;
        let mut nv = new_values;
        mfs.append(&mut nv);
        assert(mfs@ =~= mfs0 + apply_all(mfs0, new_tx.operation));
        proof {
            vstd::arithmetic::power2::lemma_pow2_unfold(pending@.len() + 1);
        }
        let st = check_execution_stautus(&mfs, pending.len());
        let (mut attrs, mut msgs) = if !voted {
            match self.vote_if_certain_exec(new_tx.tx_id, attr_id, st, now) {
                Outcome::Done(x) => x,
                Outcome::Failed(e) => {
                    return Outcome::Failed(e);
                },
                Outcome::Aborted => {
                    return Outcome::Aborted;
                },
            }
        } else {
            let r: (Vec<(String, String)>, Vec<Packet<Vote>>) = (Vec::new(), Vec::new());
            assert(r.0.deep_view() =~= seq![]);
            assert(r.1.deep_view() =~= seq![]);
            r
        };
        let certain_now = match st {
            ExecutionStatus::Uncertainty => false,
            _ => true,
        };
        let mut pending = pending;
        pending.push((new_tx.tx_id, certain_now));
        let room = MAX_SECONDARY_PENDING_LEN - sec.len();
        let num = if room < wait.len() {
            room
        } else {
            wait.len()
        };
        transfer_exec(&mut sec, &mut wait, &mut tl, now, num);
        let scope = get_mfs_scope(&mfs);
        match flush_secondary_list(self.chain_id, &self.my_channel, now, sec, 0, scope) {
            Outcome::Done((sec5, a3, m3)) => {
                append_out(&mut attrs, &mut msgs, a3, m3);
                Outcome::Done((mfs, pending, sec5, wait, tl, attrs, msgs))
            },
            Outcome::Failed(e) => Outcome::Failed(e),
            Outcome::Aborted => Outcome::Aborted,
        }
    }

    /// Applies the coordinator's instruction (see [`spec_finalize_tx`]).
    pub fn finalize_tx(&mut self, now: u64, instr: Instruction) -> (r: Outcome<Response, ContractError>)
        requires
            old(self).wf(),
        ensures
            final(self).wf(),
            step_matches(spec_finalize_tx(old(self)@, now, instr), old(self)@, final(self)@, r),
    {
        let id = instr.tx_id;
        let c = instr.commitment;
        let mut attrs: Vec<(String, String)> = Vec::new();
        attrs.push(num_attr_exec("finalized_tx", id as u64));
        attrs.push((String::from_str("committed"), bool_string(c)));
        let ghost head = seq![num_attr("finalized_tx"@, id as nat), ("committed"@, bool_text(c))];
        assert(attrs.deep_view() =~= head);
        match first_pending_exec(&self.pending, id, 0) {
            None => {
                let pos = match first_secondary_exec(&self.secondary, id, 0) {
                    None => {
                        return Outcome::Failed(ContractError::TxNotFound(id));
                    },
                    Some(p) => p,
                };
                let start_time = match self.time_logs.get(&id) {
                    None => {
                        return Outcome::Failed(
                            ContractError::StdError(StdFailure::NotFound(StoredItem::TimeInfo(id))),
                        );
                    },
                    Some(t) => t.start_time,
                };
                let mut sec = self.secondary.clone();
                assert(sec@ =~= self@.secondary);
                let old_stx = sec[pos];
                sec.set(pos, ScopeExecutedTx { received_instruction: Some(c), ..old_stx });
                let start = if pos == 0 {
                    get_mfs_scope(&self.mfs)
                } else {
                    sec[pos - 1].updated_scope
                };
                match flush_secondary_list(self.chain_id, &self.my_channel, now, sec, pos, start) {
                    Outcome::Done((sec2, a, m)) => {
                        self.time_logs.insert(id, TimeInfo { start_time, end_time: Some(now) });
                        self.secondary = sec2;
                        let mut msgs: Vec<Packet<Vote>> = Vec::new();
                        append_out(&mut attrs, &mut msgs, a, m);
                        let ghost a1 = attrs.deep_view();
                        attrs.push(num_attr_exec("finalized_scope_tx", id as u64));
                        attrs.push((String::from_str("committed"), bool_string(c)));
                        proof {
                            assert(attrs.deep_view() =~= a1 + seq![
                                num_attr("finalized_scope_tx"@, id as nat),
                                ("committed"@, bool_text(c)),
                            ]);
                            assert(msgs.deep_view() =~= m.deep_view());
                        }
                        Outcome::Done(Response { attributes: attrs, messages: msgs })
                    },
                    Outcome::Failed(e) => Outcome::Failed(e),
                    Outcome::Aborted => Outcome::Aborted,
                }
            },
            Some(pos) => {
                let start_time = match self.time_logs.get(&id) {
                    None => {
                        return Outcome::Failed(
                            ContractError::StdError(StdFailure::NotFound(StoredItem::TimeInfo(id))),
                        );
                    },
                    Some(t) => t.start_time,
                };
                let n: usize = if c {
                    1
                } else {
                    0
                };
                let k = self.pending.len();
                let mfs1 = select_branches_exec(&self.mfs, k, pos, n);
                let mut pend1 = skip_exec(&self.pending, 0);
                assert(pend1@ =~= self@.pending);
                pend1.remove(pos);
                let (pend2, a1, m1) = match self.revote_exec(now, id, &mfs1, pend1, pos) {
                    Outcome::Done(x) => x,
                    Outcome::Failed(e) => {
                        return Outcome::Failed(e);
                    },
                    Outcome::Aborted => {
                        return Outcome::Aborted;
                    },
                };
                let count = match first_undecided_exec(&self.secondary, 0) {
                    Some(p) => p,
                    None => 0,
                };
                proof {
                    lemma_apply_decided_len(mfs1@, self@.secondary, 0, count as nat);
                }
                let mfs2 = match apply_decided_exec(mfs1, &self.secondary, 0, count) {
                    None => {
                        return Outcome::Aborted;
                    },
                    Some(v) => v,
                };
                let sec2 = skip_exec(&self.secondary, count);
                let mut tl = self.time_logs.clone();
                tl.insert(id, TimeInfo { start_time, end_time: Some(now) });
                let mut msgs: Vec<Packet<Vote>> = Vec::new();
                append_out(&mut attrs, &mut msgs, a1, m1);
                if sec2.len() == 0 && self.waiting.len() == 0 {
                    self.mfs = mfs2;
                    self.pending = pend2;
                    self.secondary = sec2;
                    self.time_logs = tl;
                    proof {
                        vstd::arithmetic::power2::lemma_pow2_unfold(k as nat);
                    }
                    return Outcome::Done(Response { attributes: attrs, messages: msgs });
                }
                match self.refill_exec(now, id, mfs2, pend2, sec2, tl) {
                    Outcome::Done((mfs3, pend3, sec5, wait4, tl4, a2, m2)) => {
                        self.mfs = mfs3;
                        self.pending = pend3;
                        self.secondary = sec5;
                        self.waiting = wait4;
                        self.time_logs = tl4;
                        append_out(&mut attrs, &mut msgs, a2, m2);
                        proof {
                            vstd::arithmetic::power2::lemma_pow2_unfold(k as nat);
                        }
                        Outcome::Done(Response { attributes: attrs, messages: msgs })
                    },
                    Outcome::Failed(e) => Outcome::Failed(e),
                    Outcome::Aborted => Outcome::Aborted,
                }
            },
        }
    }
}

} // verus!

verus! {

/// A list of new transactions, executed one after the other; the first
/// failure fails them all.
pub open spec fn spec_execute_txs(s: StateView, now: u64, txs: Seq<FcrossTx>, i: nat) -> Outcome<
    (StateView, Out),
    ContractError,
>
    decreases txs.len() - i,
{
    if i >= txs.len() {
        Outcome::Done((s, (seq![], seq![])))
    } else {
        match spec_execute_tx(s, now, txs[i as int]) {
            Outcome::Done((s2, (a, m))) => prefixed(a, m, spec_execute_txs(s2, now, txs, i + 1)),
            Outcome::Failed(e) => Outcome::Failed(e),
            Outcome::Aborted => Outcome::Aborted,
        }
    }
}

/// A request to the contract.
pub open spec fn spec_execute(s: StateView, now: u64, msg: ExecuteMsg) -> Outcome<
    (StateView, Out),
    ContractError,
> {
    match msg {
        ExecuteMsg::ExecuteTxs { fcross_txs } => spec_execute_txs(s, now, fcross_txs@, 0),
        ExecuteMsg::FinalizeTx { instruction } => spec_finalize_tx(s, now, instruction),
    }
}

/// The state right after instantiation.
pub open spec fn initial_state(msg: InstantiateMsg) -> StateView {
    StateView {
        chain_id: msg.chain_id,
        mfs: seq![Some(msg.original_value)],
        history: seq![],
        pending: seq![],
        secondary: seq![],
        waiting: seq![],
        my_channel: None,
        err_logs: "start:"@,
        time_logs: Map::empty(),
    }
}

/// The attributes of instantiation.
pub open spec fn instantiate_attrs(msg: InstantiateMsg) -> Seq<AttrView> {
    seq![
        ("method"@, "instantiate"@),
        ("initiated_chain"@, dec_nat(msg.chain_id as nat)),
        ("original_value"@, dec_int(msg.original_value as int)),
    ]
}

/// Sets up the contract: one branch holding the original balance, empty
/// lists, no channel yet.
pub fn instantiate(msg: InstantiateMsg) -> (r: (ContractState, Vec<(String, String)>))
    ensures
        r.0@ == initial_state(msg),
        r.0.wf(),
        r.1.deep_view() == instantiate_attrs(msg),
{
    let mut mfs: Vec<Option<i64>> = Vec::new();
    mfs.push(Some(msg.original_value));
    let state = ContractState {
        chain_id: msg.chain_id,
        mfs,
        history: Vec::new(),
        pending: Vec::new(),
        secondary: Vec::new(),
        waiting: Vec::new(),
        my_channel: None,
        err_logs: String::from_str("start:"),
        time_logs: std::collections::BTreeMap::new(),
    };
    let mut attrs: Vec<(String, String)> = Vec::new();
    attrs.push((String::from_str("method"), String::from_str("instantiate")));
    attrs.push((String::from_str("initiated_chain"), dec_u64(msg.chain_id as u64)));
    attrs.push((String::from_str("original_value"), dec_i64(msg.original_value)));
    proof {
        vstd::arithmetic::power2::lemma2_to64();
        assert(attrs.deep_view() =~= instantiate_attrs(msg));
        assert(state@ =~= initial_state(msg));
    }
    (state, attrs)
}

/// A copy of a channel.
pub fn copy_channel(c: &Option<ChannelInfo>) -> (r: Option<ChannelInfo>)
    ensures
        channel_view(r) == channel_view(*c),
{
    match c {
        Some(c) => Some(ChannelInfo { channel_id: c.channel_id.clone(), finalized: c.finalized }),
        None => None,
    }
}

impl ContractState {
    /// A copy of the state.
    pub fn copy(&self) -> (r: Self)
        ensures
            r@ == self@,
    {
        let r = ContractState {
            chain_id: self.chain_id,
            mfs: skip_exec(&self.mfs, 0),
            history: skip_exec(&self.history, 0),
            pending: skip_exec(&self.pending, 0),
            secondary: skip_exec(&self.secondary, 0),
            waiting: skip_exec(&self.waiting, 0),
            my_channel: copy_channel(&self.my_channel),
            err_logs: self.err_logs.clone(),
            time_logs: self.time_logs.clone(),
        };
        assert(r@ =~= self@);
        r
    }

    fn execute_txs_from(&mut self, now: u64, txs: &Vec<FcrossTx>, i: usize) -> (r: Outcome<
        Response,
        ContractError,
    >)
        requires
            old(self).wf(),
            i <= txs@.len(),
        ensures
            final(self).wf(),
            match spec_execute_txs(old(self)@, now, txs@, i as nat) {
                Outcome::Done((s2, (a, m))) => r matches Outcome::Done(resp) && final(self)@ == s2
                    && resp@.attributes == a && resp@.messages == m,
                Outcome::Failed(e) => r matches Outcome::Failed(e2) && e2 == e,
                Outcome::Aborted => r is Aborted,
            },
        decreases txs@.len() - i,
    {
        if i >= txs.len() {
            let resp = Response { attributes: Vec::new(), messages: Vec::new() };
            assert(resp@.attributes =~= seq![]);
            assert(resp@.messages =~= seq![]);
            return Outcome::Done(resp);
        }
        match self.execute_tx(now, txs[i]) {
            Outcome::Done(first) => {
                match self.execute_txs_from(now, txs, i + 1) {
                    Outcome::Done(rest) => {
                        let mut attrs = first.attributes;
                        let mut msgs = first.messages;
                        append_out(&mut attrs, &mut msgs, rest.attributes, rest.messages);
                        Outcome::Done(Response { attributes: attrs, messages: msgs })
                    },
                    Outcome::Failed(e) => Outcome::Failed(e),
                    Outcome::Aborted => Outcome::Aborted,
                }
            },
            Outcome::Failed(e) => Outcome::Failed(e),
            Outcome::Aborted => Outcome::Aborted,
        }
    }

    /// Handles a request; when it fails the state is left as it was, and
    /// `Aborted` marks the requests on which the contract panics.
    pub fn execute_outcome(&mut self, now: u64, msg: &ExecuteMsg) -> (r: Outcome<
        Response,
        ContractError,
    >)
        requires
            old(self).wf(),
        ensures
            final(self).wf(),
            step_matches(spec_execute(old(self)@, now, *msg), old(self)@, final(self)@, r),
    {
        match msg {
            ExecuteMsg::ExecuteTxs { fcross_txs } => {
                let mut work = self.copy();
                let r = work.execute_txs_from(now, fcross_txs, 0);
                match r {
                    Outcome::Done(resp) => {
                        *self = work;
                        Outcome::Done(resp)
                    },
                    Outcome::Failed(e) => Outcome::Failed(e),
                    Outcome::Aborted => Outcome::Aborted,
                }
            },
            ExecuteMsg::FinalizeTx { instruction } => self.finalize_tx(now, *instruction),
        }
    }

    /// Handles a request on which the contract does not panic.
    pub fn execute(&mut self, now: u64, msg: &ExecuteMsg) -> (r: Result<Response, ContractError>)
        requires
            old(self).wf(),
            !(spec_execute(old(self)@, now, *msg) is Aborted),
        ensures
            final(self).wf(),
            match spec_execute(old(self)@, now, *msg) {
                Outcome::Done((s2, (a, m))) => r matches Ok(resp) && final(self)@ == s2
                    && resp@.attributes == a && resp@.messages == m,
                Outcome::Failed(e) => r == Err::<Response, ContractError>(e) && final(self)@ == old(self)@,
                Outcome::Aborted => false,
            },
    {
        match self.execute_outcome(now, msg) {
            Outcome::Done(resp) => Ok(resp),
            Outcome::Failed(e) => Err(e),
            Outcome::Aborted => Err(ContractError::TxNotFound(0)),
        }
    }

    /// Handles a request, or returns `None` (leaving the state as it was)
    /// exactly on the requests on which the contract panics.
    pub fn try_execute(&mut self, now: u64, msg: &ExecuteMsg) -> (r: Option<Result<Response, ContractError>>)
        requires
            old(self).wf(),
        ensures
            final(self).wf(),
            match spec_execute(old(self)@, now, *msg) {
                Outcome::Done((s2, (a, m))) => r matches Some(Ok(resp)) && final(self)@ == s2
                    && resp@.attributes == a && resp@.messages == m,
                Outcome::Failed(e) => r == Some(Err::<Response, ContractError>(e)) && final(self)@ == old(self)@,
                Outcome::Aborted => r is None && final(self)@ == old(self)@,
            },
    {
        match self.execute_outcome(now, msg) {
            Outcome::Done(resp) => Some(Ok(resp)),
            Outcome::Failed(e) => Some(Err(e)),
            Outcome::Aborted => None,
        }
    }
}

} // verus!

verus! {

/// The text of each branch of a multi-future.
pub fn future_texts(mf: &Vec<Option<i64>>) -> (r: Vec<String>)
    ensures
        r.deep_view() == mf@.map_values(|o: Option<i64>| option_text(o)),
{
    let mut out: Vec<String> = Vec::new();
    let mut i: usize = 0;
    while i < mf.len()
        invariant
            i <= mf@.len(),
            out.deep_view() =~= mf@.take(i as int).map_values(|o: Option<i64>| option_text(o)),
        decreases mf@.len() - i,
    {
        let t = option_string(mf[i]);
        let ghost before = out.deep_view();
        out.push(t);
        proof {
            assert(out.deep_view() =~= before.push(t@));
            assert(mf@.take(i + 1).map_values(|o: Option<i64>| option_text(o)) =~= mf@.take(
                i as int,
            ).map_values(|o: Option<i64>| option_text(o)).push(option_text(mf@[i as int])));
        }
        i = i + 1;
    }
    assert(mf@.take(mf@.len() as int) =~= mf@);
    out
}

impl ContractState {
    /// The multi-future, one text per branch.
    pub fn multifuture(&self) -> (r: MultifutureResp)
        ensures
            r.futures.deep_view() == self@.mfs.map_values(|o: Option<i64>| option_text(o)),
    {
        MultifutureResp { futures: future_texts(&self.mfs) }
    }

    /// The time log, one line per transaction in ascending order of transaction.
    pub fn my_time_logs(&self) -> (r: MyTimeLogsResp)
        ensures
            r.logs.deep_view() == time_log_texts(self@.time_logs),
    {
        MyTimeLogsResp { logs: time_log_lines(&self.time_logs) }
    }
}

} // verus!
