//! What every successful step of the multi-future chain keeps.
use vstd::prelude::*;
use vstd::arithmetic::power2::{lemma_pow2_unfold, pow2};
use crate::chain::{ActionView, Outcome};
use crate::fc_basic::contract::{
    index_of, initial_state, keep_bits, spec_execute, spec_execute_tx, spec_execute_txs, spec_finalize_step,
    update_spec,
};
use crate::fc_basic::state::StateView;
use crate::fc_exec::laws::lemma_select_is_filter;
use crate::fc_stor::msg::{ExecuteMsg, FcrossTx, InstantiateMsg, Instruction, Vote};

verus! {

/// The history is never empty and names no transaction twice, and the latest
/// transaction has a multi-future with one branch for each combination of
/// outcomes of the pending transactions.
pub open spec fn branches_match_pending(s: StateView) -> bool {
    &&& s.history.len() > 0
    &&& s.history.no_duplicates()
    &&& s.mf_map.contains_key(s.history.last())
    &&& s.mf_map[s.history.last()].len() == pow2(s.pending.len())
}

/// The chain starts with one branch and nothing pending.
pub proof fn lemma_instantiate_matches(msg: InstantiateMsg)
    ensures
        branches_match_pending(initial_state(msg)),
{
    let s = initial_state(msg);
    assert(s.history =~= seq![0u32]);
    assert(s.pending.len() == 0);
    vstd::arithmetic::power2::lemma2_to64();
}

/// A position that `index_of` finds holds the value searched for.
proof fn lemma_index_of(s: Seq<u32>, x: u32, i: nat)
    ensures
        index_of(s, x, i) matches Some(p) ==> i <= p < s.len() && s[p as int] == x,
    decreases s.len() - i,
{
    if i < s.len() && s[i as int] != x {
        lemma_index_of(s, x, i + 1);
    }
}

/// Deciding a pending transaction leaves the multi-future of a transaction
/// of `hist[j..]` filtered by the decision.
proof fn lemma_update_filters(
    s: StateView,
    now: u64,
    pos: nat,
    n: int,
    hist: Seq<u32>,
    j: nat,
    mfm: Map<u32, Seq<Option<i64>>>,
    vm: Map<u32, bool>,
    k: int,
)
    requires
        hist.no_duplicates(),
        j <= k < hist.len(),
    ensures
        update_spec(s, now, pos, n, hist, j, mfm, vm) matches Outcome::Done(((m2, _), _)) ==> m2.contains_key(
            hist[k],
        ) && m2[hist[k]] == keep_bits(mfm[hist[k]], pos, n),
    decreases hist.len() - j,
{
    let x = hist[k];
    let i = hist[j as int];
    if mfm.contains_key(i) {
        let mfm2 = mfm.insert(i, keep_bits(mfm[i], pos, n));
        if i == x {
            lemma_kept_from(s, now, pos, n, hist, j + 1, mfm2, vm, x);
            lemma_kept_from(s, now, pos, n, hist, j + 1, mfm2, vm.insert(i, true), x);
        } else {
            assert(j < k);
            lemma_update_filters(s, now, pos, n, hist, j + 1, mfm2, vm, k);
            lemma_update_filters(s, now, pos, n, hist, j + 1, mfm2, vm.insert(i, true), k);
        }
    }
}

/// A transaction outside `hist[j..]` keeps its multi-future.
proof fn lemma_kept_from(
    s: StateView,
    now: u64,
    pos: nat,
    n: int,
    hist: Seq<u32>,
    j: nat,
    mfm: Map<u32, Seq<Option<i64>>>,
    vm: Map<u32, bool>,
    x: u32,
)
    requires
        forall|t: int| j <= t < hist.len() ==> hist[t] != x,
        mfm.contains_key(x),
    ensures
        update_spec(s, now, pos, n, hist, j, mfm, vm) matches Outcome::Done(((m2, _), _)) ==> m2.contains_key(x)
            && m2[x] == mfm[x],
    decreases hist.len() - j,
{
    if j < hist.len() {
        let i = hist[j as int];
        if mfm.contains_key(i) {
            let mfm2 = mfm.insert(i, keep_bits(mfm[i], pos, n));
            lemma_kept_from(s, now, pos, n, hist, j + 1, mfm2, vm, x);
            lemma_kept_from(s, now, pos, n, hist, j + 1, mfm2, vm.insert(i, true), x);
        }
    }
}

/// Executing one transaction keeps the shape.
proof fn lemma_execute_tx_keeps(s: StateView, now: u64, tx: FcrossTx)
    requires
        branches_match_pending(s),
    ensures
        spec_execute_tx(s, now, tx) matches Outcome::Done((s2, _)) ==> branches_match_pending(s2),
{
    if let Outcome::Done((s2, _)) = spec_execute_tx(s, now, tx) {
        if s2.history.len() != s.history.len() {
            let old = s.mf_map[s.history.last()];
            let p = s.pending.len();
            assert(s2.history.last() == tx.tx_id);
            assert(s2.mf_map[tx.tx_id].len() == 2 * old.len());
            lemma_pow2_unfold(p + 1);
            assert(s2.pending.len() == p + 1);
            assert(s2.history.no_duplicates()) by {
                assert forall|a: int, b: int| 0 <= a < b < s2.history.len() implies s2.history[a]
                    != s2.history[b] by {
                    if b == s.history.len() {
                        assert(s.history.contains(s.history[a]));
                    } else {
                        assert(s2.history[a] == s.history[a]);
                        assert(s2.history[b] == s.history[b]);
                    }
                }
            }
        }
    }
}

/// Executing a list of transactions keeps the shape.
proof fn lemma_execute_txs_keeps(s: StateView, now: u64, txs: Seq<FcrossTx>, i: nat)
    requires
        branches_match_pending(s),
    ensures
        spec_execute_txs(s, now, txs, i) matches Outcome::Done((s2, _)) ==> branches_match_pending(s2),
    decreases txs.len() - i,
{
    if i < txs.len() {
        lemma_execute_tx_keeps(s, now, txs[i as int]);
        if let Outcome::Done((s1, _)) = spec_execute_tx(s, now, txs[i as int]) {
            lemma_execute_txs_keeps(s1, now, txs, i + 1);
        }
    }
}

/// Deciding a pending transaction keeps the shape: the latest multi-future
/// keeps the half of its branches that agrees with the decision, and the
/// transaction leaves the pending list.
proof fn lemma_finalize_keeps(s: StateView, now: u64, instr: Instruction)
    requires
        branches_match_pending(s),
    ensures
        spec_finalize_step(s, now, instr) matches Outcome::Done((s2, _)) ==> branches_match_pending(s2),
{
    let id = instr.tx_id;
    let n: int = if instr.commitment {
        1
    } else {
        0
    };
    if let Outcome::Done((s2, _)) = spec_finalize_step(s, now, instr) {
        lemma_index_of(s.pending, id, 0);
        lemma_index_of(s.history, id, 0);
        let pos = index_of(s.pending, id, 0)->0;
        let hpos = index_of(s.history, id, 0)->0;
        let hist = s.history.subrange(hpos as int, s.history.len() as int);
        let last = s.history.last();
        let k = hist.len() - 1;
        assert(hist[k] == last);
        assert(hist.no_duplicates()) by {
            assert forall|a: int, b: int| 0 <= a < b < hist.len() implies hist[a] != hist[b] by {
                assert(hist[a] == s.history[a + hpos]);
                assert(hist[b] == s.history[b + hpos]);
            }
        }
        lemma_update_filters(s, now, pos, n, hist, 0, s.mf_map, s.mf_vote_map, k);
        let p = s.pending.len();
        lemma_select_is_filter(s.mf_map[last], p, pos, n);
        lemma_pow2_unfold(p);
        assert(s2.history == s.history);
        assert(s2.pending.len() == p - 1);
    }
}

/// Every successful request keeps the shape of the multi-future chain: the
/// latest multi-future has one branch per combination of outcomes of the
/// pending transactions, and the history names no transaction twice.
pub proof fn lemma_step_keeps_branches(s: StateView, now: u64, msg: ExecuteMsg)
    requires
        branches_match_pending(s),
    ensures
        spec_execute(s, now, msg) matches Outcome::Done((s2, _)) ==> branches_match_pending(s2),
{
    match msg {
        ExecuteMsg::ExecuteTxs { fcross_txs } => lemma_execute_txs_keeps(s, now, fcross_txs@, 0),
        ExecuteMsg::FinalizeTx { instruction } => lemma_finalize_keeps(s, now, instruction),
    }
}

/// A successful finalization frees a place: when transactions wait, the
/// first of them leaves the waiting list and is sent back to the contract as
/// the last message; otherwise the waiting list stays empty and nothing is
/// sent back.
pub proof fn lemma_finalize_pulls_next(s: StateView, now: u64, instr: Instruction)
    ensures
        match spec_finalize_step(s, now, instr) {
            Outcome::Done((s2, (_, m))) => {
                &&& s.waiting.len() > 0 ==> s2.waiting == s.waiting.subrange(1, s.waiting.len() as int)
                    && m.len() > 0 && m.last() == ActionView::<Vote, FcrossTx>::Call(s.waiting[0])
                &&& s.waiting.len() == 0 ==> s2.waiting.len() == 0
            },
            _ => true,
        },
{
}

} // verus!
