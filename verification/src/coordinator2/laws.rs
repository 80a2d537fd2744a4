//! What every vote keeps of the two-round coordinator's state.
use vstd::prelude::*;
use vstd::set_lib::{lemma_int_range, lemma_len_subset, set_int_range};
use crate::chain::Outcome;
use crate::coordinator2::contract::{
    can_send, dep_verdict, not_in, other_than, r1_voters, r2_entry, spec_add_r1_vote, spec_add_r2_vote,
    spec_check_ready, spec_receive,
};
use crate::coordinator2::msg::{StatusVote, ValidityVote, Vote};
use crate::coordinator2::state::{reached, StateView};

verus! {

/// Distinct chain ids are at most as many as the values of `u16`.
proof fn lemma_voters_bound(v: Seq<u16>)
    requires
        v.no_duplicates(),
    ensures
        v.len() <= 0x10000,
{
    let w = v.map_values(|x: u16| x as int);
    assert forall|i: int, j: int| 0 <= i < j < w.len() implies w[i] != w[j] by {
        assert(v[i] != v[j]);
    }
    w.unique_seq_to_set();
    lemma_int_range(0, 0x10000);
    assert forall|x: int| w.to_set().contains(x) implies set_int_range(0, 0x10000).contains(x) by {
        let i = choose|i: int| 0 <= i < w.len() && w[i] == x;
        assert(w[i] == v[i] as int);
    }
    lemma_len_subset(w.to_set(), set_int_range(0, 0x10000));
}

/// A count of voters compared with `chain_num` in `u16`.
proof fn lemma_count_u16(x: nat, c: u16)
    requires
        1 <= x <= 0x10000,
        x as u16 == c,
    ensures
        if c == 0 {
            x == 0x10000
        } else {
            x == c
        },
{
    let y: u32 = x as u32;
    assert(y as u16 == c);
    assert(1 <= y <= 0x10000 && y as u16 == c ==> (if c == 0 {
        y == 0x10000
    } else {
        y == c
    })) by (bit_vector);
}

proof fn lemma_push_distinct<A>(v: Seq<A>, x: A)
    requires
        v.no_duplicates(),
        !v.contains(x),
    ensures
        v.push(x).no_duplicates(),
{
    assert forall|i: int, j: int| 0 <= i < j < v.push(x).len() implies v.push(x)[i] != v.push(x)[j] by {
        if j == v.len() {
            assert(v[i] == v.push(x)[i]);
        }
    }
}

/// Filtering keeps elements distinct and keeps exactly those that pass.
proof fn lemma_filter_distinct(v: Seq<u32>, keep: spec_fn(u32) -> bool)
    requires
        v.no_duplicates(),
    ensures
        v.filter(keep).no_duplicates(),
        forall|x: u32| v.filter(keep).contains(x) <==> v.contains(x) && keep(x),
    decreases v.len(),
{
    reveal(Seq::filter);
    if v.len() > 0 {
        let d = v.drop_last();
        assert forall|i: int, j: int| 0 <= i < j < d.len() implies d[i] != d[j] by {
            assert(d[i] == v[i] && d[j] == v[j]);
        }
        lemma_filter_distinct(d, keep);
        assert forall|x: u32| v.contains(x) <==> d.contains(x) || x == v.last() by {
            if v.contains(x) {
                let i = choose|i: int| 0 <= i < v.len() && v[i] == x;
                if i < d.len() {
                    assert(d[i] == x);
                }
            }
            if d.contains(x) {
                let i = choose|i: int| 0 <= i < d.len() && d[i] == x;
                assert(v[i] == x);
            }
        }
        if keep(v.last()) {
            assert(!d.contains(v.last())) by {
                if d.contains(v.last()) {
                    let i = choose|i: int| 0 <= i < d.len() && d[i] == v.last();
                    assert(v[i] == v[v.len() - 1]);
                }
            }
            assert(!d.filter(keep).contains(v.last()));
            lemma_push_distinct(d.filter(keep), v.last());
        }
    }
}

/// What the status round says of the dependencies: commit exactly when every
/// dependency advanced, abort only when one of them was aborted.
pub proof fn lemma_verdict_follows_dependencies(closed_r1: Map<u32, bool>, deps: Seq<u32>)
    ensures
        dep_verdict(closed_r1, deps) == Some(true) <==> forall|i: int|
            0 <= i < deps.len() ==> closed_r1.contains_key(#[trigger] deps[i]) && closed_r1[deps[i]],
        dep_verdict(closed_r1, deps) == Some(false) ==> exists|i: int|
            0 <= i < deps.len() && closed_r1.contains_key(#[trigger] deps[i]) && !closed_r1[deps[i]],
    decreases deps.len(),
{
    if deps.len() > 0 {
        let rest = deps.drop_first();
        lemma_verdict_follows_dependencies(closed_r1, rest);
        assert forall|i: int| 1 <= i < deps.len() implies #[trigger] deps[i] == rest[i - 1] by {}
        if dep_verdict(closed_r1, deps) == Some(false) && closed_r1.contains_key(deps[0]) && closed_r1[deps[0]] {
            let j = choose|j: int| 0 <= j < rest.len() && closed_r1.contains_key(#[trigger] rest[j]) && !closed_r1[rest[j]];
            assert(deps[j + 1] == rest[j]);
        }
        if forall|i: int| 0 <= i < deps.len() ==> closed_r1.contains_key(#[trigger] deps[i]) && closed_r1[deps[i]] {
            assert(closed_r1.contains_key(deps[0]) && closed_r1[deps[0]]);
            assert forall|i: int| 0 <= i < rest.len() implies closed_r1.contains_key(#[trigger] rest[i])
                && closed_r1[rest[i]] by {
                assert(rest[i] == deps[i + 1]);
            }
        }
    }
}

/// The ready transactions from `i` on keep the state consistent; the status
/// decisions stay, the validity decisions taken stay, and each new one is
/// what the status round says of the transaction's dependencies.
proof fn lemma_check_ready(
    s: StateView,
    now: u64,
    snap: Seq<u32>,
    i: nat,
    ready: Seq<u32>,
    acc: Seq<crate::chain::PacketView<crate::coordinator2::msg::Instruction>>,
)
    requires
        s.rounds_wf(),
        s.ready_wf(ready),
        snap.no_duplicates(),
        i <= snap.len(),
        forall|k: int| i <= k < snap.len() ==> s.opening_r2_votes.contains_key(#[trigger] snap[k]),
    ensures
        match spec_check_ready(s, now, snap, i, ready, acc) {
            Outcome::Done((s2, _)) => {
                &&& s2.wf()
                &&& s2.closed_r1_votes == s.closed_r1_votes
                &&& s2.opening_r1_votes == s.opening_r1_votes
                &&& s2.chain_num == s.chain_num
                &&& s2.my_channels == s.my_channels
                &&& s2.err_logs == s.err_logs
                &&& forall|t: u32| #[trigger] s.closed_r2_votes.contains_key(t) ==> s2.closed_r2_votes.contains_key(t)
                    && s2.closed_r2_votes[t] == s.closed_r2_votes[t]
                &&& forall|t: u32| #[trigger] s2.closed_r2_votes.contains_key(t) && !s.closed_r2_votes.contains_key(t)
                    ==> s.opening_r2_votes.contains_key(t) && dep_verdict(
                    s.closed_r1_votes,
                    s.opening_r2_votes[t].0,
                ) == Some(s2.closed_r2_votes[t])
            },
            Outcome::Failed(_) => false,
            Outcome::Aborted => true,
        },
    decreases snap.len() - i,
{
    if i < snap.len() {
        let tx = snap[i as int];
        assert(s.opening_r2_votes.contains_key(tx));
        match dep_verdict(s.closed_r1_votes, s.opening_r2_votes[tx].0) {
            None => {
                lemma_check_ready(s, now, snap, i + 1, ready, acc);
            },
            Some(c) => {
                if can_send(s.my_channels, now) {
                    let s1 = StateView {
                        opening_r2_votes: s.opening_r2_votes.remove(tx),
                        closed_r2_votes: s.closed_r2_votes.insert(tx, c),
                        ..s
                    };
                    let r1 = ready.filter(other_than(tx));
                    lemma_filter_distinct(ready, other_than(tx));
                    assert forall|k: int| 0 <= k < r1.len() implies s1.opening_r2_votes.contains_key(#[trigger] r1[k])
                        && reached(s1.opening_r2_votes[r1[k]].1.len(), s1.chain_num) by {
                        let x = r1[k];
                        assert(r1.contains(x));
                        assert(ready.contains(x) && x != tx);
                        let j = choose|j: int| 0 <= j < ready.len() && ready[j] == x;
                        assert(s.opening_r2_votes.contains_key(ready[j]));
                    }
                    assert forall|k: int| i + 1 <= k < snap.len() implies s1.opening_r2_votes.contains_key(
                        #[trigger] snap[k],
                    ) by {
                        assert(snap[k] != snap[i as int]);
                    }
                    lemma_check_ready(
                        s1,
                        now,
                        snap,
                        i + 1,
                        r1,
                        acc + crate::coordinator2::contract::instruction_packets(
                            s.my_channels,
                            crate::coordinator2::msg::Instruction::Validity(
                                crate::coordinator2::msg::ValidityInstruction { tx_id: tx, commitment: c },
                            ),
                            now,
                        ),
                    );
                    assert forall|t: u32| #[trigger] s.closed_r2_votes.contains_key(t) implies s1.closed_r2_votes.contains_key(t)
                        && s1.closed_r2_votes[t] == s.closed_r2_votes[t] by {
                        assert(t != tx);
                    }
                    assert(s1.closed_r2_votes.contains_key(tx) && s1.closed_r2_votes[tx] == c);
                }
            },
        }
    }
}

/// A status vote on a consistent state.
proof fn lemma_r1_vote(s: StateView, now: u64, v: StatusVote)
    requires
        s.wf(),
    ensures
        match spec_add_r1_vote(s, now, v) {
            Outcome::Done((s2, _)) => {
                &&& s2.wf()
                &&& forall|t: u32| #[trigger] s.closed_r1_votes.contains_key(t) ==> s2.closed_r1_votes.contains_key(t)
                    && s2.closed_r1_votes[t] == s.closed_r1_votes[t]
                &&& s2.closed_r2_votes == s.closed_r2_votes
            },
            Outcome::Failed((s2, _)) => s2 == s,
            Outcome::Aborted => true,
        },
{
    let t = v.tx_id;
    if !(!s.opening_r1_votes.contains_key(t) && s.closed_r1_votes.contains_key(t)) && !r1_voters(s, t).contains(
        v.chain_id,
    ) {
        assert(!s.closed_r1_votes.contains_key(t));
        lemma_push_distinct(r1_voters(s, t), v.chain_id);
    }
}

/// A validity vote on a consistent state.
proof fn lemma_r2_vote(s: StateView, now: u64, v: ValidityVote)
    requires
        s.wf(),
    ensures
        match spec_add_r2_vote(s, now, v) {
            Outcome::Done((s2, _)) => {
                &&& s2.wf()
                &&& s2.closed_r1_votes == s.closed_r1_votes
                &&& forall|t: u32| #[trigger] s.closed_r2_votes.contains_key(t) ==> s2.closed_r2_votes.contains_key(t)
                    && s2.closed_r2_votes[t] == s.closed_r2_votes[t]
                &&& forall|t: u32| #[trigger] s2.closed_r2_votes.contains_key(t) && !s.closed_r2_votes.contains_key(t)
                    ==> dep_verdict(s.closed_r1_votes, gathered(s, v, t)) == Some(s2.closed_r2_votes[t])
            },
            Outcome::Failed((s2, _)) => s2 == s,
            Outcome::Aborted => true,
        },
{
    let tx = v.tx_id;
    if s.closed_r1_votes.contains_key(tx) && s.closed_r1_votes[tx] && !s.closed_r2_votes.contains_key(tx)
        && !r2_entry(s, tx).1.contains(v.chain_id) {
        let deps = r2_entry(s, tx).0;
        let entry = (deps + v.dependencies@.filter(not_in(deps)), r2_entry(s, tx).1.push(v.chain_id));
        let s1 = StateView { opening_r2_votes: s.opening_r2_votes.insert(tx, entry), ..s };
        lemma_push_distinct(r2_entry(s, tx).1, v.chain_id);
        lemma_voters_bound(entry.1);
        assert(s1.rounds_wf());
        if s.opening_r2_votes.contains_key(tx) && reached(s.opening_r2_votes[tx].1.len(), s.chain_num) {
            assert(reached(entry.1.len(), s.chain_num));
        }
        assert(s1.ready_wf(s.ready_txs));
        if entry.1.len() as u16 == s.chain_num {
            lemma_count_u16(entry.1.len(), s.chain_num);
            assert(!s.ready_txs.contains(tx)) by {
                if s.ready_txs.contains(tx) {
                    let j = choose|j: int| 0 <= j < s.ready_txs.len() && s.ready_txs[j] == tx;
                    assert(reached(s.opening_r2_votes[s.ready_txs[j]].1.len(), s.chain_num));
                }
            }
            let s2 = StateView { ready_txs: s.ready_txs.push(tx), ..s1 };
            lemma_push_distinct(s.ready_txs, tx);
            assert(s2.ready_wf(s2.ready_txs)) by {
                assert forall|k: int| 0 <= k < s2.ready_txs.len() implies s2.opening_r2_votes.contains_key(
                    #[trigger] s2.ready_txs[k],
                ) && reached(s2.opening_r2_votes[s2.ready_txs[k]].1.len(), s2.chain_num) by {
                    if k < s.ready_txs.len() {
                        assert(s2.ready_txs[k] == s.ready_txs[k]);
                    }
                }
            }
            assert(s2.ready_txs.no_duplicates());
            lemma_check_ready(s2, now, s2.ready_txs, 0, s2.ready_txs, seq![]);
        }
    }
}

/// The dependencies gathered for `t` once the validity vote `v` is counted.
pub open spec fn gathered(s: StateView, v: ValidityVote, t: u32) -> Seq<u32> {
    if t == v.tx_id {
        r2_entry(s, t).0 + v.dependencies@.filter(not_in(r2_entry(s, t).0))
    } else {
        s.opening_r2_votes[t].0
    }
}

/// Every vote keeps the state consistent, and on a consistent state a vote
/// that fails has changed nothing (so a failed packet keeps no half-written
/// vote).
pub proof fn lemma_vote_keeps_wf(s: StateView, now: u64, vote: Vote)
    requires
        s.wf(),
    ensures
        spec_receive(s, now, vote) matches Outcome::Done((s2, _)) ==> s2.wf(),
        spec_receive(s, now, vote) matches Outcome::Failed((s2, _)) ==> s2 == s,
{
    match vote {
        Vote::Status(v) => lemma_r1_vote(s, now, v),
        Vote::Validity(v) => lemma_r2_vote(s, now, v),
    }
}

/// Decisions are final: a decision of either round, once taken, is never
/// changed nor removed by a later vote.
pub proof fn lemma_decisions_are_final(s: StateView, now: u64, vote: Vote, t: u32)
    requires
        s.wf(),
    ensures
        spec_receive(s, now, vote) matches Outcome::Done((s2, _)) ==> {
            &&& s.closed_r1_votes.contains_key(t) ==> s2.closed_r1_votes.contains_key(t)
                && s2.closed_r1_votes[t] == s.closed_r1_votes[t]
            &&& s.closed_r2_votes.contains_key(t) ==> s2.closed_r2_votes.contains_key(t)
                && s2.closed_r2_votes[t] == s.closed_r2_votes[t]
        },
{
    match vote {
        Vote::Status(v) => lemma_r1_vote(s, now, v),
        Vote::Validity(v) => lemma_r2_vote(s, now, v),
    }
}

/// A transaction commits in the validity round only when every dependency
/// gathered for it advanced in the status round, and aborts only when one of
/// them was aborted there.
pub proof fn lemma_validity_follows_dependencies(s: StateView, now: u64, v: ValidityVote, t: u32)
    requires
        s.wf(),
    ensures
        spec_add_r2_vote(s, now, v) matches Outcome::Done((s2, _)) ==> (s2.closed_r2_votes.contains_key(t)
            && !s.closed_r2_votes.contains_key(t) ==> {
            &&& s2.closed_r2_votes[t] <==> forall|i: int|
                0 <= i < gathered(s, v, t).len() ==> s.closed_r1_votes.contains_key(#[trigger] gathered(s, v, t)[i])
                    && s.closed_r1_votes[gathered(s, v, t)[i]]
            &&& !s2.closed_r2_votes[t] ==> exists|i: int|
                0 <= i < gathered(s, v, t).len() && s.closed_r1_votes.contains_key(#[trigger] gathered(s, v, t)[i])
                    && !s.closed_r1_votes[gathered(s, v, t)[i]]
        }),
{
    lemma_r2_vote(s, now, v);
    lemma_verdict_follows_dependencies(s.closed_r1_votes, gathered(s, v, t));
}

} // verus!
