//! Rendering of branch indexes, time logs and packet timeouts.
use std::collections::BTreeMap;
use vstd::prelude::*;
use crate::chain::{keys_ascending, packet_timeout, sorted_keys, time_ok, timeout_at};
use crate::render::{bin_rev, bin_rev_u64, dec_nat, digit_char, dec_u64, join, join_strings};
use crate::fc_stor::state::TimeInfo;

verus! {

/// The index of a future as its outcome bits, one per pending transaction,
/// first transaction first.
pub fn future_index_to_string(index: u16) -> (s: String)
    ensures
        s@ == bin_rev(index as nat),
{
    bin_rev_u64(index as u64)
}

/// The number that binary digits name, least significant digit first.
pub open spec fn bin_rev_value(s: Seq<char>) -> nat
    decreases s.len(),
{
    if s.len() == 0 {
        0
    } else {
        (if s[0] == '1' {
            1nat
        } else {
            0nat
        }) + 2 * bin_rev_value(s.drop_first())
    }
}

/// The text of a future index reads back as the index: it holds only binary
/// digits, least significant first, with no padding (its last digit is `1`
/// unless the index is zero, whose text is `"0"`).
pub proof fn lemma_future_index_round_trip(index: u16)
    ensures
        bin_rev_value(bin_rev(index as nat)) == index,
        forall|i: int| 0 <= i < bin_rev(index as nat).len() ==> (#[trigger] bin_rev(index as nat)[i] == '0'
            || bin_rev(index as nat)[i] == '1'),
        index == 0 <==> bin_rev(index as nat) == seq!['0'],
        index > 0 ==> bin_rev(index as nat).last() == '1',
{
    lemma_bin_rev_reads_back(index as nat);
}

proof fn lemma_bin_rev_reads_back(n: nat)
    ensures
        bin_rev_value(bin_rev(n)) == n,
        bin_rev(n).len() >= 1,
        forall|i: int| 0 <= i < bin_rev(n).len() ==> (#[trigger] bin_rev(n)[i] == '0' || bin_rev(n)[i] == '1'),
        n == 0 <==> bin_rev(n) == seq!['0'],
        n > 0 ==> bin_rev(n).last() == '1',
    decreases n,
{
    let r = bin_rev(n);
    if n >= 2 {
        lemma_bin_rev_reads_back(n / 2);
        assert(r == seq![digit_char(n % 2)] + bin_rev(n / 2));
        assert(r.drop_first() =~= bin_rev(n / 2));
        assert(r.last() == bin_rev(n / 2).last());
        assert(r.len() >= 2);
        assert(r[0] == '1' <==> n % 2 == 1);
        assert(bin_rev_value(r) == (if r[0] == '1' { 1nat } else { 0nat }) + 2 * bin_rev_value(r.drop_first()));
        assert(n == n % 2 + 2 * (n / 2));
        assert(r != seq!['0']) by {
            assert(r.len() != seq!['0'].len());
        }
    } else {
        assert(r == seq![digit_char(n)]);
        assert(r.drop_first() =~= Seq::<char>::empty());
        assert(r[0] == '1' <==> n == 1);
        assert(bin_rev_value(r.drop_first()) == 0);
        assert(bin_rev_value(r) == (if r[0] == '1' { 1nat } else { 0nat }) + 2 * bin_rev_value(r.drop_first()));
        if n == 1 {
            assert(r[0] != seq!['0'][0]);
        } else {
            assert(r =~= seq!['0']);
        }
    }
}

/// The texts of several keys, each least significant bit first, separated by commas.
pub open spec fn keys_text(ks: Seq<u32>) -> Seq<char> {
    join(ks.map_values(|k: u32| bin_rev(k as nat)), ","@)
}

/// Renders keys as outcome bits, separated by commas.
pub fn keys_format(ks: &Vec<u32>) -> (s: String)
    ensures
        s@ == keys_text(ks@),
{
    let mut parts: Vec<String> = Vec::new();
    let mut i: usize = 0;
    while i < ks.len()
        invariant
            i <= ks.len(),
            parts.deep_view() =~= ks@.take(i as int).map_values(|k: u32| bin_rev(k as nat)),
        decreases ks.len() - i,
    {
        let t = bin_rev_u64(ks[i] as u64);
        let ghost old_parts = parts.deep_view();
        parts.push(t);
        proof {
            assert(parts.deep_view() =~= old_parts.push(t@));
            assert(ks@.take(i as int + 1).map_values(|k: u32| bin_rev(k as nat)) =~= ks@.take(
                i as int,
            ).map_values(|k: u32| bin_rev(k as nat)).push(bin_rev(ks@[i as int] as nat)));
        }
        i = i + 1;
    }
    assert(ks@.take(i as int) =~= ks@);
    join_strings(&parts, ",")
}

/// The timeout of a packet sent at block time `now`.
pub fn get_timeout(now: u64) -> (t: u64)
    requires
        time_ok(now),
    ensures
        t == timeout_at(now),
{
    packet_timeout(now)
}

/// One line of the time log: the transaction, the block time it started at,
/// and the block time it ended at or `None`.
pub open spec fn time_log_text(tx_id: u32, t: TimeInfo) -> Seq<char> {
    dec_nat(tx_id as nat) + ","@ + dec_nat(t.start_time as nat) + ","@ + match t.end_time {
        None => "None"@,
        Some(e) => dec_nat(e as nat),
    }
}

/// The time log, one line per transaction in ascending order of transaction.
pub open spec fn time_log_texts(m: Map<u32, TimeInfo>) -> Seq<Seq<char>> {
    keys_ascending(m).map_values(|k: u32| time_log_text(k, m[k]))
}

/// Renders one line of the time log.
pub fn time_log_line(tx_id: u32, t: TimeInfo) -> (s: String)
    ensures
        s@ == time_log_text(tx_id, t),
{
    let end = match t.end_time {
        None => String::from_str("None"),
        Some(e) => dec_u64(e),
    };
    let s = dec_u64(tx_id as u64).concat(",").concat(dec_u64(t.start_time).as_str()).concat(",").concat(
        end.as_str(),
    );
    proof {
        reveal_strlit(",");
    }
    s
}

/// Renders the time log.
pub fn time_log_lines(m: &BTreeMap<u32, TimeInfo>) -> (r: Vec<String>)
    ensures
        r.deep_view() == time_log_texts(m@),
{
    let keys = sorted_keys(m);
    let mut out: Vec<String> = Vec::new();
    let mut i: usize = 0;
    while i < keys.len()
        invariant
            i <= keys@.len(),
            keys@ == keys_ascending(m@),
            forall|k: u32| m@.contains_key(k) <==> keys@.contains(k),
            out.deep_view() =~= keys@.take(i as int).map_values(|k: u32| time_log_text(k, m@[k])),
        decreases keys@.len() - i,
    {
        let k = keys[i];
        assert(keys@.contains(k));
        let t = match m.get(&k) {
            Some(t) => *t,
            None => vstd::pervasive::unreached(),
        };
        let line = time_log_line(k, t);
        let ghost before = out.deep_view();
        out.push(line);
        proof {
            assert(out.deep_view() =~= before.push(line@));
            assert(keys@.take(i + 1).map_values(|k: u32| time_log_text(k, m@[k])) =~= keys@.take(
                i as int,
            ).map_values(|k: u32| time_log_text(k, m@[k])).push(time_log_text(k, m@[k])));
        }
        i = i + 1;
    }
    assert(keys@.take(keys@.len() as int) =~= keys@);
    out
}

} // verus!
