//! Laws of multi-futures: how a decision narrows one, how an operation acts
//! on one, its range of balances, and how its text reads back.
use vstd::prelude::*;
use vstd::arithmetic::div_mod::{lemma_fundamental_div_mod, lemma_fundamental_div_mod_converse, lemma_mod_pos_bound};
use vstd::arithmetic::power2::{lemma_pow2_adds, lemma_pow2_pos, pow2};
use crate::fc_basic::contract::keep_bits;
use crate::chain::Outcome;
use crate::fc_exec::contract::{
    apply_all, apply_decided, apply_value, branch_index, certain, first_pending, first_undecided, mf_text,
    mfs_scope, option_text, revote_spec, scope_defined, scope_step, select_branches, spec_execute_tx,
    spec_finalize_tx,
    ExecutionStatus,
};
use crate::fc_exec::state::{ScopeExecutedTx, StateView, MAX_PENDING_LEN, MAX_SECONDARY_PENDING_LEN};
use crate::render::{dec_int, dec_nat, digit_char, join};
use crate::fc_exec::msg::{FcrossTx, Instruction, Operation, Vote};

verus! {

/// `x` held within `[lo, hi]`.
spec fn clamp(x: int, lo: int, hi: int) -> int {
    if x < lo {
        lo
    } else if x > hi {
        hi
    } else {
        x
    }
}

/// How many indexes below `m` have the bit of weight `p` equal to `n`.
spec fn count_bit(m: int, p: int, n: int) -> int {
    (m / (2 * p)) * p + clamp(m % (2 * p) - n * p, 0, p)
}

/// One more index: it is counted when its bit is `n`, and then it is the
/// index `branch_index` gives for the count so far.
#[verifier::spinoff_prover]
proof fn lemma_count_step(m: int, pos: nat, n: int)
    requires
        m >= 0,
        n == 0 || n == 1,
    ensures
        ({
            let p = pow2(pos) as int;
            &&& count_bit(m, p, n) >= 0
            &&& (m / p) % 2 == n ==> count_bit(m + 1, p, n) == count_bit(m, p, n) + 1 && branch_index(
                count_bit(m, p, n),
                pos,
                n,
            ) == m
            &&& (m / p) % 2 != n ==> count_bit(m + 1, p, n) == count_bit(m, p, n)
        }),
{
    let p = pow2(pos) as int;
    lemma_pow2_pos(pos);
    let d = 2 * p;
    lemma_fundamental_div_mod(m, d);
    lemma_mod_pos_bound(m, d);
    let a = m / d;
    let r = m % d;
    assert(a >= 0) by (nonlinear_arith)
        requires
            m >= 0,
            d > 0,
            m == d * a + r,
            0 <= r < d,
    ;
    lemma_fundamental_div_mod(r, p);
    lemma_mod_pos_bound(r, p);
    let b = r / p;
    let c = r % p;
    assert(0 <= b < 2) by (nonlinear_arith)
        requires
            r == p * b + c,
            0 <= c < p,
            0 <= r < 2 * p,
    ;
    assert(b == 0 ==> r == c) by (nonlinear_arith)
        requires
            r == p * b + c,
    ;
    assert(b == 1 ==> r == p + c) by (nonlinear_arith)
        requires
            r == p * b + c,
    ;
    assert(n == 0 ==> n * p == 0) by (nonlinear_arith);
    assert(n == 1 ==> n * p == p) by (nonlinear_arith);
    assert(m == p * (2 * a + b) + c) by (nonlinear_arith)
        requires
            m == d * a + r,
            d == 2 * p,
            r == p * b + c,
    ;
    lemma_fundamental_div_mod_converse(m, p, 2 * a + b, c);
    lemma_fundamental_div_mod_converse(2 * a + b, 2, a, b);
    assert((m / p) % 2 == b);
    assert(a * p >= 0) by (nonlinear_arith)
        requires
            a >= 0,
            p > 0,
    ;
    if r + 1 < d {
        assert(m + 1 == a * d + (r + 1)) by (nonlinear_arith)
            requires
                m == d * a + r,
        ;
        lemma_fundamental_div_mod_converse(m + 1, d, a, r + 1);
        if b == n {
            assert(a * p + c == a * p + c);
            lemma_fundamental_div_mod_converse(a * p + c, p, a, c);
            assert(branch_index(a * p + c, pos, n) == a * (2 * p) + n * p + c);
            assert(a * (2 * p) + n * p + c == m) by (nonlinear_arith)
                requires
                    m == p * (2 * a + b) + c,
                    b == n,
            ;
        }
    } else {
        assert(m + 1 == (a + 1) * d + 0) by (nonlinear_arith)
            requires
                m == d * a + r,
                r + 1 == d,
        ;
        lemma_fundamental_div_mod_converse(m + 1, d, a + 1, 0);
        assert((a + 1) * p == a * p + p) by (nonlinear_arith);
        assert(b == 1);
        if b == n {
            assert(c == p - 1);
            lemma_fundamental_div_mod_converse(a * p + c, p, a, c);
            assert(a * (2 * p) + n * p + c == m) by (nonlinear_arith)
                requires
                    m == p * (2 * a + b) + c,
                    b == n,
            ;
        }
    }
}

/// Keeping the branches whose bit `pos` is `n` among the first `m` branches
/// gives the branches `branch_index` names, in order.
proof fn lemma_keep_prefix(mf: Seq<Option<i64>>, pos: nat, n: int, m: int)
    requires
        0 <= m <= mf.len(),
        n == 0 || n == 1,
    ensures
        count_bit(m, pow2(pos) as int, n) >= 0,
        keep_bits(mf.take(m), pos, n) == Seq::new(
            count_bit(m, pow2(pos) as int, n) as nat,
            |i: int| mf[branch_index(i, pos, n)],
        ),
    decreases m,
{
    let p = pow2(pos) as int;
    lemma_pow2_pos(pos);
    if m == 0 {
        lemma_fundamental_div_mod_converse(0, 2 * p, 0, 0);
        assert(mf.take(0) =~= seq![]);
        assert(Seq::new(count_bit(0, p, n) as nat, |i: int| mf[branch_index(i, pos, n)]) =~= seq![]);
    } else {
        lemma_keep_prefix(mf, pos, n, m - 1);
        lemma_count_step(m - 1, pos, n);
        let t = mf.take(m);
        assert(t.drop_last() =~= mf.take(m - 1));
        assert(t.last() == mf[m - 1]);
        assert(t.len() - 1 == m - 1);
        let prev = Seq::new(count_bit(m - 1, p, n) as nat, |i: int| mf[branch_index(i, pos, n)]);
        if ((m - 1) / p) % 2 == n {
            assert(keep_bits(t, pos, n) == prev.push(mf[m - 1]));
            assert(prev.push(mf[m - 1]) =~= Seq::new(
                count_bit(m, p, n) as nat,
                |i: int| mf[branch_index(i, pos, n)],
            ));
        } else {
            assert(keep_bits(t, pos, n) == prev);
            assert(prev =~= Seq::new(count_bit(m, p, n) as nat, |i: int| mf[branch_index(i, pos, n)]));
        }
    }
}

/// Deciding pending transaction `pos` of a multi-future of `2^k` branches
/// (`pos < k`) keeps exactly the branches whose outcome bit `pos` is the
/// decision `n`, in order: the fc-exec selection by index is the fc-basic
/// filter by bit, and it halves the multi-future.
pub proof fn lemma_select_is_filter(mf: Seq<Option<i64>>, k: nat, pos: nat, n: int)
    requires
        mf.len() == pow2(k),
        pos < k,
        n == 0 || n == 1,
    ensures
        select_branches(mf, pos, n) == keep_bits(mf, pos, n),
        select_branches(mf, pos, n).len() * 2 == mf.len(),
{
    let p = pow2(pos) as int;
    lemma_pow2_pos(pos);
    let q = pow2((k - pos - 1) as nat) as int;
    lemma_pow2_adds(pos + 1, (k - pos - 1) as nat);
    lemma_pow2_adds(pos, 1);
    assert(pow2(1) == 2) by {
        vstd::arithmetic::power2::lemma2_to64();
    }
    assert(pos + 1 + (k - pos - 1) == k);
    let len = mf.len() as int;
    assert(len == (2 * p) * q) by (nonlinear_arith)
        requires
            len == pow2(pos + 1) * q,
            pow2(pos + 1) == p * 2,
    ;
    assert(len == q * (2 * p) + 0) by (nonlinear_arith)
        requires
            len == (2 * p) * q,
    ;
    lemma_fundamental_div_mod_converse(len, 2 * p, q, 0);
    assert(len == (q * p) * 2 + 0) by (nonlinear_arith)
        requires
            len == (2 * p) * q,
    ;
    lemma_fundamental_div_mod_converse(len, 2, q * p, 0);
    lemma_keep_prefix(mf, pos, n, len);
    assert(mf.take(len) =~= mf);
    assert(count_bit(len, p, n) == q * p);
    assert(select_branches(mf, pos, n) =~= Seq::new(
        count_bit(len, p, n) as nat,
        |i: int| mf[branch_index(i, pos, n)],
    ));
}

/// Executing an operation on two multi-futures laid end to end is executing
/// it on each of them.
pub proof fn lemma_apply_all_concat(a: Seq<Option<i64>>, b: Seq<Option<i64>>, op: Operation)
    ensures
        apply_all(a + b, op) == apply_all(a, op) + apply_all(b, op),
{
    assert(apply_all(a + b, op) =~= apply_all(a, op) + apply_all(b, op));
}

/// Executing an operation commutes with picking branches: the branches
/// `idx` of the executed multi-future are the executed branches `idx`.
pub proof fn lemma_apply_all_pick(v: Seq<Option<i64>>, idx: Seq<int>, op: Operation)
    requires
        forall|j: int| 0 <= j < idx.len() ==> 0 <= #[trigger] idx[j] < v.len(),
    ensures
        apply_all(idx.map_values(|k: int| v[k]), op) == idx.map_values(|k: int| apply_all(v, op)[k]),
{
    assert(apply_all(idx.map_values(|k: int| v[k]), op) =~= idx.map_values(|k: int| apply_all(v, op)[k]));
}

/// Executing an operation commutes with keeping the branches of a decision.
pub proof fn lemma_apply_all_keep_bits(mf: Seq<Option<i64>>, pos: nat, n: int, op: Operation)
    ensures
        apply_all(keep_bits(mf, pos, n), op) == keep_bits(apply_all(mf, op), pos, n),
    decreases mf.len(),
{
    if mf.len() > 0 {
        lemma_apply_all_keep_bits(mf.drop_last(), pos, n, op);
        assert(apply_all(mf, op).drop_last() =~= apply_all(mf.drop_last(), op));
        let prev = keep_bits(mf.drop_last(), pos, n);
        assert(apply_all(prev.push(mf.last()), op) =~= apply_all(prev, op).push(apply_all(mf, op).last()));
    } else {
        assert(apply_all(mf, op) =~= Seq::<Option<i64>>::empty());
        assert(apply_all(Seq::<Option<i64>>::empty(), op) =~= Seq::<Option<i64>>::empty());
    }
}

/// Executing an operation commutes with deciding pending transaction `pos`
/// of a multi-future of `2^k` branches.
pub proof fn lemma_apply_all_select(mf: Seq<Option<i64>>, k: nat, pos: nat, n: int, op: Operation)
    requires
        mf.len() == pow2(k),
        pos < k,
        n == 0 || n == 1,
    ensures
        apply_all(select_branches(mf, pos, n), op) == select_branches(apply_all(mf, op), pos, n),
{
    lemma_select_is_filter(mf, k, pos, n);
    lemma_select_is_filter(apply_all(mf, op), k, pos, n);
    lemma_apply_all_keep_bits(mf, pos, n, op);
}

/// A debit undoes a credit of the same amount, on balances that the credit
/// keeps within `i64`.
pub proof fn lemma_debit_undoes_credit(vals: Seq<Option<i64>>, amount: i64)
    requires
        amount >= 0,
        forall|i: int| 0 <= i < vals.len() ==> (#[trigger] vals[i] matches Some(v) ==> 0 <= v && v + amount
            <= i64::MAX),
    ensures
        apply_all(
            apply_all(vals, Operation::CreditBalance { amount }),
            Operation::DebitBalance { amount },
        ) == vals,
{
    let once = apply_all(vals, Operation::CreditBalance { amount });
    let twice = apply_all(once, Operation::DebitBalance { amount });
    assert forall|i: int| 0 <= i < vals.len() implies twice[i] == vals[i] by {
        if let Some(v) = vals[i] {
            assert(once[i] == Some((v + amount) as i64));
        }
    }
    assert(twice =~= vals);
}

/// The smaller of two numbers.
pub open spec fn lower(a: i64, b: i64) -> i64 {
    if a < b {
        a
    } else {
        b
    }
}

/// The larger of two numbers.
pub open spec fn upper(a: i64, b: i64) -> i64 {
    if a > b {
        a
    } else {
        b
    }
}

proof fn lemma_scope_bounds(mfs: Seq<Option<i64>>)
    ensures
        mfs_scope(mfs).0 <= 100000,
        mfs_scope(mfs).1 >= -100000,
    decreases mfs.len(),
{
    if mfs.len() > 0 {
        lemma_scope_bounds(mfs.drop_last());
    }
}

/// The range of balances of two multi-futures laid end to end joins their
/// ranges.
pub proof fn lemma_scope_concat(a: Seq<Option<i64>>, b: Seq<Option<i64>>)
    ensures
        mfs_scope(a + b) == (lower(mfs_scope(a).0, mfs_scope(b).0), upper(mfs_scope(a).1, mfs_scope(b).1)),
    decreases b.len(),
{
    lemma_scope_bounds(a);
    if b.len() > 0 {
        lemma_scope_concat(a, b.drop_last());
        assert((a + b).drop_last() =~= a + b.drop_last());
        assert((a + b).last() == b.last());
    } else {
        assert(a + b =~= a);
    }
}

/// The range does not depend on the order in which two parts come.
pub proof fn lemma_scope_commutes(a: Seq<Option<i64>>, b: Seq<Option<i64>>)
    ensures
        mfs_scope(a + b) == mfs_scope(b + a),
{
    lemma_scope_concat(a, b);
    lemma_scope_concat(b, a);
}

/// Failed branches do not widen the range.
pub proof fn lemma_scope_ignores_failed(a: Seq<Option<i64>>, b: Seq<Option<i64>>)
    ensures
        mfs_scope(a + seq![None] + b) == mfs_scope(a + b),
{
    let a1 = a + seq![None];
    assert(a1.drop_last() =~= a);
    lemma_scope_concat(a1, b);
    lemma_scope_concat(a, b);
}

/// The range does not depend on the order of the branches: two multi-futures
/// with the same branches, counted with multiplicity, have the same range.
pub proof fn lemma_scope_permutation(a: Seq<Option<i64>>, b: Seq<Option<i64>>)
    requires
        a.to_multiset() == b.to_multiset(),
    ensures
        mfs_scope(a) == mfs_scope(b),
    decreases a.len(),
{
    broadcast use vstd::seq_lib::group_to_multiset_ensures;
    if a.len() == 0 {
        assert(b.len() == 0) by {
            assert(b.to_multiset().len() == 0);
        }
        assert(b =~= a);
    } else {
        let x = a.last();
        assert(a =~= a.drop_last().push(x));
        assert(a.to_multiset().count(x) > 0);
        assert(b.to_multiset().count(x) > 0);
        assert(b.contains(x));
        let k = b.index_of(x);
        let rest = b.remove(k);
        assert(b =~= b.take(k) + seq![x] + b.skip(k + 1));
        assert(rest =~= b.take(k) + b.skip(k + 1));
        assert(rest.to_multiset() == b.to_multiset().remove(x));
        assert(a.drop_last().to_multiset() == a.to_multiset().remove(x));
        lemma_scope_permutation(a.drop_last(), rest);
        lemma_scope_concat(b.take(k), seq![x]);
        lemma_scope_concat(b.take(k) + seq![x], b.skip(k + 1));
        lemma_scope_concat(b.take(k), b.skip(k + 1));
        lemma_scope_concat(rest, seq![x]);
        lemma_scope_concat(a.drop_last(), seq![x]);
        assert(a.drop_last().push(x) =~= a.drop_last() + seq![x]);
        assert(rest.push(x) =~= rest + seq![x]);
        assert(seq![x].drop_last() =~= Seq::<Option<i64>>::empty());
        lemma_scope_bounds(rest);
        lemma_scope_bounds(b.take(k));
        lemma_scope_bounds(b.skip(k + 1));
        assert(mfs_scope(a) == mfs_scope(a.drop_last().push(x)));
    }
}

/// The value of a decimal digit character.
pub open spec fn digit_value(c: char) -> nat {
    if c == '1' {
        1
    } else if c == '2' {
        2
    } else if c == '3' {
        3
    } else if c == '4' {
        4
    } else if c == '5' {
        5
    } else if c == '6' {
        6
    } else if c == '7' {
        7
    } else if c == '8' {
        8
    } else if c == '9' {
        9
    } else {
        0
    }
}

/// The number that decimal digits name, most significant digit first.
pub open spec fn dec_value(t: Seq<char>) -> nat
    decreases t.len(),
{
    if t.len() == 0 {
        0
    } else {
        dec_value(t.drop_last()) * 10 + digit_value(t.last())
    }
}

/// A branch read back from its text: `None`, or a decimal number with an
/// optional leading minus sign.
pub open spec fn parse_branch(t: Seq<char>) -> Option<int> {
    if t == "None"@ {
        None
    } else if t.len() > 0 && t[0] == '-' {
        Some(-(dec_value(t.drop_first()) as int))
    } else {
        Some(dec_value(t) as int)
    }
}

/// A branch as a mathematical integer.
pub open spec fn branch_int(o: Option<i64>) -> Option<int> {
    match o {
        Some(v) => Some(v as int),
        None => None,
    }
}

/// The fields of a text between its commas.
pub open spec fn split_commas(s: Seq<char>) -> Seq<Seq<char>>
    decreases s.len(),
{
    if s.len() == 0 {
        seq![Seq::empty()]
    } else {
        let p = split_commas(s.drop_last());
        if s.last() == ',' {
            p.push(Seq::empty())
        } else {
            p.update(p.len() - 1, p.last().push(s.last()))
        }
    }
}

/// A text without commas.
pub open spec fn comma_free(t: Seq<char>) -> bool {
    forall|i: int| 0 <= i < t.len() ==> #[trigger] t[i] != ','
}

proof fn lemma_split_nonempty(s: Seq<char>)
    ensures
        split_commas(s).len() >= 1,
    decreases s.len(),
{
    if s.len() > 0 {
        lemma_split_nonempty(s.drop_last());
    }
}

/// Appending a text without commas extends the last field.
proof fn lemma_split_append(x: Seq<char>, y: Seq<char>)
    requires
        comma_free(y),
    ensures
        split_commas(x + y) == split_commas(x).update(
            split_commas(x).len() - 1,
            split_commas(x).last() + y,
        ),
    decreases y.len(),
{
    lemma_split_nonempty(x);
    let p = split_commas(x);
    if y.len() == 0 {
        assert(x + y =~= x);
        assert(p.last() + y =~= p.last());
        assert(p.update(p.len() - 1, p.last()) =~= p);
    } else {
        let y0 = y.drop_last();
        assert(comma_free(y0));
        lemma_split_append(x, y0);
        assert((x + y).drop_last() =~= x + y0);
        assert((x + y).last() == y.last());
        assert(y.last() != ',') by {
            assert(y[y.len() - 1] != ',');
        }
        assert((p.last() + y0).push(y.last()) =~= p.last() + y);
        assert(p.update(p.len() - 1, p.last() + y0).update(p.len() - 1, p.last() + y) =~= p.update(
            p.len() - 1,
            p.last() + y,
        ));
    }
}

/// Fields without commas joined by commas split back into the same fields.
proof fn lemma_split_join(parts: Seq<Seq<char>>)
    requires
        parts.len() >= 1,
        forall|i: int| 0 <= i < parts.len() ==> comma_free(#[trigger] parts[i]),
    ensures
        split_commas(join(parts, ","@)) == parts,
    decreases parts.len(),
{
    reveal_strlit(",");
    if parts.len() == 1 {
        lemma_split_append(Seq::empty(), parts[0]);
        assert(Seq::<char>::empty() + parts[0] =~= parts[0]);
        assert(split_commas(Seq::<char>::empty()) == seq![Seq::<char>::empty()]);
        assert(Seq::<char>::empty() + parts[0] =~= parts[0]);
        assert(seq![Seq::<char>::empty()].update(0, Seq::<char>::empty() + parts[0]) =~= parts);
    } else {
        let front = parts.drop_last();
        lemma_split_join(front);
        let x = join(front, ","@) + ","@;
        lemma_split_append(x, parts.last());
        assert(x.drop_last() =~= join(front, ","@));
        assert(x.last() == ',');
        assert(split_commas(x) == front.push(Seq::empty()));
        assert(Seq::<char>::empty() + parts.last() =~= parts.last());
        assert(front.push(Seq::empty()).update(front.len() as int, parts.last()) =~= parts);
    }
}

proof fn lemma_digit(d: nat)
    requires
        d < 10,
    ensures
        digit_value(digit_char(d)) == d,
        digit_char(d) != ',',
        digit_char(d) != '-',
        digit_char(d) != 'N',
{
}

/// Decimal text reads back as its number, and holds only digits.
proof fn lemma_dec_reads_back(n: nat)
    ensures
        dec_value(dec_nat(n)) == n,
        dec_nat(n).len() >= 1,
        forall|i: int| 0 <= i < dec_nat(n).len() ==> #[trigger] dec_nat(n)[i] != ',' && dec_nat(n)[i] != '-'
            && dec_nat(n)[i] != 'N',
    decreases n,
{
    let t = dec_nat(n);
    if n < 10 {
        lemma_digit(n);
        assert(t.drop_last() =~= Seq::<char>::empty());
        assert(dec_value(t.drop_last()) == 0);
        assert(dec_value(t) == dec_value(t.drop_last()) * 10 + digit_value(t.last()));
    } else {
        lemma_dec_reads_back(n / 10);
        lemma_digit(n % 10);
        assert(t.drop_last() =~= dec_nat(n / 10));
        assert(t.last() == digit_char(n % 10));
        assert(dec_value(t) == dec_value(t.drop_last()) * 10 + digit_value(t.last()));
        assert(n == (n / 10) * 10 + n % 10);
        assert forall|i: int| 0 <= i < t.len() implies #[trigger] t[i] != ',' && t[i] != '-' && t[i] != 'N' by {
            if i < t.len() - 1 {
                assert(t[i] == dec_nat(n / 10)[i]);
            }
        }
    }
}

/// The text of a branch holds no comma and reads back as the branch.
proof fn lemma_branch_reads_back(o: Option<i64>)
    ensures
        comma_free(option_text(o)),
        parse_branch(option_text(o)) == branch_int(o),
{
    reveal_strlit("None");
    match o {
        None => {},
        Some(v) => {
            if v < 0 {
                let m = (-(v as int)) as nat;
                lemma_dec_reads_back(m);
                let t = option_text(o);
                assert(t == seq!['-'] + dec_nat(m));
                assert(t.drop_first() =~= dec_nat(m));
                assert(t != "None"@) by {
                    assert(t[0] != "None"@[0]);
                }
                assert forall|i: int| 0 <= i < t.len() implies #[trigger] t[i] != ',' by {
                    if i > 0 {
                        assert(t[i] == dec_nat(m)[i - 1]);
                    }
                }
            } else {
                lemma_dec_reads_back(v as nat);
                let t = option_text(o);
                assert(t == dec_nat(v as nat));
                assert(t != "None"@) by {
                    assert(t[0] != "None"@[0]);
                }
            }
        },
    }
}

/// The text of a multi-future reads back as the multi-future: it has one
/// comma-separated field per branch, in order, each `None` or the branch's
/// balance in decimal.
pub proof fn lemma_mf_text_reads_back(mf: Seq<Option<i64>>)
    requires
        mf.len() >= 1,
    ensures
        split_commas(mf_text(mf)).map_values(|t: Seq<char>| parse_branch(t)) == mf.map_values(
            |o: Option<i64>| branch_int(o),
        ),
{
    let parts = mf.map_values(|o: Option<i64>| option_text(o));
    assert forall|i: int| 0 <= i < parts.len() implies comma_free(#[trigger] parts[i]) by {
        lemma_branch_reads_back(mf[i]);
    }
    lemma_split_join(parts);
    assert forall|i: int| 0 <= i < mf.len() implies parse_branch(#[trigger] parts[i]) == branch_int(mf[i]) by {
        lemma_branch_reads_back(mf[i]);
    }
    assert(parts.map_values(|t: Seq<char>| parse_branch(t)) =~= mf.map_values(|o: Option<i64>| branch_int(o)));
}

/// A scope-executed transaction starts from the range the latest
/// scope-executed transaction left, or from the range of the multi-future
/// when it is the first: it joins the end of the secondary list with the
/// range the operation leaves, and a vote is sent exactly when its status is
/// certain on that range.
pub proof fn lemma_scope_execution_starts_from_last(s: StateView, now: u64, tx: FcrossTx)
    requires
        s.pending.len() >= MAX_PENDING_LEN,
        s.secondary.len() < MAX_SECONDARY_PENDING_LEN,
    ensures
        match spec_execute_tx(s, now, tx) {
            Outcome::Done((s2, (_, m))) => {
                let start = if s.secondary.len() > 0 {
                    s.secondary.last().updated_scope
                } else {
                    mfs_scope(s.mfs)
                };
                let (range, st) = scope_step(start, tx.operation);
                &&& s2.secondary == s.secondary.push(
                    ScopeExecutedTx { tx, updated_scope: range, voted: certain(st), received_instruction: None },
                )
                &&& m.len() <= 1
                &&& (m.len() == 1 <==> certain(st))
                &&& m.len() == 1 ==> m[0].data == (Vote {
                    tx_id: tx.tx_id,
                    chain_id: s.chain_id,
                    success: st == ExecutionStatus::Success,
                })
            },
            _ => true,
        },
{
}

/// The range an operation leaves holds every balance of the starting range
/// (the transaction may abort) and every balance the operation leaves on it
/// (it may commit). On a successful status every balance of the range
/// passes the operation; on a failed one none does.
pub proof fn lemma_scope_step_covers(start: (i64, i64), op: Operation, x: i64)
    requires
        scope_defined(start, op),
        0 <= start.0 <= x <= start.1,
    ensures
        ({
            let (range, st) = scope_step(start, op);
            &&& range.0 <= x <= range.1
            &&& apply_value(Some(x), op) matches Some(y) ==> range.0 <= y <= range.1
            &&& st == ExecutionStatus::Success ==> apply_value(Some(x), op) is Some
            &&& st == ExecutionStatus::Failure ==> apply_value(Some(x), op) is None
        }),
{
}

/// A balance after a list of operations, in order.
pub open spec fn run_ops(v: Option<i64>, ops: Seq<Operation>) -> Option<i64>
    decreases ops.len(),
{
    if ops.len() == 0 {
        v
    } else {
        run_ops(apply_value(v, ops[0]), ops.drop_first())
    }
}

/// The operations of the committed scope-executed transactions among
/// `sec[j..count]`, in order.
pub open spec fn committed_ops(sec: Seq<ScopeExecutedTx>, j: nat, count: nat) -> Seq<Operation>
    decreases count - j,
{
    if j >= count {
        seq![]
    } else if sec[j as int].received_instruction == Some(true) {
        seq![sec[j as int].tx.operation] + committed_ops(sec, j + 1, count)
    } else {
        committed_ops(sec, j + 1, count)
    }
}

/// Applying the decided scope-executed transactions runs, on every branch,
/// the operations of the committed ones in order.
pub proof fn lemma_apply_decided_runs_committed(
    mfs: Seq<Option<i64>>,
    sec: Seq<ScopeExecutedTx>,
    j: nat,
    count: nat,
)
    ensures
        apply_decided(mfs, sec, j, count) matches Some(r) ==> r.len() == mfs.len() && forall|b: int|
            0 <= b < mfs.len() ==> #[trigger] r[b] == run_ops(mfs[b], committed_ops(sec, j, count)),
    decreases count - j,
{
    if j < count {
        let op = sec[j as int].tx.operation;
        if sec[j as int].received_instruction == Some(true) {
            let next = apply_all(mfs, op);
            lemma_apply_decided_runs_committed(next, sec, j + 1, count);
            let rest = committed_ops(sec, j + 1, count);
            assert((seq![op] + rest).drop_first() =~= rest);
            assert((seq![op] + rest)[0] == op);
        } else {
            lemma_apply_decided_runs_committed(mfs, sec, j + 1, count);
        }
    }
}

/// Deciding a pending transaction keeps the branches that agree with the
/// decision, and applies to each of them, in order, the committed
/// scope-executed transactions at the head of the secondary list (those
/// before the first undecided one): the multi-future starts with those
/// branches, whatever joins it after them.
pub proof fn lemma_finalize_applies_decided(s: StateView, now: u64, instr: Instruction)
    ensures
        match (first_pending(s.pending, instr.tx_id, 0), spec_finalize_tx(s, now, instr)) {
            (Some(pos), Outcome::Done((s2, _))) => {
                let kept = select_branches(
                    s.mfs,
                    pos,
                    if instr.commitment {
                        1int
                    } else {
                        0int
                    },
                );
                let count = match first_undecided(s.secondary, 0) {
                    Some(p) => p,
                    None => 0,
                };
                &&& s2.mfs.len() >= kept.len()
                &&& forall|b: int|
                    0 <= b < kept.len() ==> #[trigger] s2.mfs[b] == run_ops(
                        kept[b],
                        committed_ops(s.secondary, 0, count),
                    )
            },
            _ => true,
        },
{
    if let Some(pos) = first_pending(s.pending, instr.tx_id, 0) {
        let kept = select_branches(
            s.mfs,
            pos,
            if instr.commitment {
                1int
            } else {
                0int
            },
        );
        let count = match first_undecided(s.secondary, 0) {
            Some(p) => p,
            None => 0,
        };
        lemma_apply_decided_runs_committed(kept, s.secondary, 0, count);
    }
}

proof fn lemma_revote_keeps_ids(
    s: StateView,
    now: u64,
    attr_id: u32,
    mfs: Seq<Option<i64>>,
    pending: Seq<(u32, bool)>,
    i: nat,
)
    ensures
        revote_spec(s, now, attr_id, mfs, pending, i) matches Outcome::Done((p2, _)) ==> p2.len() == pending.len()
            && forall|k: int| 0 <= k < pending.len() ==> #[trigger] p2[k].0 == pending[k].0,
    decreases pending.len() - i,
{
    if i < pending.len() {
        let p1 = pending.update(i as int, (pending[i as int].0, true));
        lemma_revote_keeps_ids(s, now, attr_id, mfs, pending, i + 1);
        lemma_revote_keeps_ids(s, now, attr_id, mfs, p1, i + 1);
    }
}

/// The ids of pending transactions, in order.
pub open spec fn pending_ids(p: Seq<(u32, bool)>) -> Seq<u32> {
    p.map_values(|e: (u32, bool)| e.0)
}

/// Deciding a pending transaction frees its place in the pending list. When
/// a transaction is left to take it (the first scope-executed one still in
/// the secondary list, else the first waiting one), it joins the end of the
/// pending list and is executed on every branch: the multi-future doubles,
/// its second half being the first half with the transaction's operation
/// applied. Otherwise the pending list only loses the decided transaction.
pub proof fn lemma_finalize_refills(s: StateView, now: u64, instr: Instruction)
    ensures
        match (first_pending(s.pending, instr.tx_id, 0), spec_finalize_tx(s, now, instr)) {
            (Some(pos), Outcome::Done((s2, _))) => {
                let kept = select_branches(
                    s.mfs,
                    pos,
                    if instr.commitment {
                        1int
                    } else {
                        0int
                    },
                );
                let count = match first_undecided(s.secondary, 0) {
                    Some(p) => p,
                    None => 0,
                };
                let rest = s.secondary.subrange(count as int, s.secondary.len() as int);
                let ids = pending_ids(s.pending.remove(pos as int));
                if rest.len() == 0 && s.waiting.len() == 0 {
                    pending_ids(s2.pending) == ids && s2.mfs.len() == kept.len()
                } else {
                    let next = if rest.len() > 0 {
                        rest[0].tx
                    } else {
                        s.waiting[0]
                    };
                    &&& pending_ids(s2.pending) == ids.push(next.tx_id)
                    &&& s2.mfs.len() == 2 * kept.len()
                    &&& forall|b: int|
                        0 <= b < kept.len() ==> #[trigger] s2.mfs[kept.len() + b] == apply_value(
                            s2.mfs[b],
                            next.operation,
                        )
                }
            },
            _ => true,
        },
{
    if let Some(pos) = first_pending(s.pending, instr.tx_id, 0) {
        let kept = select_branches(
            s.mfs,
            pos,
            if instr.commitment {
                1int
            } else {
                0int
            },
        );
        let count = match first_undecided(s.secondary, 0) {
            Some(p) => p,
            None => 0,
        };
        lemma_apply_decided_runs_committed(kept, s.secondary, 0, count);
        lemma_revote_keeps_ids(s, now, instr.tx_id, kept, s.pending.remove(pos as int), pos);
        if let Outcome::Done((pend2, _)) = revote_spec(s, now, instr.tx_id, kept, s.pending.remove(pos as int), pos) {
            assert(pending_ids(pend2) =~= pending_ids(s.pending.remove(pos as int)));
            assert forall|e: (u32, bool)| pending_ids(#[trigger] pend2.push(e)) =~= pending_ids(pend2).push(e.0) by {}
        }
    }
}

/// A transaction executed while the pending list has room is executed on
/// every branch: the multi-future doubles, its first half unchanged and its
/// second half the first with the operation applied, and the transaction
/// joins the end of the pending list.
pub proof fn lemma_execution_doubles_branches(s: StateView, now: u64, tx: FcrossTx)
    requires
        s.pending.len() < MAX_PENDING_LEN,
    ensures
        match spec_execute_tx(s, now, tx) {
            Outcome::Done((s2, _)) => {
                &&& s2.mfs.len() == 2 * s.mfs.len()
                &&& forall|b: int| 0 <= b < s.mfs.len() ==> #[trigger] s2.mfs[b] == s.mfs[b]
                &&& forall|b: int|
                    0 <= b < s.mfs.len() ==> #[trigger] s2.mfs[s.mfs.len() + b] == apply_value(
                        s.mfs[b],
                        tx.operation,
                    )
                &&& pending_ids(s2.pending) == pending_ids(s.pending).push(tx.tx_id)
                &&& s2.secondary == s.secondary
            },
            _ => true,
        },
{
    if let Outcome::Done((s2, _)) = spec_execute_tx(s, now, tx) {
        assert(pending_ids(s2.pending) =~= pending_ids(s.pending).push(tx.tx_id));
    }
}

} // verus!
