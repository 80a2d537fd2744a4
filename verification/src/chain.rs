//! What the contracts take from the chain itself: block time arithmetic and
//! the failures of reading the contract's own storage.
use cosmwasm_std::Timestamp;
use vstd::std_specs::btree::spec_btree_map_iter;
use vstd::std_specs::iter::IteratorSpec;
use vstd::prelude::*;
use crate::render::{digit_char, join, join_strings};

verus! {

/// Nanoseconds in one second, as `cosmwasm_std::Timestamp` counts them.
pub const NANOS_PER_SECOND: u64 = 1_000_000_000;

/// Seconds that an IBC packet sent by the contracts stays valid.
pub const PACKET_LIFETIME_SECONDS: u64 = 3600000;

/// Block time (in nanoseconds) at which a packet sent at `now` times out.
pub open spec fn timeout_at(now: u64) -> int {
    now + PACKET_LIFETIME_SECONDS * NANOS_PER_SECOND
}

/// The packet timeout of `now` can be represented (the chain panics otherwise).
pub open spec fn time_ok(now: u64) -> bool {
    timeout_at(now) <= u64::MAX
}

/// `cosmwasm_std::Timestamp::plus_seconds` on a timestamp given by its nanoseconds:
/// the result is the sum of the timestamp and the seconds counted in nanoseconds.
/// The outside function panics when that sum (or the seconds in nanoseconds)
/// overflows `u64`, which `requires` leaves out.
#[verifier::external_body]
pub(crate) fn timestamp_plus_seconds(nanos: u64, seconds: u64) -> (r: u64)
    requires
        seconds * NANOS_PER_SECOND <= u64::MAX,
        nanos + seconds * NANOS_PER_SECOND <= u64::MAX,
    ensures
        r == nanos + seconds * NANOS_PER_SECOND,
{
    Timestamp::from_nanos(nanos).plus_seconds(seconds).nanos()
}

/// The timeout (in nanoseconds) of a packet sent at block time `now`.
pub fn packet_timeout(now: u64) -> (t: u64)
    requires
        time_ok(now),
    ensures
        t == timeout_at(now),
{
    timestamp_plus_seconds(now, PACKET_LIFETIME_SECONDS)
}

/// A record in a contract's storage; a record kept per transaction names
/// the transaction.
#[derive(Clone, Copy, Debug, PartialEq, Eq)]
pub enum StoredItem {
    /// The IBC channel of an application chain.
    ChannelInfo,
    /// The start and end times of a transaction.
    TimeInfo(u32),
    /// The multi-future of a transaction.
    Multifuture(u32),
    /// Whether a transaction has been voted for.
    VoteFlag(u32),
    /// The open validity votes of a transaction.
    ValidityVotes(u32),
}

/// A failure of the chain's standard library that the contracts pass on.
#[derive(Clone, Copy, Debug, PartialEq, Eq)]
pub enum StdFailure {
    /// A record that the contract loads is not in its storage.
    NotFound(StoredItem),
}

/// The storage namespace of a record.
pub open spec fn record_namespace(item: StoredItem) -> Seq<char> {
    match item {
        StoredItem::ChannelInfo => "my_channel"@,
        StoredItem::TimeInfo(_) => "time_logs"@,
        StoredItem::Multifuture(_) => "mf_maps"@,
        StoredItem::VoteFlag(_) => "mf_vote_maps"@,
        StoredItem::ValidityVotes(_) => "opening_r2_votes"@,
    }
}

/// The bytes of an ASCII text.
pub open spec fn ascii_bytes(t: Seq<char>) -> Seq<u8> {
    t.map_values(|c: char| c as u8)
}

/// The four bytes of a number, most significant first.
pub open spec fn be_bytes(k: u32) -> Seq<u8> {
    seq![(k / 0x100_0000) as u8, ((k / 0x1_0000) % 0x100) as u8, ((k / 0x100) % 0x100) as u8, (k % 0x100) as u8]
}

/// Where a record lies in storage. A single record lies at the bytes of its
/// namespace. A record kept per transaction lies at the namespace's length
/// (two bytes, most significant first), then the namespace, then the
/// transaction id.
pub open spec fn storage_key(item: StoredItem) -> Seq<u8> {
    let ns = ascii_bytes(record_namespace(item));
    match item {
        StoredItem::ChannelInfo => ns,
        StoredItem::TimeInfo(k) => seq![0u8, ns.len() as u8] + ns + be_bytes(k),
        StoredItem::Multifuture(k) => seq![0u8, ns.len() as u8] + ns + be_bytes(k),
        StoredItem::VoteFlag(k) => seq![0u8, ns.len() as u8] + ns + be_bytes(k),
        StoredItem::ValidityVotes(k) => seq![0u8, ns.len() as u8] + ns + be_bytes(k),
    }
}

/// The upper-case hexadecimal digit of `d` (for `d < 16`).
pub open spec fn hex_digit(d: nat) -> char {
    if d < 10 {
        digit_char(d)
    } else if d == 10 {
        'A'
    } else if d == 11 {
        'B'
    } else if d == 12 {
        'C'
    } else if d == 13 {
        'D'
    } else if d == 14 {
        'E'
    } else {
        'F'
    }
}

/// A byte as two upper-case hexadecimal digits.
pub open spec fn hex_byte(b: u8) -> Seq<char> {
    seq![hex_digit((b / 16) as nat), hex_digit((b % 16) as nat)]
}

/// Debug text of bytes written in hexadecimal: two upper-case digits each,
/// separated by a comma and a space, between brackets.
pub open spec fn bytes_text(bs: Seq<u8>) -> Seq<char> {
    "["@ + join(bs.map_values(|b: u8| hex_byte(b)), ", "@) + "]"@
}

/// The type of a record, as the chain names it; the contract's own record
/// types live in the module `state_module`.
pub open spec fn record_type(state_module: Seq<char>, item: StoredItem) -> Seq<char> {
    match item {
        StoredItem::ChannelInfo => state_module + "::ChannelInfo"@,
        StoredItem::TimeInfo(_) => state_module + "::TimeInfo"@,
        StoredItem::Multifuture(_) => "alloc::vec::Vec<core::option::Option<i64>>"@,
        StoredItem::VoteFlag(_) => "bool"@,
        StoredItem::ValidityVotes(_) => "(alloc::vec::Vec<u32>, alloc::vec::Vec<u16>)"@,
    }
}

/// How the chain describes a missing record: its type and its storage key.
pub open spec fn record_kind(state_module: Seq<char>, item: StoredItem) -> Seq<char> {
    "type: "@ + record_type(state_module, item) + "; key: "@ + bytes_text(storage_key(item))
}

/// The debug text of a missing record's error, for a contract whose record
/// types live in `state_module`.
pub open spec fn missing_record_text(state_module: Seq<char>, f: StdFailure) -> Seq<char> {
    match f {
        StdFailure::NotFound(item) => not_found_text(record_kind(state_module, item)),
    }
}

fn hex_digit_str(d: u8) -> (r: &'static str)
    requires
        d < 16,
    ensures
        r@ == seq![hex_digit(d as nat)],
{
    proof {
        reveal_strlit("0");
        reveal_strlit("1");
        reveal_strlit("2");
        reveal_strlit("3");
        reveal_strlit("4");
        reveal_strlit("5");
        reveal_strlit("6");
        reveal_strlit("7");
        reveal_strlit("8");
        reveal_strlit("9");
        reveal_strlit("A");
        reveal_strlit("B");
        reveal_strlit("C");
        reveal_strlit("D");
        reveal_strlit("E");
        reveal_strlit("F");
    }
    if d == 0 {
        "0"
    } else if d == 1 {
        "1"
    } else if d == 2 {
        "2"
    } else if d == 3 {
        "3"
    } else if d == 4 {
        "4"
    } else if d == 5 {
        "5"
    } else if d == 6 {
        "6"
    } else if d == 7 {
        "7"
    } else if d == 8 {
        "8"
    } else if d == 9 {
        "9"
    } else if d == 10 {
        "A"
    } else if d == 11 {
        "B"
    } else if d == 12 {
        "C"
    } else if d == 13 {
        "D"
    } else if d == 14 {
        "E"
    } else {
        "F"
    }
}

/// Debug text of bytes written in hexadecimal (see [`bytes_text`]).
pub fn bytes_string(bs: &Vec<u8>) -> (s: String)
    ensures
        s@ == bytes_text(bs@),
{
    let mut parts: Vec<String> = Vec::new();
    let mut i: usize = 0;
    while i < bs.len()
        invariant
            i <= bs.len(),
            parts.deep_view() == bs@.take(i as int).map_values(|b: u8| hex_byte(b)),
        decreases bs.len() - i,
    {
        let b = bs[i];
        let t = String::from_str(hex_digit_str(b / 16)).concat(hex_digit_str(b % 16));
        assert(t@ =~= hex_byte(b));
        let ghost before = parts.deep_view();
        parts.push(t);
        assert(parts.deep_view() =~= before.push(hex_byte(b)));
        assert(bs@.take(i as int + 1) =~= bs@.take(i as int).push(b));
        assert(parts.deep_view() =~= bs@.take(i as int + 1).map_values(|b: u8| hex_byte(b)));
        i = i + 1;
    }
    assert(bs@.take(i as int) =~= bs@);
    let body = join_strings(&parts, ", ");
    String::from_str("[").concat(body.as_str()).concat("]")
}

/// The bytes of a record's namespace.
fn namespace_bytes(item: StoredItem) -> (r: Vec<u8>)
    ensures
        r@ == ascii_bytes(record_namespace(item)),
        r@.len() < 256,
{
    let r: Vec<u8> = match item {
        StoredItem::ChannelInfo => vec![0x6d, 0x79, 0x5f, 0x63, 0x68, 0x61, 0x6e, 0x6e, 0x65, 0x6c],
        StoredItem::TimeInfo(_) => vec![0x74, 0x69, 0x6d, 0x65, 0x5f, 0x6c, 0x6f, 0x67, 0x73],
        StoredItem::Multifuture(_) => vec![0x6d, 0x66, 0x5f, 0x6d, 0x61, 0x70, 0x73],
        StoredItem::VoteFlag(_) => vec![0x6d, 0x66, 0x5f, 0x76, 0x6f, 0x74, 0x65, 0x5f, 0x6d, 0x61, 0x70, 0x73],
        StoredItem::ValidityVotes(_) => vec![
            0x6f,
            0x70,
            0x65,
            0x6e,
            0x69,
            0x6e,
            0x67,
            0x5f,
            0x72,
            0x32,
            0x5f,
            0x76,
            0x6f,
            0x74,
            0x65,
            0x73,
        ],
    };
    proof {
        reveal_strlit("my_channel");
        reveal_strlit("time_logs");
        reveal_strlit("mf_maps");
        reveal_strlit("mf_vote_maps");
        reveal_strlit("opening_r2_votes");
    }
    assert(r@ =~= ascii_bytes(record_namespace(item)));
    r
}

/// Where a record lies in storage (see [`storage_key`]).
pub fn storage_key_bytes(item: StoredItem) -> (r: Vec<u8>)
    ensures
        r@ == storage_key(item),
{
    let ns = namespace_bytes(item);
    let k: u32 = match item {
        StoredItem::ChannelInfo => {
            return ns;
        },
        StoredItem::TimeInfo(k) => k,
        StoredItem::Multifuture(k) => k,
        StoredItem::VoteFlag(k) => k,
        StoredItem::ValidityVotes(k) => k,
    };
    let mut r: Vec<u8> = Vec::new();
    r.push(0u8);
    r.push(ns.len() as u8);
    let mut i: usize = 0;
    while i < ns.len()
        invariant
            i <= ns.len(),
            ns@.len() < 256,
            r@ == seq![0u8, ns@.len() as u8] + ns@.take(i as int),
        decreases ns.len() - i,
    {
        r.push(ns[i]);
        assert(ns@.take(i as int + 1) =~= ns@.take(i as int).push(ns@[i as int]));
        i = i + 1;
    }
    r.push((k / 0x100_0000) as u8);
    r.push(((k / 0x1_0000) % 0x100) as u8);
    r.push(((k / 0x100) % 0x100) as u8);
    r.push((k % 0x100) as u8);
    assert(ns@.take(i as int) =~= ns@);
    assert(r@ =~= seq![0u8, ns@.len() as u8] + ns@ + be_bytes(k));
    r
}

/// How the chain describes a missing record (see [`record_kind`]).
pub fn record_kind_string(state_module: &str, item: StoredItem) -> (s: String)
    ensures
        s@ == record_kind(state_module@, item),
{
    let ty = match item {
        StoredItem::ChannelInfo => String::from_str(state_module).concat("::ChannelInfo"),
        StoredItem::TimeInfo(_) => String::from_str(state_module).concat("::TimeInfo"),
        StoredItem::Multifuture(_) => String::from_str("alloc::vec::Vec<core::option::Option<i64>>"),
        StoredItem::VoteFlag(_) => String::from_str("bool"),
        StoredItem::ValidityVotes(_) => String::from_str("(alloc::vec::Vec<u32>, alloc::vec::Vec<u16>)"),
    };
    let key = bytes_string(&storage_key_bytes(item));
    String::from_str("type: ").concat(ty.as_str()).concat("; key: ").concat(key.as_str())
}

/// The debug text of a missing record's error (see [`missing_record_text`]).
pub fn missing_record_string(state_module: &str, f: StdFailure) -> (s: String)
    ensures
        s@ == missing_record_text(state_module@, f),
{
    match f {
        StdFailure::NotFound(item) => not_found_string(record_kind_string(state_module, item).as_str()),
    }
}

/// Debug text of a chain error saying that a record of `kind` is missing.
pub open spec fn not_found_text(kind: Seq<char>) -> Seq<char> {
    "StdError(NotFound { kind: \""@ + kind + "\" })"@
}

/// Debug text of a chain error saying that a record of `kind` is missing
/// (see [`not_found_text`]).
pub fn not_found_string(kind: &str) -> (s: String)
    ensures
        s@ == not_found_text(kind@),
{
    String::from_str("StdError(NotFound { kind: \"").concat(kind).concat("\" })")
}

} // verus!

verus! {

/// An IBC packet that a contract sends: the channel, the payload and the
/// block time (nanoseconds) at which it times out.
#[derive(Debug)]
pub struct Packet<T> {
    pub channel_id: String,
    pub data: T,
    pub timeout: u64,
}

/// A packet seen as plain values.
pub struct PacketView<T> {
    pub channel_id: Seq<char>,
    pub data: T,
    pub timeout: u64,
}

impl<T> View for Packet<T> {
    type V = PacketView<T>;

    open spec fn view(&self) -> PacketView<T> {
        PacketView { channel_id: self.channel_id@, data: self.data, timeout: self.timeout }
    }
}

impl<T: DeepView> DeepView for Packet<T> {
    type V = PacketView<T::V>;

    open spec fn deep_view(&self) -> PacketView<T::V> {
        PacketView { channel_id: self.channel_id@, data: self.data.deep_view(), timeout: self.timeout }
    }
}

/// How a step of a contract ends: with a result, with an error that the
/// contract returns, or in a panic of the contract.
pub enum Outcome<T, E> {
    Done(T),
    Failed(E),
    Aborted,
}

/// An event attribute as plain text.
pub type AttrView = (Seq<char>, Seq<char>);

} // verus!

verus! {

/// Whether the packet timeout of `now` can be represented.
pub fn time_is_ok(now: u64) -> (b: bool)
    ensures
        b == time_ok(now),
{
    now <= u64::MAX - PACKET_LIFETIME_SECONDS * NANOS_PER_SECOND
}

} // verus!

verus! {

/// A message a contract sends: an IBC packet, or a call of the contract on
/// itself with a request.
pub enum Action<P, C> {
    Send(Packet<P>),
    Call(C),
}

/// A message seen as plain values.
pub enum ActionView<P, C> {
    Send(PacketView<P>),
    Call(C),
}

impl<P: DeepView, C> DeepView for Action<P, C> {
    type V = ActionView<P::V, C>;

    open spec fn deep_view(&self) -> ActionView<P::V, C> {
        match self {
            Action::Send(p) => ActionView::Send(p.deep_view()),
            Action::Call(c) => ActionView::Call(*c),
        }
    }
}

/// What a contract answers to a request: event attributes and messages.
pub struct Reply<P, C> {
    pub attributes: Vec<(String, String)>,
    pub messages: Vec<Action<P, C>>,
}

/// A reply seen as plain values.
#[verifier::ext_equal]
pub struct ReplyView<P, C> {
    pub attributes: Seq<AttrView>,
    pub messages: Seq<ActionView<P, C>>,
}

impl<P: DeepView, C> View for Reply<P, C> {
    type V = ReplyView<P::V, C>;

    open spec fn view(&self) -> ReplyView<P::V, C> {
        ReplyView { attributes: self.attributes.deep_view(), messages: self.messages.deep_view() }
    }
}

/// `o` with `a` and `m` put in front of its attributes and messages.
pub open spec fn with_prefix<S, M, E>(
    a: Seq<AttrView>,
    m: Seq<M>,
    o: Outcome<(S, (Seq<AttrView>, Seq<M>)), E>,
) -> Outcome<(S, (Seq<AttrView>, Seq<M>)), E> {
    match o {
        Outcome::Done((st, (a2, m2))) => Outcome::Done((st, (a + a2, m + m2))),
        Outcome::Failed(e) => Outcome::Failed(e),
        Outcome::Aborted => Outcome::Aborted,
    }
}

/// Appends the attributes and messages of `b` to those of `a`.
pub fn append_reply<P: DeepView, C>(
    a: &mut Vec<(String, String)>,
    am: &mut Vec<Action<P, C>>,
    b: Vec<(String, String)>,
    bm: Vec<Action<P, C>>,
)
    ensures
        final(a).deep_view() == old(a).deep_view() + b.deep_view(),
        final(am).deep_view() == old(am).deep_view() + bm.deep_view(),
{
    let ghost a0 = a.deep_view();
    let ghost m0 = am.deep_view();
    let ghost bd = b.deep_view();
    let ghost bmd = bm.deep_view();
    let mut b = b;
    let mut bm = bm;
    a.append(&mut b);
    am.append(&mut bm);
    assert(a.deep_view() =~= a0 + bd);
    assert(am.deep_view() =~= m0 + bmd);
}

/// An attribute whose key and value are literal texts.
pub fn text_attr(key: &str, value: &str) -> (a: (String, String))
    ensures
        a.deep_view() == (key@, value@),
{
    (String::from_str(key), String::from_str(value))
}

/// The elements of `v` from `count` on.
pub fn skip_vec<T: Copy>(v: &Vec<T>, count: usize) -> (r: Vec<T>)
    requires
        count <= v@.len(),
    ensures
        r@ == v@.subrange(count as int, v@.len() as int),
{
    let mut out: Vec<T> = Vec::new();
    let mut i: usize = count;
    while i < v.len()
        invariant
            count <= i <= v@.len(),
            out@ =~= v@.subrange(count as int, i as int),
        decreases v@.len() - i,
    {
        out.push(v[i]);
        i = i + 1;
    }
    out
}

/// A copy of `v`.
pub fn copy_vec<T: Copy>(v: &Vec<T>) -> (r: Vec<T>)
    ensures
        r@ == v@,
{
    let r = skip_vec(v, 0);
    assert(r@ =~= v@);
    r
}

} // verus!

verus! {

/// The order in which storage walks string keys: lexicographic on the
/// characters (the order of their UTF-8 bytes).
pub open spec fn key_lt(a: Seq<char>, b: Seq<char>) -> bool
    decreases a.len(),
{
    if b.len() == 0 {
        false
    } else if a.len() == 0 {
        true
    } else if a[0] != b[0] {
        (a[0] as u32) < (b[0] as u32)
    } else {
        key_lt(a.drop_first(), b.drop_first())
    }
}

/// The keys of a list of entries.
pub open spec fn entry_keys<V>(s: Seq<(String, V)>) -> Seq<Seq<char>> {
    s.map_values(|e: (String, V)| e.0@)
}

/// Keys in strictly ascending order, as storage walks them.
pub open spec fn ascending(keys: Seq<Seq<char>>) -> bool {
    forall|i: int, j: int| 0 <= i < j < keys.len() ==> key_lt(#[trigger] keys[i], #[trigger] keys[j])
}

/// No key is below itself.
pub proof fn lemma_key_lt_irreflexive(a: Seq<char>)
    ensures
        !key_lt(a, a),
    decreases a.len(),
{
    if a.len() > 0 {
        lemma_key_lt_irreflexive(a.drop_first());
    }
}

/// The key order is transitive.
pub proof fn lemma_key_lt_transitive(a: Seq<char>, b: Seq<char>, c: Seq<char>)
    requires
        key_lt(a, b),
        key_lt(b, c),
    ensures
        key_lt(a, c),
    decreases a.len(),
{
    if a.len() > 0 && a[0] == b[0] && b[0] == c[0] {
        lemma_key_lt_transitive(a.drop_first(), b.drop_first(), c.drop_first());
    }
}

/// Two different keys are ordered one way or the other.
pub proof fn lemma_key_lt_total(a: Seq<char>, b: Seq<char>)
    requires
        a != b,
    ensures
        key_lt(a, b) || key_lt(b, a),
    decreases a.len(),
{
    if a.len() > 0 && b.len() > 0 && a[0] == b[0] {
        if a.drop_first() == b.drop_first() {
            assert(a =~= seq![a[0]] + a.drop_first());
            assert(b =~= seq![b[0]] + b.drop_first());
        }
        lemma_key_lt_total(a.drop_first(), b.drop_first());
    } else if a.len() > 0 && b.len() > 0 && (a[0] as u32) == (b[0] as u32) {
        vstd::utf8::char_u32_cast(a[0], a[0] as u32);
        vstd::utf8::char_u32_cast(b[0], b[0] as u32);
        assert(a[0] == b[0]);
    } else if a.len() == 0 && b.len() == 0 {
        assert(a =~= b);
    }
}

/// Whether `a` comes before `b` in the storage order of keys.
pub fn key_less(a: &String, b: &String) -> (r: bool)
    ensures
        r == key_lt(a@, b@),
{
    let sa = a.as_str();
    let sb = b.as_str();
    let la = sa.unicode_len();
    let lb = sb.unicode_len();
    let mut i: usize = 0;
    assert(a@.skip(0) =~= a@ && b@.skip(0) =~= b@);
    while i < la && i < lb
        invariant
            la == a@.len(),
            lb == b@.len(),
            sa@ == a@,
            sb@ == b@,
            i <= la,
            i <= lb,
            key_lt(a@, b@) == key_lt(a@.skip(i as int), b@.skip(i as int)),
        decreases la - i,
    {
        let ca = sa.get_char(i);
        let cb = sb.get_char(i);
        let ghost x = a@.skip(i as int);
        let ghost y = b@.skip(i as int);
        assert(x[0] == ca && y[0] == cb);
        if ca != cb {
            return (ca as u32) < (cb as u32);
        }
        assert(x.drop_first() =~= a@.skip(i + 1));
        assert(y.drop_first() =~= b@.skip(i + 1));
        i = i + 1;
    }
    i < lb
}

/// The place of `k` among ascending keys that do not hold it: every key
/// before it is smaller, every key from it on is larger.
pub fn key_position<V>(entries: &Vec<(String, V)>, k: &String) -> (p: usize)
    requires
        ascending(entry_keys(entries@)),
        !entry_keys(entries@).contains(k@),
    ensures
        p <= entries@.len(),
        forall|j: int| 0 <= j < p ==> key_lt(#[trigger] entry_keys(entries@)[j], k@),
        forall|j: int| p <= j < entries@.len() ==> key_lt(k@, #[trigger] entry_keys(entries@)[j]),
{
    let ghost keys = entry_keys(entries@);
    let mut i: usize = 0;
    while i < entries.len()
        invariant
            i <= entries@.len(),
            keys == entry_keys(entries@),
            keys.len() == entries@.len(),
            ascending(keys),
            !keys.contains(k@),
            forall|j: int| 0 <= j < i ==> key_lt(#[trigger] keys[j], k@),
        decreases entries@.len() - i,
    {
        if key_less(k, &entries[i].0) {
            assert forall|j: int| i <= j < entries@.len() implies key_lt(k@, #[trigger] keys[j]) by {
                if j > i {
                    lemma_key_lt_transitive(k@, keys[i as int], keys[j]);
                }
            }
            return i;
        }
        proof {
            assert(keys[i as int] == entries@[i as int].0@);
            assert(keys[i as int] != k@);
            lemma_key_lt_total(keys[i as int], k@);
        }
        i = i + 1;
    }
    i
}

/// Inserting a new key at its place keeps the keys ascending.
pub proof fn lemma_insert_ascending(keys: Seq<Seq<char>>, p: int, k: Seq<char>)
    requires
        ascending(keys),
        0 <= p <= keys.len(),
        forall|j: int| 0 <= j < p ==> key_lt(#[trigger] keys[j], k),
        forall|j: int| p <= j < keys.len() ==> key_lt(k, #[trigger] keys[j]),
    ensures
        ascending(keys.insert(p, k)),
{
    let n = keys.insert(p, k);
    assert forall|i: int, j: int| 0 <= i < j < n.len() implies key_lt(#[trigger] n[i], #[trigger] n[j]) by {
        if i < p && j < p {
        } else if i < p && j == p {
        } else if i < p {
            assert(n[j] == keys[j - 1]);
        } else if i == p {
            assert(n[j] == keys[j - 1]);
        } else {
            assert(n[i] == keys[i - 1] && n[j] == keys[j - 1]);
        }
    }
}

} // verus!

verus! {

/// `keys` lists the keys of `m` once each, in ascending order, as storage
/// walks a map keyed by integers.
pub open spec fn ordered_keys_of<V>(m: Map<u32, V>, keys: Seq<u32>) -> bool {
    &&& forall|i: int, j: int| 0 <= i < j < keys.len() ==> keys[i] < keys[j]
    &&& forall|k: u32| m.contains_key(k) <==> keys.contains(k)
}

proof fn lemma_increasing_keys(ks: Seq<u32>)
    requires
        vstd::std_specs::btree::increasing_seq(ks),
    ensures
        forall|i: int, j: int| 0 <= i < j < ks.len() ==> ks[i] < ks[j],
{
    assert forall|i: int, j: int| 0 <= i < j < ks.len() implies ks[i] < ks[j] by {
        assert(vstd::std_specs::cmp::OrdSpec::cmp_spec(&ks[i], &ks[j]) is Less);
    }
}

/// The keys of `m` in ascending order.
pub fn ordered_keys<V>(m: &std::collections::BTreeMap<u32, V>) -> (r: Vec<u32>)
    ensures
        ordered_keys_of(m@, r@),
{
    let mut out: Vec<u32> = Vec::new();
    let ghost all = spec_btree_map_iter(m).remaining();
    let iter = m.iter();
    let ghost keys_of = |kv: (&u32, &V)| *kv.0;
    assert(vstd::std_specs::btree::increasing_seq(all.map_values(keys_of)));
    for kv in it: iter
        invariant
            it.seq() == all,
            out@ == it.seq().take(it.index() as int).map_values(|kv: (&u32, &V)| *kv.0),
    {
        let ghost before = out@;
        out.push(*kv.0);
        proof {
            let s = it.seq();
            assert(s.take(it.index() + 1).map_values(|kv: (&u32, &V)| *kv.0) =~= before.push(*kv.0));
        }
    }
    proof {
        assert(out@ =~= all.map_values(keys_of));
        let ks = all.map_values(keys_of);
        lemma_increasing_keys(ks);
        assert forall|k: u32| m@.contains_key(k) <==> ks.contains(k) by {
            if m@.contains_key(k) {
                assert(all.contains((&k, &m@[k])));
                let i = choose|i: int| 0 <= i < all.len() && all[i] == (&k, &m@[k]);
                assert(ks[i] == k);
            }
            if ks.contains(k) {
                let i = choose|i: int| 0 <= i < ks.len() && ks[i] == k;
                assert(m@.contains_key(*all[i].0));
            }
        }
    }
    out
}

} // verus!

verus! {

/// The keys of `m` in ascending order.
pub open spec fn keys_ascending<V>(m: Map<u32, V>) -> Seq<u32> {
    choose|ks: Seq<u32>| ordered_keys_of(m, ks)
}

/// Two ascending lists of the same integers are the same list.
pub proof fn lemma_ascending_lists_equal(a: Seq<u32>, b: Seq<u32>)
    requires
        forall|i: int, j: int| 0 <= i < j < a.len() ==> a[i] < a[j],
        forall|i: int, j: int| 0 <= i < j < b.len() ==> b[i] < b[j],
        forall|x: u32| a.contains(x) <==> b.contains(x),
    ensures
        a == b,
    decreases a.len(),
{
    if a.len() == 0 {
        if b.len() > 0 {
            assert(b.contains(b[0]));
        }
        assert(a =~= b);
    } else {
        assert(a.contains(a[0]));
        assert(b.len() > 0);
        assert(b.contains(b[0]));
        let i = choose|i: int| 0 <= i < a.len() && a[i] == b[0];
        let j = choose|j: int| 0 <= j < b.len() && b[j] == a[0];
        assert(a[0] == b[0]) by {
            if i > 0 {
                assert(a[0] < a[i]);
            }
            if j > 0 {
                assert(b[0] < b[j]);
            }
        }
        let a1 = a.drop_first();
        let b1 = b.drop_first();
        assert forall|x: u32| a1.contains(x) <==> b1.contains(x) by {
            if a1.contains(x) {
                let k = choose|k: int| 0 <= k < a1.len() && a1[k] == x;
                assert(a[k + 1] == x && a[0] < a[k + 1]);
                assert(a.contains(x));
                let l = choose|l: int| 0 <= l < b.len() && b[l] == x;
                assert(l > 0);
                assert(b1[l - 1] == x);
            }
            if b1.contains(x) {
                let k = choose|k: int| 0 <= k < b1.len() && b1[k] == x;
                assert(b[k + 1] == x && b[0] < b[k + 1]);
                assert(b.contains(x));
                let l = choose|l: int| 0 <= l < a.len() && a[l] == x;
                assert(l > 0);
                assert(a1[l - 1] == x);
            }
        }
        assert forall|p: int, q: int| 0 <= p < q < a1.len() implies a1[p] < a1[q] by {
            assert(a1[p] == a[p + 1] && a1[q] == a[q + 1]);
        }
        assert forall|p: int, q: int| 0 <= p < q < b1.len() implies b1[p] < b1[q] by {
            assert(b1[p] == b[p + 1] && b1[q] == b[q + 1]);
        }
        lemma_ascending_lists_equal(a1, b1);
        assert(a =~= seq![a[0]] + a1);
        assert(b =~= seq![b[0]] + b1);
    }
}

/// The keys of `m` in ascending order, as `keys_ascending` states them.
pub fn sorted_keys<V>(m: &std::collections::BTreeMap<u32, V>) -> (r: Vec<u32>)
    ensures
        r@ == keys_ascending(m@),
        ordered_keys_of(m@, r@),
{
    let r = ordered_keys(m);
    proof {
        let c = keys_ascending(m@);
        assert(ordered_keys_of(m@, c));
        lemma_ascending_lists_equal(r@, c);
    }
    r
}

} // verus!

verus! {

/// The entries of `m` in ascending order of key.
pub open spec fn entries_ascending<V>(m: Map<u32, V>) -> Seq<(u32, V)> {
    keys_ascending(m).map_values(|k: u32| (k, m[k]))
}

/// The entries of `m` in ascending order of key.
pub fn copy_entries<V: Copy>(m: &std::collections::BTreeMap<u32, V>) -> (r: Vec<(u32, V)>)
    ensures
        r@ == entries_ascending(m@),
{
    let keys = sorted_keys(m);
    let mut out: Vec<(u32, V)> = Vec::new();
    let mut i: usize = 0;
    while i < keys.len()
        invariant
            i <= keys@.len(),
            keys@ == keys_ascending(m@),
            forall|k: u32| m@.contains_key(k) <==> keys@.contains(k),
            out@ =~= keys@.take(i as int).map_values(|k: u32| (k, m@[k])),
        decreases keys@.len() - i,
    {
        let k = keys[i];
        assert(keys@.contains(k));
        let v = match m.get(&k) {
            Some(v) => *v,
            None => vstd::pervasive::unreached(),
        };
        out.push((k, v));
        assert(keys@.take(i + 1).map_values(|k: u32| (k, m@[k])) =~= keys@.take(i as int).map_values(
            |k: u32| (k, m@[k]),
        ).push((k, m@[k])));
        i = i + 1;
    }
    assert(keys@.take(keys@.len() as int) =~= keys@);
    out
}

} // verus!

verus! {

/// The ascending keys of a map are the only ascending list of its keys.
pub proof fn lemma_keys_ascending_unique<V>(m: Map<u32, V>, ks: Seq<u32>)
    requires
        ordered_keys_of(m, ks),
    ensures
        keys_ascending(m) == ks,
{
    let c = keys_ascending(m);
    assert(ordered_keys_of(m, c));
    lemma_ascending_lists_equal(c, ks);
}

} // verus!
