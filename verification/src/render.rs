//! Rendering of numbers and lists as the text the contracts put into
//! attributes and query answers.
use vstd::prelude::*;

verus! {

/// The character that writes the decimal digit `d` (for `d < 10`).
pub open spec fn digit_char(d: nat) -> char {
    if d == 0 {
        '0'
    } else if d == 1 {
        '1'
    } else if d == 2 {
        '2'
    } else if d == 3 {
        '3'
    } else if d == 4 {
        '4'
    } else if d == 5 {
        '5'
    } else if d == 6 {
        '6'
    } else if d == 7 {
        '7'
    } else if d == 8 {
        '8'
    } else {
        '9'
    }
}

/// Decimal notation of `n`: most significant digit first, no leading zero.
pub open spec fn dec_nat(n: nat) -> Seq<char>
    decreases n,
{
    if n < 10 {
        seq![digit_char(n)]
    } else {
        dec_nat(n / 10) + seq![digit_char(n % 10)]
    }
}

/// Decimal notation of an integer, with a leading `-` when negative.
pub open spec fn dec_int(i: int) -> Seq<char> {
    if i < 0 {
        seq!['-'] + dec_nat((-i) as nat)
    } else {
        dec_nat(i as nat)
    }
}

/// Text of a boolean, as Rust writes it.
pub open spec fn bool_text(b: bool) -> Seq<char> {
    if b {
        seq!['t', 'r', 'u', 'e']
    } else {
        seq!['f', 'a', 'l', 's', 'e']
    }
}

/// Binary notation of `n`, least significant bit first ("0" for zero).
pub open spec fn bin_rev(n: nat) -> Seq<char>
    decreases n,
{
    if n < 2 {
        seq![digit_char(n)]
    } else {
        seq![digit_char(n % 2)] + bin_rev(n / 2)
    }
}

/// The parts joined with `sep` between each two neighbours.
pub open spec fn join(parts: Seq<Seq<char>>, sep: Seq<char>) -> Seq<char>
    decreases parts.len(),
{
    if parts.len() == 0 {
        Seq::empty()
    } else if parts.len() == 1 {
        parts[0]
    } else {
        join(parts.drop_last(), sep) + sep + parts.last()
    }
}

fn digit_str(d: u64) -> (r: &'static str)
    requires
        d < 10,
    ensures
        r@ == seq![digit_char(d as nat)],
{
    proof {
        reveal_strlit("0");
        reveal_strlit("1");
        reveal_strlit("2");
        reveal_strlit("3");
        reveal_strlit("4");
        reveal_strlit("5");
        reveal_strlit("6");
        reveal_strlit("7");
        reveal_strlit("8");
        reveal_strlit("9");
    }
    if d == 0 {
        "0"
    } else if d == 1 {
        "1"
    } else if d == 2 {
        "2"
    } else if d == 3 {
        "3"
    } else if d == 4 {
        "4"
    } else if d == 5 {
        "5"
    } else if d == 6 {
        "6"
    } else if d == 7 {
        "7"
    } else if d == 8 {
        "8"
    } else {
        "9"
    }
}

/// Decimal text of an unsigned number.
pub fn dec_u64(n: u64) -> (s: String)
    ensures
        s@ == dec_nat(n as nat),
    decreases n,
{
    if n < 10 {
        String::from_str(digit_str(n))
    } else {
        let head = dec_u64(n / 10);
        head.concat(digit_str(n % 10))
    }
}

/// Decimal text of a signed number.
pub fn dec_i64(i: i64) -> (s: String)
    ensures
        s@ == dec_int(i as int),
{
    if i < 0 {
        let wide: i128 = i as i128;
        let magnitude: u64 = (0i128 - wide) as u64;
        let digits = dec_u64(magnitude);
        proof {
            reveal_strlit("-");
        }
        let mut s = String::from_str("-");
        s.append(digits.as_str());
        s
    } else {
        dec_u64(i as u64)
    }
}

/// Text of a boolean.
pub fn bool_string(b: bool) -> (s: String)
    ensures
        s@ == bool_text(b),
{
    proof {
        reveal_strlit("true");
        reveal_strlit("false");
    }
    if b {
        String::from_str("true")
    } else {
        String::from_str("false")
    }
}

/// Binary text of `n`, least significant bit first.
pub fn bin_rev_u64(n: u64) -> (s: String)
    ensures
        s@ == bin_rev(n as nat),
    decreases n,
{
    if n < 2 {
        String::from_str(digit_str(n))
    } else {
        let low = String::from_str(digit_str(n % 2));
        let rest = bin_rev_u64(n / 2);
        low.concat(rest.as_str())
    }
}

/// Joins the texts with `sep` between neighbours.
pub fn join_strings(parts: &Vec<String>, sep: &str) -> (s: String)
    ensures
        s@ == join(parts.deep_view(), sep@),
{
    let mut s = String::new();
    let mut i: usize = 0;
    while i < parts.len()
        invariant
            i <= parts.len(),
            s@ == join(parts.deep_view().take(i as int), sep@),
        decreases parts.len() - i,
    {
        proof {
            let t = parts.deep_view().take(i as int + 1);
            assert(t.drop_last() =~= parts.deep_view().take(i as int));
            assert(t.last() == parts[i as int]@);
        }
        if i > 0 {
            s.append(sep);
        } else {
            assert(parts.deep_view().take(1) =~= seq![parts[0]@]);
        }
        s.append(parts[i].as_str());
        i = i + 1;
    }
    assert(parts.deep_view().take(i as int) =~= parts.deep_view());
    s
}

/// Debug text of a list of numbers: decimal texts between brackets,
/// separated by a comma and a space.
pub open spec fn list_text(v: Seq<u32>) -> Seq<char> {
    "["@ + join(v.map_values(|x: u32| dec_nat(x as nat)), ", "@) + "]"@
}

/// Debug text of a list of numbers (see [`list_text`]).
pub fn list_string(v: &Vec<u32>) -> (s: String)
    ensures
        s@ == list_text(v@),
{
    let mut parts: Vec<String> = Vec::new();
    let mut i: usize = 0;
    while i < v.len()
        invariant
            i <= v.len(),
            parts.deep_view() == v@.take(i as int).map_values(|x: u32| dec_nat(x as nat)),
        decreases v.len() - i,
    {
        let t = dec_u64(v[i] as u64);
        let ghost before = parts.deep_view();
        parts.push(t);
        assert(parts.deep_view() =~= before.push(dec_nat(v@[i as int] as nat)));
        assert(v@.take(i as int + 1) =~= v@.take(i as int).push(v@[i as int]));
        assert(parts.deep_view() =~= v@.take(i as int + 1).map_values(|x: u32| dec_nat(x as nat)));
        i = i + 1;
    }
    assert(v@.take(i as int) =~= v@);
    let body = join_strings(&parts, ", ");
    String::from_str("[").concat(body.as_str()).concat("]")
}

} // verus!
