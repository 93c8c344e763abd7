//! Text building blocks: decimal numerals and string helpers.

use vstd::prelude::*;

verus! {

/// The decimal digit character for `d < 10`.
pub open spec fn digit_char(d: nat) -> char {
    if d == 0 {
        '0'
    } else if d == 1 {
        '1'
    } else if d == 2 {
        '2'
    } else if d == 3 {
        '3'
    } else if d == 4 {
        '4'
    } else if d == 5 {
        '5'
    } else if d == 6 {
        '6'
    } else if d == 7 {
        '7'
    } else if d == 8 {
        '8'
    } else {
        '9'
    }
}

/// The decimal numeral of `n`, without leading zeros.
pub open spec fn decimal(n: nat) -> Seq<char>
    decreases n,
{
    if n < 10 {
        seq![digit_char(n)]
    } else {
        decimal(n / 10).push(digit_char(n % 10))
    }
}

/// The decimal numeral of `n`, with a leading `-` when it is negative.
pub open spec fn signed_decimal(n: int) -> Seq<char> {
    if n < 0 {
        "-"@ + decimal((-n) as nat)
    } else {
        decimal(n as nat)
    }
}

fn digit_str(d: u64) -> (r: &'static str)
    requires
        d < 10,
    ensures
        r@ == seq![digit_char(d as nat)],
{
    proof {
        reveal_strlit("0");
        reveal_strlit("1");
        reveal_strlit("2");
        reveal_strlit("3");
        reveal_strlit("4");
        reveal_strlit("5");
        reveal_strlit("6");
        reveal_strlit("7");
        reveal_strlit("8");
        reveal_strlit("9");
    }
    let r = if d == 0 {
        "0"
    } else if d == 1 {
        "1"
    } else if d == 2 {
        "2"
    } else if d == 3 {
        "3"
    } else if d == 4 {
        "4"
    } else if d == 5 {
        "5"
    } else if d == 6 {
        "6"
    } else if d == 7 {
        "7"
    } else if d == 8 {
        "8"
    } else {
        "9"
    };
    assert(r@ =~= seq![digit_char(d as nat)]);
    r
}

/// Appends the decimal numeral of `n` to `out`.
pub fn push_decimal(out: &mut String, n: u64)
    ensures
        final(out)@ == old(out)@ + decimal(n as nat),
    decreases n,
{
    if n >= 10 {
        push_decimal(out, n / 10);
    }
    out.append(digit_str(n % 10));
    assert(out@ =~= old(out)@ + decimal(n as nat));
}

/// Appends the decimal numeral of `n`, signed, to `out`.
pub fn push_signed_decimal(out: &mut String, n: i32)
    ensures
        final(out)@ == old(out)@ + signed_decimal(n as int),
{
    if n < 0 {
        out.append("-");
        let magnitude: u64 = (0i64 - n as i64) as u64;
        push_decimal(out, magnitude);
        assert(out@ =~= old(out)@ + signed_decimal(n as int));
    } else {
        push_decimal(out, n as u64);
    }
}

/// A fresh `String` holding the characters of `s`.
pub fn owned(s: &str) -> (r: String)
    ensures
        r@ == s@,
{
    String::from_str(s)
}

/// The positions, in order, of the names in `names` that satisfy `keep`.
pub open spec fn positions_where(names: Seq<Seq<char>>, keep: spec_fn(Seq<char>) -> bool) -> Seq<int>
    decreases names.len(),
{
    if names.len() == 0 {
        Seq::empty()
    } else {
        let earlier = positions_where(names.drop_last(), keep);
        if keep(names.last()) {
            earlier.push(names.len() - 1)
        } else {
            earlier
        }
    }
}

/// The views of a sequence of strings.
pub open spec fn views(v: Seq<String>) -> Seq<Seq<char>> {
    v.map_values(|s: String| s@)
}

/// Every position in `positions_where(names, keep)` is a position of `names`, they increase
/// strictly, and each names an element that satisfies `keep`.
pub proof fn lemma_positions_where(names: Seq<Seq<char>>, keep: spec_fn(Seq<char>) -> bool)
    ensures
        positions_where(names, keep).len() <= names.len(),
        forall|j: int|
            0 <= j < positions_where(names, keep).len() ==> {
                &&& 0 <= #[trigger] positions_where(names, keep)[j] < names.len()
                &&& keep(names[positions_where(names, keep)[j]])
            },
        forall|a: int, b: int|
            0 <= a < b < positions_where(names, keep).len() ==> #[trigger] positions_where(names, keep)[a]
                < #[trigger] positions_where(names, keep)[b],
    decreases names.len(),
{
    if names.len() > 0 {
        lemma_positions_where(names.drop_last(), keep);
    }
}

} // verus!
