//! Display text for addresses and frame kinds: `net.node:port` with each
//! number in decimal, and the short names of the frame kinds.

use vstd::prelude::*;

verus! {

/// The character of one decimal digit.
pub open spec fn digit_char(d: nat) -> char {
    if d == 0 { '0' }
    else if d == 1 { '1' }
    else if d == 2 { '2' }
    else if d == 3 { '3' }
    else if d == 4 { '4' }
    else if d == 5 { '5' }
    else if d == 6 { '6' }
    else if d == 7 { '7' }
    else if d == 8 { '8' }
    else { '9' }
}

/// The decimal digits of `n`, most significant first, with no leading zeros.
pub open spec fn decimal(n: nat) -> Seq<char>
    decreases n,
{
    if n < 10 {
        seq![digit_char(n)]
    } else {
        decimal(n / 10).push(digit_char(n % 10))
    }
}

/// An ergot address as plain values.
#[derive(Clone, Copy, PartialEq, Eq, Debug)]
pub struct Address {
    pub network_id: u16,
    pub node_id: u8,
    pub port_id: u8,
}

/// `net.node:port`, each in decimal.
pub open spec fn addr_text(a: Address) -> Seq<char> {
    decimal(a.network_id as nat) + seq!['.'] + decimal(a.node_id as nat) + seq![':'] + decimal(
        a.port_id as nat,
    )
}

/// The display name of a frame kind: "req", "resp", "topic" and "err" for
/// the kinds 1, 2, 3 and 255, and the number in decimal for any other.
pub open spec fn kind_text(kind: u8) -> Seq<char> {
    if kind == 1 {
        seq!['r', 'e', 'q']
    } else if kind == 2 {
        seq!['r', 'e', 's', 'p']
    } else if kind == 3 {
        seq!['t', 'o', 'p', 'i', 'c']
    } else if kind == 255 {
        seq!['e', 'r', 'r']
    } else {
        decimal(kind as nat)
    }
}

fn push_digit(s: &mut String, d: u64)
    requires
        d < 10,
    ensures
        final(s)@ == old(s)@.push(digit_char(d as nat)),
{
    let t = if d == 0 {
        proof { reveal_strlit("0"); }
        "0"
    } else if d == 1 {
        proof { reveal_strlit("1"); }
        "1"
    } else if d == 2 {
        proof { reveal_strlit("2"); }
        "2"
    } else if d == 3 {
        proof { reveal_strlit("3"); }
        "3"
    } else if d == 4 {
        proof { reveal_strlit("4"); }
        "4"
    } else if d == 5 {
        proof { reveal_strlit("5"); }
        "5"
    } else if d == 6 {
        proof { reveal_strlit("6"); }
        "6"
    } else if d == 7 {
        proof { reveal_strlit("7"); }
        "7"
    } else if d == 8 {
        proof { reveal_strlit("8"); }
        "8"
    } else {
        proof { reveal_strlit("9"); }
        "9"
    };
    assert(t@ =~= seq![digit_char(d as nat)]);
    s.append(t);
    assert(s@ =~= old(s)@.push(digit_char(d as nat)));
}

/// Append the decimal digits of `n`.
pub fn push_decimal(s: &mut String, n: u64)
    ensures
        final(s)@ == old(s)@ + decimal(n as nat),
    decreases n,
{
    if n >= 10 {
        push_decimal(s, n / 10);
    }
    push_digit(s, n % 10);
    proof {
        if n >= 10 {
            assert(old(s)@ + decimal((n / 10) as nat) + seq![digit_char((n % 10) as nat)]
                =~= old(s)@ + decimal(n as nat));
        } else {
            assert(old(s)@.push(digit_char(n as nat)) =~= old(s)@ + decimal(n as nat));
        }
    }
}

/// The decimal text of `n`.
pub fn decimal_string(n: u64) -> (s: String)
    ensures
        s@ == decimal(n as nat),
{
    let mut s = String::new();
    push_decimal(&mut s, n);
    assert(Seq::<char>::empty() + decimal(n as nat) =~= decimal(n as nat));
    s
}

/// Format an address as `net.node:port`.
pub fn fmt_addr(a: &Address) -> (s: String)
    ensures
        s@ == addr_text(*a),
{
    let mut s = String::new();
    push_decimal(&mut s, a.network_id as u64);
    proof { reveal_strlit("."); }
    s.append(".");
    push_decimal(&mut s, a.node_id as u64);
    proof { reveal_strlit(":"); }
    s.append(":");
    push_decimal(&mut s, a.port_id as u64);
    assert(s@ =~= addr_text(*a));
    s
}

/// The display name of a frame kind.
pub fn kind_name(kind: u8) -> (s: String)
    ensures
        s@ == kind_text(kind),
{
    if kind == 1 {
        proof { reveal_strlit("req"); }
        let s = String::from_str("req");
        assert(s@ =~= kind_text(kind));
        s
    } else if kind == 2 {
        proof { reveal_strlit("resp"); }
        let s = String::from_str("resp");
        assert(s@ =~= kind_text(kind));
        s
    } else if kind == 3 {
        proof { reveal_strlit("topic"); }
        let s = String::from_str("topic");
        assert(s@ =~= kind_text(kind));
        s
    } else if kind == 255 {
        proof { reveal_strlit("err"); }
        let s = String::from_str("err");
        assert(s@ =~= kind_text(kind));
        s
    } else {
        decimal_string(kind as u64)
    }
}

} // verus!
