//! Network addresses as they are written in `config.toml` and after `-a`:
//! `localhost`, or an IPv4 address in dotted decimal notation.
use vstd::prelude::*;
use crate::config::Ipv4Address;
use crate::decimal::{
    all_digits, decimal, digit_value, digits_value, is_digit, lemma_decimal_digits,
    lemma_decimal_shape,
};
use crate::network::ipv4_text;
use crate::text::{chars_of, same_text};

verus! {

/// The pieces of `s` between the occurrences of `c`, in order; there is one
/// more piece than there are occurrences.
pub open spec fn split_on(s: Seq<char>, c: char) -> Seq<Seq<char>>
    decreases s.len(),
{
    if s.len() == 0 {
        seq![Seq::<char>::empty()]
    } else {
        let p = split_on(s.drop_last(), c);
        if s.last() == c {
            p.push(Seq::<char>::empty())
        } else {
            p.update(p.len() - 1, p.last().push(s.last()))
        }
    }
}

proof fn lemma_split_on_nonempty(s: Seq<char>, c: char)
    ensures
        split_on(s, c).len() >= 1,
    decreases s.len(),
{
    if s.len() > 0 {
        lemma_split_on_nonempty(s.drop_last(), c);
    }
}

/// Splitting `s + [c]` on `c` gives the pieces of `s` and an empty last one.
pub proof fn lemma_split_on_separator(s: Seq<char>, c: char)
    ensures
        split_on(s + seq![c], c) == split_on(s, c).push(Seq::<char>::empty()),
{
    assert((s + seq![c]).drop_last() =~= s);
}

/// Appending text without `c` to `s` extends the last piece of `s`.
pub proof fn lemma_split_on_extend(s: Seq<char>, x: Seq<char>, c: char)
    requires
        !x.contains(c),
    ensures
        split_on(s + x, c) == split_on(s, c).drop_last().push(split_on(s, c).last() + x),
    decreases x.len(),
{
    lemma_split_on_nonempty(s, c);
    let q = split_on(s, c);
    if x.len() == 0 {
        assert(s + x =~= s);
        assert(q.last() + x =~= q.last());
        assert(q.drop_last().push(q.last()) =~= q);
    } else {
        let xd = x.drop_last();
        assert(!xd.contains(c)) by {
            if xd.contains(c) {
                let k = choose|k: int| 0 <= k < xd.len() && xd[k] == c;
                assert(x[k] == c);
            }
        }
        lemma_split_on_extend(s, xd, c);
        assert((s + x).drop_last() =~= s + xd);
        assert((s + x).last() == x.last());
        assert(x.last() != c) by {
            assert(x[x.len() - 1] == x.last());
        }
        let p = split_on(s + xd, c);
        assert(p =~= q.drop_last().push(q.last() + xd));
        assert((q.last() + xd).push(x.last()) =~= q.last() + x);
        assert(p.last() == q.last() + xd);
        assert(p.len() == q.len());
        assert(p.update(p.len() - 1, p.last().push(x.last())) =~= q.drop_last().push(q.last() + x));
    }
}

/// Text without `c` is one piece.
pub proof fn lemma_split_on_single(x: Seq<char>, c: char)
    requires
        !x.contains(c),
    ensures
        split_on(x, c) == seq![x],
{
    lemma_split_on_extend(Seq::<char>::empty(), x, c);
    assert(Seq::<char>::empty() + x =~= x);
    assert(split_on(Seq::<char>::empty(), c) == seq![Seq::<char>::empty()]);
    assert(seq![Seq::<char>::empty()].drop_last().push(Seq::<char>::empty() + x) =~= seq![x]);
}

/// The value of one part of a dotted decimal address: one to three digits,
/// without a leading zero unless the part is `0`, at most 255.
pub open spec fn octet_value(p: Seq<char>) -> Option<u8> {
    if 1 <= p.len() <= 3 && all_digits(p) && !(p.len() > 1 && p[0] == '0') && digits_value(p)
        <= 255 {
        Some(digits_value(p) as u8)
    } else {
        None
    }
}

/// An IPv4 address in dotted decimal notation, as `Ipv4Addr::from_str`
/// reads one: four parts separated by `.`, each an octet (see
/// `octet_value`).
pub open spec fn ipv4_spec(s: Seq<char>) -> Option<Ipv4Address> {
    let parts = split_on(s, '.');
    if parts.len() == 4 && octet_value(parts[0]) is Some && octet_value(parts[1]) is Some
        && octet_value(parts[2]) is Some && octet_value(parts[3]) is Some {
        Some(
            Ipv4Address(
                octet_value(parts[0])->0,
                octet_value(parts[1])->0,
                octet_value(parts[2])->0,
                octet_value(parts[3])->0,
            ),
        )
    } else {
        None
    }
}

/// The word `localhost`.
pub open spec fn localhost_spec() -> Seq<char> {
    seq!['l', 'o', 'c', 'a', 'l', 'h', 'o', 's', 't']
}

/// The address that `s` names: `localhost` is the loopback address
/// 127.0.0.1; anything else is read as dotted decimal.
pub open spec fn address_of(s: Seq<char>) -> Option<Ipv4Address> {
    if s == localhost_spec() {
        Some(Ipv4Address(127, 0, 0, 1))
    } else {
        ipv4_spec(s)
    }
}

/// The value of the part `p` (see `octet_value`).
fn octet_of(p: &Vec<char>) -> (r: Option<u8>)
    ensures
        r == octet_value(p@),
{
    if p.len() < 1 || p.len() > 3 {
        return None;
    }
    if p.len() > 1 && p[0] == '0' {
        return None;
    }
    let mut acc: u32 = 0;
    let mut i: usize = 0;
    while i < p.len()
        invariant
            1 <= p.len() <= 3,
            i <= p.len(),
            forall|k: int| 0 <= k < i ==> is_digit(#[trigger] p@[k]),
            acc == digits_value(p@.take(i as int)),
            acc < 1000,
        decreases p.len() - i,
    {
        let c = p[i];
        if !('0' <= c && c <= '9') {
            assert(!is_digit(p@[i as int]));
            return None;
        }
        assert(p@.take(i + 1).drop_last() =~= p@.take(i as int));
        let ghost before = acc;
        acc = acc * 10 + ((c as u32) - ('0' as u32));
        assert(acc < 1000) by {
            assert(i < 3);
            if i == 0 {
                assert(p@.take(0) =~= Seq::<char>::empty());
            } else {
                assert(before < 100) by {
                    // at most i digits so far, i <= 2
                    lemma_digits_value_bound(p@.take(i as int));
                }
            }
        }
        i = i + 1;
    }
    assert(p@.take(p.len() as int) =~= p@);
    if acc > 255 {
        None
    } else {
        Some(acc as u8)
    }
}

proof fn lemma_digits_value_bound(s: Seq<char>)
    requires
        all_digits(s),
        s.len() <= 2,
    ensures
        s.len() == 0 ==> digits_value(s) == 0,
        s.len() == 1 ==> digits_value(s) < 10,
        s.len() == 2 ==> digits_value(s) < 100,
    decreases s.len(),
{
    if s.len() >= 1 {
        let last = s[s.len() - 1];
        assert(is_digit(last));
        assert(digit_value(last) < 10);
        assert(all_digits(s.drop_last())) by {
            assert forall|i: int| 0 <= i < s.drop_last().len() implies is_digit(
                #[trigger] s.drop_last()[i],
            ) by {
                assert(s.drop_last()[i] == s[i]);
            }
        }
        lemma_digits_value_bound(s.drop_last());
        assert(digits_value(s) == digits_value(s.drop_last()) * 10 + digit_value(s.last()));
    }
}

/// Every octet written in decimal reads back as itself.
pub proof fn lemma_octet_of_decimal(n: u8)
    ensures
        octet_value(decimal(n as nat)) == Some(n),
{
    lemma_decimal_digits(n as nat);
    lemma_decimal_shape(n as nat);
}

proof fn lemma_decimal_has_no(n: nat, c: char)
    requires
        !is_digit(c),
    ensures
        !decimal(n).contains(c),
{
    lemma_decimal_digits(n);
    if decimal(n).contains(c) {
        let k = choose|k: int| 0 <= k < decimal(n).len() && decimal(n)[k] == c;
        assert(is_digit(decimal(n)[k]));
    }
}

/// Every address printed in dotted decimal (as `SocketAddrV4` prints it)
/// reads back as itself, as an IPv4 address and as an address after `-a`.
pub proof fn lemma_ipv4_text_roundtrip(ip: Ipv4Address)
    ensures
        ipv4_spec(ipv4_text(ip)) == Some(ip),
        address_of(ipv4_text(ip)) == Some(ip),
{
    let d0 = decimal(ip.0 as nat);
    let d1 = decimal(ip.1 as nat);
    let d2 = decimal(ip.2 as nat);
    let d3 = decimal(ip.3 as nat);
    let dot = seq!['.'];
    lemma_decimal_has_no(ip.0 as nat, '.');
    lemma_decimal_has_no(ip.1 as nat, '.');
    lemma_decimal_has_no(ip.2 as nat, '.');
    lemma_decimal_has_no(ip.3 as nat, '.');
    lemma_split_on_single(d0, '.');
    lemma_split_on_separator(d0, '.');
    lemma_split_on_extend(d0 + dot, d1, '.');
    assert(split_on(d0 + dot + d1, '.') =~= seq![d0, d1]);
    lemma_split_on_separator(d0 + dot + d1, '.');
    lemma_split_on_extend(d0 + dot + d1 + dot, d2, '.');
    assert(split_on(d0 + dot + d1 + dot + d2, '.') =~= seq![d0, d1, d2]);
    lemma_split_on_separator(d0 + dot + d1 + dot + d2, '.');
    lemma_split_on_extend(d0 + dot + d1 + dot + d2 + dot, d3, '.');
    assert(split_on(d0 + dot + d1 + dot + d2 + dot + d3, '.') =~= seq![d0, d1, d2, d3]);
    assert(ipv4_text(ip) == d0 + dot + d1 + dot + d2 + dot + d3);
    lemma_octet_of_decimal(ip.0);
    lemma_octet_of_decimal(ip.1);
    lemma_octet_of_decimal(ip.2);
    lemma_octet_of_decimal(ip.3);
    lemma_decimal_digits(ip.0 as nat);
    assert(is_digit(ipv4_text(ip)[0]));
    assert(ipv4_text(ip) != localhost_spec()) by {
        assert(ipv4_text(ip)[0] != localhost_spec()[0]);
    }
}

/// Reads an IPv4 address in dotted decimal notation (see `ipv4_spec`).
pub fn parse_ipv4(s: &str) -> (r: Option<Ipv4Address>)
    ensures
        r == ipv4_spec(s@),
{
    let cs = chars_of(s);
    let mut done: Vec<Vec<char>> = Vec::new();
    let mut cur: Vec<char> = Vec::new();
    let mut i: usize = 0;
    assert(cs@.take(0) =~= Seq::<char>::empty());
    assert(split_on(cs@.take(0), '.') =~= seq![Seq::<char>::empty()]);
    while i < cs.len()
        invariant
            cs@ == s@,
            i <= cs.len(),
            split_on(cs@.take(i as int), '.') == done@.map_values(|v: Vec<char>| v@).push(cur@),
        decreases cs.len() - i,
    {
        let c = cs[i];
        let ghost prev = split_on(cs@.take(i as int), '.');
        assert(cs@.take(i + 1).drop_last() =~= cs@.take(i as int));
        assert(cs@.take(i + 1).last() == c);
        if c == '.' {
            let ghost old_done = done@;
            done.push(cur);
            cur = Vec::new();
            assert(done@.map_values(|v: Vec<char>| v@) =~= old_done.map_values(|v: Vec<char>| v@).push(
                prev.last(),
            ));
            assert(split_on(cs@.take(i + 1), '.') =~= done@.map_values(|v: Vec<char>| v@).push(cur@));
        } else {
            let ghost old_cur = cur@;
            cur.push(c);
            assert(split_on(cs@.take(i + 1), '.') =~= done@.map_values(|v: Vec<char>| v@).push(cur@));
        }
        i = i + 1;
    }
    assert(cs@.take(cs.len() as int) =~= cs@);
    let ghost parts = split_on(s@, '.');
    if done.len() != 3 {
        return None;
    }
    assert(parts[0] == done@[0]@);
    assert(parts[1] == done@[1]@);
    assert(parts[2] == done@[2]@);
    assert(parts[3] == cur@);
    let a = octet_of(&done[0]);
    let b = octet_of(&done[1]);
    let c = octet_of(&done[2]);
    let d = octet_of(&cur);
    match (a, b, c, d) {
        (Some(a), Some(b), Some(c), Some(d)) => Some(Ipv4Address(a, b, c, d)),
        _ => None,
    }
}

/// Reads an address: `localhost`, or dotted decimal (see `address_of`).
pub fn parse_address(s: &str) -> (r: Option<Ipv4Address>)
    ensures
        r == address_of(s@),
{
    proof {
        reveal_strlit("localhost");
    }
    assert("localhost"@ =~= localhost_spec());
    if same_text(s, "localhost") {
        Some(Ipv4Address(127, 0, 0, 1))
    } else {
        parse_ipv4(s)
    }
}

} // verus!
