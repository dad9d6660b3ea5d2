//! Which texts are addresses, and which addresses a list of them allows.

use crate::ip::{
    allows, cidr_of, entry_allows, gap_at, group_of, groups_of, hex_number, hex_of, ip_of, ipv4_of,
    ipv6_of, leading_bits, octet, run_of, IpAddr, IpView,
};
use crate::text::{all_digits, decimal, digits_value, is_digit, split, trimmed, unsigned};
use crate::text_laws::joined;
use vstd::arithmetic::power2::pow2;
use vstd::prelude::*;

verus! {

broadcast use vstd::string::group_string_axioms;

proof fn lemma_digits_write_back(s: Seq<char>)
    requires
        s.len() > 0,
        all_digits(s),
        s.len() == 1 || s[0] != '0',
    ensures
        decimal(digits_value(s)) == s,
        s.len() > 1 ==> digits_value(s) >= 10,
    decreases s.len(),
{
    reveal_with_fuel(digits_value, 2);
    assert(is_digit(s.last()));
    if s.len() == 1 {
        assert(s.drop_last().len() == 0);
        assert(decimal(digits_value(s)) =~= s);
    } else {
        let rest = s.drop_last();
        assert(all_digits(rest)) by {
            assert forall|i: int| 0 <= i < rest.len() implies is_digit(#[trigger] rest[i]) by {
                assert(rest[i] == s[i]);
            }
        }
        assert(rest[0] == s[0]);
        lemma_digits_write_back(rest);
        if digits_value(rest) == 0 {
            assert(decimal(0)[0] == '0');
        }
        let n = digits_value(s);
        assert(n / 10 == digits_value(rest));
        assert(decimal(n) =~= s);
    }
}

/// A part of an IPv4 address is a number up to 255 as it is written in decimal,
/// without zeros before it.
pub proof fn law_parts_of_an_address(s: Seq<char>, n: u8)
    ensures
        octet(s) == Some(n) <==> s == decimal(n as nat),
        octet(s) is Some ==> s == decimal(octet(s)->Some_0 as nat),
{
    crate::text::lemma_decimal_reads_back(n as nat);
    if octet(s) is Some {
        lemma_digits_write_back(s);
    }
    if s == decimal(n as nat) {
        lemma_short_decimal(n);
    }
}

proof fn lemma_short_decimal(n: u8)
    ensures
        decimal(n as nat).len() <= 3,
        decimal(n as nat).len() == 1 || decimal(n as nat)[0] != '0',
{
    reveal_with_fuel(decimal, 4);
    let m = n as nat;
    if m >= 100 {
        assert(decimal(m / 100) =~= seq![crate::text::digit(m / 100)]);
        assert(m / 10 / 10 == m / 100);
        assert(decimal(m / 10) == decimal(m / 10 / 10).push(crate::text::digit(m / 10 % 10)));
        assert(1 <= m / 100 <= 2);
        assert(decimal(m)[0] == crate::text::digit(m / 100));
    } else if m >= 10 {
        assert(1 <= m / 10 <= 9);
        assert(decimal(m / 10) =~= seq![crate::text::digit(m / 10)]);
        assert(decimal(m)[0] == crate::text::digit(m / 10));
    }
}

proof fn lemma_no_dot(n: nat)
    ensures
        !decimal(n).contains('.'),
{
    crate::text::lemma_decimal_reads_back(n);
    assert forall|i: int| 0 <= i < decimal(n).len() implies decimal(n)[i] != '.' by {
        assert(is_digit(decimal(n)[i]));
    }
}

/// Four numbers in decimal with dots between them.
pub open spec fn dotted(a: u8, b: u8, c: u8, d: u8) -> Seq<char> {
    joined(
        seq![decimal(a as nat), decimal(b as nat), decimal(c as nat), decimal(d as nat)],
        '.',
    )
}

/// An IPv4 address is four such parts with dots between them, the first of which
/// weighs most; no other text is one.
pub proof fn law_ipv4_addresses(s: Seq<char>, a: u8, b: u8, c: u8, d: u8)
    ensures
        ipv4_of(dotted(a, b, c, d)) == Some((a * 16777216 + b * 65536 + c * 256 + d) as u32),
        ipv4_of(s) is Some ==> exists|w: u8, x: u8, y: u8, z: u8|
            s == #[trigger] dotted(w, x, y, z),
{
    let parts = seq![decimal(a as nat), decimal(b as nat), decimal(c as nat), decimal(d as nat)];
    lemma_no_dot(a as nat);
    lemma_no_dot(b as nat);
    lemma_no_dot(c as nat);
    lemma_no_dot(d as nat);
    assert forall|i: int| 0 <= i < parts.len() implies !(#[trigger] parts[i]).contains('.') by {
        assert(i == 0 || i == 1 || i == 2 || i == 3);
    }
    crate::text_laws::law_joined_parts_split_again(parts, '.');
    law_parts_of_an_address(parts[0], a);
    law_parts_of_an_address(parts[1], b);
    law_parts_of_an_address(parts[2], c);
    law_parts_of_an_address(parts[3], d);
    if ipv4_of(s) is Some {
        let p = split(s, '.');
        crate::text_laws::law_split_parts_make_the_text(s, '.');
        let w = octet(p[0])->Some_0;
        let x = octet(p[1])->Some_0;
        let y = octet(p[2])->Some_0;
        let z = octet(p[3])->Some_0;
        law_parts_of_an_address(p[0], w);
        law_parts_of_an_address(p[1], x);
        law_parts_of_an_address(p[2], y);
        law_parts_of_an_address(p[3], z);
        assert(p =~= seq![
            decimal(w as nat),
            decimal(x as nat),
            decimal(y as nat),
            decimal(z as nat),
        ]);
        assert(s == dotted(w, x, y, z));
    }
}

/// A group of an IPv6 address is a hexadecimal number of one to four digits,
/// small or capital, the first of which weighs most.
pub proof fn law_groups_of_an_address(p: Seq<char>, c: char, v: int, n: int)
    requires
        0 <= v < 16,
    ensures
        hex_of("0123456789abcdef"@[v]) == Some(v),
        hex_of("0123456789ABCDEF"@[v]) == Some(v),
        hex_of(c) is Some <==> '0' <= c <= '9' || 'a' <= c <= 'f' || 'A' <= c <= 'F',
        hex_number(Seq::empty()) == Some(0int),
        hex_number(p) == Some(n) && hex_of(c) == Some(v) ==> hex_number(p.push(c)) == Some(
            16 * n + v,
        ),
        hex_number(p) is None || hex_of(c) is None ==> hex_number(p.push(c)) is None,
        hex_number(p) == Some(n) && 1 <= p.len() <= 4 ==> group_of(p) == Some(n as u16),
        hex_number(p) is None || p.len() == 0 || p.len() > 4 ==> group_of(p) is None,
{
    reveal_strlit("0123456789abcdef");
    reveal_strlit("0123456789ABCDEF");
    assert(p.push(c).drop_last() =~= p);
    assert(p.push(c).last() == c);
}

/// Groups between colons are read one after the other; only in the last place
/// an IPv4 address counts for two.
pub proof fn law_groups_are_read_in_turn(x: Seq<Seq<char>>, p: Seq<char>, last: bool, g: Seq<u16>)
    ensures
        groups_of(Seq::empty(), last) == Some(Seq::<u16>::empty()),
        groups_of(x, false) == Some(g) && group_of(p) is Some ==> groups_of(x.push(p), last)
            == Some(g.push(group_of(p)->Some_0)),
        groups_of(x, false) == Some(g) && group_of(p) is None && ipv4_of(p) is Some
            ==> groups_of(x.push(p), true) == Some(
            g.push((ipv4_of(p)->Some_0 / 65536) as u16).push((ipv4_of(p)->Some_0 % 65536) as u16),
        ),
        group_of(p) is None && ipv4_of(p) is Some ==> groups_of(x.push(p), false) is None,
        group_of(p) is None && ipv4_of(p) is None ==> groups_of(x.push(p), last) is None,
        groups_of(x, false) is None ==> groups_of(x.push(p), last) is None,
{
    assert(x.push(p).drop_last() =~= x);
    assert(x.push(p).last() == p);
}

proof fn lemma_gap(s: Seq<char>)
    ensures
        0 <= gap_at(s) <= s.len(),
        gap_at(s) < s.len() ==> gap_at(s) + 1 < s.len() && s[gap_at(s)] == ':' && s[gap_at(s) + 1]
            == ':',
        forall|i: int|
            0 <= i < gap_at(s) && i + 1 < s.len() ==> !((#[trigger] s[i]) == ':' && s[i + 1]
                == ':'),
    decreases s.len(),
{
    if s.len() >= 2 && !(s[0] == ':' && s[1] == ':') {
        let t = s.skip(1);
        lemma_gap(t);
        assert forall|i: int| 0 <= i < gap_at(s) && i + 1 < s.len() implies !((#[trigger] s[i])
            == ':' && s[i + 1] == ':') by {
            if i > 0 {
                assert(t[i - 1] == s[i] && t[i] == s[i + 1]);
            }
        }
        if gap_at(t) < t.len() {
            assert(s[gap_at(s)] == t[gap_at(t)] && s[gap_at(s) + 1] == t[gap_at(t) + 1]);
        }
    }
}

/// An IPv6 address is eight groups, or fewer with two colons in the place of the
/// zeros that are missing.
pub proof fn law_ipv6_addresses(head: Seq<char>, tail: Seq<char>, s: Seq<char>)
    ensures
        (forall|i: int|
            0 <= i < head.len() ==> !((#[trigger] (head + "::"@)[i]) == ':' && (
            head + "::"@)[i + 1] == ':')) ==> ipv6_of(head + "::"@ + tail) == match (
            run_of(head, false),
            run_of(tail, true),
        ) {
            (Some(x), Some(y)) => if x.len() + y.len() < 8 {
                Some(x + Seq::new((8 - x.len() - y.len()) as nat, |i: int| 0u16) + y)
            } else {
                None
            },
            _ => None,
        },
        (forall|i: int| 0 <= i < s.len() - 1 ==> !((#[trigger] s[i]) == ':' && s[i + 1] == ':'))
            ==> ipv6_of(s) == match run_of(s, true) {
            Some(all) => if all.len() == 8 {
                Some(all)
            } else {
                None
            },
            None => None,
        },
        run_of(Seq::empty(), true) == Some(Seq::<u16>::empty()),
        head.len() > 0 ==> run_of(head, false) == groups_of(split(head, ':'), false),
        tail.len() > 0 ==> run_of(tail, true) == groups_of(split(tail, ':'), true),
{
    reveal_strlit("::");
    let whole = head + "::"@ + tail;
    let n = head.len() as int;
    if forall|i: int|
        0 <= i < head.len() ==> !((#[trigger] (head + "::"@)[i]) == ':' && (head
            + "::"@)[i + 1] == ':') {
        lemma_gap(whole);
        assert(whole[n] == ':' && whole[n + 1] == ':');
        assert(gap_at(whole) <= n);
        if gap_at(whole) < n {
            let i = gap_at(whole);
            assert((head + "::"@)[i] == whole[i]);
            assert((head + "::"@)[i + 1] == whole[i + 1]);
        }
        assert(whole.take(n) =~= head);
        assert(whole.skip(n + 2) =~= tail);
        if run_of(head, false) is Some && run_of(tail, true) is Some {
            let x = run_of(head, false)->Some_0;
            let y = run_of(tail, true)->Some_0;
            if x.len() + y.len() < 8 {
                assert(crate::ip::zeros(8 - x.len() - y.len()) =~= Seq::new(
                    (8 - x.len() - y.len()) as nat,
                    |i: int| 0u16,
                ));
            }
        }
    }
    lemma_gap(s);
}

/// A text is an IPv4 address or else an IPv6 address.
pub proof fn law_addresses(s: Seq<char>, a: u32, groups: Seq<u16>, seen: Vec<u16>)
    ensures
        ipv4_of(s) == Some(a) ==> ip_of(s) == Some(IpView::V4(a)),
        ipv4_of(s) is None && ipv6_of(s) == Some(groups) ==> ip_of(s) == Some(IpView::V6(groups)),
        ipv4_of(s) is None && ipv6_of(s) is None ==> ip_of(s) is None,
        (IpAddr::V4(a))@ == IpView::V4(a),
        (IpAddr::V6(seen))@ == IpView::V6(seen@),
{
}

/// A network is an address, a slash and a number of bits up to 32.
pub proof fn law_networks(net: Seq<char>, bits: Seq<char>, n: nat)
    requires
        !net.contains('/'),
    ensures
        ipv4_of(net) is Some && unsigned(bits) == Some(n) && n <= 32 ==> cidr_of(
            net + seq!['/'] + bits,
        ) == Some((ipv4_of(net)->Some_0, n as u32)),
        ipv4_of(net) is None ==> cidr_of(net + seq!['/'] + bits) is None,
        unsigned(bits) is None ==> cidr_of(net + seq!['/'] + bits) is None,
        unsigned(bits) == Some(n) && n > 32 ==> cidr_of(net + seq!['/'] + bits) is None,
        cidr_of(net) is None,
{
    let s = net + seq!['/'] + bits;
    let at = net.len() as int;
    assert(s[at] == '/');
    assert forall|i: int| 0 <= i < at implies s[i] != '/' by {
        assert(s[i] == net[i]);
    }
    crate::text::lemma_find_is(s, '/', at);
    assert(s.take(at) =~= net);
    assert(s.skip(at + 1) =~= bits);
    crate::text::lemma_find(net, '/');
}

/// The leading bits of an address are what is left of it without the others.
pub proof fn law_leading_bits(a: u32, bits: u32)
    requires
        bits <= 32,
    ensures
        leading_bits(a, bits) as nat == a as nat / pow2((32 - bits) as nat),
{
    vstd::arithmetic::power2::lemma2_to64();
    if bits > 0 {
        vstd::bits::lemma_u32_shr_is_div(a, (32 - bits) as u32);
    } else {
        let all = pow2(32);
        assert(all == 0x1_0000_0000);
        vstd::arithmetic::div_mod::lemma_basic_div(a as int, all as int);
    }
}

/// A list allows an address that one of its entries allows, and every address
/// where it is empty. A network allows the IPv4 addresses that begin with its
/// bits; any other entry allows the address that it is.
pub proof fn law_lists_allow_addresses(
    x: Seq<Seq<char>>,
    y: Seq<Seq<char>>,
    entry: Seq<char>,
    ip: IpView,
    a: u32,
    net: u32,
    bits: u32,
)
    ensures
        allows(Seq::empty(), ip),
        allows(seq![entry], ip) <==> entry_allows(entry, ip),
        x.len() > 0 && y.len() > 0 ==> (allows(x + y, ip) <==> allows(x, ip) || allows(y, ip)),
        cidr_of(trimmed(entry)) is None ==> (entry_allows(entry, ip) <==> ip_of(trimmed(entry))
            == Some(ip)),
        cidr_of(trimmed(entry)) == Some((net, bits)) ==> (entry_allows(entry, IpView::V4(a))
            <==> leading_bits(a, bits) == leading_bits(net, bits)),
        cidr_of(trimmed(entry)) is Some && ip is V6 ==> !entry_allows(entry, ip),
{
    if entry_allows(entry, ip) {
        assert(seq![entry][0] == entry);
        assert(entry_allows(seq![entry][0], ip));
    }
    let all = x + y;
    if x.len() > 0 && y.len() > 0 {
        if allows(x, ip) {
            let i = choose|i: int| 0 <= i < x.len() && #[trigger] entry_allows(x[i], ip);
            assert(all[i] == x[i]);
            assert(entry_allows(all[i], ip));
        }
        if allows(y, ip) {
            let i = choose|i: int| 0 <= i < y.len() && #[trigger] entry_allows(y[i], ip);
            assert(all[x.len() + i] == y[i]);
            assert(entry_allows(all[x.len() + i], ip));
        }
        if allows(all, ip) {
            let i = choose|i: int| 0 <= i < all.len() && #[trigger] entry_allows(all[i], ip);
            if i < x.len() {
                assert(entry_allows(x[i], ip));
            } else {
                assert(all[i] == y[i - x.len()]);
                assert(entry_allows(y[i - x.len()], ip));
            }
        }
    }
}

} // verus!
