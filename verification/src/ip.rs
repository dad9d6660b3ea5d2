//! IP addresses, and the list of those that may reach the panel.

use crate::text::{
    all_digits, chars_of, digits_value, find, find_char, is_digit, parse_unsigned, split,
    split_text, text_of, texts, trim_text, trimmed, unsigned_up_to,
};
use vstd::prelude::*;

verus! {

broadcast use vstd::string::group_string_axioms;

/// An IP address.
pub enum IpAddr {
    V4(u32),
    /// Eight groups of sixteen bits.
    V6(Vec<u16>),
}

/// What an `IpAddr` holds.
#[verifier::ext_equal]
pub enum IpView {
    V4(u32),
    V6(Seq<u16>),
}

impl View for IpAddr {
    type V = IpView;

    open spec fn view(&self) -> IpView {
        match *self {
            IpAddr::V4(a) => IpView::V4(a),
            IpAddr::V6(groups) => IpView::V6(groups@),
        }
    }
}

// ---- addresses as text ----

/// One of the four numbers of an IPv4 address: up to 255, without zeros before
/// it.
pub open spec fn octet(p: Seq<char>) -> Option<u8> {
    if 1 <= p.len() <= 3 && all_digits(p) && (p.len() == 1 || p[0] != '0') && digits_value(p) <= 255 {
        Some(digits_value(p) as u8)
    } else {
        None
    }
}

/// An IPv4 address: four numbers with dots between them.
pub open spec fn ipv4_of(s: Seq<char>) -> Option<u32> {
    let parts = split(s, '.');
    if parts.len() == 4 {
        match (octet(parts[0]), octet(parts[1]), octet(parts[2]), octet(parts[3])) {
            (Some(a), Some(b), Some(c), Some(d)) => Some(
                (a * 16777216 + b * 65536 + c * 256 + d) as u32,
            ),
            _ => None,
        }
    } else {
        None
    }
}

/// The value of a hexadecimal digit.
pub open spec fn hex_of(c: char) -> Option<int> {
    if '0' <= c <= '9' {
        Some(c as int - 48)
    } else if 'a' <= c <= 'f' {
        Some(c as int - 87)
    } else if 'A' <= c <= 'F' {
        Some(c as int - 55)
    } else {
        None
    }
}

/// The number that a row of hexadecimal digits stands for.
pub open spec fn hex_number(p: Seq<char>) -> Option<int>
    decreases p.len(),
{
    if p.len() == 0 {
        Some(0)
    } else {
        match (hex_number(p.drop_last()), hex_of(p.last())) {
            (Some(n), Some(d)) => Some(n * 16 + d),
            _ => None,
        }
    }
}

/// A group of an IPv6 address: one to four hexadecimal digits.
pub open spec fn group_of(p: Seq<char>) -> Option<u16> {
    if 1 <= p.len() <= 4 && hex_number(p) is Some {
        Some(hex_number(p)->Some_0 as u16)
    } else {
        None
    }
}

/// Groups of an IPv6 address; an IPv4 address may stand for the last two.
pub open spec fn groups_of(pieces: Seq<Seq<char>>, last: bool) -> Option<Seq<u16>>
    decreases pieces.len(),
{
    if pieces.len() == 0 {
        Some(Seq::empty())
    } else {
        match groups_of(pieces.drop_last(), false) {
            Some(before) => match group_of(pieces.last()) {
                Some(g) => Some(before.push(g)),
                None => match ipv4_of(pieces.last()) {
                    Some(a) => if last {
                        Some(before.push((a / 65536) as u16).push((a % 65536) as u16))
                    } else {
                        None
                    },
                    None => None,
                },
            },
            None => None,
        }
    }
}

/// A run of groups with colons between them, or none at all.
pub open spec fn run_of(s: Seq<char>, last: bool) -> Option<Seq<u16>> {
    if s.len() == 0 {
        Some(Seq::empty())
    } else {
        groups_of(split(s, ':'), last)
    }
}

/// The position of the first two colons in a row, or the length of `s`.
pub open spec fn gap_at(s: Seq<char>) -> int
    decreases s.len(),
{
    if s.len() < 2 {
        s.len() as int
    } else if s[0] == ':' && s[1] == ':' {
        0
    } else {
        1 + gap_at(s.skip(1))
    }
}

/// So many zero groups.
pub open spec fn zeros(n: int) -> Seq<u16> {
    Seq::new(n as nat, |i: int| 0u16)
}

/// An IPv6 address: eight groups, or fewer with a gap of zeros at two colons.
pub open spec fn ipv6_of(s: Seq<char>) -> Option<Seq<u16>> {
    let gap = gap_at(s);
    if gap < s.len() {
        match (run_of(s.take(gap), false), run_of(s.skip(gap + 2), true)) {
            (Some(head), Some(tail)) => if head.len() + tail.len() <= 7 {
                Some(head + zeros(8 - head.len() - tail.len()) + tail)
            } else {
                None
            },
            _ => None,
        }
    } else {
        match run_of(s, true) {
            Some(all) => if all.len() == 8 {
                Some(all)
            } else {
                None
            },
            None => None,
        }
    }
}

/// An IP address as text.
pub open spec fn ip_of(s: Seq<char>) -> Option<IpView> {
    match ipv4_of(s) {
        Some(a) => Some(IpView::V4(a)),
        None => match ipv6_of(s) {
            Some(groups) => Some(IpView::V6(groups)),
            None => None,
        },
    }
}

fn parse_octet(p: &str) -> (r: Option<u8>)
    ensures
        r == octet(p@),
{
    let cs = chars_of(p);
    if cs.len() == 0 || cs.len() > 3 {
        return None;
    }
    let first = cs[0];
    if cs.len() > 1 && first == '0' {
        return None;
    }
    if first == '+' {
        assert(!is_digit(p@[0]));
        return None;
    }
    match parse_unsigned(p, 255) {
        Some(n) => Some(n as u8),
        None => None,
    }
}

/// Reads an IPv4 address.
pub fn parse_ipv4(s: &str) -> (r: Option<u32>)
    ensures
        r == ipv4_of(s@),
{
    let parts = split_text(s, '.');
    if parts.len() != 4 {
        return None;
    }
    assert(forall|i: int| 0 <= i < 4 ==> texts(parts@)[i] == #[trigger] parts@[i]@);
    let a = parse_octet(parts[0].as_str());
    let b = parse_octet(parts[1].as_str());
    let c = parse_octet(parts[2].as_str());
    let d = parse_octet(parts[3].as_str());
    match (a, b, c, d) {
        (Some(a), Some(b), Some(c), Some(d)) => Some(
            a as u32 * 16777216 + b as u32 * 65536 + c as u32 * 256 + d as u32,
        ),
        _ => None,
    }
}

fn hex_value_of(c: char) -> (r: Option<u16>)
    ensures
        match r {
            Some(d) => hex_of(c) == Some(d as int) && d < 16,
            None => hex_of(c) is None,
        },
{
    if '0' <= c && c <= '9' {
        Some((c as u32 - 48) as u16)
    } else if 'a' <= c && c <= 'f' {
        Some((c as u32 - 87) as u16)
    } else if 'A' <= c && c <= 'F' {
        Some((c as u32 - 55) as u16)
    } else {
        None
    }
}

proof fn lemma_hex_number_none(p: Seq<char>, k: int)
    requires
        0 <= k <= p.len(),
        hex_number(p.take(k)) is None,
    ensures
        hex_number(p) is None,
    decreases p.len() - k,
{
    if k < p.len() {
        assert(p.take(k + 1).drop_last() =~= p.take(k));
        lemma_hex_number_none(p, k + 1);
    } else {
        assert(p.take(k) =~= p);
    }
}

fn parse_group(p: &str) -> (r: Option<u16>)
    ensures
        r == group_of(p@),
{
    let cs = chars_of(p);
    if cs.len() == 0 || cs.len() > 4 {
        return None;
    }
    let mut value: u32 = 0;
    let mut bound: u32 = 1;
    let mut i: usize = 0;
    assert(p@.take(0) =~= Seq::<char>::empty());
    while i < cs.len()
        invariant
            cs@ == p@,
            i <= cs@.len(),
            cs@.len() <= 4,
            hex_number(p@.take(i as int)) == Some(value as int),
            value < bound,
            i == 0 ==> bound == 1,
            i == 1 ==> bound == 16,
            i == 2 ==> bound == 256,
            i == 3 ==> bound == 4096,
            i == 4 ==> bound == 65536,
        decreases cs@.len() - i,
    {
        assert(p@.take(i + 1).drop_last() =~= p@.take(i as int));
        assert(p@.take(i + 1).last() == cs@[i as int]);
        match hex_value_of(cs[i]) {
            Some(d) => {
                value = value * 16 + d as u32;
                bound = bound * 16;
            },
            None => {
                proof {
                    lemma_hex_number_none(p@, i + 1);
                }
                return None;
            },
        }
        i = i + 1;
    }
    assert(p@.take(i as int) =~= p@);
    Some(value as u16)
}

proof fn lemma_groups_none(pieces: Seq<Seq<char>>, k: int, last: bool)
    requires
        0 <= k < pieces.len(),
        groups_of(pieces.take(k), false) is None,
    ensures
        groups_of(pieces, last) is None,
    decreases pieces.len(),
{
    let before = pieces.drop_last();
    if k == pieces.len() - 1 {
        assert(pieces.take(k) =~= before);
    } else {
        assert(before.take(k) =~= pieces.take(k));
        lemma_groups_none(before, k, false);
    }
}

fn parse_run(s: &str, last: bool) -> (r: Option<Vec<u16>>)
    ensures
        match r {
            Some(groups) => run_of(s@, last) == Some(groups@),
            None => run_of(s@, last) is None,
        },
{
    let mut out: Vec<u16> = Vec::new();
    if s.is_empty() {
        assert(out@ =~= Seq::<u16>::empty());
        return Some(out);
    }
    let pieces = split_text(s, ':');
    let ghost all = split(s@, ':');
    let mut i: usize = 0;
    assert(all.take(0) =~= Seq::<Seq<char>>::empty());
    assert(out@ =~= Seq::<u16>::empty());
    while i < pieces.len()
        invariant
            s@.len() > 0,
            all == split(s@, ':'),
            texts(pieces@) == all,
            i <= pieces@.len(),
            i < pieces@.len() ==> groups_of(all.take(i as int), false) == Some(out@),
            i == pieces@.len() ==> groups_of(all, last) == Some(out@) || pieces@.len() == 0,
        decreases pieces@.len() - i,
    {
        let piece = pieces[i].as_str();
        assert(all[i as int] == piece@);
        let ghost next = all.take(i + 1);
        assert(next.drop_last() =~= all.take(i as int));
        assert(next.last() == piece@);
        let ghost so_far = out@;
        let at_end = i + 1 == pieces.len();
        assert(at_end ==> next =~= all);
        match parse_group(piece) {
            Some(g) => {
                out.push(g);
                assert(out@ == so_far.push(g));
            },
            None => {
                let address = if at_end && last {
                    parse_ipv4(piece)
                } else {
                    None
                };
                match address {
                    Some(a) => {
                        out.push((a / 65536) as u16);
                        out.push((a % 65536) as u16);
                        assert(out@ == so_far.push((a / 65536) as u16).push((a % 65536) as u16));
                    },
                    None => {
                        proof {
                            if !at_end {
                                assert(groups_of(next, false) is None);
                                lemma_groups_none(all, i + 1, last);
                            }
                        }
                        return None;
                    },
                }
            },
        }
        i = i + 1;
    }
    proof {
        crate::text::lemma_find(s@, ':');
        assert(all.len() > 0);
    }
    Some(out)
}

fn find_gap(cs: &[char]) -> (r: usize)
    ensures
        r == gap_at(cs@),
        r <= cs@.len(),
        r < cs@.len() ==> r + 2 <= cs@.len(),
{
    let n = cs.len();
    let mut i: usize = 0;
    assert(cs@.skip(0) =~= cs@);
    while i < n
        invariant
            n == cs@.len(),
            i <= n,
            gap_at(cs@) == i + gap_at(cs@.skip(i as int)),
        decreases n - i,
    {
        let ghost rest = cs@.skip(i as int);
        if n - i >= 2 && cs[i] == ':' && cs[i + 1] == ':' {
            assert(rest[0] == ':' && rest[1] == ':');
            return i;
        }
        assert(rest.skip(1) =~= cs@.skip(i + 1));
        if n - i >= 2 {
            assert(rest[0] == cs@[i as int] && rest[1] == cs@[i + 1]);
        }
        i = i + 1;
    }
    n
}

/// Reads an IPv6 address.
pub fn parse_ipv6(s: &str) -> (r: Option<Vec<u16>>)
    ensures
        match r {
            Some(groups) => ipv6_of(s@) == Some(groups@),
            None => ipv6_of(s@) is None,
        },
{
    let cs = chars_of(s);
    let gap = find_gap(cs.as_slice());
    if gap == cs.len() {
        return match parse_run(s, true) {
            Some(all) => if all.len() == 8 {
                Some(all)
            } else {
                None
            },
            None => None,
        };
    }
    let before = text_of(cs.as_slice(), 0, gap);
    let after = text_of(cs.as_slice(), gap + 2, cs.len());
    assert(before@ =~= s@.take(gap as int));
    assert(after@ =~= s@.skip(gap + 2));
    match (parse_run(before.as_str(), false), parse_run(after.as_str(), true)) {
        (Some(head), Some(tail)) => {
            let h = head.len();
            let t = tail.len();
            if h > 7 || t > 7 || h + t > 7 {
                return None;
            }
            let ghost first = head@;
            let ghost second = tail@;
            let mut out = head;
            while out.len() < 8 - t
                invariant
                    h + t <= 7,
                    h == first.len(),
                    h <= out@.len() <= 8 - t,
                    out@ == first + zeros(out@.len() - h),
                decreases 8 - t - out@.len(),
            {
                out.push(0);
                assert(out@ =~= first + zeros(out@.len() - h));
            }
            let mut tail = tail;
            out.append(&mut tail);
            assert(out@ =~= first + zeros(8 - h - t) + second);
            Some(out)
        },
        _ => None,
    }
}

/// Reads an IP address.
pub fn parse_ip(s: &str) -> (r: Option<IpAddr>)
    ensures
        match r {
            Some(a) => ip_of(s@) == Some(a@),
            None => ip_of(s@) is None,
        },
{
    match parse_ipv4(s) {
        Some(a) => Some(IpAddr::V4(a)),
        None => match parse_ipv6(s) {
            Some(groups) => Some(IpAddr::V6(groups)),
            None => None,
        },
    }
}

// ---- the list ----

/// A network: an IPv4 address, a slash and the number of its leading bits.
pub open spec fn cidr_of(s: Seq<char>) -> Option<(u32, u32)> {
    let at = find(s, '/');
    if at < s.len() {
        match (ipv4_of(s.take(at)), unsigned_up_to(s.skip(at + 1), 32)) {
            (Some(net), Some(bits)) => Some((net, bits as u32)),
            _ => None,
        }
    } else {
        None
    }
}

/// The leading bits of an address.
pub open spec fn leading_bits(a: u32, bits: u32) -> u32 {
    if bits == 0 {
        0
    } else {
        a >> ((32 - bits) as u32)
    }
}

/// Whether an entry of the list speaks of an address.
pub open spec fn entry_allows(entry: Seq<char>, ip: IpView) -> bool {
    let e = trimmed(entry);
    match cidr_of(e) {
        Some((net, bits)) => ip matches IpView::V4(a) && leading_bits(a, bits) == leading_bits(
            net,
            bits,
        ),
        None => ip_of(e) == Some(ip),
    }
}

/// Whether an address may reach the panel: the list has an entry for it, or no
/// entry at all.
pub open spec fn allows(list: Seq<Seq<char>>, ip: IpView) -> bool {
    list.len() == 0 || exists|i: int| 0 <= i < list.len() && #[trigger] entry_allows(list[i], ip)
}

/// Reads a network.
pub fn parse_cidr_v4(s: &str) -> (r: Option<(u32, u32)>)
    ensures
        r == cidr_of(s@),
        r matches Some(n) ==> n.1 <= 32,
{
    let cs = chars_of(s);
    let at = find_char(cs.as_slice(), 0, '/');
    assert(cs@.skip(0) =~= s@);
    if at == cs.len() {
        return None;
    }
    let net = text_of(cs.as_slice(), 0, at);
    let bits = text_of(cs.as_slice(), at + 1, cs.len());
    assert(net@ =~= s@.take(at as int));
    assert(bits@ =~= s@.skip(at + 1));
    match (parse_ipv4(net.as_str()), parse_unsigned(bits.as_str(), 32)) {
        (Some(net), Some(bits)) => Some((net, bits as u32)),
        _ => None,
    }
}

/// Whether two addresses share their leading bits.
pub fn ipv4_match(ip: u32, net: u32, bits: u32) -> (r: bool)
    requires
        bits <= 32,
    ensures
        r == (leading_bits(ip, bits) == leading_bits(net, bits)),
{
    if bits == 0 {
        return true;
    }
    if bits == 32 {
        assert(ip >> 0u32 == ip) by (bit_vector);
        assert(net >> 0u32 == net) by (bit_vector);
        return ip == net;
    }
    let rest: u32 = 32 - bits;
    assert(1u32 << rest >= 1) by (bit_vector)
        requires
            rest < 32,
    ;
    let mask: u32 = !((1u32 << rest) - 1);
    assert((ip & mask) == (net & mask) <==> (ip >> rest) == (net >> rest)) by (bit_vector)
        requires
            0 < rest < 32,
            mask == !(((1u32 << rest) - 1) as u32),
    ;
    (ip & mask) == (net & mask)
}

/// Whether two addresses are the same.
pub fn same_ip(a: &IpAddr, b: &IpAddr) -> (r: bool)
    ensures
        r == (a@ == b@),
{
    match (a, b) {
        (IpAddr::V4(x), IpAddr::V4(y)) => *x == *y,
        (IpAddr::V6(x), IpAddr::V6(y)) => {
            if x.len() != y.len() {
                return false;
            }
            let mut i: usize = 0;
            while i < x.len()
                invariant
                    *a == IpAddr::V6(*x),
                    *b == IpAddr::V6(*y),
                    x@.len() == y@.len(),
                    i <= x@.len(),
                    forall|k: int| 0 <= k < i ==> x@[k] == y@[k],
                decreases x@.len() - i,
            {
                if x[i] != y[i] {
                    return false;
                }
                i = i + 1;
            }
            assert(x@ =~= y@);
            true
        },
        _ => false,
    }
}

fn is_entry_for(entry: &str, ip: &IpAddr) -> (r: bool)
    ensures
        r == entry_allows(entry@, ip@),
{
    let entry = trim_text(entry);
    match parse_cidr_v4(entry.as_str()) {
        Some((net, bits)) => match ip {
            IpAddr::V4(a) => ipv4_match(*a, net, bits),
            IpAddr::V6(_) => false,
        },
        None => match parse_ip(entry.as_str()) {
            Some(a) => same_ip(&a, ip),
            None => false,
        },
    }
}

/// Whether an address may reach the panel.
pub fn ip_allowed(allowed: &Vec<String>, ip: &IpAddr) -> (r: bool)
    ensures
        r == allows(texts(allowed@), ip@),
{
    if allowed.len() == 0 {
        return true;
    }
    let mut i: usize = 0;
    while i < allowed.len()
        invariant
            allowed@.len() > 0,
            i <= allowed@.len(),
            forall|k: int| 0 <= k < i ==> !#[trigger] entry_allows(texts(allowed@)[k], ip@),
        decreases allowed@.len() - i,
    {
        assert(texts(allowed@)[i as int] == allowed@[i as int]@);
        if is_entry_for(allowed[i].as_str(), ip) {
            assert(entry_allows(texts(allowed@)[i as int], ip@));
            return true;
        }
        i = i + 1;
    }
    false
}

/// Without a list every address may reach the panel.
pub proof fn law_empty_list_allows_all(ip: IpView)
    ensures
        allows(Seq::empty(), ip),
{
}

/// The address of a network is in it, whatever the number of bits.
pub proof fn law_network_holds_its_address(entry: Seq<char>)
    requires
        cidr_of(trimmed(entry)) is Some,
    ensures
        entry_allows(entry, IpView::V4(cidr_of(trimmed(entry))->Some_0.0)),
{
}

/// One more entry never shuts an address out that an entry let in.
pub proof fn law_more_entries_allow_more(list: Seq<Seq<char>>, entry: Seq<char>, ip: IpView)
    requires
        list.len() > 0,
        allows(list, ip),
    ensures
        allows(list.push(entry), ip),
{
    let i = choose|i: int| 0 <= i < list.len() && #[trigger] entry_allows(list[i], ip);
    assert(list.push(entry)[i] == list[i]);
    assert(entry_allows(list.push(entry)[i], ip));
}

} // verus!
