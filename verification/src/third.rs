//! Request parameters, and the webhook messages of other platforms (Feishu,
//! WeCom and DingTalk robots) read as messages of this service.

use crate::json::{
    entry_trees, find_entry, lemma_array_tree, lookup, show_number, trees, Json, JsonTree,
};
use crate::text::{
    chars_of, find, find_char, lossy_room, lossy_text, same_text, split, split_text, text_of, texts,
    utf8_lossy,
};
use crate::feishu::{feishu, feishu_message};
use crate::weiding::{weiding, weiding_message};
use vstd::prelude::*;
use vstd::string::*;
use vstd::utf8::*;

verus! {

broadcast use vstd::string::group_string_axioms;

/// The parameters of a request: what came first under a name is kept.
pub struct Params {
    pub map: Vec<(String, Json)>,
}

impl View for Params {
    type V = Map<Seq<char>, JsonTree>;

    open spec fn view(&self) -> Map<Seq<char>, JsonTree> {
        let entries = entry_trees(self.map@);
        Map::new(|k: Seq<char>| lookup(entries, k) is Some, |k: Seq<char>| lookup(entries, k)->Some_0)
    }
}

/// Entries looked up after one more was added at the end.
proof fn lemma_lookup_push(
    entries: Seq<(Seq<char>, JsonTree)>,
    entry: (Seq<char>, JsonTree),
    key: Seq<char>,
)
    ensures
        lookup(entries.push(entry), key) == match lookup(entries, key) {
            Some(v) => Some(v),
            None => if entry.0 == key {
                Some(entry.1)
            } else {
                None
            },
        },
    decreases entries.len(),
{
    let more = entries.push(entry);
    if entries.len() == 0 {
        assert(more[0] == entry);
        assert(more.skip(1) == entries);
        assert(lookup(entries, key) is None);
    } else {
        assert(more[0] == entries[0]);
        assert(more.skip(1) == entries.skip(1).push(entry));
        lemma_lookup_push(entries.skip(1), entry, key);
    }
}

impl Params {
    /// No name stands twice.
    pub open spec fn wf(&self) -> bool {
        forall|i: int, j: int|
            0 <= i < j < self.map@.len() ==> (#[trigger] self.map@[i]).0@ != (
            #[trigger] self.map@[j]).0@
    }

    /// No parameters.
    pub fn new() -> (r: Params)
        ensures
            r.wf(),
            r@ == Map::<Seq<char>, JsonTree>::empty(),
    {
        let r = Params { map: Vec::new() };
        assert(entry_trees(r.map@) == Seq::<(Seq<char>, JsonTree)>::empty());
        assert(r@ =~= Map::<Seq<char>, JsonTree>::empty());
        r
    }

    /// The value under a name, as it came.
    pub fn get_val(&self, key: &str) -> (r: Option<&Json>)
        ensures
            match r {
                Some(v) => self@.contains_key(key@) && self@[key@] == v@,
                None => !self@.contains_key(key@),
            },
    {
        find_entry(&self.map, key)
    }

    /// The value under a name as text: a string, a number or a boolean.
    pub fn get_str(&self, key: &str) -> (r: Option<String>)
        ensures
            match r {
                Some(s) => text_param(self@, key@) == Some(s@),
                None => text_param(self@, key@) is None,
            },
    {
        match self.get_val(key) {
            Some(v) => v.scalar_text(),
            None => None,
        }
    }

    /// The same parameters again.
    pub fn copy(&self) -> (r: Params)
        ensures
            r@ == self@,
            self.wf() ==> r.wf(),
    {
        let mut map: Vec<(String, Json)> = Vec::new();
        let mut i: usize = 0;
        while i < self.map.len()
            invariant
                i <= self.map@.len(),
                map@.len() == i,
                forall|k: int|
                    0 <= k < i ==> (#[trigger] map@[k]).0@ == self.map@[k].0@ && map@[k].1@
                        == self.map@[k].1@,
            decreases self.map@.len() - i,
        {
            map.push((self.map[i].0.clone(), self.map[i].1.copy()));
            i = i + 1;
        }
        assert(entry_trees(map@) =~= entry_trees(self.map@));
        Params { map }
    }

    /// Keeps a value under a name that is not taken yet.
    pub fn put(&mut self, key: String, value: Json)
        ensures
            final(self)@ == if old(self)@.contains_key(key@) {
                old(self)@
            } else {
                old(self)@.insert(key@, value@)
            },
            old(self).wf() ==> final(self).wf(),
    {
        if self.get_val(key.as_str()).is_some() {
            return;
        }
        let ghost before = entry_trees(self.map@);
        let ghost entry = (key@, value@);
        let ghost old_map = self.map@;
        proof {
            assert forall|i: int| 0 <= i < old_map.len() implies (#[trigger] old_map[i]).0@ != key@ by {
                if old_map[i].0@ == key@ {
                    lemma_lookup_some(before, i);
                }
            }
        }
        self.map.push((key, value));
        proof {
            assert(entry_trees(self.map@) =~= before.push(entry));
            assert forall|k: Seq<char>| lookup(before.push(entry), k) == (match lookup(before, k) {
                Some(v) => Some(v),
                None => if entry.0 == k {
                    Some(entry.1)
                } else {
                    None
                },
            }) by {
                lemma_lookup_push(before, entry, k);
            }
            assert(self@ =~= old(self)@.insert(entry.0, entry.1));
        }
    }
}

/// A key that stands among the entries is found.
proof fn lemma_lookup_some(entries: Seq<(Seq<char>, JsonTree)>, at: int)
    requires
        0 <= at < entries.len(),
    ensures
        lookup(entries, entries[at].0) is Some,
    decreases entries.len(),
{
    if at > 0 {
        assert(entries[at] == entries.skip(1)[at - 1]);
        lemma_lookup_some(entries.skip(1), at - 1);
    }
}

/// A parameter as text, where it is a string, a number or a boolean.
pub open spec fn text_param(params: Map<Seq<char>, JsonTree>, key: Seq<char>) -> Option<Seq<char>> {
    if params.contains_key(key) {
        params[key].scalar_text()
    } else {
        None
    }
}

// ---- percent-encoding ----

/// The value of a hexadecimal digit.
pub open spec fn hex_value(b: u8) -> Option<u8> {
    if 48 <= b <= 57 {
        Some((b - 48) as u8)
    } else if 97 <= b <= 102 {
        Some((b - 87) as u8)
    } else if 65 <= b <= 70 {
        Some((b - 55) as u8)
    } else {
        None
    }
}

/// The byte that two characters of an escape stand for: two hexadecimal
/// digits, or one with a plus sign before it.
pub open spec fn escape_value(a: u8, b: u8) -> Option<u8> {
    match (hex_value(a), hex_value(b)) {
        (Some(x), Some(y)) => Some((16 * x + y) as u8),
        (None, Some(y)) => if a == 43 {
            Some(y)
        } else {
            None
        },
        _ => None,
    }
}

/// Bytes with `+` read as a space and `%` escapes read as bytes. A `%` that
/// starts no escape stands for itself.
pub open spec fn unescaped(b: Seq<u8>) -> Seq<u8>
    decreases b.len(),
{
    if b.len() == 0 {
        b
    } else if b[0] == 43 {
        seq![32u8] + unescaped(b.skip(1))
    } else if b[0] == 37 && b.len() > 2 && escape_value(b[1], b[2]) is Some {
        seq![escape_value(b[1], b[2])->Some_0] + unescaped(b.skip(3))
    } else {
        seq![b[0]] + unescaped(b.skip(1))
    }
}

/// No `%` has a character after it that the two characters of its escape would
/// cut in two.
pub open spec fn no_cut_escape(b: Seq<u8>) -> bool
    decreases b.len(),
{
    if b.len() == 0 {
        true
    } else if b[0] == 37 && b.len() > 2 {
        &&& b.len() > 3 ==> !is_continuation_byte(b[3])
        &&& if escape_value(b[1], b[2]) is Some {
            no_cut_escape(b.skip(3))
        } else {
            no_cut_escape(b.skip(1))
        }
    } else {
        no_cut_escape(b.skip(1))
    }
}

/// The texts that can be decoded.
pub open spec fn url_decodable(s: Seq<char>) -> bool {
    no_cut_escape(encode_utf8(s))
}

/// A text with its percent-encoding undone.
pub open spec fn url_decoded(s: Seq<char>) -> Seq<char> {
    utf8_lossy(unescaped(encode_utf8(s)))
}

fn hex_digit_value(b: u8) -> (r: Option<u8>)
    ensures
        r == hex_value(b),
{
    if 48 <= b && b <= 57 {
        Some(b - 48)
    } else if 97 <= b && b <= 102 {
        Some(b - 87)
    } else if 65 <= b && b <= 70 {
        Some(b - 55)
    } else {
        None
    }
}

fn escape_byte(a: u8, b: u8) -> (r: Option<u8>)
    ensures
        r == escape_value(a, b),
{
    match (hex_digit_value(a), hex_digit_value(b)) {
        (Some(x), Some(y)) => Some(16 * x + y),
        (None, Some(y)) => if a == 43 {
            Some(y)
        } else {
            None
        },
        _ => None,
    }
}

/// Whether a text can be decoded.
pub fn is_url_decodable(s: &str) -> (r: bool)
    ensures
        r == url_decodable(s@),
{
    let bytes = s.as_bytes();
    let mut i: usize = 0;
    assert(bytes@.skip(0) == bytes@);
    while i < bytes.len()
        invariant
            bytes@ == encode_utf8(s@),
            i <= bytes@.len(),
            no_cut_escape(bytes@) == no_cut_escape(bytes@.skip(i as int)),
        decreases bytes@.len() - i,
    {
        let ghost rest = bytes@.skip(i as int);
        assert(rest[0] == bytes@[i as int]);
        assert(rest.skip(1) == bytes@.skip(i + 1));
        if bytes[i] == 37 && bytes.len() - i > 2 {
            assert(rest[1] == bytes@[i + 1] && rest[2] == bytes@[i + 2]);
            if bytes.len() - i > 3 {
                let next = bytes[i + 3];
                assert(rest[3] == next);
                if 0x80 <= next && next <= 0xBF {
                    return false;
                }
            }
            if escape_byte(bytes[i + 1], bytes[i + 2]).is_some() {
                assert(rest.skip(3) == bytes@.skip(i + 3));
                i = i + 3;
            } else {
                i = i + 1;
            }
        } else {
            i = i + 1;
        }
    }
    true
}

/// Where the bytes of a text with its percent-encoding undone are UTF-8, the
/// text is what they encode.
pub open spec fn reads_utf8(s: Seq<char>) -> bool {
    let bytes = unescaped(encode_utf8(s));
    valid_utf8(bytes) ==> url_decoded(s) == decode_utf8(bytes)
}

proof fn lemma_byte_room(x: u8, w: Seq<u8>)
    ensures
        lossy_room(seq![x] + w) <= 3 + lossy_room(w),
{
    let b = seq![x] + w;
    assert(b.skip(1) =~= w);
    if valid_first_scalar(b) {
        let n = length_of_first_scalar(b);
        assert(pop_first_scalar(b) =~= w.skip(n - 1));
        assert(w.skip(0) =~= w);
        if n > 1 {
            assert(w[0] == b[1]);
            assert(lossy_room(w) == 3 + lossy_room(w.skip(1)));
        }
        if n > 2 {
            assert(w.skip(1)[0] == b[2]);
            assert(w.skip(2) =~= w.skip(1).skip(1));
            assert(lossy_room(w.skip(1)) == 3 + lossy_room(w.skip(2)));
        }
        if n > 3 {
            assert(w.skip(2)[0] == b[3]);
            assert(w.skip(3) =~= w.skip(2).skip(1));
            assert(lossy_room(w.skip(2)) == 3 + lossy_room(w.skip(3)));
        }
    }
}

proof fn lemma_high_bytes_stay(b: Seq<u8>, n: int)
    requires
        0 <= n <= b.len(),
        forall|i: int| 0 <= i < n ==> (#[trigger] b[i]) >= 0x80,
    ensures
        unescaped(b) == b.take(n) + unescaped(b.skip(n)),
    decreases n,
{
    if n == 0 {
        assert(b.skip(0) =~= b);
        assert(b.take(0) + unescaped(b) =~= unescaped(b));
    } else {
        assert(b[0] >= 0x80);
        lemma_high_bytes_stay(b.skip(1), n - 1);
        assert(b.skip(1).skip(n - 1) =~= b.skip(n));
        assert(b.take(n) =~= seq![b[0]] + b.skip(1).take(n - 1));
        assert(seq![b[0]] + (b.skip(1).take(n - 1) + unescaped(b.skip(n))) =~= b.take(n)
            + unescaped(b.skip(n)));
    }
}

/// Undoing percent-encoding leaves room enough for the text, whatever bytes
/// come out.
proof fn lemma_unescaped_room(b: Seq<u8>)
    requires
        valid_utf8(b),
    ensures
        lossy_room(unescaped(b)) <= b.len(),
    decreases b.len(),
{
    if b.len() == 0 {
    } else if b[0] == 37 && b.len() > 2 && escape_value(b[1], b[2]) is Some {
        let rest = b.skip(3);
        assert(pop_first_scalar(b) =~= b.skip(1));
        assert(b.skip(1)[0] == b[1] && b.skip(2)[0] == b[2]);
        assert(pop_first_scalar(b.skip(1)) =~= b.skip(2));
        assert(pop_first_scalar(b.skip(2)) =~= rest);
        assert(valid_utf8(b.skip(1)));
        assert(valid_utf8(b.skip(2)));
        lemma_unescaped_room(rest);
        lemma_byte_room(escape_value(b[1], b[2])->Some_0, unescaped(rest));
    } else {
        let n = length_of_first_scalar(b);
        let rest = pop_first_scalar(b);
        let out = unescaped(b);
        let w = unescaped(rest);
        lemma_unescaped_room(rest);
        assert(rest =~= b.skip(n));
        if n == 1 {
            let c: u8 = if b[0] == 43 {
                32
            } else {
                b[0]
            };
            assert(out == seq![c] + w);
            assert(out[0] == c);
            assert(codepoint_width_1(c) <= 0x7f) by (bit_vector);
            assert(pop_first_scalar(out) =~= w);
        } else {
            lemma_high_bytes_stay(b, n);
            assert(out[0] == b[0] && out[1] == b[1]);
            assert(n > 2 ==> out[2] == b[2]);
            assert(n > 3 ==> out[3] == b[3]);
            assert(valid_first_scalar(out));
            assert(pop_first_scalar(out) =~= w);
        }
    }
}

/// Undoes percent-encoding, with `+` for a space.
pub fn url_decode(s: &str) -> (r: String)
    requires
        url_decodable(s@),
    ensures
        r@ == url_decoded(s@),
        valid_utf8(unescaped(encode_utf8(s@))) ==> r@ == decode_utf8(unescaped(encode_utf8(s@))),
        encode_utf8(r@).len() <= encode_utf8(s@).len(),
{
    let bytes = s.as_bytes();
    let mut out: Vec<u8> = Vec::new();
    let mut i: usize = 0;
    assert(bytes@.skip(0) == bytes@);
    while i < bytes.len()
        invariant
            i <= bytes@.len(),
            out@ + unescaped(bytes@.skip(i as int)) == unescaped(bytes@),
        decreases bytes@.len() - i,
    {
        let ghost rest = bytes@.skip(i as int);
        let ghost before = out@;
        assert(rest[0] == bytes@[i as int]);
        assert(rest.skip(1) == bytes@.skip(i + 1));
        let b = bytes[i];
        if b == 43 {
            out.push(32);
            i = i + 1;
            assert(before + (seq![32u8] + unescaped(rest.skip(1))) == out@ + unescaped(rest.skip(1)));
        } else {
            let mut byte: u8 = b;
            let mut step: usize = 1;
            if b == 37 && bytes.len() - i > 2 {
                assert(rest[1] == bytes@[i + 1] && rest[2] == bytes@[i + 2]);
                match escape_byte(bytes[i + 1], bytes[i + 2]) {
                    Some(v) => {
                        byte = v;
                        step = 3;
                    },
                    None => {},
                }
            }
            out.push(byte);
            i = i + step;
            assert(rest.skip(step as int) == bytes@.skip(i as int));
            assert(unescaped(rest) == seq![byte] + unescaped(bytes@.skip(i as int)));
            assert(before + (seq![byte] + unescaped(bytes@.skip(i as int))) == out@ + unescaped(
                bytes@.skip(i as int),
            ));
        }
    }
    assert(out@ + unescaped(bytes@.skip(i as int)) == out@);
    proof {
        encode_utf8_valid_utf8(s@);
        lemma_unescaped_room(bytes@);
    }
    lossy_text(out.as_slice())
}

/// The hexadecimal digit for a number below sixteen.
pub open spec fn hex_byte(n: int) -> u8 {
    if n < 10 {
        (48 + n) as u8
    } else {
        (55 + n) as u8
    }
}

/// Bytes with each of them written as an escape.
pub open spec fn percent_encoded(b: Seq<u8>) -> Seq<u8>
    decreases b.len(),
{
    if b.len() == 0 {
        b
    } else {
        seq![37u8, hex_byte(b[0] as int / 16), hex_byte(b[0] as int % 16)] + percent_encoded(
            b.skip(1),
        )
    }
}

/// Whatever was percent-encoded is read back.
pub proof fn law_percent_encoding_reads_back(b: Seq<u8>)
    ensures
        unescaped(percent_encoded(b)) == b,
        no_cut_escape(percent_encoded(b)),
    decreases b.len(),
{
    if b.len() > 0 {
        let rest = percent_encoded(b.skip(1));
        let e = percent_encoded(b);
        law_percent_encoding_reads_back(b.skip(1));
        assert(e.skip(3) =~= rest);
        assert(escape_value(e[1], e[2]) == Some(b[0]));
        assert(e.len() > 3 ==> e[3] == rest[0]);
        assert(rest.len() > 0 ==> rest[0] == 37);
        assert(seq![b[0]] + b.skip(1) =~= b);
    }
}

/// Bytes without escapes and plus signs stay as they are.
pub proof fn law_plain_bytes_stay(b: Seq<u8>)
    requires
        forall|i: int| 0 <= i < b.len() ==> (#[trigger] b[i]) != 37 && b[i] != 43,
    ensures
        unescaped(b) == b,
        no_cut_escape(b),
    decreases b.len(),
{
    if b.len() > 0 {
        law_plain_bytes_stay(b.skip(1));
        assert(b[0] != 37);
        assert(seq![b[0]] + b.skip(1) =~= b);
    }
}

/// The name in a `name=value` pair.
pub open spec fn pair_key(pair: Seq<char>) -> Seq<char> {
    pair.take(find(pair, '='))
}

/// The value in a `name=value` pair, empty where there is no `=`.
pub open spec fn pair_value(pair: Seq<char>) -> Seq<char> {
    if find(pair, '=') < pair.len() {
        pair.skip(find(pair, '=') + 1)
    } else {
        Seq::empty()
    }
}

/// A pair taken in: a name that is empty or taken changes nothing.
pub open spec fn take_pair(
    params: Map<Seq<char>, JsonTree>,
    pair: Seq<char>,
) -> Map<Seq<char>, JsonTree> {
    let key = url_decoded(pair_key(pair));
    if pair.len() == 0 || key.len() == 0 || params.contains_key(key) {
        params
    } else {
        params.insert(key, JsonTree::Text(url_decoded(pair_value(pair))))
    }
}

/// Pairs taken in, one after the other.
pub open spec fn take_pairs(
    params: Map<Seq<char>, JsonTree>,
    pairs: Seq<Seq<char>>,
) -> Map<Seq<char>, JsonTree>
    decreases pairs.len(),
{
    if pairs.len() == 0 {
        params
    } else {
        take_pair(take_pairs(params, pairs.drop_last()), pairs.last())
    }
}

/// What has to be decoded of a pair can be. The value counts only where the
/// name is new.
pub open spec fn pair_ok(params: Map<Seq<char>, JsonTree>, pair: Seq<char>) -> bool {
    let key = url_decoded(pair_key(pair));
    pair.len() > 0 ==> {
        &&& url_decodable(pair_key(pair))
        &&& key.len() > 0 && !params.contains_key(key) ==> url_decodable(pair_value(pair))
    }
}

/// What has to be decoded of each pair can be.
pub open spec fn pairs_ok(params: Map<Seq<char>, JsonTree>, pairs: Seq<Seq<char>>) -> bool
    decreases pairs.len(),
{
    pairs.len() > 0 ==> {
        &&& pairs_ok(params, pairs.drop_last())
        &&& pair_ok(take_pairs(params, pairs.drop_last()), pairs.last())
    }
}

/// What is decoded of a pair reads UTF-8 as what it encodes.
pub open spec fn pair_reads_utf8(params: Map<Seq<char>, JsonTree>, pair: Seq<char>) -> bool {
    let key = url_decoded(pair_key(pair));
    pair.len() > 0 ==> {
        &&& reads_utf8(pair_key(pair))
        &&& key.len() > 0 && !params.contains_key(key) ==> reads_utf8(pair_value(pair))
    }
}

/// What is decoded of each pair reads UTF-8 as what it encodes.
pub open spec fn pairs_read_utf8(params: Map<Seq<char>, JsonTree>, pairs: Seq<Seq<char>>) -> bool
    decreases pairs.len(),
{
    pairs.len() > 0 ==> {
        &&& pairs_read_utf8(params, pairs.drop_last())
        &&& pair_reads_utf8(take_pairs(params, pairs.drop_last()), pairs.last())
    }
}

/// Pairs that cannot be decoded up to some point cannot be decoded on the whole.
proof fn lemma_pairs_ok_so_far(params: Map<Seq<char>, JsonTree>, pairs: Seq<Seq<char>>, k: int)
    requires
        0 <= k <= pairs.len(),
        pairs_ok(params, pairs),
    ensures
        pairs_ok(params, pairs.take(k)),
    decreases pairs.len(),
{
    if k < pairs.len() {
        lemma_pairs_ok_so_far(params, pairs.drop_last(), k);
        assert(pairs.drop_last().take(k) == pairs.take(k));
    } else {
        assert(pairs.take(k) == pairs);
    }
}

/// Takes in pairs up to the first that cannot be decoded; says whether there is
/// none.
fn take_in(s: &str, map: &mut Params) -> (r: bool)
    ensures
        r == pairs_ok(old(map)@, split(s@, '&')),
        r ==> final(map)@ == take_pairs(old(map)@, split(s@, '&')),
        r ==> pairs_read_utf8(old(map)@, split(s@, '&')),
        old(map).wf() ==> final(map).wf(),
{
    let pairs = split_text(s, '&');
    let ghost all = split(s@, '&');
    let mut i: usize = 0;
    assert(all.take(0) == Seq::<Seq<char>>::empty());
    while i < pairs.len()
        invariant
            texts(pairs@) == all,
            all == split(s@, '&'),
            i <= pairs@.len(),
            pairs_ok(old(map)@, all.take(i as int)),
            pairs_read_utf8(old(map)@, all.take(i as int)),
            map@ == take_pairs(old(map)@, all.take(i as int)),
            old(map).wf() ==> map.wf(),
        decreases pairs@.len() - i,
    {
        assert(all.take(i + 1).drop_last() == all.take(i as int));
        assert(all.take(i + 1).last() == all[i as int]);
        assert(texts(pairs@)[i as int] == pairs@[i as int]@);
        let pair = chars_of(pairs[i].as_str());
        if pair.len() > 0 {
            let at = find_char(pair.as_slice(), 0, '=');
            assert(pair@.skip(0) == pair@);
            let raw_key = text_of(pair.as_slice(), 0, at);
            assert(raw_key@ == pair_key(pair@));
            if !is_url_decodable(raw_key.as_str()) {
                proof {
                    if pairs_ok(old(map)@, all) {
                        lemma_pairs_ok_so_far(old(map)@, all, i + 1);
                    }
                }
                return false;
            }
            let key = url_decode(raw_key.as_str());
            if !key.as_str().is_empty() && map.get_val(key.as_str()).is_none() {
                let raw_value = if at < pair.len() {
                    text_of(pair.as_slice(), at + 1, pair.len())
                } else {
                    String::new()
                };
                assert(raw_value@ == pair_value(pair@));
                if !is_url_decodable(raw_value.as_str()) {
                    proof {
                        if pairs_ok(old(map)@, all) {
                            lemma_pairs_ok_so_far(old(map)@, all, i + 1);
                        }
                    }
                    return false;
                }
                let value = url_decode(raw_value.as_str());
                map.put(key, Json::Text(value));
            }
        }
        i = i + 1;
    }
    assert(all.take(i as int) == all);
    true
}

/// Takes in the pairs of a query string or a form.
pub fn parse_urlencoded(s: &str, map: &mut Params)
    requires
        pairs_ok(old(map)@, split(s@, '&')),
    ensures
        final(map)@ == take_pairs(old(map)@, split(s@, '&')),
        pairs_read_utf8(old(map)@, split(s@, '&')),
        old(map).wf() ==> final(map).wf(),
{
    let _ = take_in(s, map);
}

/// Takes in the pairs of a query string or a form where all that has to be
/// decoded can be, and nothing otherwise.
pub fn try_parse_urlencoded(s: &str, map: &mut Params) -> (r: bool)
    ensures
        r == pairs_ok(old(map)@, split(s@, '&')),
        final(map)@ == if r {
            take_pairs(old(map)@, split(s@, '&'))
        } else {
            old(map)@
        },
        r ==> pairs_read_utf8(old(map)@, split(s@, '&')),
        old(map).wf() ==> final(map).wf(),
{
    let mut trial = map.copy();
    if take_in(s, &mut trial) {
        parse_urlencoded(s, map);
        true
    } else {
        false
    }
}

// ---- webhook messages ----

/// A webhook message of another platform, as a message of this service.
pub struct ThirdData {
    pub title: String,
    pub content: String,
    /// Empty, `markdown` or `text`.
    pub kind: String,
    /// Whether the request was such a message.
    pub detected: bool,
}

/// What a `ThirdData` holds.
pub struct ThirdView {
    pub title: Seq<char>,
    pub content: Seq<char>,
    pub kind: Seq<char>,
    pub detected: bool,
}

impl View for ThirdData {
    type V = ThirdView;

    open spec fn view(&self) -> ThirdView {
        ThirdView {
            title: self.title@,
            content: self.content@,
            kind: self.kind@,
            detected: self.detected,
        }
    }
}

/// The text of a string or a number, and nothing of any other value.
pub open spec fn loose_text(v: Option<JsonTree>) -> Seq<char> {
    match v {
        Some(JsonTree::Text(s)) => s,
        Some(JsonTree::Number(n)) => n,
        _ => Seq::empty(),
    }
}

/// The text of a string, and nothing of any other value.
pub open spec fn strict_text(v: Option<JsonTree>) -> Seq<char> {
    match v {
        Some(JsonTree::Text(s)) => s,
        _ => Seq::empty(),
    }
}

/// A field of a value that may be missing.
pub open spec fn field_of(v: Option<JsonTree>, key: Seq<char>) -> Option<JsonTree> {
    match v {
        Some(t) => t.field(key),
        None => None,
    }
}

/// The items of a value that may be missing.
pub open spec fn items_of(v: Option<JsonTree>) -> Seq<JsonTree> {
    match v {
        Some(t) => t.items(),
        None => Seq::empty(),
    }
}

/// A Markdown link.
pub open spec fn link(label: Seq<char>, target: Seq<char>) -> Seq<char> {
    "["@ + label + "]("@ + target + ")"@
}

pub(crate) fn loose(v: Option<&Json>) -> (r: String)
    ensures
        r@ == loose_text(tree_of(v)),
{
    match v {
        Some(Json::Text(s)) => s.clone(),
        Some(Json::Number(n)) => show_number(n),
        _ => String::new(),
    }
}

pub(crate) fn strict(v: Option<&Json>) -> (r: String)
    ensures
        r@ == strict_text(tree_of(v)),
{
    match v {
        Some(Json::Text(s)) => s.clone(),
        _ => String::new(),
    }
}

/// The tree of a value that may be missing.
pub open spec fn tree_of(v: Option<&Json>) -> Option<JsonTree> {
    match v {
        Some(j) => Some(j@),
        None => None,
    }
}

pub(crate) fn field<'a>(v: Option<&'a Json>, key: &str) -> (r: Option<&'a Json>)
    ensures
        tree_of(r) == field_of(tree_of(v), key@),
{
    match v {
        Some(j) => j.field(key),
        None => None,
    }
}

pub(crate) fn items<'a>(v: Option<&'a Json>) -> (r: Option<&'a Vec<Json>>)
    ensures
        match r {
            Some(list) => tree_of(v) == Some(JsonTree::Array(trees(list@))),
            None => !(tree_of(v) is Some && tree_of(v)->Some_0 is Array),
        },
{
    match v {
        Some(Json::Array(list)) => {
            proof {
                lemma_array_tree(*list);
            }
            Some(list)
        },
        _ => None,
    }
}

/// Whether a value is the given string.
pub(crate) fn is_text(v: Option<&Json>, text: &str) -> (r: bool)
    ensures
        r == (tree_of(v) == Some(JsonTree::Text(text@))),
{
    match v {
        Some(Json::Text(s)) => same_text(s.as_str(), text),
        _ => false,
    }
}

pub(crate) fn push_link(out: &mut String, label: &str, target: &str)
    ensures
        final(out)@ == old(out)@ + link(label@, target@),
{
    out.append("[");
    out.append(label);
    out.append("](");
    out.append(target);
    out.append(")");
    assert(out@ =~= old(out)@ + link(label@, target@));
}

/// The webhook message that the parameters of a request make: `msg_type` names
/// a Feishu message, and `msgtype` a WeCom or DingTalk one.
pub open spec fn third_message(params: Map<Seq<char>, JsonTree>) -> ThirdView {
    match text_param(params, "msg_type"@) {
        Some(msg_type) => feishu_message(msg_type, params.get("content"@)),
        None => match text_param(params, "msgtype"@) {
            Some(msgtype) => weiding_message(msgtype, params.get(msgtype)),
            None => ThirdView {
                title: Seq::empty(),
                content: Seq::empty(),
                kind: Seq::empty(),
                detected: false,
            },
        },
    }
}

/// Recognises a webhook message of another platform.
pub fn detect(params: &Params) -> (r: ThirdData)
    ensures
        r@ == third_message(params@),
{
    match params.get_str("msg_type") {
        Some(msg_type) => feishu(msg_type.as_str(), params.get_val("content")),
        None => match params.get_str("msgtype") {
            Some(msgtype) => weiding(msgtype.as_str(), params.get_val(msgtype.as_str())),
            None => ThirdData {
                title: String::new(),
                content: String::new(),
                kind: String::new(),
                detected: false,
            },
        },
    }
}

} // verus!
