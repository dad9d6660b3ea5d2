//! What the operations on text come to, in terms of the texts that go in and
//! come out.

use crate::text::{
    after_prefix, all_digits, decimal, find, has_text, hex_text, html_char, html_escaped, is_digit,
    is_space, lowered, replaced, split, stands_at, str_view, string_view, texts, trim_end,
    trim_start, trimmed, unsigned, unsigned_up_to,
};
use vstd::prelude::*;

verus! {

broadcast use vstd::string::group_string_axioms;

/// The parts of a text put together again, with the separator between them.
pub open spec fn joined(parts: Seq<Seq<char>>, sep: char) -> Seq<char>
    decreases parts.len(),
{
    if parts.len() == 0 {
        Seq::empty()
    } else if parts.len() == 1 {
        parts[0]
    } else {
        parts[0] + seq![sep] + joined(parts.skip(1), sep)
    }
}

/// A text is split into parts that hold no separator and that, put together
/// again, are the text.
pub proof fn law_split_parts_make_the_text(s: Seq<char>, sep: char)
    ensures
        split(s, sep).len() > 0,
        joined(split(s, sep), sep) == s,
        forall|i: int| 0 <= i < split(s, sep).len() ==> !(#[trigger] split(s, sep)[i]).contains(sep),
    decreases s.len(),
{
    crate::text::lemma_find(s, sep);
    let at = find(s, sep);
    let parts = split(s, sep);
    if at >= s.len() {
        assert(parts =~= seq![s]);
        assert(!s.contains(sep));
    } else {
        let rest = s.skip(at + 1);
        law_split_parts_make_the_text(rest, sep);
        assert(parts =~= seq![s.take(at)] + split(rest, sep));
        assert(parts.skip(1) =~= split(rest, sep));
        assert(s =~= s.take(at) + seq![sep] + rest);
        assert forall|i: int| 0 <= i < parts.len() implies !(#[trigger] parts[i]).contains(sep) by {
            if i == 0 {
                assert(parts[0] == s.take(at));
                assert forall|j: int| 0 <= j < at implies s.take(at)[j] != sep by {
                    assert(s[j] != sep);
                }
            } else {
                assert(parts[i] == split(rest, sep)[i - 1]);
            }
        }
    }
}

/// Parts that hold no separator come out as they were put together.
pub proof fn law_joined_parts_split_again(parts: Seq<Seq<char>>, sep: char)
    requires
        parts.len() > 0,
        forall|i: int| 0 <= i < parts.len() ==> !(#[trigger] parts[i]).contains(sep),
    ensures
        split(joined(parts, sep), sep) == parts,
    decreases parts.len(),
{
    let s = joined(parts, sep);
    let first = parts[0];
    assert(!first.contains(sep));
    if parts.len() == 1 {
        crate::text::lemma_find(s, sep);
        if find(s, sep) < s.len() {
            assert(s[find(s, sep)] == sep);
            assert(first.contains(sep));
        }
        assert(parts =~= seq![s]);
    } else {
        let rest = parts.skip(1);
        assert forall|i: int| 0 <= i < rest.len() implies !(#[trigger] rest[i]).contains(sep) by {
            assert(rest[i] == parts[i + 1]);
        }
        law_joined_parts_split_again(rest, sep);
        let n = first.len() as int;
        assert(s == first + seq![sep] + joined(rest, sep));
        assert(s[n] == sep);
        assert forall|i: int| 0 <= i < n implies s[i] != sep by {
            assert(s[i] == first[i]);
        }
        crate::text::lemma_find_is(s, sep, n);
        assert(s.take(n) =~= first);
        assert(s.skip(n + 1) =~= joined(rest, sep));
        assert(parts =~= seq![first] + rest);
    }
}

/// A text without white space at its ends: only white space is taken away, and
/// none is left.
pub proof fn law_trimming_takes_white_space_alone(s: Seq<char>)
    ensures
        exists|a: int, b: int|
            {
                &&& 0 <= a <= b <= s.len()
                &&& trimmed(s) == #[trigger] s.subrange(a, b)
                &&& forall|i: int| 0 <= i < a ==> is_space(#[trigger] s[i])
                &&& forall|i: int| b <= i < s.len() ==> is_space(#[trigger] s[i])
            },
        trimmed(s).len() > 0 ==> !is_space(trimmed(s)[0]) && !is_space(trimmed(s).last()),
        is_space(' ') && is_space('\t') && is_space('\n') && is_space('\r'),
        forall|c: char| '!' <= c <= '~' ==> !is_space(c),
        forall|c: char|
            #[trigger] is_space(c) <==> (seq![
                0x09int,
                0x0a,
                0x0b,
                0x0c,
                0x0d,
                0x20,
                0x85,
                0xa0,
                0x1680,
                0x2028,
                0x2029,
                0x202f,
                0x205f,
                0x3000,
            ]).contains(c as int) || 0x2000 <= c as int <= 0x200a,
{
    let spaces = seq![
        0x09int,
        0x0a,
        0x0b,
        0x0c,
        0x0d,
        0x20,
        0x85,
        0xa0,
        0x1680,
        0x2028,
        0x2029,
        0x202f,
        0x205f,
        0x3000,
    ];
    assert(spaces[0] == 0x09 && spaces[1] == 0x0a && spaces[2] == 0x0b && spaces[3] == 0x0c
        && spaces[4] == 0x0d && spaces[5] == 0x20 && spaces[6] == 0x85 && spaces[7] == 0xa0
        && spaces[8] == 0x1680 && spaces[9] == 0x2028 && spaces[10] == 0x2029 && spaces[11]
        == 0x202f && spaces[12] == 0x205f && spaces[13] == 0x3000);
    assert forall|c: char| #[trigger] is_space(c) implies spaces.contains(c as int) || 0x2000
        <= c as int <= 0x200a by {
        let n = c as int;
        if 0x09 <= n <= 0x0d {
            assert(spaces[n - 0x09] == n);
        }
    }
    let a = lemma_trim_start(s);
    let t = trim_start(s);
    let n = lemma_trim_end(t);
    assert(trimmed(s) =~= s.subrange(a, a + n));
    assert forall|i: int| a + n <= i < s.len() implies is_space(#[trigger] s[i]) by {
        assert(t[i - a] == s[i]);
    }
    if n > 0 {
        assert(trimmed(s)[0] == t[0]);
    }
}

proof fn lemma_trim_start(s: Seq<char>) -> (a: int)
    ensures
        0 <= a <= s.len(),
        trim_start(s) == s.subrange(a, s.len() as int),
        forall|i: int| 0 <= i < a ==> is_space(#[trigger] s[i]),
        a < s.len() ==> !is_space(s[a]),
    decreases s.len(),
{
    if s.len() > 0 && is_space(s[0]) {
        let b = lemma_trim_start(s.skip(1));
        assert(trim_start(s) =~= s.subrange(b + 1, s.len() as int));
        assert forall|i: int| 0 <= i < b + 1 implies is_space(#[trigger] s[i]) by {
            if i > 0 {
                assert(s.skip(1)[i - 1] == s[i]);
            }
        }
        b + 1
    } else {
        assert(s =~= s.subrange(0, s.len() as int));
        0
    }
}

proof fn lemma_trim_end(s: Seq<char>) -> (n: int)
    ensures
        0 <= n <= s.len(),
        trim_end(s) == s.subrange(0, n),
        forall|i: int| n <= i < s.len() ==> is_space(#[trigger] s[i]),
        n > 0 ==> !is_space(s[n - 1]),
    decreases s.len(),
{
    if s.len() > 0 && is_space(s.last()) {
        let n = lemma_trim_end(s.drop_last());
        assert(trim_end(s) =~= s.subrange(0, n));
        assert forall|i: int| n <= i < s.len() implies is_space(#[trigger] s[i]) by {
            if i < s.len() - 1 {
                assert(s.drop_last()[i] == s[i]);
            }
        }
        n
    } else {
        assert(s =~= s.subrange(0, s.len() as int));
        s.len() as int
    }
}

/// A text has another in it where it is something before, the other, and
/// something after.
pub proof fn law_text_inside(s: Seq<char>, pat: Seq<char>)
    ensures
        has_text(s, pat) <==> exists|a: Seq<char>, b: Seq<char>| s == #[trigger] (a + pat + b),
{
    if has_text(s, pat) {
        let at = choose|at: int| stands_at(s, pat, at);
        let a = s.take(at);
        let b = s.skip(at + pat.len());
        assert(s =~= a + s.subrange(at, at + pat.len()) + b);
        assert(s == a + pat + b);
    }
    if exists|a: Seq<char>, b: Seq<char>| s == #[trigger] (a + pat + b) {
        let (a, b) = choose|a: Seq<char>, b: Seq<char>| s == #[trigger] (a + pat + b);
        assert(s.subrange(a.len() as int, a.len() as int + pat.len()) =~= pat);
        assert(stands_at(s, pat, a.len() as int));
    }
}

/// What follows a prefix, where the text begins with it.
pub proof fn law_prefix_and_rest(s: Seq<char>, prefix: Seq<char>, rest: Seq<char>)
    ensures
        after_prefix(prefix + rest, prefix) == Some(rest),
        after_prefix(s, prefix) == Some(rest) <==> s == prefix + rest,
{
    let whole = prefix + rest;
    assert(whole.subrange(0, prefix.len() as int) =~= prefix);
    assert(whole.skip(prefix.len() as int) =~= rest);
    if stands_at(s, prefix, 0) {
        assert(s =~= s.subrange(0, prefix.len() as int) + s.skip(prefix.len() as int));
    }
}

/// Capital letters of ASCII become small ones, and nothing else changes.
pub proof fn law_capitals_become_small(s: Seq<char>)
    ensures
        lowered(s).len() == s.len(),
        forall|i: int|
            0 <= i < s.len() ==> (#[trigger] lowered(s)[i]) as int == if 65 <= s[i] as int <= 90 {
                s[i] as int + 32
            } else {
                s[i] as int
            },
{
}

/// The first place of a text in another is replaced, and then what follows it;
/// a text that does not occur is not.
pub proof fn law_first_place_is_replaced(a: Seq<char>, pat: Seq<char>, b: Seq<char>, with: Seq<char>)
    requires
        pat.len() > 0,
        forall|at: int| 0 <= at < a.len() ==> !stands_at(a + pat + b, pat, at),
    ensures
        replaced(a + pat + b, pat, with) == a + with + replaced(b, pat, with),
    decreases a.len(),
{
    let s = a + pat + b;
    if a.len() == 0 {
        assert(s =~= pat + b);
        assert(s.subrange(0, pat.len() as int) =~= pat);
        assert(stands_at(s, pat, 0));
        assert(s.skip(pat.len() as int) =~= b);
        assert(a + with + replaced(b, pat, with) =~= with + replaced(b, pat, with));
    } else {
        let rest = a.skip(1);
        let t = rest + pat + b;
        assert(!stands_at(s, pat, 0));
        assert(s.skip(1) =~= t);
        assert forall|at: int| 0 <= at < rest.len() implies !stands_at(t, pat, at) by {
            if stands_at(t, pat, at) {
                assert(s.subrange(at + 1, at + 1 + pat.len()) =~= t.subrange(at, at + pat.len()));
                assert(stands_at(s, pat, at + 1));
            }
        }
        law_first_place_is_replaced(rest, pat, b, with);
        assert(seq![s[0]] + (rest + with + replaced(b, pat, with)) =~= a + with + replaced(
            b,
            pat,
            with,
        ));
    }
}

/// A text that holds no place for the replacement stays.
pub proof fn law_absent_text_is_not_replaced(s: Seq<char>, pat: Seq<char>, with: Seq<char>)
    requires
        !has_text(s, pat),
    ensures
        replaced(s, pat, with) == s,
    decreases s.len(),
{
    if pat.len() > 0 && s.len() >= pat.len() {
        assert(!stands_at(s, pat, 0));
        let t = s.skip(1);
        if has_text(t, pat) {
            let at = choose|at: int| stands_at(t, pat, at);
            assert(s.subrange(at + 1, at + 1 + pat.len()) =~= t.subrange(at, at + pat.len()));
            assert(stands_at(s, pat, at + 1));
        }
        law_absent_text_is_not_replaced(t, pat, with);
        assert(seq![s[0]] + t =~= s);
    }
}

/// Text for HTML is escaped character by character: five characters stand as
/// entities, and every other one as it is.
pub proof fn law_html_is_escaped_by_character(x: Seq<char>, y: Seq<char>, c: char)
    ensures
        html_escaped(x + y) == html_escaped(x) + html_escaped(y),
        html_escaped(seq![c]) == if c == '&' {
            "&amp;"@
        } else if c == '<' {
            "&lt;"@
        } else if c == '>' {
            "&gt;"@
        } else if c == '"' {
            "&quot;"@
        } else if c == '\'' {
            "&#39;"@
        } else {
            seq![c]
        },
    decreases y.len(),
{
    reveal_with_fuel(html_escaped, 2);
    assert(seq![c].drop_last() =~= Seq::<char>::empty());
    assert(html_escaped(seq![c]) =~= html_char(c));
    if y.len() == 0 {
        assert(x + y =~= x);
        assert(html_escaped(x) + html_escaped(y) =~= html_escaped(x));
    } else {
        assert((x + y).drop_last() =~= x + y.drop_last());
        law_html_is_escaped_by_character(x, y.drop_last(), c);
        assert(html_escaped(x + y) =~= html_escaped(x) + html_escaped(y));
    }
}

/// A number is written in decimal digits, the last of which is its remainder by
/// ten, after the digits of its tenth; and a number is read back by them.
pub proof fn law_decimal_digits(n: nat)
    ensures
        n < 10 ==> decimal(n) == seq!["0123456789"@[n as int]],
        n >= 10 ==> decimal(n) == decimal(n / 10) + decimal(n % 10),
        unsigned(decimal(n)) == Some(n),
        unsigned(seq!['+'] + decimal(n)) == Some(n),
        forall|max: nat|
            #[trigger] unsigned_up_to(decimal(n), max) == if n <= max {
                Some(n)
            } else {
                None
            },
    decreases n,
{
    reveal_strlit("0123456789");
    if n >= 10 {
        law_decimal_digits(n / 10);
        assert(decimal(n) =~= decimal(n / 10) + decimal(n % 10));
    }
    crate::text::lemma_decimal_reads_back(n);
    let d = decimal(n);
    assert((seq!['+'] + d).skip(1) =~= d);
    assert(d.len() > 0);
    assert(all_digits(d));
    assert(is_digit(d[0]));
}

/// A text is a number only where it is one digit or more, with a plus sign
/// before them or not; and another digit after them makes it ten times that and
/// the digit.
pub proof fn law_numbers_are_digits(s: Seq<char>, n: nat)
    ensures
        unsigned(s) is Some ==> s.len() > 0 && (s[0] == '+' || '0' <= s[0] <= '9') && (s[0] == '+'
            ==> s.len() > 1),
        unsigned(s) is Some ==> forall|i: int| 0 < i < s.len() ==> '0' <= (#[trigger] s[i]) <= '9',
        unsigned(Seq::empty()) is None,
        unsigned(s) == Some(n) ==> forall|c: char|
            '0' <= c <= '9' ==> #[trigger] unsigned(s.push(c)) == Some(
                (10 * n + (c as int - 48)) as nat,
            ),
{
    let digits = if s.len() > 0 && s[0] == '+' {
        s.skip(1)
    } else {
        s
    };
    if unsigned(s) is Some {
        assert(is_digit(digits[0]));
        assert forall|i: int| 0 < i < s.len() implies '0' <= (#[trigger] s[i]) <= '9' by {
            let j = if s[0] == '+' {
                i - 1
            } else {
                i
            };
            assert(is_digit(digits[j]));
        }
    }
    if unsigned(s) == Some(n) {
        assert forall|c: char| '0' <= c <= '9' implies #[trigger] unsigned(s.push(c)) == Some(
            (10 * n + (c as int - 48)) as nat,
        ) by {
            let more = s.push(c);
            let all = if more[0] == '+' {
                more.skip(1)
            } else {
                more
            };
            assert(all =~= digits.push(c));
            assert(all.drop_last() =~= digits);
            assert(all_digits(all)) by {
                assert forall|i: int| 0 <= i < all.len() implies is_digit(#[trigger] all[i]) by {
                    if i < digits.len() {
                        assert(all[i] == digits[i]);
                    }
                }
            }
        }
    }
}

/// Bytes are written as two small hexadecimal digits each.
pub proof fn law_bytes_in_hexadecimal(b: Seq<u8>, i: int)
    requires
        0 <= i < b.len(),
    ensures
        hex_text(b).len() == 2 * b.len(),
        hex_text(b)[2 * i] == "0123456789abcdef"@[b[i] as int / 16],
        hex_text(b)[2 * i + 1] == "0123456789abcdef"@[b[i] as int % 16],
{
    reveal_strlit("0123456789abcdef");
    assert((2 * i) / 2 == i && (2 * i) % 2 == 0);
    assert((2 * i + 1) / 2 == i && (2 * i + 1) % 2 == 1);
    assert(0 <= b[i] as int / 16 < 16);
}

/// Texts are seen as they are, in order.
pub proof fn law_texts_are_seen_as_they_are(list: Seq<String>, s: String)
    ensures
        texts(list).len() == list.len(),
        forall|i: int| 0 <= i < list.len() ==> (#[trigger] texts(list)[i]) == list[i]@,
        string_view(Some(s)) == Some(s@),
        string_view(None) is None,
        str_view(None) is None,
{
}

} // verus!
