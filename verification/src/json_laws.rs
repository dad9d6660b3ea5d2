//! What JSON values hold and how they are written.

use crate::json::{
    entries_written, fields_tree, in_order, items_written, json_char, json_chars, json_quoted,
    json_text, lookup, ordered, ordered_entries, put_entry, text_before, trees, whole, written,
    Json, JsonTree,
};
use crate::push_laws::{lemma_lookup_at, lemma_lookup_last};
use crate::text::decimal;
use vstd::prelude::*;

verus! {

broadcast use vstd::string::group_string_axioms;

// ---- reading values ----

/// A field of an object is the value of the first entry with its name; where no
/// entry has it, and in any other value, there is none.
pub proof fn law_first_entry_is_the_field(
    entries: Seq<(Seq<char>, JsonTree)>,
    i: int,
    key: Seq<char>,
    t: JsonTree,
)
    ensures
        0 <= i < entries.len() && entries[i].0 == key && (forall|j: int|
            0 <= j < i ==> (#[trigger] entries[j]).0 != key) ==> JsonTree::Object(entries).field(
            key,
        ) == Some(entries[i].1),
        (forall|j: int| 0 <= j < entries.len() ==> (#[trigger] entries[j]).0 != key)
            ==> JsonTree::Object(entries).field(key) is None,
        !(t is Object) ==> t.field(key) is None,
{
    if 0 <= i < entries.len() && entries[i].0 == key && (forall|j: int|
        0 <= j < i ==> (#[trigger] entries[j]).0 != key) {
        lemma_lookup_at(entries, i);
    }
    if forall|j: int| 0 <= j < entries.len() ==> (#[trigger] entries[j]).0 != key {
        lemma_lookup_none(entries, key);
    }
}

proof fn lemma_lookup_none(entries: Seq<(Seq<char>, JsonTree)>, key: Seq<char>)
    requires
        forall|j: int| 0 <= j < entries.len() ==> (#[trigger] entries[j]).0 != key,
    ensures
        lookup(entries, key) is None,
    decreases entries.len(),
{
    if entries.len() > 0 {
        let rest = entries.skip(1);
        assert(entries[0].0 != key);
        assert forall|j: int| 0 <= j < rest.len() implies (#[trigger] rest[j]).0 != key by {
            assert(rest[j] == entries[j + 1]);
        }
        lemma_lookup_none(rest, key);
    }
}

/// The items of a list are its own, and no other value has any; objects and
/// lists alone are nested; texts, numbers and booleans alone have a text.
pub proof fn law_values_by_kind(t: JsonTree, list: Seq<JsonTree>, s: Seq<char>)
    ensures
        JsonTree::Array(list).items() == list,
        !(t is Array) ==> t.items() == Seq::<JsonTree>::empty(),
        t.is_nested() <==> t is Array || t is Object,
        JsonTree::Text(s).scalar_text() == Some(s),
        JsonTree::Number(s).scalar_text() == Some(s),
        JsonTree::Bool(true).scalar_text() == Some("true"@),
        JsonTree::Bool(false).scalar_text() == Some("false"@),
        t is Null || t.is_nested() ==> t.scalar_text() is None,
{
}

/// A value is seen as it is, with all that stands in it.
pub proof fn law_values_are_seen_as_they_are(
    b: bool,
    s: String,
    items: Vec<Json>,
    entries: Vec<(String, Json)>,
)
    ensures
        Json::Null@ == JsonTree::Null,
        Json::Bool(b)@ == JsonTree::Bool(b),
        Json::Text(s)@ == JsonTree::Text(s@),
        Json::Array(items)@ is Array,
        Json::Array(items)@->Array_0.len() == items@.len(),
        forall|i: int|
            0 <= i < items@.len() ==> (#[trigger] Json::Array(items)@->Array_0[i]) == items@[i]@,
        Json::Object(entries)@ is Object,
        Json::Object(entries)@->Object_0.len() == entries@.len(),
        forall|i: int|
            0 <= i < entries@.len() ==> (#[trigger] Json::Object(entries)@->Object_0[i]) == (
                entries@[i].0@,
                entries@[i].1@,
            ),
        trees(items@).len() == items@.len(),
        forall|i: int| 0 <= i < items@.len() ==> (#[trigger] trees(items@)[i]) == items@[i]@,
{
}

/// Fields of text make an object with a text for each, in order.
pub proof fn law_fields_make_an_object(fields: Seq<(String, String)>, i: int)
    requires
        0 <= i < fields.len(),
    ensures
        fields_tree(fields) is Object,
        fields_tree(fields)->Object_0.len() == fields.len(),
        fields_tree(fields)->Object_0[i] == (fields[i].0@, JsonTree::Text(fields[i].1@)),
{
}

/// A whole number is written in decimal, with a minus sign where it is
/// negative.
pub proof fn law_whole_numbers(n: nat)
    ensures
        whole(n as int) == decimal(n),
        n > 0 ==> whole(-(n as int)) == "-"@ + decimal(n),
{
}

// ---- writing values ----

/// Text is written character by character between quotes; a quote, a backslash
/// and control characters are escaped, and every other character stands as it
/// is.
pub proof fn law_text_is_written_by_character(x: Seq<char>, y: Seq<char>, c: char)
    ensures
        json_quoted(x) == "\""@ + json_chars(x) + "\""@,
        json_chars(x + y) == json_chars(x) + json_chars(y),
        json_chars(seq![c]) == json_char(c),
        json_chars(Seq::empty()) == Seq::<char>::empty(),
        json_char('"') == "\\\""@,
        json_char('\\') == "\\\\"@,
        json_char('\n') == "\\n"@,
        json_char('\r') == "\\r"@,
        json_char('\t') == "\\t"@,
        json_char('\u{8}') == "\\b"@,
        json_char('\u{c}') == "\\f"@,
        json_char('\0') == "\\u0000"@,
        json_char('\u{1f}') == "\\u001f"@,
        c as int >= 32 && c != '"' && c != '\\' ==> json_char(c) == seq![c],
        (c as int) < 32 && c != '\n' && c != '\r' && c != '\t' && c != '\u{8}' && c != '\u{c}'
            ==> json_char(c) == "\\u00"@ + seq![
            "0123456789abcdef"@[c as int / 16],
            "0123456789abcdef"@[c as int % 16],
        ],
    decreases y.len(),
{
    reveal_strlit("0123456789abcdef");
    reveal_strlit("\\u00");
    reveal_strlit("\"");
    reveal_strlit("\\\"");
    reveal_strlit("\\\\");
    reveal_strlit("\\n");
    reveal_strlit("\\r");
    reveal_strlit("\\t");
    reveal_strlit("\\b");
    reveal_strlit("\\f");
    reveal_strlit("\\u0000");
    reveal_strlit("\\u001f");
    assert(json_quoted(x) =~= "\""@ + json_chars(x) + "\""@);
    assert(json_char('"') =~= "\\\""@);
    assert(json_char('\\') =~= "\\\\"@);
    assert(json_char('\n') =~= "\\n"@);
    assert(json_char('\r') =~= "\\r"@);
    assert(json_char('\t') =~= "\\t"@);
    assert(json_char('\u{8}') =~= "\\b"@);
    assert(json_char('\u{c}') =~= "\\f"@);
    assert(json_char('\0') =~= "\\u0000"@);
    assert(json_char('\u{1f}') =~= "\\u001f"@);
    if (c as int) < 32 && c != '\n' && c != '\r' && c != '\t' && c != '\u{8}' && c != '\u{c}' {
        assert(0 <= c as int / 16 < 2 && 0 <= c as int % 16 < 16);
        assert(json_char(c) =~= "\\u00"@ + seq![
            "0123456789abcdef"@[c as int / 16],
            "0123456789abcdef"@[c as int % 16],
        ]);
    }
    reveal_with_fuel(json_chars, 2);
    assert(seq![c].drop_last() =~= Seq::<char>::empty());
    assert(json_chars(seq![c]) =~= json_char(c));
    if y.len() == 0 {
        assert(x + y =~= x);
        assert(json_chars(x) + json_chars(y) =~= json_chars(x));
    } else {
        assert((x + y).drop_last() =~= x + y.drop_last());
        law_text_is_written_by_character(x, y.drop_last(), c);
        assert(json_chars(x + y) =~= json_chars(x) + json_chars(y));
    }
}

/// Values are written as JSON: words, numbers and quoted texts, and lists and
/// objects in their brackets.
pub proof fn law_values_are_written(
    s: Seq<char>,
    items: Seq<JsonTree>,
    entries: Seq<(Seq<char>, JsonTree)>,
)
    ensures
        written(JsonTree::Null) == "null"@,
        written(JsonTree::Bool(true)) == "true"@,
        written(JsonTree::Bool(false)) == "false"@,
        written(JsonTree::Number(s)) == s,
        written(JsonTree::Text(s)) == json_quoted(s),
        written(JsonTree::Array(items)) == "["@ + items_written(items) + "]"@,
        written(JsonTree::Object(entries)) == "{"@ + entries_written(entries) + "}"@,
{
}

/// Items are written one after the other with commas between them.
pub proof fn law_items_are_written_in_turn(x: Seq<JsonTree>, y: Seq<JsonTree>, t: JsonTree)
    ensures
        items_written(Seq::empty()) == Seq::<char>::empty(),
        items_written(seq![t]) == written(t),
        x.len() > 0 && y.len() > 0 ==> items_written(x + y) == items_written(x) + ","@
            + items_written(y),
    decreases y.len(),
{
    if x.len() > 0 && y.len() > 0 {
        assert((x + y).drop_last() =~= x + y.drop_last());
        assert((x + y).last() == y.last());
        if y.len() == 1 {
            assert(x + y.drop_last() =~= x);
            assert(y[0] == y.last());
        } else {
            law_items_are_written_in_turn(x, y.drop_last(), t);
            assert(items_written(x + y) =~= items_written(x) + ","@ + items_written(y));
        }
    }
}

/// Entries are written one after the other with commas between them, each as its
/// name, a colon and its value.
pub proof fn law_entries_are_written_in_turn(
    x: Seq<(Seq<char>, JsonTree)>,
    y: Seq<(Seq<char>, JsonTree)>,
    name: Seq<char>,
    t: JsonTree,
)
    ensures
        entries_written(Seq::empty()) == Seq::<char>::empty(),
        entries_written(seq![(name, t)]) == json_quoted(name) + ":"@ + written(t),
        x.len() > 0 && y.len() > 0 ==> entries_written(x + y) == entries_written(x) + ","@
            + entries_written(y),
    decreases y.len(),
{
    assert(seq![(name, t)].last() == (name, t));
    if x.len() > 0 && y.len() > 0 {
        assert((x + y).drop_last() =~= x + y.drop_last());
        assert((x + y).last() == y.last());
        if y.len() == 1 {
            assert(x + y.drop_last() =~= x);
        } else {
            law_entries_are_written_in_turn(x, y.drop_last(), name, t);
            assert(entries_written(x + y) =~= entries_written(x) + ","@ + entries_written(y));
        }
    }
}

// ---- the order of entries ----

/// One text comes before another where it is the beginning of it, or where it
/// has the smaller character at the first place where they differ.
pub proof fn law_texts_are_ordered_by_character(a: Seq<char>, b: Seq<char>, n: int)
    ensures
        b.len() > a.len() && b.take(a.len() as int) == a ==> text_before(a, b),
        0 <= n < a.len() && n < b.len() && a.take(n) == b.take(n) && a[n] < b[n] ==> text_before(
            a,
            b,
        ),
        0 <= n < a.len() && n < b.len() && a.take(n) == b.take(n) && a[n] > b[n] ==> !text_before(
            a,
            b,
        ),
        !text_before(a, a),
        text_before(a, b) ==> !text_before(b, a),
    decreases a.len(),
{
    lemma_order_total(a, b);
    lemma_order_total(a, a);
    if b.len() > a.len() && b.take(a.len() as int) == a && a.len() > 0 {
        assert(b.take(a.len() as int)[0] == b[0]);
        assert(b.skip(1).take(a.len() - 1) =~= b.take(a.len() as int).skip(1));
        law_texts_are_ordered_by_character(a.skip(1), b.skip(1), n - 1);
    }
    if 0 <= n < a.len() && n < b.len() && a.take(n) == b.take(n) {
        if n > 0 {
            assert(a.take(n)[0] == a[0] && b.take(n)[0] == b[0]);
            assert(a.skip(1).take(n - 1) =~= a.take(n).skip(1));
            assert(b.skip(1).take(n - 1) =~= b.take(n).skip(1));
            law_texts_are_ordered_by_character(a.skip(1), b.skip(1), n - 1);
        }
    }
}

proof fn lemma_order_total(a: Seq<char>, b: Seq<char>)
    ensures
        a == b ==> !text_before(a, b),
        a != b ==> (text_before(a, b) <==> !text_before(b, a)),
    decreases a.len(),
{
    if a.len() == 0 || b.len() == 0 {
        if a.len() == 0 && b.len() == 0 {
            assert(a =~= b);
        }
    } else {
        lemma_order_total(a.skip(1), b.skip(1));
        if a[0] == b[0] && a.skip(1) == b.skip(1) {
            assert(a =~= seq![a[0]] + a.skip(1));
            assert(b =~= seq![b[0]] + b.skip(1));
        }
    }
}

proof fn lemma_order_transitive(a: Seq<char>, b: Seq<char>, c: Seq<char>)
    requires
        text_before(a, b),
        text_before(b, c),
    ensures
        text_before(a, c),
    decreases a.len(),
{
    if a.len() > 0 {
        if a[0] == b[0] && b[0] == c[0] {
            lemma_order_transitive(a.skip(1), b.skip(1), c.skip(1));
        }
    }
}

/// Whether names come one before the other.
pub open spec fn names_in_order(entries: Seq<(Seq<char>, JsonTree)>) -> bool {
    forall|i: int, j: int|
        0 <= i < j < entries.len() ==> text_before(
            (#[trigger] entries[i]).0,
            (#[trigger] entries[j]).0,
        )
}

proof fn lemma_put_entry(
    entries: Seq<(Seq<char>, JsonTree)>,
    entry: (Seq<char>, JsonTree),
    k: Seq<char>,
)
    requires
        names_in_order(entries),
    ensures
        names_in_order(put_entry(entries, entry)),
        forall|i: int|
            0 <= i < put_entry(entries, entry).len() ==> (#[trigger] put_entry(entries, entry)[i]).0
                == entry.0 || exists|j: int|
                0 <= j < entries.len() && (#[trigger] entries[j]).0 == put_entry(
                    entries,
                    entry,
                )[i].0,
        lookup(put_entry(entries, entry), k) == if k == entry.0 {
            Some(entry.1)
        } else {
            lookup(entries, k)
        },
    decreases entries.len(),
{
    let after = put_entry(entries, entry);
    if entries.len() == 0 {
        assert(after =~= seq![entry]);
        lemma_lookup_last(after, k);
        assert(after.drop_last() =~= entries);
    } else {
        let rest = entries.drop_last();
        let last = entries.last();
        lemma_lookup_last(entries, k);
        lemma_lookup_last(after, k);
        lemma_order_total(last.0, entry.0);
        if text_before(last.0, entry.0) {
            assert(after.drop_last() =~= entries);
            assert forall|i: int, j: int| 0 <= i < j < after.len() implies text_before(
                (#[trigger] after[i]).0,
                (#[trigger] after[j]).0,
            ) by {
                if j == after.len() - 1 && i < entries.len() - 1 {
                    assert(text_before(entries[i].0, entries[entries.len() - 1].0));
                    lemma_order_transitive(entries[i].0, last.0, entry.0);
                }
            }
            assert forall|i: int| 0 <= i < after.len() implies (#[trigger] after[i]).0 == entry.0
                || exists|j: int| 0 <= j < entries.len() && (#[trigger] entries[j]).0 == after[i].0 by {
                if i < entries.len() {
                    assert(entries[i].0 == after[i].0);
                }
            }
            if k == entry.0 {
                lemma_not_among(entries, entry.0);
            }
        } else if last.0 == entry.0 {
            assert(after.drop_last() =~= rest);
            assert forall|i: int, j: int| 0 <= i < j < after.len() implies text_before(
                (#[trigger] after[i]).0,
                (#[trigger] after[j]).0,
            ) by {
                assert(text_before(entries[i].0, entries[j].0));
            }
            assert forall|i: int| 0 <= i < after.len() implies (#[trigger] after[i]).0 == entry.0
                || exists|j: int| 0 <= j < entries.len() && (#[trigger] entries[j]).0 == after[i].0 by {
                assert(entries[i].0 == after[i].0);
            }
            lemma_not_among_rest(entries);
            if k == entry.0 {
                assert(lookup(rest, k) is None);
            }
        } else {
            let before = put_entry(rest, entry);
            assert(names_in_order(rest)) by {
                assert forall|i: int, j: int| 0 <= i < j < rest.len() implies text_before(
                    (#[trigger] rest[i]).0,
                    (#[trigger] rest[j]).0,
                ) by {
                    assert(text_before(entries[i].0, entries[j].0));
                }
            }
            lemma_put_entry(rest, entry, k);
            assert(after.drop_last() =~= before);
            assert forall|i: int, j: int| 0 <= i < j < after.len() implies text_before(
                (#[trigger] after[i]).0,
                (#[trigger] after[j]).0,
            ) by {
                if j < before.len() {
                    assert(text_before(before[i].0, before[j].0));
                } else {
                    assert(after[i] == before[i]);
                    if before[i].0 != entry.0 {
                        let m = choose|m: int|
                            0 <= m < rest.len() && (#[trigger] rest[m]).0 == before[i].0;
                        assert(text_before(entries[m].0, entries[entries.len() - 1].0));
                    }
                }
            }
            assert forall|i: int| 0 <= i < after.len() implies (#[trigger] after[i]).0 == entry.0
                || exists|j: int| 0 <= j < entries.len() && (#[trigger] entries[j]).0 == after[i].0 by {
                if i < before.len() {
                    assert(after[i] == before[i]);
                    if before[i].0 != entry.0 {
                        let m = choose|m: int|
                            0 <= m < rest.len() && (#[trigger] rest[m]).0 == before[i].0;
                        assert(entries[m].0 == after[i].0);
                    }
                } else {
                    assert(entries[entries.len() - 1].0 == after[i].0);
                }
            }
        }
    }
}

proof fn lemma_not_among(entries: Seq<(Seq<char>, JsonTree)>, name: Seq<char>)
    requires
        names_in_order(entries),
        entries.len() > 0,
        text_before(entries.last().0, name),
    ensures
        lookup(entries, name) is None,
{
    assert forall|j: int| 0 <= j < entries.len() implies (#[trigger] entries[j]).0 != name by {
        lemma_order_total(name, name);
        if j < entries.len() - 1 {
            assert(text_before(entries[j].0, entries[entries.len() - 1].0));
            lemma_order_transitive(entries[j].0, entries.last().0, name);
        }
    }
    lemma_lookup_none(entries, name);
}

proof fn lemma_not_among_rest(entries: Seq<(Seq<char>, JsonTree)>)
    requires
        names_in_order(entries),
        entries.len() > 0,
    ensures
        lookup(entries.drop_last(), entries.last().0) is None,
{
    let rest = entries.drop_last();
    let name = entries.last().0;
    assert forall|j: int| 0 <= j < rest.len() implies (#[trigger] rest[j]).0 != name by {
        lemma_order_total(name, name);
        assert(text_before(entries[j].0, entries[entries.len() - 1].0));
    }
    lemma_lookup_none(rest, name);
}

/// The entries of an object in order: their names come one before the other,
/// and each name has the last value that it was given.
pub proof fn law_entries_in_order(entries: Seq<(Seq<char>, JsonTree)>, k: Seq<char>)
    ensures
        names_in_order(in_order(entries)),
        lookup(in_order(entries), k) == lookup(entries.reverse(), k),
    decreases entries.len(),
{
    if entries.len() > 0 {
        let rest = entries.drop_last();
        law_entries_in_order(rest, k);
        lemma_put_entry(in_order(rest), entries.last(), k);
        let back = entries.reverse();
        assert(back[0] == entries.last());
        assert(back.skip(1) =~= rest.reverse());
    } else {
        assert(entries.reverse() =~= entries);
    }
}

/// Ordering a value orders what stands in it and leaves texts, numbers and the
/// like; an object then has its names in order, each with its last value.
pub proof fn law_values_are_ordered(
    t: JsonTree,
    items: Seq<JsonTree>,
    i: int,
    entries: Seq<(Seq<char>, JsonTree)>,
    k: Seq<char>,
)
    ensures
        !(t is Array) && !(t is Object) ==> ordered(t) == t,
        ordered(JsonTree::Array(items)) is Array,
        ordered(JsonTree::Array(items))->Array_0.len() == items.len(),
        0 <= i < items.len() ==> ordered(JsonTree::Array(items))->Array_0[i] == ordered(items[i]),
        ordered(JsonTree::Object(entries)) is Object,
        names_in_order(ordered(JsonTree::Object(entries))->Object_0),
        match lookup(entries.reverse(), k) {
            Some(v) => ordered(JsonTree::Object(entries)).field(k) == Some(ordered(v)),
            None => ordered(JsonTree::Object(entries)).field(k) is None,
        },
        json_text(t) == written(ordered(t)),
{
    law_entries_in_order(ordered_entries(entries), k);
    assert(ordered_entries(entries).len() == entries.len());
    lemma_ordered_lookup(entries.reverse(), ordered_entries(entries).reverse(), k);
}

proof fn lemma_ordered_lookup(
    a: Seq<(Seq<char>, JsonTree)>,
    b: Seq<(Seq<char>, JsonTree)>,
    k: Seq<char>,
)
    requires
        a.len() == b.len(),
        forall|i: int| 0 <= i < a.len() ==> (#[trigger] b[i]) == (a[i].0, ordered(a[i].1)),
    ensures
        match lookup(a, k) {
            Some(v) => lookup(b, k) == Some(ordered(v)),
            None => lookup(b, k) is None,
        },
    decreases a.len(),
{
    if a.len() > 0 {
        assert(b[0] == (a[0].0, ordered(a[0].1)));
        assert forall|i: int| 0 <= i < a.skip(1).len() implies (#[trigger] b.skip(1)[i]) == (
            a.skip(1)[i].0,
            ordered(a.skip(1)[i].1),
        ) by {
            assert(b[i + 1] == (a[i + 1].0, ordered(a[i + 1].1)));
        }
        lemma_ordered_lookup(a.skip(1), b.skip(1), k);
    }
}

} // verus!
