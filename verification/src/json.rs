//! JSON values as the service reads them.

use crate::text::{decimal, hex_digit, same_text};
use vstd::prelude::*;
use vstd::string::*;
use vstd::utf8::*;

verus! {

broadcast use vstd::string::group_string_axioms;

/// `serde_json::Number`, opaque here.
#[verifier::external_type_specification]
#[verifier::external_body]
pub struct ExJsonNumber(serde_json::Number);

/// The `Display` text of a `serde_json::Number`.
pub uninterp spec fn number_text(n: serde_json::Number) -> Seq<char>;

/// The `Display` text of a `serde_json::Number`, by which it is known here.
#[verifier::external_body]
pub(crate) fn show_number(n: &serde_json::Number) -> (r: String)
    ensures
        r@ == number_text(*n),
{
    n.to_string()
}

/// `serde_json::Number::clone` gives the same number.
#[verifier::external_body]
fn copy_number(n: &serde_json::Number) -> (r: serde_json::Number)
    ensures
        number_text(r) == number_text(*n),
{
    n.clone()
}

/// `serde_json::Number::from` takes any `u64`; it is shown in decimal.
#[verifier::external_body]
fn unsigned_value(n: u64) -> (r: serde_json::Number)
    ensures
        number_text(r) == decimal(n as nat),
{
    serde_json::Number::from(n)
}

/// A whole number as text.
pub open spec fn whole(n: int) -> Seq<char> {
    if n < 0 {
        "-"@ + decimal((-n) as nat)
    } else {
        decimal(n as nat)
    }
}

/// `serde_json::Number::from` takes any `i64`; it is shown in decimal.
#[verifier::external_body]
fn signed_value(n: i64) -> (r: serde_json::Number)
    ensures
        number_text(r) == whole(n as int),
{
    serde_json::Number::from(n)
}

/// A JSON value. An object is kept as its entries in order.
pub enum Json {
    Null,
    Bool(bool),
    Number(serde_json::Number),
    Text(String),
    Array(Vec<Json>),
    Object(Vec<(String, Json)>),
}

/// What a JSON value is, as a mathematical tree; a number is its text.
pub enum JsonTree {
    Null,
    Bool(bool),
    Number(Seq<char>),
    Text(Seq<char>),
    Array(Seq<JsonTree>),
    Object(Seq<(Seq<char>, JsonTree)>),
}

impl Json {
    /// The tree that this value stands for.
    pub open spec fn tree(self) -> JsonTree
        decreases self,
    {
        match self {
            Json::Null => JsonTree::Null,
            Json::Bool(b) => JsonTree::Bool(b),
            Json::Number(n) => JsonTree::Number(number_text(n)),
            Json::Text(s) => JsonTree::Text(s@),
            Json::Array(items) => JsonTree::Array(
                Seq::new(
                    items@.len(),
                    |i: int|
                        if 0 <= i < items@.len() {
                            items@[i].tree()
                        } else {
                            JsonTree::Null
                        },
                ),
            ),
            Json::Object(entries) => JsonTree::Object(
                Seq::new(
                    entries@.len(),
                    |i: int|
                        if 0 <= i < entries@.len() {
                            (entries@[i].0@, entries@[i].1.tree())
                        } else {
                            (Seq::empty(), JsonTree::Null)
                        },
                ),
            ),
        }
    }
}

impl View for Json {
    type V = JsonTree;

    open spec fn view(&self) -> JsonTree {
        self.tree()
    }
}

/// The trees of a list of values.
pub open spec fn trees(items: Seq<Json>) -> Seq<JsonTree> {
    Seq::new(items.len(), |i: int| items[i]@)
}

/// The trees of a list of entries.
pub open spec fn entry_trees(entries: Seq<(String, Json)>) -> Seq<(Seq<char>, JsonTree)> {
    Seq::new(entries.len(), |i: int| (entries[i].0@, entries[i].1@))
}

/// The tree of an array is the array of the trees.
pub proof fn lemma_array_tree(items: Vec<Json>)
    ensures
        Json::Array(items)@ == JsonTree::Array(trees(items@)),
{
    assert(Json::Array(items)@->Array_0 =~= trees(items@));
}

/// The tree of an object is the object of the trees.
pub proof fn lemma_object_tree(entries: Vec<(String, Json)>)
    ensures
        Json::Object(entries)@ == JsonTree::Object(entry_trees(entries@)),
{
    assert(Json::Object(entries)@->Object_0 =~= entry_trees(entries@));
}

/// The value of the first entry named `key`.
pub open spec fn lookup(entries: Seq<(Seq<char>, JsonTree)>, key: Seq<char>) -> Option<JsonTree>
    decreases entries.len(),
{
    if entries.len() == 0 {
        None
    } else if entries[0].0 == key {
        Some(entries[0].1)
    } else {
        lookup(entries.skip(1), key)
    }
}

impl JsonTree {
    /// The value of a field, where this is an object that has it.
    pub open spec fn field(self, key: Seq<char>) -> Option<JsonTree> {
        match self {
            JsonTree::Object(entries) => lookup(entries, key),
            _ => None,
        }
    }

    /// The items, where this is an array.
    pub open spec fn items(self) -> Seq<JsonTree> {
        match self {
            JsonTree::Array(items) => items,
            _ => Seq::empty(),
        }
    }

    /// An object or an array.
    pub open spec fn is_nested(self) -> bool {
        self is Object || self is Array
    }

    /// The text of a string, a number or a boolean.
    pub open spec fn scalar_text(self) -> Option<Seq<char>> {
        match self {
            JsonTree::Text(s) => Some(s),
            JsonTree::Number(n) => Some(n),
            JsonTree::Bool(b) => Some(
                if b {
                    "true"@
                } else {
                    "false"@
                },
            ),
            _ => None,
        }
    }
}

/// Finds the value of the first entry named `key`.
pub fn find_entry<'a>(entries: &'a Vec<(String, Json)>, key: &str) -> (r: Option<&'a Json>)
    ensures
        match r {
            Some(v) => lookup(entry_trees(entries@), key@) == Some(v@),
            None => lookup(entry_trees(entries@), key@) is None,
        },
{
    let mut i: usize = 0;
    let ghost all = entry_trees(entries@);
    assert(all.skip(0) == all);
    while i < entries.len()
        invariant
            all == entry_trees(entries@),
            i <= entries@.len(),
            lookup(all, key@) == lookup(all.skip(i as int), key@),
        decreases entries@.len() - i,
    {
        assert(all.skip(i as int)[0] == all[i as int]);
        if same_text(entries[i].0.as_str(), key) {
            return Some(&entries[i].1);
        }
        assert(all.skip(i as int).skip(1) == all.skip(i + 1));
        i = i + 1;
    }
    None
}

impl Json {
    /// A number.
    pub fn unsigned(n: u64) -> (r: Json)
        ensures
            r@ == JsonTree::Number(decimal(n as nat)),
    {
        Json::Number(unsigned_value(n))
    }

    /// A number, which may be negative.
    pub fn signed(n: i64) -> (r: Json)
        ensures
            r@ == JsonTree::Number(whole(n as int)),
    {
        Json::Number(signed_value(n))
    }

    /// The value of a field, where this is an object that has it.
    pub fn field<'a>(&'a self, key: &str) -> (r: Option<&'a Json>)
        ensures
            match r {
                Some(v) => self@.field(key@) == Some(v@),
                None => self@.field(key@) is None,
            },
    {
        match self {
            Json::Object(entries) => {
                proof {
                    lemma_object_tree(*entries);
                }
                find_entry(entries, key)
            },
            _ => None,
        }
    }

    /// Whether this is an object or an array.
    pub fn is_nested(&self) -> (r: bool)
        ensures
            r == self@.is_nested(),
    {
        match self {
            Json::Object(_) => true,
            Json::Array(_) => true,
            _ => false,
        }
    }

    /// The text of a string, a number or a boolean.
    pub fn scalar_text(&self) -> (r: Option<String>)
        ensures
            match r {
                Some(s) => self@.scalar_text() == Some(s@),
                None => self@.scalar_text() is None,
            },
    {
        match self {
            Json::Text(s) => Some(s.clone()),
            Json::Number(n) => Some(show_number(n)),
            Json::Bool(b) => if *b {
                Some("true".to_string())
            } else {
                Some("false".to_string())
            },
            _ => None,
        }
    }

    /// A value with the same tree.
    pub fn copy(&self) -> (r: Json)
        ensures
            r@ == self@,
        decreases self,
    {
        match self {
            Json::Null => Json::Null,
            Json::Bool(b) => Json::Bool(*b),
            Json::Number(n) => Json::Number(copy_number(n)),
            Json::Text(s) => Json::Text(s.clone()),
            Json::Array(items) => {
                let mut out: Vec<Json> = Vec::new();
                let mut i: usize = 0;
                while i < items.len()
                    invariant
                        i <= items@.len(),
                        out@.len() == i,
                        *self == Json::Array(*items),
                        forall|k: int| 0 <= k < i ==> (#[trigger] out@[k])@ == items@[k]@,
                    decreases items@.len() - i,
                {
                    proof {
                        let whole = *self;
                        assert(decreases_to!(whole => whole->Array_0));
                        assert(decreases_to!(whole->Array_0 => whole->Array_0@));
                        assert(decreases_to!(whole->Array_0@ => whole->Array_0@[i as int]));
                    }
                    out.push(items[i].copy());
                    i = i + 1;
                }
                proof {
                    lemma_array_tree(*items);
                    lemma_array_tree(out);
                    assert(trees(out@) =~= trees(items@));
                }
                Json::Array(out)
            },
            Json::Object(entries) => {
                let mut out: Vec<(String, Json)> = Vec::new();
                let mut i: usize = 0;
                while i < entries.len()
                    invariant
                        i <= entries@.len(),
                        out@.len() == i,
                        *self == Json::Object(*entries),
                        forall|k: int|
                            0 <= k < i ==> (#[trigger] out@[k]).0@ == entries@[k].0@ && out@[k].1@
                                == entries@[k].1@,
                    decreases entries@.len() - i,
                {
                    proof {
                        let whole = *self;
                        assert(decreases_to!(whole => whole->Object_0));
                        assert(decreases_to!(whole->Object_0 => whole->Object_0@));
                        assert(decreases_to!(whole->Object_0@ => whole->Object_0@[i as int]));
                        let entry = whole->Object_0@[i as int];
                        assert(decreases_to!(entry => entry.1));
                    }
                    out.push((entries[i].0.clone(), entries[i].1.copy()));
                    i = i + 1;
                }
                proof {
                    lemma_object_tree(*entries);
                    lemma_object_tree(out);
                    assert(entry_trees(out@) =~= entry_trees(entries@));
                }
                Json::Object(out)
            },
        }
    }
}

/// `serde_json::Value`, opaque here.
#[verifier::external_type_specification]
#[verifier::external_body]
pub struct ExJsonValue(serde_json::Value);

/// What a `serde_json::Value` holds.
pub uninterp spec fn value_tree(v: serde_json::Value) -> JsonTree;

/// What `serde_json::from_slice` reads from bytes.
pub uninterp spec fn parsed_tree(bytes: Seq<u8>) -> Option<JsonTree>;

/// The topmost node of a `serde_json::Value`.
pub enum JsonNode {
    Null,
    Bool(bool),
    Number(serde_json::Number),
    Text(String),
    Array(Vec<serde_json::Value>),
    Object(Vec<(String, serde_json::Value)>),
}

/// `serde_json::from_slice` reads one JSON value that fills the bytes, or
/// reports that they hold none.
#[verifier::external_body]
fn parse_value(bytes: &[u8]) -> (r: Option<serde_json::Value>)
    ensures
        match r {
            Some(v) => parsed_tree(bytes@) == Some(value_tree(v)),
            None => parsed_tree(bytes@) is None,
        },
{
    serde_json::from_slice::<serde_json::Value>(bytes).ok()
}

/// The variants of `serde_json::Value`: an array gives its items in order, and
/// an object its entries in the order in which the map hands them out.
#[verifier::external_body]
fn open_value(v: serde_json::Value) -> (r: JsonNode)
    ensures
        match r {
            JsonNode::Null => value_tree(v) == JsonTree::Null,
            JsonNode::Bool(b) => value_tree(v) == JsonTree::Bool(b),
            JsonNode::Number(n) => value_tree(v) == JsonTree::Number(number_text(n)),
            JsonNode::Text(s) => value_tree(v) == JsonTree::Text(s@),
            JsonNode::Array(items) => value_tree(v) == JsonTree::Array(
                Seq::new(items@.len(), |i: int| value_tree(items@[i])),
            ),
            JsonNode::Object(entries) => value_tree(v) == JsonTree::Object(
                Seq::new(entries@.len(), |i: int| (entries@[i].0@, value_tree(entries@[i].1))),
            ),
        },
{
    match v {
        serde_json::Value::Null => JsonNode::Null,
        serde_json::Value::Bool(b) => JsonNode::Bool(b),
        serde_json::Value::Number(n) => JsonNode::Number(n),
        serde_json::Value::String(s) => JsonNode::Text(s),
        serde_json::Value::Array(items) => JsonNode::Array(items),
        serde_json::Value::Object(entries) => JsonNode::Object(entries.into_iter().collect()),
    }
}

/// Takes a `serde_json::Value` over, node by node.
pub fn from_value(v: serde_json::Value) -> (r: Json)
    ensures
        r@ == value_tree(v),
    decreases value_tree(v),
{
    let ghost whole = value_tree(v);
    match open_value(v) {
        JsonNode::Null => Json::Null,
        JsonNode::Bool(b) => Json::Bool(b),
        JsonNode::Number(n) => Json::Number(n),
        JsonNode::Text(s) => Json::Text(s),
        JsonNode::Array(items) => {
            let ghost all = items@;
            let mut out: Vec<Json> = Vec::new();
            for item in it: items
                invariant
                    whole == value_tree(v),
                    whole == JsonTree::Array(Seq::new(all.len(), |i: int| value_tree(all[i]))),
                    it.seq() == all,
                    out@.len() == it.index(),
                    forall|k: int| 0 <= k < out@.len() ==> (#[trigger] out@[k])@ == value_tree(all[k]),
            {
                let ghost k = out@.len() as int;
                assert(item == all[k]);
                assert(decreases_to!(whole => whole->Array_0));
                assert(decreases_to!(whole->Array_0 => whole->Array_0[k]));
                assert(whole->Array_0[k] == value_tree(item));
                out.push(from_value(item));
            }
            proof {
                lemma_array_tree(out);
                assert(trees(out@) =~= whole->Array_0);
            }
            Json::Array(out)
        },
        JsonNode::Object(entries) => {
            let ghost all = entries@;
            let mut out: Vec<(String, Json)> = Vec::new();
            for entry in it: entries
                invariant
                    whole == value_tree(v),
                    whole == JsonTree::Object(
                        Seq::new(all.len(), |i: int| (all[i].0@, value_tree(all[i].1))),
                    ),
                    it.seq() == all,
                    out@.len() == it.index(),
                    forall|k: int|
                        0 <= k < out@.len() ==> (#[trigger] out@[k]).0@ == all[k].0@ && out@[k].1@
                            == value_tree(all[k].1),
            {
                let ghost k = out@.len() as int;
                assert(entry == all[k]);
                let (key, item) = entry;
                assert(decreases_to!(whole => whole->Object_0));
                assert(decreases_to!(whole->Object_0 => whole->Object_0[k]));
                proof {
                    let node = whole->Object_0[k];
                    assert(decreases_to!(node => node.1));
                    assert(node == (key@, value_tree(item)));
                }
                out.push((key, from_value(item)));
            }
            proof {
                lemma_object_tree(out);
                assert(entry_trees(out@) =~= whole->Object_0);
            }
            Json::Object(out)
        },
    }
}

/// Reads JSON text.
pub fn parse_json(bytes: &[u8]) -> (r: Option<Json>)
    ensures
        match r {
            Some(v) => parsed_tree(bytes@) == Some(v@),
            None => parsed_tree(bytes@) is None,
        },
{
    match parse_value(bytes) {
        Some(v) => Some(from_value(v)),
        None => None,
    }
}

/// How a character is written inside a JSON string.
pub open spec fn json_char(c: char) -> Seq<char> {
    let n = c as int;
    if c == '"' {
        seq!['\\', '"']
    } else if c == '\\' {
        seq!['\\', '\\']
    } else if n == 0x08 {
        seq!['\\', 'b']
    } else if n == 0x09 {
        seq!['\\', 't']
    } else if n == 0x0a {
        seq!['\\', 'n']
    } else if n == 0x0c {
        seq!['\\', 'f']
    } else if n == 0x0d {
        seq!['\\', 'r']
    } else if n < 0x20 {
        seq!['\\', 'u', '0', '0', hex_digit(n / 16), hex_digit(n % 16)]
    } else {
        seq![c]
    }
}

/// The characters of a text as they stand inside a JSON string.
pub open spec fn json_chars(s: Seq<char>) -> Seq<char>
    decreases s.len(),
{
    if s.len() == 0 {
        s
    } else {
        json_chars(s.drop_last()) + json_char(s.last())
    }
}

/// A text as a JSON string.
pub open spec fn json_quoted(s: Seq<char>) -> Seq<char> {
    seq!['"'] + json_chars(s) + seq!['"']
}

/// A JSON value as text, without spaces, with its entries in the order given.
pub open spec fn written(t: JsonTree) -> Seq<char>
    decreases t,
{
    match t {
        JsonTree::Null => "null"@,
        JsonTree::Bool(b) => if b {
            "true"@
        } else {
            "false"@
        },
        JsonTree::Number(n) => n,
        JsonTree::Text(s) => json_quoted(s),
        JsonTree::Array(items) => "["@ + items_written(items) + "]"@,
        JsonTree::Object(entries) => "{"@ + entries_written(entries) + "}"@,
    }
}

/// Values as text, separated by commas.
pub open spec fn items_written(items: Seq<JsonTree>) -> Seq<char>
    decreases items,
{
    if items.len() == 0 {
        Seq::empty()
    } else if items.len() == 1 {
        written(items[0])
    } else {
        items_written(items.drop_last()) + ","@ + written(items.last())
    }
}

/// Entries as text, separated by commas.
pub open spec fn entries_written(entries: Seq<(Seq<char>, JsonTree)>) -> Seq<char>
    decreases entries,
{
    if entries.len() == 0 {
        Seq::empty()
    } else {
        let entry = entries.last();
        let text = json_quoted(entry.0) + ":"@ + written(entry.1);
        if entries.len() == 1 {
            text
        } else {
            entries_written(entries.drop_last()) + ","@ + text
        }
    }
}

/// Whether a text stands before another: by the first characters in which they
/// differ, and a beginning before what it begins.
pub open spec fn text_before(a: Seq<char>, b: Seq<char>) -> bool
    decreases a.len(),
{
    if b.len() == 0 {
        false
    } else if a.len() == 0 {
        true
    } else if a[0] == b[0] {
        text_before(a.skip(1), b.skip(1))
    } else {
        a[0] < b[0]
    }
}

/// An entry put among entries that stand in the order of their names; it takes
/// the place of one with the same name.
pub open spec fn put_entry(
    entries: Seq<(Seq<char>, JsonTree)>,
    entry: (Seq<char>, JsonTree),
) -> Seq<(Seq<char>, JsonTree)>
    decreases entries.len(),
{
    if entries.len() == 0 || text_before(entries.last().0, entry.0) {
        entries.push(entry)
    } else if entries.last().0 == entry.0 {
        entries.drop_last().push(entry)
    } else {
        put_entry(entries.drop_last(), entry).push(entries.last())
    }
}

/// Entries in the order of their names, of those with one name the last.
pub open spec fn in_order(entries: Seq<(Seq<char>, JsonTree)>) -> Seq<(Seq<char>, JsonTree)>
    decreases entries.len(),
{
    if entries.len() == 0 {
        entries
    } else {
        put_entry(in_order(entries.drop_last()), entries.last())
    }
}

/// A JSON value with the entries of its objects in the order of their names.
pub open spec fn ordered(t: JsonTree) -> JsonTree
    decreases t, 1int,
{
    match t {
        JsonTree::Array(items) => JsonTree::Array(ordered_items(items)),
        JsonTree::Object(entries) => JsonTree::Object(in_order(ordered_entries(entries))),
        _ => t,
    }
}

/// JSON values with the entries of their objects in the order of their names.
pub open spec fn ordered_items(items: Seq<JsonTree>) -> Seq<JsonTree>
    decreases items, 0int,
{
    Seq::new(
        items.len(),
        |i: int|
            if 0 <= i < items.len() {
                ordered(items[i])
            } else {
                JsonTree::Null
            },
    )
}

/// Entries with their values so ordered; they stand as they stood.
pub open spec fn ordered_entries(entries: Seq<(Seq<char>, JsonTree)>) -> Seq<(Seq<char>, JsonTree)>
    decreases entries, 0int,
{
    Seq::new(
        entries.len(),
        |i: int|
            if 0 <= i < entries.len() {
                (entries[i].0, ordered(entries[i].1))
            } else {
                (Seq::empty(), JsonTree::Null)
            },
    )
}

/// A JSON value as text, without spaces, with the entries of objects in the
/// order of their names.
pub open spec fn json_text(t: JsonTree) -> Seq<char> {
    written(ordered(t))
}

/// The variants of `serde_json::Value`, put together; an object's map keeps
/// its entries in the order of their names, of those with one name the last.
#[verifier::external_body]
fn make_value(node: JsonNode) -> (r: serde_json::Value)
    ensures
        value_tree(r) == match node {
            JsonNode::Null => JsonTree::Null,
            JsonNode::Bool(b) => JsonTree::Bool(b),
            JsonNode::Number(n) => JsonTree::Number(number_text(n)),
            JsonNode::Text(s) => JsonTree::Text(s@),
            JsonNode::Array(items) => JsonTree::Array(
                Seq::new(items@.len(), |i: int| value_tree(items@[i])),
            ),
            JsonNode::Object(entries) => JsonTree::Object(
                in_order(
                    Seq::new(entries@.len(), |i: int| (entries@[i].0@, value_tree(entries@[i].1))),
                ),
            ),
        },
{
    match node {
        JsonNode::Null => serde_json::Value::Null,
        JsonNode::Bool(b) => serde_json::Value::Bool(b),
        JsonNode::Number(n) => serde_json::Value::Number(n),
        JsonNode::Text(s) => serde_json::Value::String(s),
        JsonNode::Array(items) => serde_json::Value::Array(items),
        JsonNode::Object(entries) => serde_json::Value::Object(entries.into_iter().collect()),
    }
}

/// The `Display` text of a `serde_json::Value`: JSON without spaces, where
/// strings have quotes, backslashes and control characters escaped, and
/// entries stand as the map hands them out.
#[verifier::external_body]
fn value_text(v: &serde_json::Value) -> (r: String)
    ensures
        r@ == written(value_tree(*v)),
{
    v.to_string()
}

/// An object of text fields, in the order given.
pub open spec fn fields_tree(fields: Seq<(String, String)>) -> JsonTree {
    JsonTree::Object(Seq::new(fields.len(), |i: int| (fields[i].0@, JsonTree::Text(fields[i].1@))))
}

/// `serde::Serializer::collect_map` on a `serde_json::Serializer`: an object
/// without spaces, with its entries in the order given. Text is written into
/// memory without fail.
#[verifier::external_body]
pub(crate) fn write_fields(fields: &Vec<(String, String)>) -> (r: Option<Vec<u8>>)
    ensures
        r is Some,
        r->Some_0@ == encode_utf8(written(fields_tree(fields@))),
{
    let mut out: Vec<u8> = Vec::new();
    let mut writer = serde_json::Serializer::new(&mut out);
    serde::Serializer::collect_map(&mut writer, fields.iter().map(|f| (&f.0, &f.1))).ok()?;
    Some(out)
}

impl Json {
    /// Hands this value over, node by node.
    pub fn to_value(&self) -> (r: serde_json::Value)
        ensures
            value_tree(r) == ordered(self@),
        decreases self,
    {
        match self {
            Json::Null => make_value(JsonNode::Null),
            Json::Bool(b) => make_value(JsonNode::Bool(*b)),
            Json::Number(n) => make_value(JsonNode::Number(copy_number(n))),
            Json::Text(s) => make_value(JsonNode::Text(s.clone())),
            Json::Array(items) => {
                let mut out: Vec<serde_json::Value> = Vec::new();
                let mut i: usize = 0;
                while i < items.len()
                    invariant
                        i <= items@.len(),
                        out@.len() == i,
                        *self == Json::Array(*items),
                        forall|k: int|
                            0 <= k < i ==> value_tree(#[trigger] out@[k]) == ordered(items@[k]@),
                    decreases items@.len() - i,
                {
                    proof {
                        let whole = *self;
                        assert(decreases_to!(whole => whole->Array_0));
                        assert(decreases_to!(whole->Array_0 => whole->Array_0@));
                        assert(decreases_to!(whole->Array_0@ => whole->Array_0@[i as int]));
                    }
                    out.push(items[i].to_value());
                    i = i + 1;
                }
                proof {
                    lemma_array_tree(*items);
                    assert(Seq::new(out@.len(), |i: int| value_tree(out@[i])) =~= ordered_items(
                        trees(items@),
                    ));
                }
                make_value(JsonNode::Array(out))
            },
            Json::Object(entries) => {
                let mut out: Vec<(String, serde_json::Value)> = Vec::new();
                let mut i: usize = 0;
                while i < entries.len()
                    invariant
                        i <= entries@.len(),
                        out@.len() == i,
                        *self == Json::Object(*entries),
                        forall|k: int|
                            0 <= k < i ==> (#[trigger] out@[k]).0@ == entries@[k].0@ && value_tree(
                                out@[k].1,
                            ) == ordered(entries@[k].1@),
                    decreases entries@.len() - i,
                {
                    proof {
                        let whole = *self;
                        assert(decreases_to!(whole => whole->Object_0));
                        assert(decreases_to!(whole->Object_0 => whole->Object_0@));
                        assert(decreases_to!(whole->Object_0@ => whole->Object_0@[i as int]));
                        let entry = whole->Object_0@[i as int];
                        assert(decreases_to!(entry => entry.1));
                    }
                    out.push((entries[i].0.clone(), entries[i].1.to_value()));
                    i = i + 1;
                }
                proof {
                    lemma_object_tree(*entries);
                    assert(Seq::new(out@.len(), |i: int| (out@[i].0@, value_tree(out@[i].1)))
                        =~= ordered_entries(entry_trees(entries@)));
                }
                make_value(JsonNode::Object(out))
            },
        }
    }

    /// Writes this value as text, without spaces.
    pub fn to_text(&self) -> (r: String)
        ensures
            r@ == json_text(self@),
    {
        value_text(&self.to_value())
    }
}

} // verus!
