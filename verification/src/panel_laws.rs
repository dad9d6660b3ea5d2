//! What the panel does with push keys, sessions and forms, in terms of what was
//! there before and what is there after.

use crate::config::{
    key_for_temp, push_key_of, push_keys_of, AppConfig, ConfigView, KeyView, PushKey,
};
use crate::json::{json_text, lookup, parsed_tree, JsonTree};
use crate::panel::{
    cookie_token, done_tree, failure_of, form_of, given, guarded, is_json_form, key_added,
    key_deleted, key_noted, keys_tree, new_key, only, refusal, saved_tree, scalars,
    session_cookie_of, told, user_of, with_entry, with_note, without_key, PanelStep,
};
use crate::push_api::take_entries;
use crate::reply::{
    html_reply_of, json_reply_of, redirect_of, text_reply_of, with_header_of, Reply, ReplyView,
};
use crate::text::{after_prefix, hex_text, lowered, split, trimmed};
use crate::third::{take_pairs, text_param};
use vstd::prelude::*;
use vstd::utf8::{decode_utf8, encode_utf8, valid_utf8};

verus! {

broadcast use vstd::string::group_string_axioms;

// ---- stored keys ----

/// A stored key is a text, an object or a short list; what is missing of its
/// three texts is empty, and what has anything else in their place is none.
pub proof fn law_stored_keys(t: JsonTree, k: Seq<char>, temp: Seq<char>, note: Seq<char>)
    ensures
        push_key_of(JsonTree::Text(k)) == Some(
            KeyView { key: k, temp_key: Seq::empty(), note: Seq::empty() },
        ),
        t is Object && t.field("key"@) == Some(JsonTree::Text(k)) && t.field("temp_key"@) == Some(
            JsonTree::Text(temp),
        ) && t.field("note"@) == Some(JsonTree::Text(note)) ==> push_key_of(t) == Some(
            KeyView { key: k, temp_key: temp, note },
        ),
        t is Object && t.field("key"@) == Some(JsonTree::Text(k)) && t.field("temp_key"@) is None
            && t.field("note"@) is None ==> push_key_of(t) == Some(
            KeyView { key: k, temp_key: Seq::empty(), note: Seq::empty() },
        ),
        t is Object && (t.field("key"@) is Some && !(t.field("key"@)->Some_0 is Text) || t.field(
            "temp_key"@,
        ) is Some && !(t.field("temp_key"@)->Some_0 is Text) || t.field("note"@) is Some && !(
        t.field("note"@)->Some_0 is Text)) ==> push_key_of(t) is None,
        push_key_of(JsonTree::Array(seq![JsonTree::Text(k)])) == Some(
            KeyView { key: k, temp_key: Seq::empty(), note: Seq::empty() },
        ),
        push_key_of(JsonTree::Array(seq![JsonTree::Text(k), JsonTree::Text(temp)])) == Some(
            KeyView { key: k, temp_key: temp, note: Seq::empty() },
        ),
        push_key_of(
            JsonTree::Array(seq![JsonTree::Text(k), JsonTree::Text(temp), JsonTree::Text(note)]),
        ) == Some(KeyView { key: k, temp_key: temp, note }),
        t is Array && t->Array_0.len() > 3 ==> push_key_of(t) is None,
        t is Null || t is Bool || t is Number ==> push_key_of(t) is None,
{
    let a = seq![JsonTree::Text(k)];
    assert(a.len() == 1 && a[0] == JsonTree::Text(k));
    let b = seq![JsonTree::Text(k), JsonTree::Text(temp)];
    assert(b.len() == 2 && b[0] == JsonTree::Text(k) && b[1] == JsonTree::Text(temp));
    let c = seq![JsonTree::Text(k), JsonTree::Text(temp), JsonTree::Text(note)];
    assert(c.len() == 3 && c[0] == JsonTree::Text(k) && c[1] == JsonTree::Text(temp) && c[2]
        == JsonTree::Text(note));
}

/// The keys of a stored list are those of its values in order, without those
/// that are empty.
pub proof fn law_keys_keep_their_order(x: Seq<JsonTree>, y: Seq<JsonTree>, t: JsonTree)
    ensures
        push_keys_of(x + y) == push_keys_of(x) + push_keys_of(y),
        push_keys_of(Seq::empty()) == Seq::<KeyView>::empty(),
        push_keys_of(seq![t]) == if push_key_of(t) is Some && push_key_of(t)->Some_0.key.len() > 0 {
            seq![push_key_of(t)->Some_0]
        } else {
            Seq::<KeyView>::empty()
        },
    decreases y.len(),
{
    reveal_with_fuel(push_keys_of, 2);
    assert(seq![t].drop_last() =~= Seq::<JsonTree>::empty());
    if y.len() == 0 {
        assert(x + y =~= x);
        assert(push_keys_of(x) + push_keys_of(y) =~= push_keys_of(x));
    } else {
        assert((x + y).drop_last() =~= x + y.drop_last());
        law_keys_keep_their_order(x, y.drop_last(), t);
        assert(push_keys_of(x + y) =~= push_keys_of(x) + push_keys_of(y));
    }
}

/// A key is configured where a stored value has it and it is not empty.
pub proof fn law_configured_keys_are_stored(cfg: ConfigView, k: Seq<char>)
    ensures
        cfg.key_set().contains(k) <==> k.len() > 0 && exists|i: int|
            0 <= i < cfg.push_keys.len() && (#[trigger] push_key_of(cfg.push_keys[i])) is Some
                && push_key_of(cfg.push_keys[i])->Some_0.key == k,
{
    lemma_key_stored(cfg.push_keys, k);
}

/// Whether a stored list has a key.
pub open spec fn stores(list: Seq<JsonTree>, k: Seq<char>) -> bool {
    exists|i: int|
        0 <= i < list.len() && (#[trigger] push_key_of(list[i])) is Some && push_key_of(
            list[i],
        )->Some_0.key == k
}

proof fn lemma_key_stored(list: Seq<JsonTree>, k: Seq<char>)
    ensures
        crate::config::keys_in(push_keys_of(list)).contains(k) <==> k.len() > 0 && stores(list, k),
    decreases list.len(),
{
    if list.len() > 0 {
        let rest = list.drop_last();
        lemma_key_stored(rest, k);
        let before = push_keys_of(rest);
        let after = push_keys_of(list);
        let last = push_key_of(list.last());
        if stores(rest, k) {
            let i = choose|i: int|
                0 <= i < rest.len() && (#[trigger] push_key_of(rest[i])) is Some && push_key_of(
                    rest[i],
                )->Some_0.key == k;
            assert(list[i] == rest[i]);
            assert(push_key_of(list[i]) is Some);
        }
        if last is Some && last->Some_0.key == k {
            assert(push_key_of(list[list.len() - 1]) is Some);
            assert(stores(list, k));
        }
        if stores(list, k) {
            let i = choose|i: int|
                0 <= i < list.len() && (#[trigger] push_key_of(list[i])) is Some && push_key_of(
                    list[i],
                )->Some_0.key == k;
            if i < rest.len() {
                assert(rest[i] == list[i]);
                assert(push_key_of(rest[i]) is Some);
                assert(stores(rest, k));
            }
        }
        if crate::config::keys_in(before).contains(k) {
            let j = choose|j: int| 0 <= j < before.len() && (#[trigger] before[j]).key == k;
            assert(after[j] == before[j]);
            assert(crate::config::keys_in(after).contains(k));
        }
        if k.len() > 0 && last is Some && last->Some_0.key == k {
            assert(after[before.len() as int].key == k);
            assert(crate::config::keys_in(after).contains(k));
        }
        if crate::config::keys_in(after).contains(k) {
            let j = choose|j: int| 0 <= j < after.len() && (#[trigger] after[j]).key == k;
            if j < before.len() {
                assert(before[j] == after[j]);
                assert(crate::config::keys_in(before).contains(k));
            } else {
                assert(after[j] == last->Some_0);
            }
        }
    }
}

/// A temporary key stands for the key of the first stored key that has it; an
/// empty one stands for none.
pub proof fn law_temporary_key_stands_for_the_first(cfg: ConfigView, temp: Seq<char>, i: int)
    requires
        0 <= i < cfg.keys().len(),
        cfg.keys()[i].temp_key == temp,
        forall|j: int| 0 <= j < i ==> (#[trigger] cfg.keys()[j]).temp_key != temp,
    ensures
        temp.len() > 0 ==> cfg.find_by_temp_key(temp) == Some(cfg.keys()[i].key),
        cfg.find_by_temp_key(Seq::empty()) is None,
{
    lemma_first_temp(cfg.keys(), temp, i);
}

proof fn lemma_first_temp(list: Seq<KeyView>, temp: Seq<char>, i: int)
    requires
        0 <= i < list.len(),
        list[i].temp_key == temp,
        forall|j: int| 0 <= j < i ==> (#[trigger] list[j]).temp_key != temp,
    ensures
        key_for_temp(list, temp) == Some(list[i].key),
    decreases i,
{
    if i > 0 {
        assert(list[0].temp_key != temp);
        let rest = list.skip(1);
        assert forall|j: int| 0 <= j < i - 1 implies (#[trigger] rest[j]).temp_key != temp by {
            assert(rest[j] == list[j + 1]);
        }
        lemma_first_temp(rest, temp, i - 1);
    }
}

// ---- deleting a key ----

/// Deleting a key keeps every other stored value, in the same order, and takes
/// away those that are named so.
pub proof fn law_deleting_keeps_other_values(list: Seq<JsonTree>, key: Seq<char>)
    ensures
        without_key(list, key) == list.filter(
            |v: JsonTree|
                !(v == JsonTree::Text(key) || v.field("key"@) == Some(JsonTree::Text(key))),
        ),
    decreases list.len(),
{
    let other = |v: JsonTree|
        !(v == JsonTree::Text(key) || v.field("key"@) == Some(JsonTree::Text(key)));
    reveal(Seq::filter);
    if list.len() > 0 {
        law_deleting_keeps_other_values(list.drop_last(), key);
        assert(other(list.last()) == !(list.last() == JsonTree::Text(key) || list.last().field(
            "key"@,
        ) == Some(JsonTree::Text(key))));
        assert(without_key(list.drop_last(), key) == list.drop_last().filter(other));
    } else {
        assert(list.filter(other) =~= list);
    }
}

/// Deleting from two lists deletes from each; a value stays just where it is
/// neither the key itself nor an object that has it as its key.
pub proof fn law_deleting_goes_value_by_value(
    x: Seq<JsonTree>,
    y: Seq<JsonTree>,
    v: JsonTree,
    key: Seq<char>,
)
    ensures
        without_key(x + y, key) == without_key(x, key) + without_key(y, key),
        v != JsonTree::Text(key) && v.field("key"@) != Some(JsonTree::Text(key)) ==> without_key(
            seq![v],
            key,
        ) == seq![v],
        v == JsonTree::Text(key) || v.field("key"@) == Some(JsonTree::Text(key)) ==> without_key(
            seq![v],
            key,
        ) == Seq::<JsonTree>::empty(),
        x.contains(v) && v != JsonTree::Text(key) && v.field("key"@) != Some(JsonTree::Text(key))
            ==> without_key(x, key).contains(v),
        without_key(x, key).contains(v) ==> x.contains(v) && v != JsonTree::Text(key) && v.field(
            "key"@,
        ) != Some(JsonTree::Text(key)),
    decreases y.len(),
{
    reveal_with_fuel(without_key, 2);
    assert(seq![v].drop_last() =~= Seq::<JsonTree>::empty());
    assert(without_key(seq![v], key) =~= if v == JsonTree::Text(key) || v.field("key"@) == Some(
        JsonTree::Text(key),
    ) {
        Seq::<JsonTree>::empty()
    } else {
        seq![v]
    });
    lemma_kept(x, v, key);
    if y.len() == 0 {
        assert(x + y =~= x);
        assert(without_key(x, key) + without_key(y, key) =~= without_key(x, key));
    } else {
        assert((x + y).drop_last() =~= x + y.drop_last());
        law_deleting_goes_value_by_value(x, y.drop_last(), v, key);
        assert(without_key(x + y, key) =~= without_key(x, key) + without_key(y, key));
    }
}

proof fn lemma_kept(list: Seq<JsonTree>, v: JsonTree, key: Seq<char>)
    ensures
        without_key(list, key).contains(v) <==> list.contains(v) && v != JsonTree::Text(key)
            && v.field("key"@) != Some(JsonTree::Text(key)),
    decreases list.len(),
{
    if list.len() > 0 {
        let rest = list.drop_last();
        let kept = without_key(rest, key);
        let after = without_key(list, key);
        lemma_kept(rest, v, key);
        if rest.contains(v) {
            assert(list[rest.index_of(v)] == v);
        }
        if list.last() == v {
            assert(list[list.len() - 1] == v);
        }
        if list.contains(v) && list.last() != v {
            let i = list.index_of(v);
            assert(rest[i] == v);
        }
        if kept.contains(v) {
            assert(after[kept.index_of(v)] == v);
        }
        if after.len() > kept.len() && list.last() == v {
            assert(after[kept.len() as int] == v);
        }
        if after.contains(v) {
            let i = after.index_of(v);
            if i < kept.len() {
                assert(kept[i] == v);
            }
        }
    }
}

proof fn lemma_other_keys_stored(list: Seq<JsonTree>, key: Seq<char>, other: Seq<char>)
    requires
        other != key,
    ensures
        stores(without_key(list, key), other) <==> stores(list, other),
{
    let after = without_key(list, key);
    if stores(list, other) {
        let i = choose|i: int|
            0 <= i < list.len() && (#[trigger] push_key_of(list[i])) is Some && push_key_of(
                list[i],
            )->Some_0.key == other;
        let v = list[i];
        lemma_kept(list, v, key);
        assert(list.contains(v));
        let j = after.index_of(v);
        assert(after[j] == v);
        assert(push_key_of(after[j]) is Some);
    }
    if stores(after, other) {
        let i = choose|i: int|
            0 <= i < after.len() && (#[trigger] push_key_of(after[i])) is Some && push_key_of(
                after[i],
            )->Some_0.key == other;
        let v = after[i];
        assert(after.contains(v));
        lemma_kept(list, v, key);
        let j = list.index_of(v);
        assert(list[j] == v);
        assert(push_key_of(list[j]) is Some);
    }
}

/// Deleting a key changes nothing but the stored keys: every other key is
/// configured after it where it was before.
pub proof fn law_deleting_keeps_other_keys(cfg: ConfigView, key: Seq<char>, other: Seq<char>)
    requires
        key.len() > 0,
        other != key,
    ensures
        key_deleted(cfg, key).cfg.key_set().contains(other) <==> cfg.key_set().contains(other),
        key_deleted(cfg, key).cfg == (ConfigView {
            push_keys: key_deleted(cfg, key).cfg.push_keys,
            ..cfg
        }),
        key_deleted(cfg, key).cfg.push_keys == cfg.push_keys.filter(
            |v: JsonTree|
                !(v == JsonTree::Text(key) || v.field("key"@) == Some(JsonTree::Text(key))),
        ),
        key_deleted(cfg, key).save,
        key_deleted(cfg, key).reply == json_reply_of(
            200,
            JsonTree::Object(seq![("ok"@, JsonTree::Bool(true))]),
        ),
{
    law_deleting_keeps_other_values(cfg.push_keys, key);
    lemma_other_keys_stored(cfg.push_keys, key, other);
    lemma_key_stored(cfg.push_keys, other);
    lemma_key_stored(without_key(cfg.push_keys, key), other);
}

/// Deleting no key is refused, and changes nothing.
pub proof fn law_deleting_nothing_is_refused(cfg: ConfigView)
    ensures
        key_deleted(cfg, Seq::empty()) == (PanelStep {
            reply: json_reply_of(
                400,
                JsonTree::Object(
                    seq![("message"@, JsonTree::Text("缺少 key"@)), ("ok"@, JsonTree::Bool(false))],
                ),
            ),
            save: false,
            cfg,
        }),
{
}

// ---- adding a key and its note ----

/// A new key is stored after the others, and nothing else changes; the answer
/// tells it.
pub proof fn law_new_key_stands_after_the_others(cfg: ConfigView, k: KeyView)
    ensures
        key_added(cfg, k).cfg.push_keys.drop_last() == cfg.push_keys,
        key_added(cfg, k).cfg.push_keys.len() == cfg.push_keys.len() + 1,
        key_added(cfg, k).cfg.push_keys.last() == JsonTree::Object(
            seq![
                ("key"@, JsonTree::Text(k.key)),
                ("note"@, JsonTree::Text(k.note)),
                ("temp_key"@, JsonTree::Text(k.temp_key)),
            ],
        ),
        k.key.len() > 0 ==> key_added(cfg, k).cfg.keys() == cfg.keys().push(k),
        key_added(cfg, k).cfg == (ConfigView { push_keys: key_added(cfg, k).cfg.push_keys, ..cfg }),
        key_added(cfg, k).save,
        key_added(cfg, k).reply == json_reply_of(
            200,
            JsonTree::Object(
                seq![
                    ("key"@, JsonTree::Text(k.key)),
                    ("ok"@, JsonTree::Bool(true)),
                    ("temp_key"@, JsonTree::Text(k.temp_key)),
                ],
            ),
        ),
{
    let after = key_added(cfg, k).cfg.push_keys;
    let entries = seq![
        ("key"@, JsonTree::Text(k.key)),
        ("note"@, JsonTree::Text(k.note)),
        ("temp_key"@, JsonTree::Text(k.temp_key)),
    ];
    assert(after.drop_last() =~= cfg.push_keys);
    reveal_strlit("key");
    reveal_strlit("note");
    reveal_strlit("temp_key");
    assert("key"@.len() == 3 && "note"@.len() == 4 && "temp_key"@.len() == 8);
    reveal_with_fuel(lookup, 4);
    assert(lookup(entries, "key"@) == Some(JsonTree::Text(k.key)));
    assert(lookup(entries, "note"@) == Some(JsonTree::Text(k.note)));
    assert(lookup(entries, "temp_key"@) == Some(JsonTree::Text(k.temp_key)));
}

/// A new key is a name and chance in hexadecimal, its temporary key chance in
/// hexadecimal, and its note the one that is given.
pub proof fn law_new_key_is_chance(chance: Seq<u8>, temp_chance: Seq<u8>, note: Seq<char>)
    ensures
        new_key(chance, temp_chance, note).key == "PUSHME-"@ + hex_text(chance),
        new_key(chance, temp_chance, note).temp_key == hex_text(temp_chance),
        new_key(chance, temp_chance, note).note == note,
{
}

/// Putting an entry into an object gives it that value and leaves the others.
pub proof fn law_entry_is_put(
    entries: Seq<(Seq<char>, JsonTree)>,
    name: Seq<char>,
    value: JsonTree,
    other: Seq<char>,
)
    ensures
        lookup(with_entry(entries, name, value), name) == Some(value),
        other != name ==> lookup(with_entry(entries, name, value), other) == lookup(entries, other),
    decreases entries.len(),
{
    reveal_with_fuel(lookup, 2);
    let after = with_entry(entries, name, value);
    if entries.len() == 0 {
        assert(after =~= seq![(name, value)]);
        assert(after.skip(1) =~= entries);
    } else if entries[0].0 == name {
        assert(after.skip(1) =~= entries.skip(1));
    } else {
        law_entry_is_put(entries.skip(1), name, value, other);
        assert(after.skip(1) =~= with_entry(entries.skip(1), name, value));
    }
}

/// Noting a key gives the objects of that key the note, and leaves their other
/// fields, every other stored value and everything else as they were.
pub proof fn law_note_changes_the_note_alone(
    cfg: ConfigView,
    key: Seq<char>,
    note: Seq<char>,
    i: int,
    name: Seq<char>,
)
    requires
        0 <= i < cfg.push_keys.len(),
    ensures
        ({
            let before = cfg.push_keys[i];
            let step = key_noted(cfg, key, note);
            let after = step.cfg.push_keys[i];
            &&& step.cfg.push_keys.len() == cfg.push_keys.len()
            &&& before.field("key"@) == Some(JsonTree::Text(key)) ==> after.field("note"@) == Some(
                JsonTree::Text(note),
            ) && (name != "note"@ ==> after.field(name) == before.field(name))
            &&& before.field("key"@) != Some(JsonTree::Text(key)) ==> after == before
            &&& step.cfg == (ConfigView { push_keys: step.cfg.push_keys, ..cfg })
            &&& step.save
            &&& step.reply == json_reply_of(
                200,
                JsonTree::Object(seq![("ok"@, JsonTree::Bool(true))]),
            )
        }),
{
    let before = cfg.push_keys[i];
    if before is Object {
        law_entry_is_put(before->Object_0, "note"@, JsonTree::Text(note), name);
        law_entry_is_put(before->Object_0, "note"@, JsonTree::Text(note), "note"@);
    }
    assert(key_noted(cfg, key, note).cfg.push_keys[i] == with_note(before, key, note));
}

/// The list of keys tells each of them, in order.
pub proof fn law_keys_are_listed(keys: Seq<KeyView>, i: int)
    requires
        0 <= i < keys.len(),
    ensures
        keys_tree(keys) is Object,
        keys_tree(keys)->Object_0.len() == 2,
        keys_tree(keys)->Object_0[0].0 == "keys"@,
        keys_tree(keys)->Object_0[0].1 is Array,
        keys_tree(keys)->Object_0[0].1->Array_0.len() == keys.len(),
        keys_tree(keys)->Object_0[0].1->Array_0[i] == JsonTree::Object(
            seq![
                ("key"@, JsonTree::Text(keys[i].key)),
                ("note"@, JsonTree::Text(keys[i].note)),
                ("temp_key"@, JsonTree::Text(keys[i].temp_key)),
            ],
        ),
        keys_tree(keys)->Object_0[1] == ("ok"@, JsonTree::Bool(true)),
{
}

// ---- sessions ----

/// The session is the value of the first cookie named `pushme_session`, with
/// white space around the cookie or not.
pub proof fn law_first_session_cookie_counts(x: Seq<Seq<char>>, y: Seq<Seq<char>>, c: Seq<char>)
    ensures
        cookie_token(x + y) == if cookie_token(x) is Some {
            cookie_token(x)
        } else {
            cookie_token(y)
        },
        cookie_token(seq![c]) == after_prefix(trimmed(c), "pushme_session="@),
        cookie_token(Seq::empty()) is None,
    decreases x.len(),
{
    reveal_strlit("pushme_session");
    reveal_strlit("=");
    reveal_strlit("pushme_session=");
    assert(crate::auth::SESSION_COOKIE@ + "="@ =~= "pushme_session="@);
    reveal_with_fuel(cookie_token, 2);
    assert(seq![c].skip(1) =~= Seq::<Seq<char>>::empty());
    if x.len() == 0 {
        assert(x + y =~= y);
    } else {
        assert((x + y).skip(1) =~= x.skip(1) + y);
        assert((x + y)[0] == x[0]);
        law_first_session_cookie_counts(x.skip(1), y, c);
    }
}

/// Cookies are parted by semicolons, and a request without them has no session.
pub proof fn law_session_comes_from_the_cookies(
    key: Seq<u8>,
    cookies: Seq<char>,
    token: Seq<char>,
    now: nat,
)
    ensures
        cookie_token(split(cookies, ';')) == Some(token) ==> user_of(key, Some(cookies), now)
            == crate::auth::token_user(key, token, now),
        cookie_token(split(cookies, ';')) is None ==> user_of(key, Some(cookies), now) is None,
        user_of(key, None, now) is None,
{
}

/// The cookie of a session: it holds the token, lasts a week, is kept from
/// scripts, and from plain connections where the panel has TLS.
pub proof fn law_session_cookie(token: Seq<char>, panel_tls: Seq<char>)
    ensures
        session_cookie_of(token, panel_tls) == "pushme_session="@ + token
            + "; Path=/; HttpOnly; SameSite=Lax; Max-Age=604800"@ + (if panel_tls == "tls"@ {
            "; Secure"@
        } else {
            ""@
        }),
{
    reveal_strlit("pushme_session");
    reveal_strlit("=");
    reveal_strlit("pushme_session=");
    assert(crate::auth::SESSION_COOKIE@ + "="@ =~= "pushme_session="@);
}

/// What needs a session is done for a user, and refused to anyone else with
/// nothing changed.
pub proof fn law_sessions_guard_the_panel(user: Option<Seq<char>>, cfg: ConfigView, step: PanelStep)
    ensures
        user is Some ==> guarded(user, cfg, step) == step,
        user is None ==> guarded(user, cfg, step) == (PanelStep {
            reply: json_reply_of(
                401,
                JsonTree::Object(
                    seq![("message"@, JsonTree::Text("未登录"@)), ("ok"@, JsonTree::Bool(false))],
                ),
            ),
            save: false,
            cfg,
        }),
        user is None ==> guarded(user, cfg, step).reply == refusal(),
{
}

// ---- forms ----

/// A field that is given is its text, and one that is not is empty.
pub proof fn law_missing_fields_are_empty(params: Map<Seq<char>, JsonTree>, name: Seq<char>, s: Seq<char>)
    ensures
        text_param(params, name) == Some(s) ==> given(params, name) == s,
        text_param(params, name) is None ==> given(params, name) == Seq::<char>::empty(),
{
}

/// A form in JSON gives its texts, numbers and booleans as texts and nothing
/// else; any other form gives its pairs.
pub proof fn law_forms_are_read(
    content_type: Seq<char>,
    body: Seq<u8>,
    entries: Seq<(Seq<char>, JsonTree)>,
)
    ensures
        lowered(content_type) == "application/json"@ ==> is_json_form(content_type),
        content_type.len() < 4 ==> !is_json_form(content_type),
        is_json_form(content_type) && parsed_tree(body) == Some(JsonTree::Object(entries))
            ==> form_of(content_type, body) == take_entries(Map::empty(), scalars(entries)),
        !is_json_form(content_type) && valid_utf8(body) ==> form_of(content_type, body)
            == take_pairs(Map::empty(), split(decode_utf8(body), '&')),
        is_json_form(content_type) && !(parsed_tree(body) is Some && parsed_tree(
            body,
        )->Some_0 is Object) ==> form_of(content_type, body) == Map::<
            Seq<char>,
            JsonTree,
        >::empty(),
        !is_json_form(content_type) && !valid_utf8(body) ==> form_of(content_type, body) == Map::<
            Seq<char>,
            JsonTree,
        >::empty(),
{
    reveal_strlit("application/json");
    reveal_strlit("json");
    let low = lowered(content_type);
    if low == "application/json"@ {
        assert(low.subrange(12, 16) =~= "json"@);
        assert(crate::text::stands_at(low, "json"@, 12));
    }
}

/// The scalars of an object's entries, in order, each as a text.
pub proof fn law_scalars_keep_their_order(
    x: Seq<(Seq<char>, JsonTree)>,
    y: Seq<(Seq<char>, JsonTree)>,
    name: Seq<char>,
    t: JsonTree,
)
    ensures
        scalars(x + y) == scalars(x) + scalars(y),
        scalars(seq![(name, t)]) == match t {
            JsonTree::Text(s) => seq![(name, JsonTree::Text(s))],
            JsonTree::Number(n) => seq![(name, JsonTree::Text(n))],
            JsonTree::Bool(b) => seq![
                (
                    name,
                    JsonTree::Text(
                        if b {
                            "true"@
                        } else {
                            "false"@
                        },
                    ),
                ),
            ],
            _ => Seq::<(Seq<char>, JsonTree)>::empty(),
        },
    decreases y.len(),
{
    reveal_with_fuel(scalars, 2);
    assert(seq![(name, t)].drop_last() =~= Seq::<(Seq<char>, JsonTree)>::empty());
    if y.len() == 0 {
        assert(x + y =~= x);
        assert(scalars(x) + scalars(y) =~= scalars(x));
    } else {
        assert((x + y).drop_last() =~= x + y.drop_last());
        law_scalars_keep_their_order(x, y.drop_last(), name, t);
        assert(scalars(x + y) =~= scalars(x) + scalars(y));
    }
}

// ---- replies ----

/// What a reply holds: its status, the type of its body, and its body.
pub proof fn law_replies(
    status: u16,
    text: Seq<char>,
    tree: JsonTree,
    location: Seq<char>,
    cookie: Seq<char>,
    r: ReplyView,
    name: Seq<char>,
)
    ensures
        text_reply_of(status, text) == (ReplyView {
            status,
            headers: seq![("content-type"@, "text/plain; charset=utf-8"@)],
            body: encode_utf8(text),
        }),
        html_reply_of(text) == (ReplyView {
            status: 200,
            headers: seq![("content-type"@, "text/html; charset=utf-8"@)],
            body: encode_utf8(text),
        }),
        json_reply_of(status, tree) == (ReplyView {
            status,
            headers: seq![("content-type"@, "application/json"@)],
            body: encode_utf8(json_text(tree)),
        }),
        redirect_of(location, None) == (ReplyView {
            status: 303,
            headers: seq![("location"@, location)],
            body: Seq::empty(),
        }),
        redirect_of(location, Some(cookie)) == (ReplyView {
            status: 303,
            headers: seq![("location"@, location), ("set-cookie"@, cookie)],
            body: Seq::empty(),
        }),
        with_header_of(r, name, text) == (ReplyView {
            status: r.status,
            headers: r.headers + seq![(name, text)],
            body: r.body,
        }),
{
    assert(redirect_of(location, Some(cookie)).headers =~= seq![
        ("location"@, location),
        ("set-cookie"@, cookie),
    ]);
    assert(with_header_of(r, name, text).headers =~= r.headers + seq![(name, text)]);
}

/// What the panel says of an outcome.
pub proof fn law_outcomes_are_told(status: u16, ok: bool, message: Seq<char>, cfg: ConfigView)
    ensures
        told(ok, message) == JsonTree::Object(
            seq![("message"@, JsonTree::Text(message)), ("ok"@, JsonTree::Bool(ok))],
        ),
        failure_of(status, message) == json_reply_of(
            status,
            JsonTree::Object(
                seq![("message"@, JsonTree::Text(message)), ("ok"@, JsonTree::Bool(false))],
            ),
        ),
        done_tree() == JsonTree::Object(seq![("ok"@, JsonTree::Bool(true))]),
        saved_tree(message, ok) == JsonTree::Object(
            seq![
                ("message"@, JsonTree::Text(message)),
                ("ok"@, JsonTree::Bool(true)),
                ("restart"@, JsonTree::Bool(ok)),
            ],
        ),
        only(failure_of(status, message), cfg).cfg == cfg,
        !only(failure_of(status, message), cfg).save,
        only(failure_of(status, message), cfg).reply == failure_of(status, message),
{
}

// ---- what is seen from outside ----

/// A reply is seen as it is.
pub proof fn law_replies_are_seen_as_they_are(r: Reply)
    ensures
        r@.status == r.status,
        r@.body == r.body@,
        r@.headers.len() == r.headers@.len(),
        forall|i: int|
            0 <= i < r.headers@.len() ==> (#[trigger] r@.headers[i]) == (
                r.headers@[i].0@,
                r.headers@[i].1@,
            ),
{
}

/// A configuration is seen as it is, and so is a key.
pub proof fn law_configurations_are_seen_as_they_are(cfg: AppConfig, k: PushKey)
    ensures
        cfg@.config_version == cfg.config_version,
        cfg@.server_port == cfg.server_port,
        cfg@.panel_port == cfg.panel_port,
        cfg@.panel_bind == cfg.panel_bind@,
        cfg@.public_panel == cfg.public_panel,
        cfg@.push_keys.len() == cfg.push_keys@.len(),
        forall|i: int|
            0 <= i < cfg.push_keys@.len() ==> (#[trigger] cfg@.push_keys[i]) == cfg.push_keys@[i]@,
        cfg@.user == cfg.user@,
        cfg@.password == cfg.password@,
        cfg@.pass_hash == cfg.pass_hash@,
        cfg@.admin_user == cfg.admin_user@,
        cfg@.panel_allowed_ips.len() == cfg.panel_allowed_ips@.len(),
        forall|i: int|
            0 <= i < cfg.panel_allowed_ips@.len() ==> (#[trigger] cfg@.panel_allowed_ips[i])
                == cfg.panel_allowed_ips@[i]@,
        cfg@.tls == cfg.tls@,
        cfg@.panel_tls == cfg.panel_tls@,
        cfg@.status == cfg.status@,
        cfg@.message_count == cfg.message_count,
        cfg@.offline_messages == cfg.offline_messages,
        cfg@.offline_limit == cfg.offline_limit,
        cfg@.session_key == cfg.session_key@,
        k@.key == k.key@,
        k@.temp_key == k.temp_key@,
        k@.note == k.note@,
{
}

} // verus!
