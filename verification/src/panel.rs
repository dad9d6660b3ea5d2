//! The panel: requests from a browser, and what is answered.

use crate::auth::{token_user, Sessions, SESSION_COOKIE};
use crate::clock::{unix_seconds, unix_seconds_of};
use crate::config::{key_views, keys_in, push_key_of, push_keys_of, AppConfig, ConfigView, KeyView};
use crate::crypto::random_bytes;
use crate::json::{
    entry_trees, lemma_array_tree, lemma_object_tree, lookup, parse_json, parsed_tree, trees,
    Json, JsonTree,
};
use crate::panel_laws::law_deleting_keeps_other_keys;
use crate::push_api::{take_entries, take_object, text_or_none};
use crate::reply::{json_reply, json_reply_of, redirect, redirect_of, Reply, ReplyView};
use crate::text::{
    after_prefix, has_text, hex, hex_text, lower_text, lowered, contains_text, same_text, split,
    split_text, str_view, string_view, strip_prefix, texts, trim_text, trimmed, utf8_text,
};
use crate::third::{pairs_ok, take_pairs, text_param, try_parse_urlencoded, Params};
use std::time::SystemTime;
use vstd::prelude::*;
use vstd::string::*;
use vstd::utf8::*;

verus! {

broadcast use vstd::string::group_string_axioms;

// ---- forms ----

/// The entries of an object that are strings, numbers and booleans, as text.
pub open spec fn scalars(entries: Seq<(Seq<char>, JsonTree)>) -> Seq<(Seq<char>, JsonTree)>
    decreases entries.len(),
{
    if entries.len() == 0 {
        entries
    } else {
        let rest = scalars(entries.drop_last());
        match entries.last().1.scalar_text() {
            Some(s) => rest.push((entries.last().0, JsonTree::Text(s))),
            None => rest,
        }
    }
}

/// A body that is JSON by its content type.
pub open spec fn is_json_form(content_type: Seq<char>) -> bool {
    has_text(lowered(content_type), "json"@)
}

/// The parameters in the body of a request to the panel: JSON by its content
/// type, or else a form.
pub open spec fn form_of(content_type: Seq<char>, body: Seq<u8>) -> Map<Seq<char>, JsonTree> {
    if is_json_form(content_type) {
        match parsed_tree(body) {
            Some(JsonTree::Object(entries)) => take_entries(Map::empty(), scalars(entries)),
            _ => Map::empty(),
        }
    } else if valid_utf8(body) {
        take_pairs(Map::empty(), split(decode_utf8(body), '&'))
    } else {
        Map::empty()
    }
}

/// What has to be decoded of a form can be.
pub open spec fn form_ok(content_type: Seq<char>, body: Seq<u8>) -> bool {
    !is_json_form(content_type) && valid_utf8(body) ==> pairs_ok(
        Map::empty(),
        split(decode_utf8(body), '&'),
    )
}

fn keep_scalars(entries: &Vec<(String, Json)>) -> (r: Vec<(String, Json)>)
    ensures
        entry_trees(r@) == scalars(entry_trees(entries@)),
{
    let ghost all = entry_trees(entries@);
    let mut out: Vec<(String, Json)> = Vec::new();
    let mut i: usize = 0;
    assert(all.take(0) =~= Seq::<(Seq<char>, JsonTree)>::empty());
    assert(entry_trees(out@) =~= Seq::<(Seq<char>, JsonTree)>::empty());
    while i < entries.len()
        invariant
            all == entry_trees(entries@),
            i <= entries@.len(),
            entry_trees(out@) == scalars(all.take(i as int)),
        decreases entries@.len() - i,
    {
        assert(all.take(i + 1).drop_last() =~= all.take(i as int));
        match entries[i].1.scalar_text() {
            Some(s) => {
                let ghost before = entry_trees(out@);
                let ghost t = s@;
                out.push((entries[i].0.clone(), Json::Text(s)));
                assert(entry_trees(out@) =~= before.push((all[i as int].0, JsonTree::Text(t))));
            },
            None => {},
        }
        i = i + 1;
    }
    assert(all.take(i as int) =~= all);
    out
}

/// Reads the parameters in the body of a request. There are none to be had
/// where an escape in a form cuts a character in two.
pub fn form_params(content_type: &str, body: &[u8]) -> (r: Option<Params>)
    ensures
        r is Some <==> form_ok(content_type@, body@),
        r matches Some(p) ==> p@ == form_of(content_type@, body@) && p.wf(),
{
    let mut params = Params::new();
    let kind = lower_text(content_type);
    if contains_text(kind.as_str(), "json") {
        match parse_json(body) {
            Some(Json::Object(entries)) => {
                proof {
                    lemma_object_tree(entries);
                }
                let kept = keep_scalars(&entries);
                take_object(&mut params, &kept);
            },
            _ => {},
        }
    } else {
        match utf8_text(body) {
            Some(form) => {
                if !try_parse_urlencoded(form.as_str(), &mut params) {
                    return None;
                }
            },
            None => {},
        }
    }
    Some(params)
}

/// A parameter as text, empty where it is missing.
pub open spec fn given(params: Map<Seq<char>, JsonTree>, name: Seq<char>) -> Seq<char> {
    text_or_none(text_param(params, name))
}

pub(crate) fn get(params: &Params, name: &str) -> (r: String)
    ensures
        r@ == given(params@, name@),
{
    match params.get_str(name) {
        Some(s) => s,
        None => String::new(),
    }
}

// ---- sessions ----

/// The token in the first session cookie among cookies.
pub open spec fn cookie_token(cookies: Seq<Seq<char>>) -> Option<Seq<char>>
    decreases cookies.len(),
{
    if cookies.len() == 0 {
        None
    } else {
        match after_prefix(trimmed(cookies[0]), SESSION_COOKIE@ + "="@) {
            Some(token) => Some(token),
            None => cookie_token(cookies.skip(1)),
        }
    }
}

/// The user of a request at the given second, by its `Cookie` header.
pub open spec fn user_of(key: Seq<u8>, cookies: Option<Seq<char>>, now: nat) -> Option<Seq<char>> {
    match cookies {
        Some(text) => match cookie_token(split(text, ';')) {
            Some(token) => token_user(key, token, now),
            None => None,
        },
        None => None,
    }
}

fn find_token(cookies: &str) -> (r: Option<String>)
    ensures
        match r {
            Some(token) => cookie_token(split(cookies@, ';')) == Some(token@),
            None => cookie_token(split(cookies@, ';')) is None,
        },
{
    let mut prefix = SESSION_COOKIE.to_string();
    prefix.append("=");
    let parts = split_text(cookies, ';');
    let ghost all = split(cookies@, ';');
    let mut i: usize = 0;
    assert(all.skip(0) =~= all);
    while i < parts.len()
        invariant
            prefix@ == SESSION_COOKIE@ + "="@,
            texts(parts@) == all,
            all == split(cookies@, ';'),
            i <= parts@.len(),
            cookie_token(all) == cookie_token(all.skip(i as int)),
        decreases parts@.len() - i,
    {
        let part = trim_text(parts[i].as_str());
        assert(all.skip(i as int)[0] == parts@[i as int]@);
        assert(all.skip(i as int).skip(1) =~= all.skip(i + 1));
        match strip_prefix(part.as_str(), prefix.as_str()) {
            Some(token) => {
                return Some(token);
            },
            None => {},
        }
        i = i + 1;
    }
    None
}

/// The user of a request at the given second, by its `Cookie` header.
pub fn session_user_at(cookies: Option<&str>, sessions: &Sessions, now: u64) -> (r: Option<String>)
    ensures
        string_view(r) == user_of(sessions.secret(), str_view(cookies), now as nat),
{
    match cookies {
        Some(text) => match find_token(text) {
            Some(token) => sessions.verify_at(token.as_str(), now),
            None => None,
        },
        None => None,
    }
}

/// The user of a request, by its `Cookie` header.
pub fn session_user(cookies: Option<&str>, sessions: &Sessions) -> (r: Option<String>)
    ensures
        exists|t: SystemTime|
            string_view(r) == user_of(
                sessions.secret(),
                str_view(cookies),
                (#[trigger] unix_seconds_of(t)) as nat,
            ),
{
    session_user_at(cookies, sessions, unix_seconds())
}

/// The cookie that a session is kept in; it is for HTTPS alone where the panel
/// speaks that.
pub open spec fn session_cookie_of(token: Seq<char>, panel_tls: Seq<char>) -> Seq<char> {
    SESSION_COOKIE@ + "="@ + token + "; Path=/; HttpOnly; SameSite=Lax; Max-Age=604800"@ + (
    if panel_tls == "tls"@ {
        "; Secure"@
    } else {
        ""@
    })
}

/// The cookie that a session is kept in.
pub fn session_cookie(token: &str, cfg: &AppConfig) -> (r: String)
    ensures
        r@ == session_cookie_of(token@, cfg@.panel_tls),
{
    let mut out = SESSION_COOKIE.to_string();
    out.append("=");
    out.append(token);
    out.append("; Path=/; HttpOnly; SameSite=Lax; Max-Age=604800");
    if same_text(cfg.panel_tls.as_str(), "tls") {
        out.append("; Secure");
    } else {
        out.append("");
    }
    out
}

/// Answers a request to log out: the cookie is taken away.
pub fn logout() -> (r: Reply)
    ensures
        r@ == redirect_of("/"@, Some(SESSION_COOKIE@ + "=; Path=/; HttpOnly; Max-Age=0"@)),
{
    let mut cookie = SESSION_COOKIE.to_string();
    cookie.append("=; Path=/; HttpOnly; Max-Age=0");
    redirect("/", Some(cookie))
}

// ---- answers ----

/// A success or a failure with a message.
pub open spec fn told(ok: bool, message: Seq<char>) -> JsonTree {
    JsonTree::Object(seq![("message"@, JsonTree::Text(message)), ("ok"@, JsonTree::Bool(ok))])
}

/// A failure with a message, under the given status.
pub open spec fn failure_of(status: u16, message: Seq<char>) -> ReplyView {
    json_reply_of(status, told(false, message))
}

/// A success without a message.
pub open spec fn done_tree() -> JsonTree {
    JsonTree::Object(seq![("ok"@, JsonTree::Bool(true))])
}

/// A setting that was saved, and whether the service has to be restarted.
pub open spec fn saved_tree(message: Seq<char>, restart: bool) -> JsonTree {
    JsonTree::Object(
        seq![
            ("message"@, JsonTree::Text(message)),
            ("ok"@, JsonTree::Bool(true)),
            ("restart"@, JsonTree::Bool(restart)),
        ],
    )
}

pub(crate) fn object(entries: Vec<(String, Json)>) -> (r: Json)
    ensures
        r@ == JsonTree::Object(entry_trees(entries@)),
{
    proof {
        lemma_object_tree(entries);
    }
    Json::Object(entries)
}

pub(crate) fn tell(ok: bool, message: &str) -> (r: Json)
    ensures
        r@ == told(ok, message@),
{
    let mut entries: Vec<(String, Json)> = Vec::new();
    entries.push(("message".to_string(), Json::Text(message.to_string())));
    entries.push(("ok".to_string(), Json::Bool(ok)));
    assert(entry_trees(entries@) =~= told(ok, message@)->Object_0);
    object(entries)
}

pub(crate) fn failure(status: u16, message: &str) -> (r: Reply)
    ensures
        r@ == failure_of(status, message@),
{
    json_reply(status, &tell(false, message))
}

pub(crate) fn done() -> (r: Json)
    ensures
        r@ == done_tree(),
{
    let mut entries: Vec<(String, Json)> = Vec::new();
    entries.push(("ok".to_string(), Json::Bool(true)));
    assert(entry_trees(entries@) =~= done_tree()->Object_0);
    object(entries)
}

pub(crate) fn saved(message: &str, restart: bool) -> (r: Json)
    ensures
        r@ == saved_tree(message@, restart),
{
    let mut entries: Vec<(String, Json)> = Vec::new();
    entries.push(("message".to_string(), Json::Text(message.to_string())));
    entries.push(("ok".to_string(), Json::Bool(true)));
    entries.push(("restart".to_string(), Json::Bool(restart)));
    assert(entry_trees(entries@) =~= saved_tree(message@, restart)->Object_0);
    object(entries)
}

/// What a request to the panel comes to: an answer, and whether the changed
/// configuration is to be saved.
pub struct Handled {
    pub reply: Reply,
    pub save: bool,
}

/// What a request to the panel comes to, with the configuration after it.
#[verifier::ext_equal]
pub struct PanelStep {
    pub reply: ReplyView,
    pub save: bool,
    pub cfg: ConfigView,
}

/// An answer that changes nothing.
pub open spec fn only(reply: ReplyView, cfg: ConfigView) -> PanelStep {
    PanelStep { reply, save: false, cfg }
}

/// The answer to a request without a session.
pub open spec fn refusal() -> ReplyView {
    failure_of(401, "未登录"@)
}

/// A request that needs a session: without one it is refused, and nothing
/// changes.
pub open spec fn guarded(user: Option<Seq<char>>, cfg: ConfigView, step: PanelStep) -> PanelStep {
    if user is Some {
        step
    } else {
        only(refusal(), cfg)
    }
}

/// Refuses a request without a session.
pub fn require_login(user: &Option<String>) -> (r: Option<Reply>)
    ensures
        match r {
            Some(reply) => *user is None && reply@ == refusal(),
            None => *user is Some,
        },
{
    if user.is_some() {
        None
    } else {
        Some(failure(401, "未登录"))
    }
}

/// A request without a session is refused and changes nothing.
pub proof fn law_no_session_no_change(cfg: ConfigView, step: PanelStep)
    ensures
        guarded(None, cfg, step).reply == failure_of(401, "未登录"@),
        guarded(None, cfg, step).cfg == cfg,
        !guarded(None, cfg, step).save,
{
}

pub(crate) fn refused() -> (r: Handled)
    ensures
        r.reply@ == refusal(),
        !r.save,
{
    Handled { reply: failure(401, "未登录"), save: false }
}

// ---- push keys ----

/// A push key as an object.
pub open spec fn key_tree(k: KeyView) -> JsonTree {
    JsonTree::Object(
        seq![
            ("key"@, JsonTree::Text(k.key)),
            ("note"@, JsonTree::Text(k.note)),
            ("temp_key"@, JsonTree::Text(k.temp_key)),
        ],
    )
}

/// Push keys as objects.
pub open spec fn key_trees(keys: Seq<KeyView>) -> Seq<JsonTree> {
    Seq::new(keys.len(), |i: int| key_tree(keys[i]))
}

/// The list of push keys.
pub open spec fn keys_tree(keys: Seq<KeyView>) -> JsonTree {
    JsonTree::Object(
        seq![("keys"@, JsonTree::Array(key_trees(keys))), ("ok"@, JsonTree::Bool(true))],
    )
}

fn key_object(key: &str, temp_key: &str, note: &str) -> (r: Json)
    ensures
        r@ == key_tree(KeyView { key: key@, temp_key: temp_key@, note: note@ }),
{
    let mut entries: Vec<(String, Json)> = Vec::new();
    entries.push(("key".to_string(), Json::Text(key.to_string())));
    entries.push(("note".to_string(), Json::Text(note.to_string())));
    entries.push(("temp_key".to_string(), Json::Text(temp_key.to_string())));
    assert(entry_trees(entries@) =~= key_tree(
        KeyView { key: key@, temp_key: temp_key@, note: note@ },
    )->Object_0);
    object(entries)
}

/// Lists the push keys.
pub fn api_keys_list(user: &Option<String>, cfg: &AppConfig) -> (r: Reply)
    ensures
        r@ == if *user is Some {
            json_reply_of(200, keys_tree(cfg@.keys()))
        } else {
            refusal()
        },
{
    match require_login(user) {
        Some(reply) => {
            return reply;
        },
        None => {},
    }
    let keys = cfg.push_keys();
    let ghost all = cfg@.keys();
    let mut list: Vec<Json> = Vec::new();
    let mut i: usize = 0;
    while i < keys.len()
        invariant
            all == key_views(keys@),
            i <= keys@.len(),
            list@.len() == i,
            forall|k: int| 0 <= k < i ==> (#[trigger] list@[k])@ == key_tree(all[k]),
        decreases keys@.len() - i,
    {
        assert(all[i as int] == keys@[i as int]@);
        list.push(
            key_object(keys[i].key.as_str(), keys[i].temp_key.as_str(), keys[i].note.as_str()),
        );
        i = i + 1;
    }
    proof {
        lemma_array_tree(list);
        assert(trees(list@) =~= key_trees(all));
    }
    let mut entries: Vec<(String, Json)> = Vec::new();
    entries.push(("keys".to_string(), Json::Array(list)));
    entries.push(("ok".to_string(), Json::Bool(true)));
    assert(entry_trees(entries@) =~= keys_tree(all)->Object_0);
    json_reply(200, &object(entries))
}

/// A new push key, made of chance.
pub open spec fn new_key(chance: Seq<u8>, temp_chance: Seq<u8>, note: Seq<char>) -> KeyView {
    KeyView { key: "PUSHME-"@ + hex_text(chance), temp_key: hex_text(temp_chance), note }
}

/// A push key is added.
pub open spec fn key_added(cfg: ConfigView, k: KeyView) -> PanelStep {
    PanelStep {
        reply: json_reply_of(
            200,
            JsonTree::Object(
                seq![
                    ("key"@, JsonTree::Text(k.key)),
                    ("ok"@, JsonTree::Bool(true)),
                    ("temp_key"@, JsonTree::Text(k.temp_key)),
                ],
            ),
        ),
        save: true,
        cfg: ConfigView { push_keys: cfg.push_keys.push(key_tree(k)), ..cfg },
    }
}

/// Adds a push key made of the given bytes.
pub fn add_key(
    user: &Option<String>,
    params: &Params,
    cfg: &mut AppConfig,
    chance: &[u8],
    temp_chance: &[u8],
) -> (r: Handled)
    ensures
        (PanelStep { reply: r.reply@, save: r.save, cfg: final(cfg)@ }) == guarded(
            string_view(*user),
            old(cfg)@,
            key_added(old(cfg)@, new_key(chance@, temp_chance@, given(params@, "note"@))),
        ),
{
    if user.is_none() {
        return refused();
    }
    let note = get(params, "note");
    let mut key = "PUSHME-".to_string();
    key.append(hex(chance).as_str());
    let temp_key = hex(temp_chance);
    let entry = key_object(key.as_str(), temp_key.as_str(), note.as_str());
    let ghost k = new_key(chance@, temp_chance@, given(params@, "note"@));
    cfg.push_keys.push(entry);
    assert(trees(cfg.push_keys@) =~= old(cfg)@.push_keys.push(key_tree(k)));
    let mut entries: Vec<(String, Json)> = Vec::new();
    entries.push(("key".to_string(), Json::Text(key)));
    entries.push(("ok".to_string(), Json::Bool(true)));
    entries.push(("temp_key".to_string(), Json::Text(temp_key)));
    assert(entry_trees(entries@) =~= seq![
        ("key"@, JsonTree::Text(k.key)),
        ("ok"@, JsonTree::Bool(true)),
        ("temp_key"@, JsonTree::Text(k.temp_key)),
    ]);
    Handled { reply: json_reply(200, &object(entries)), save: true }
}

/// Adds a push key: thirty-two random hexadecimal digits behind a fixed
/// beginning, and a temporary key of sixteen.
pub fn api_keys_add(user: &Option<String>, params: &Params, cfg: &mut AppConfig) -> (r: Handled)
    ensures
        exists|chance: Seq<u8>, temp_chance: Seq<u8>|
            chance.len() == 16 && temp_chance.len() == 8 && (PanelStep {
                reply: r.reply@,
                save: r.save,
                cfg: final(cfg)@,
            }) == guarded(
                string_view(*user),
                old(cfg)@,
                key_added(
                    old(cfg)@,
                    #[trigger] new_key(chance, temp_chance, given(params@, "note"@)),
                ),
            ),
{
    let chance = random_bytes(16);
    let temp_chance = random_bytes(8);
    let ghost k = new_key(chance@, temp_chance@, given(params@, "note"@));
    add_key(user, params, cfg, chance.as_slice(), temp_chance.as_slice())
}

/// Whether a stored value is the push key `key`.
pub open spec fn names_key(t: JsonTree, key: Seq<char>) -> bool {
    t.field("key"@) == Some(JsonTree::Text(key)) || t == JsonTree::Text(key)
}

/// Stored values without a push key.
pub open spec fn without_key(list: Seq<JsonTree>, key: Seq<char>) -> Seq<JsonTree>
    decreases list.len(),
{
    if list.len() == 0 {
        list
    } else {
        let rest = without_key(list.drop_last(), key);
        if names_key(list.last(), key) {
            rest
        } else {
            rest.push(list.last())
        }
    }
}

fn is_key(v: &Json, key: &str) -> (r: bool)
    ensures
        r == names_key(v@, key@),
{
    match v {
        Json::Text(s) => same_text(s.as_str(), key),
        _ => match v.field("key") {
            Some(Json::Text(s)) => same_text(s.as_str(), key),
            _ => false,
        },
    }
}

/// A request to delete a push key.
pub open spec fn key_deleted(cfg: ConfigView, key: Seq<char>) -> PanelStep {
    if key.len() == 0 {
        only(failure_of(400, "缺少 key"@), cfg)
    } else {
        PanelStep {
            reply: json_reply_of(200, done_tree()),
            save: true,
            cfg: ConfigView { push_keys: without_key(cfg.push_keys, key), ..cfg },
        }
    }
}

/// Deletes a push key.
pub fn api_keys_delete(user: &Option<String>, params: &Params, cfg: &mut AppConfig) -> (r: Handled)
    ensures
        (PanelStep { reply: r.reply@, save: r.save, cfg: final(cfg)@ }) == guarded(
            string_view(*user),
            old(cfg)@,
            key_deleted(old(cfg)@, given(params@, "key"@)),
        ),
        forall|other: Seq<char>|
            other != given(params@, "key"@) ==> (#[trigger] final(cfg)@.key_set().contains(other)
                <==> old(cfg)@.key_set().contains(other)),
{
    if user.is_none() {
        return refused();
    }
    let key = get(params, "key");
    if key.as_str().is_empty() {
        return Handled { reply: failure(400, "缺少 key"), save: false };
    }
    let ghost all = cfg@.push_keys;
    let mut kept: Vec<Json> = Vec::new();
    let mut i: usize = 0;
    assert(all.take(0) =~= Seq::<JsonTree>::empty());
    assert(trees(kept@) =~= Seq::<JsonTree>::empty());
    while i < cfg.push_keys.len()
        invariant
            *cfg == *old(cfg),
            all == trees(cfg.push_keys@),
            i <= cfg.push_keys@.len(),
            trees(kept@) == without_key(all.take(i as int), key@),
        decreases cfg.push_keys@.len() - i,
    {
        assert(all.take(i + 1).drop_last() =~= all.take(i as int));
        if !is_key(&cfg.push_keys[i], key.as_str()) {
            let ghost before = trees(kept@);
            kept.push(cfg.push_keys[i].copy());
            assert(trees(kept@) =~= before.push(all[i as int]));
        }
        i = i + 1;
    }
    assert(all.take(i as int) =~= all);
    cfg.push_keys = kept;
    proof {
        assert forall|other: Seq<char>| other != key@ implies (
        #[trigger] cfg@.key_set().contains(other) <==> old(cfg)@.key_set().contains(other)) by {
            law_deleting_keeps_other_keys(old(cfg)@, key@, other);
        }
    }
    Handled { reply: json_reply(200, &done()), save: true }
}

/// A push key that was deleted may be published and subscribed to no more.
/// (A key that is stored as a list of its three parts is not found by its
/// name, so such lists are left out.)
pub proof fn law_deleted_key_is_gone(list: Seq<JsonTree>, key: Seq<char>)
    requires
        key.len() > 0,
        forall|i: int| 0 <= i < list.len() ==> !(#[trigger] list[i] is Array),
    ensures
        !keys_in(push_keys_of(without_key(list, key))).contains(key),
    decreases list.len(),
{
    if list.len() > 0 {
        let before = list.drop_last();
        law_deleted_key_is_gone(before, key);
        let last = list.last();
        assert(last == list[list.len() - 1]);
        let rest = without_key(before, key);
        if !names_key(last, key) {
            assert(rest.push(last).drop_last() =~= rest);
            let keys = push_keys_of(rest);
            match push_key_of(last) {
                Some(k) => {
                    assert(k.key != key);
                    if k.key.len() > 0 {
                        assert forall|i: int| 0 <= i < keys.push(k).len() implies (
                        #[trigger] keys.push(k)[i]).key != key by {
                            if i < keys.len() {
                                assert(keys.push(k)[i] == keys[i]);
                            }
                        }
                    }
                },
                None => {},
            }
        }
    }
}

/// A push key that was added may be published and subscribed to.
pub proof fn law_added_key_is_configured(cfg: ConfigView, k: KeyView)
    requires
        k.key.len() > 0,
    ensures
        key_added(cfg, k).cfg.key_set().contains(k.key),
        key_added(cfg, k).cfg.keys() == cfg.keys().push(k),
{
    reveal_strlit("key");
    reveal_strlit("note");
    reveal_strlit("temp_key");
    let t = key_tree(k);
    let entries = t->Object_0;
    reveal_with_fuel(lookup, 4);
    assert("key"@.len() == 3 && "note"@.len() == 4 && "temp_key"@.len() == 8);
    assert(entries[0] == ("key"@, JsonTree::Text(k.key)));
    assert(entries.skip(1)[0] == ("note"@, JsonTree::Text(k.note)));
    assert(entries.skip(1).skip(1)[0] == ("temp_key"@, JsonTree::Text(k.temp_key)));
    assert(push_key_of(t) == Some(k));
    let list = cfg.push_keys.push(t);
    assert(list.drop_last() =~= cfg.push_keys);
    let keys = key_added(cfg, k).cfg.keys();
    assert(keys[cfg.keys().len() as int].key == k.key);
}

/// Entries with a value under a name, in place of one that was there.
pub open spec fn with_entry(
    entries: Seq<(Seq<char>, JsonTree)>,
    name: Seq<char>,
    value: JsonTree,
) -> Seq<(Seq<char>, JsonTree)>
    decreases entries.len(),
{
    if entries.len() == 0 {
        seq![(name, value)]
    } else if entries[0].0 == name {
        seq![(name, value)] + entries.skip(1)
    } else {
        seq![entries[0]] + with_entry(entries.skip(1), name, value)
    }
}

/// A stored push key with a note; only an object holds one.
pub open spec fn with_note(t: JsonTree, key: Seq<char>, note: Seq<char>) -> JsonTree {
    match t {
        JsonTree::Object(entries) => if names_key(t, key) {
            JsonTree::Object(with_entry(entries, "note"@, JsonTree::Text(note)))
        } else {
            t
        },
        _ => t,
    }
}

/// A request to change the note of a push key.
pub open spec fn key_noted(cfg: ConfigView, key: Seq<char>, note: Seq<char>) -> PanelStep {
    PanelStep {
        reply: json_reply_of(200, done_tree()),
        save: true,
        cfg: ConfigView {
            push_keys: Seq::new(
                cfg.push_keys.len(),
                |i: int| with_note(cfg.push_keys[i], key, note),
            ),
            ..cfg
        },
    }
}

fn put_entry(entries: &Vec<(String, Json)>, name: &str, value: &str) -> (r: Vec<(String, Json)>)
    ensures
        entry_trees(r@) == with_entry(entry_trees(entries@), name@, JsonTree::Text(value@)),
{
    let ghost all = entry_trees(entries@);
    let ghost v = JsonTree::Text(value@);
    let mut out: Vec<(String, Json)> = Vec::new();
    let mut i: usize = 0;
    let mut found: bool = false;
    assert(all.skip(0) =~= all);
    assert(entry_trees(out@) + with_entry(all.skip(0), name@, v) =~= with_entry(all, name@, v));
    while i < entries.len()
        invariant
            all == entry_trees(entries@),
            v == JsonTree::Text(value@),
            i <= entries@.len(),
            !found ==> entry_trees(out@) + with_entry(all.skip(i as int), name@, v) == with_entry(
                all,
                name@,
                v,
            ),
            found ==> entry_trees(out@) + all.skip(i as int) == with_entry(all, name@, v),
        decreases entries@.len() - i,
    {
        let ghost rest = all.skip(i as int);
        let ghost before = entry_trees(out@);
        assert(rest[0] == all[i as int]);
        assert(rest.skip(1) =~= all.skip(i + 1));
        if !found && same_text(entries[i].0.as_str(), name) {
            out.push((name.to_string(), Json::Text(value.to_string())));
            found = true;
            assert(entry_trees(out@) =~= before.push((name@, v)));
            assert(entry_trees(out@) + all.skip(i + 1) =~= before + with_entry(rest, name@, v));
        } else {
            out.push((entries[i].0.clone(), entries[i].1.copy()));
            assert(entry_trees(out@) =~= before.push(all[i as int]));
            if found {
                assert(entry_trees(out@) + all.skip(i + 1) =~= before + rest);
            } else {
                assert(entry_trees(out@) + with_entry(all.skip(i + 1), name@, v) =~= before
                    + with_entry(rest, name@, v));
            }
        }
        i = i + 1;
    }
    assert(all.skip(i as int) =~= Seq::<(Seq<char>, JsonTree)>::empty());
    if !found {
        let ghost before = entry_trees(out@);
        out.push((name.to_string(), Json::Text(value.to_string())));
        assert(entry_trees(out@) =~= before + seq![(name@, v)]);
    } else {
        assert(entry_trees(out@) + all.skip(i as int) =~= entry_trees(out@));
    }
    out
}

fn put_note(v: &Json, key: &str, note: &str) -> (r: Json)
    ensures
        r@ == with_note(v@, key@, note@),
{
    match v {
        Json::Object(entries) => {
            proof {
                lemma_object_tree(*entries);
            }
            if is_key(v, key) {
                object(put_entry(entries, "note", note))
            } else {
                v.copy()
            }
        },
        _ => v.copy(),
    }
}

/// Changes the note of a push key.
pub fn api_keys_update(user: &Option<String>, params: &Params, cfg: &mut AppConfig) -> (r: Handled)
    ensures
        (PanelStep { reply: r.reply@, save: r.save, cfg: final(cfg)@ }) == guarded(
            string_view(*user),
            old(cfg)@,
            key_noted(old(cfg)@, given(params@, "key"@), given(params@, "note"@)),
        ),
{
    if user.is_none() {
        return refused();
    }
    let key = get(params, "key");
    let note = get(params, "note");
    let mut noted: Vec<Json> = Vec::new();
    let mut i: usize = 0;
    while i < cfg.push_keys.len()
        invariant
            *cfg == *old(cfg),
            i <= cfg.push_keys@.len(),
            noted@.len() == i,
            forall|k: int|
                0 <= k < i ==> (#[trigger] noted@[k])@ == with_note(
                    cfg.push_keys@[k]@,
                    key@,
                    note@,
                ),
        decreases cfg.push_keys@.len() - i,
    {
        noted.push(put_note(&cfg.push_keys[i], key.as_str(), note.as_str()));
        i = i + 1;
    }
    cfg.push_keys = noted;
    assert(trees(cfg.push_keys@) =~= key_noted(old(cfg)@, key@, note@).cfg.push_keys);
    Handled { reply: json_reply(200, &done()), save: true }
}

} // verus!
