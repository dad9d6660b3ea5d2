//! The push API: what a request asks for, whether it may, and what is answered.

use crate::clock::{is_timestamp, now_str};
use crate::config::{has_text_in, AppConfig, ConfigStore, ConfigView};
use crate::json::{
    entry_trees, fields_tree, lemma_object_tree, parse_json, parsed_tree, write_fields, written,
    Json, JsonTree,
};
use crate::push_log::{last_n, log_entry, PushLog};
use crate::reply::{
    bytes_reply, json_reply, json_reply_of, reply_of, text_reply, text_reply_of, with_header_of,
    Reply, ReplyView,
};
use crate::text::{
    contains_text, decimal, has_text, lower_text, lowered, same_text, split, split_text,
    str_view, string_view, texts, utf8_text,
};
use crate::third::{
    detect, pairs_ok, take_pair, take_pairs, text_param, third_message, try_parse_urlencoded, Params,
};
use vstd::prelude::*;
use vstd::slice::slice_to_vec;
use vstd::string::*;
use vstd::utf8::*;

verus! {

broadcast use vstd::string::group_string_axioms;

/// How many keys one request may name.
pub const MAX_KEYS: usize = 100;

// ---- parameters ----

/// The entries of an object taken in: a name that is taken changes nothing.
pub open spec fn take_entries(
    params: Map<Seq<char>, JsonTree>,
    entries: Seq<(Seq<char>, JsonTree)>,
) -> Map<Seq<char>, JsonTree>
    decreases entries.len(),
{
    if entries.len() == 0 {
        params
    } else {
        let rest = take_entries(params, entries.drop_last());
        if rest.contains_key(entries.last().0) {
            rest
        } else {
            rest.insert(entries.last().0, entries.last().1)
        }
    }
}

/// The parameters in a query string.
pub open spec fn query_params(query: Option<Seq<char>>) -> Map<Seq<char>, JsonTree> {
    match query {
        Some(q) => take_pairs(Map::empty(), split(q, '&')),
        None => Map::empty(),
    }
}

/// A body that is JSON by its content type.
pub open spec fn is_json_body(content_type: Seq<char>) -> bool {
    has_text(lowered(content_type), "application/json"@)
}

/// A body that is a form by its content type.
pub open spec fn is_form_body(content_type: Seq<char>) -> bool {
    !is_json_body(content_type) && has_text(
        lowered(content_type),
        "application/x-www-form-urlencoded"@,
    )
}

/// The parameters of a request: those of the query string, then those of the
/// body under names that are not taken.
pub open spec fn request_params(
    query: Option<Seq<char>>,
    content_type: Seq<char>,
    body: Seq<u8>,
) -> Map<Seq<char>, JsonTree> {
    let first = query_params(query);
    if is_json_body(content_type) {
        match parsed_tree(body) {
            Some(JsonTree::Object(entries)) => take_entries(first, entries),
            _ => first,
        }
    } else if is_form_body(content_type) && valid_utf8(body) {
        take_pairs(first, split(decode_utf8(body), '&'))
    } else {
        first
    }
}

/// What has to be decoded of a request can be.
pub open spec fn request_ok(query: Option<Seq<char>>, content_type: Seq<char>, body: Seq<u8>) -> bool {
    &&& query is Some ==> pairs_ok(Map::empty(), split(query->Some_0, '&'))
    &&& is_form_body(content_type) && valid_utf8(body) ==> pairs_ok(
        query_params(query),
        split(decode_utf8(body), '&'),
    )
}

pub(crate) fn take_object(params: &mut Params, entries: &Vec<(String, Json)>)
    ensures
        final(params)@ == take_entries(old(params)@, entry_trees(entries@)),
        old(params).wf() ==> final(params).wf(),
{
    let ghost all = entry_trees(entries@);
    let mut i: usize = 0;
    assert(all.take(0) == Seq::<(Seq<char>, JsonTree)>::empty());
    while i < entries.len()
        invariant
            all == entry_trees(entries@),
            i <= entries@.len(),
            params@ == take_entries(old(params)@, all.take(i as int)),
            old(params).wf() ==> params.wf(),
        decreases entries@.len() - i,
    {
        assert(all.take(i + 1).drop_last() == all.take(i as int));
        params.put(entries[i].0.clone(), entries[i].1.copy());
        i = i + 1;
    }
    assert(all.take(i as int) == all);
}

/// Reads the parameters of a request. There are none to be had where an escape
/// in the query or the form cuts a character in two.
pub fn parse_params(query: Option<&str>, content_type: &str, body: &[u8]) -> (r: Option<Params>)
    ensures
        r is Some <==> request_ok(str_view(query), content_type@, body@),
        r matches Some(p) ==> p@ == request_params(str_view(query), content_type@, body@)
            && p.wf(),
{
    let mut params = Params::new();
    match query {
        Some(q) => {
            if !try_parse_urlencoded(q, &mut params) {
                return None;
            }
        },
        None => {},
    }
    assert(params@ == query_params(str_view(query)));
    let kind = lower_text(content_type);
    if contains_text(kind.as_str(), "application/json") {
        match parse_json(body) {
            Some(Json::Object(entries)) => {
                proof {
                    lemma_object_tree(entries);
                }
                take_object(&mut params, &entries);
            },
            _ => {},
        }
    } else if contains_text(kind.as_str(), "application/x-www-form-urlencoded") {
        match utf8_text(body) {
            Some(form) => {
                if !try_parse_urlencoded(form.as_str(), &mut params) {
                    return None;
                }
            },
            None => {},
        }
    }
    Some(params)
}

proof fn lemma_pairs_keep(params: Map<Seq<char>, JsonTree>, pairs: Seq<Seq<char>>, key: Seq<char>)
    requires
        params.contains_key(key),
    ensures
        take_pairs(params, pairs).contains_key(key),
        take_pairs(params, pairs)[key] == params[key],
    decreases pairs.len(),
{
    if pairs.len() > 0 {
        lemma_pairs_keep(params, pairs.drop_last(), key);
    }
}

proof fn lemma_entries_keep(
    params: Map<Seq<char>, JsonTree>,
    entries: Seq<(Seq<char>, JsonTree)>,
    key: Seq<char>,
)
    requires
        params.contains_key(key),
    ensures
        take_entries(params, entries).contains_key(key),
        take_entries(params, entries)[key] == params[key],
    decreases entries.len(),
{
    if entries.len() > 0 {
        lemma_entries_keep(params, entries.drop_last(), key);
    }
}

/// A parameter of the query string is not overridden by the body.
pub proof fn law_query_comes_first(
    query: Option<Seq<char>>,
    content_type: Seq<char>,
    body: Seq<u8>,
    key: Seq<char>,
)
    requires
        query_params(query).contains_key(key),
    ensures
        request_params(query, content_type, body).contains_key(key),
        request_params(query, content_type, body)[key] == query_params(query)[key],
{
    let first = query_params(query);
    match parsed_tree(body) {
        Some(JsonTree::Object(entries)) => lemma_entries_keep(first, entries, key),
        _ => {},
    }
    lemma_pairs_keep(first, split(decode_utf8(body), '&'), key);
}

/// Of two pairs of a query with one name, the earlier counts.
pub proof fn law_first_pair_counts(pairs: Seq<Seq<char>>, more: Seq<Seq<char>>, key: Seq<char>)
    requires
        take_pairs(Map::empty(), pairs).contains_key(key),
    ensures
        take_pairs(Map::empty(), pairs + more).contains_key(key),
        take_pairs(Map::empty(), pairs + more)[key] == take_pairs(Map::empty(), pairs)[key],
    decreases more.len(),
{
    if more.len() == 0 {
        assert(pairs + more == pairs);
    } else {
        law_first_pair_counts(pairs, more.drop_last(), key);
        assert((pairs + more).drop_last() == pairs + more.drop_last());
        let so_far = take_pairs(Map::empty(), pairs + more.drop_last());
        assert(take_pair(so_far, more.last())[key] == so_far[key]);
    }
}

// ---- the decision ----

/// A message ready to be published.
pub struct PushJob {
    /// The keys to publish it to.
    pub keys: Vec<String>,
    /// Whether the request named one key.
    pub single: bool,
    /// The title for the log.
    pub title: String,
    pub payload: Vec<u8>,
    /// Whether the request was a webhook message of another platform.
    pub third: bool,
    pub offline_messages: bool,
    pub offline_limit: usize,
}

/// What a `PushJob` holds.
#[verifier::ext_equal]
pub struct JobView {
    pub keys: Seq<Seq<char>>,
    pub single: bool,
    pub title: Seq<char>,
    pub payload: Seq<u8>,
    pub third: bool,
    pub offline_messages: bool,
    pub offline_limit: usize,
}

impl View for PushJob {
    type V = JobView;

    open spec fn view(&self) -> JobView {
        JobView {
            keys: texts(self.keys@),
            single: self.single,
            title: self.title@,
            payload: self.payload@,
            third: self.third,
            offline_messages: self.offline_messages,
            offline_limit: self.offline_limit,
        }
    }
}

/// What becomes of a push request: an answer, or a message to publish.
pub enum PushStep {
    Answer(String),
    Publish(PushJob),
}

/// What a `PushStep` holds.
pub enum StepView {
    Answer(Seq<char>),
    Publish(JobView),
}

impl View for PushStep {
    type V = StepView;

    open spec fn view(&self) -> StepView {
        match *self {
            PushStep::Answer(s) => StepView::Answer(s@),
            PushStep::Publish(job) => StepView::Publish(job@),
        }
    }
}

/// The title of the message: that of a webhook message where it has one.
pub open spec fn title_of(params: Map<Seq<char>, JsonTree>) -> Option<Seq<char>> {
    let third = third_message(params);
    if third.detected && third.title.len() > 0 {
        Some(third.title)
    } else {
        text_param(params, "title"@)
    }
}

/// The content of the message: that of a webhook message where it has one.
pub open spec fn content_of(params: Map<Seq<char>, JsonTree>) -> Option<Seq<char>> {
    let third = third_message(params);
    if third.detected && third.content.len() > 0 {
        Some(third.content)
    } else {
        text_param(params, "content"@)
    }
}

/// The type of the message: Markdown where a webhook message is.
pub open spec fn kind_of(params: Map<Seq<char>, JsonTree>) -> Option<Seq<char>> {
    let third = third_message(params);
    if third.detected && third.kind == "markdown"@ {
        Some("markdown"@)
    } else {
        text_param(params, "type"@)
    }
}

/// The key or keys that the request names, by a temporary key where it names
/// no other.
pub open spec fn push_key_text(params: Map<Seq<char>, JsonTree>, cfg: ConfigView) -> Option<
    Seq<char>,
> {
    match text_param(params, "push_key"@) {
        Some(key) => Some(key),
        None => match text_param(params, "temp_key"@) {
            Some(temp_key) => cfg.find_by_temp_key(temp_key),
            None => None,
        },
    }
}

/// A parameter that is an object or an array.
pub open spec fn nested_param(params: Map<Seq<char>, JsonTree>, name: Seq<char>) -> bool {
    params.contains_key(name) && params[name].is_nested()
}

/// Every key of a list is a configured one, or empty.
pub open spec fn keys_allowed(list: Seq<Seq<char>>, keys: Set<Seq<char>>) -> bool {
    forall|i: int| 0 <= i < list.len() ==> (#[trigger] list[i]).len() == 0 || keys.contains(list[i])
}

/// The texts of a list that are not empty.
pub open spec fn filled(list: Seq<Seq<char>>) -> Seq<Seq<char>>
    decreases list.len(),
{
    if list.len() == 0 {
        list
    } else if list.last().len() == 0 {
        filled(list.drop_last())
    } else {
        filled(list.drop_last()).push(list.last())
    }
}

/// An entry for a field that is there, and none for one that is not.
pub open spec fn field_entry(name: Seq<char>, value: Option<Seq<char>>) -> Seq<
    (Seq<char>, JsonTree),
> {
    match value {
        Some(v) => seq![(name, JsonTree::Text(v))],
        None => Seq::empty(),
    }
}

/// The message that subscribers receive.
pub open spec fn message_tree(
    title: Option<Seq<char>>,
    content: Option<Seq<char>>,
    date: Seq<char>,
    kind: Option<Seq<char>>,
) -> JsonTree {
    JsonTree::Object(
        field_entry("title"@, title) + field_entry("content"@, content) + seq![
            ("date"@, JsonTree::Text(date)),
        ] + field_entry("type"@, kind),
    )
}

/// The date of the message: the one given, or else the current time.
pub open spec fn date_of(params: Map<Seq<char>, JsonTree>, now: Seq<char>) -> Seq<char> {
    match text_param(params, "date"@) {
        Some(date) => if date.len() > 0 {
            date
        } else {
            now
        },
        None => now,
    }
}

/// A text that may be missing, empty where it is.
pub open spec fn text_or_none(s: Option<Seq<char>>) -> Seq<char> {
    match s {
        Some(t) => t,
        None => Seq::empty(),
    }
}

/// The message to publish to the keys that a request names.
pub open spec fn job_of(
    params: Map<Seq<char>, JsonTree>,
    keys: Seq<Seq<char>>,
    cfg: ConfigView,
    now: Seq<char>,
) -> JobView {
    JobView {
        keys: filled(keys),
        single: keys.len() == 1,
        title: text_or_none(title_of(params)),
        payload: encode_utf8(
            written(
                message_tree(
                    title_of(params),
                    content_of(params),
                    date_of(params, now),
                    kind_of(params),
                ),
            ),
        ),
        third: third_message(params).detected,
        offline_messages: cfg.offline_messages,
        offline_limit: cfg.offline_limit,
    }
}

/// What becomes of a push request at the given time.
pub open spec fn push_step(
    params: Map<Seq<char>, JsonTree>,
    cfg: ConfigView,
    now: Seq<char>,
) -> StepView {
    let title = title_of(params);
    let content = content_of(params);
    let key = push_key_text(params, cfg);
    let keys = split(text_or_none(key), ',');
    if key is None && title is None && content is None {
        StepView::Answer("PushMe Server"@)
    } else if nested_param(params, "push_key"@) {
        StepView::Answer("Push failed, push_key type must be string!"@)
    } else if key is None || key->Some_0.len() == 0 {
        StepView::Answer("Push failed, empty push_key!"@)
    } else if (title is None && nested_param(params, "title"@)) || (content is None
        && nested_param(params, "content"@)) {
        StepView::Answer("Push failed, the parameter format is incorrect!"@)
    } else if keys.len() > MAX_KEYS {
        StepView::Answer("Push failed, push_key numbers must be less than 100!"@)
    } else if !keys_allowed(keys, cfg.key_set()) {
        StepView::Answer("非法push_key!"@)
    } else if title == Some(Seq::<char>::empty()) && content == Some(Seq::<char>::empty()) {
        StepView::Answer("Push failed, empty title and content!"@)
    } else {
        StepView::Publish(job_of(params, keys, cfg, now))
    }
}

fn is_nested_param(params: &Params, name: &str) -> (r: bool)
    ensures
        r == nested_param(params@, name@),
{
    match params.get_val(name) {
        Some(v) => v.is_nested(),
        None => false,
    }
}

fn push_field(fields: &mut Vec<(String, String)>, name: &str, value: &Option<String>)
    ensures
        fields_tree(final(fields)@)->Object_0 == fields_tree(old(fields)@)->Object_0 + field_entry(
            name@,
            string_view(*value),
        ),
{
    match value {
        Some(v) => {
            fields.push((name.to_string(), v.clone()));
        },
        None => {},
    }
    assert(fields_tree(fields@)->Object_0 =~= fields_tree(old(fields)@)->Object_0 + field_entry(
        name@,
        string_view(*value),
    ));
}

/// Writes the message that subscribers receive.
pub fn message_payload(
    title: &Option<String>,
    content: &Option<String>,
    date: &str,
    kind: &Option<String>,
) -> (r: Vec<u8>)
    ensures
        r@ == encode_utf8(
            written(message_tree(string_view(*title), string_view(*content), date@, string_view(*kind))),
        ),
{
    let mut fields: Vec<(String, String)> = Vec::new();
    assert(fields_tree(fields@)->Object_0 =~= Seq::<(Seq<char>, JsonTree)>::empty());
    push_field(&mut fields, "title", title);
    push_field(&mut fields, "content", content);
    let date = Some(date.to_string());
    push_field(&mut fields, "date", &date);
    push_field(&mut fields, "type", kind);
    proof {
        let tree = message_tree(string_view(*title), string_view(*content), date->Some_0@, string_view(*kind));
        assert(fields_tree(fields@)->Object_0 =~= tree->Object_0);
    }
    match write_fields(&fields) {
        Some(bytes) => bytes,
        None => slice_to_vec("{}".as_bytes()),
    }
}

fn all_allowed(list: &Vec<String>, keys: &Vec<String>) -> (r: bool)
    ensures
        r == (forall|i: int|
            0 <= i < list@.len() ==> (#[trigger] texts(list@)[i]).len() == 0 || texts(keys@).contains(
                texts(list@)[i],
            )),
{
    let mut i: usize = 0;
    while i < list.len()
        invariant
            i <= list@.len(),
            forall|k: int|
                0 <= k < i ==> (#[trigger] texts(list@)[k]).len() == 0 || texts(keys@).contains(
                    texts(list@)[k],
                ),
        decreases list@.len() - i,
    {
        let key = list[i].as_str();
        assert(texts(list@)[i as int] == key@);
        if !key.is_empty() && !has_text_in(keys, key) {
            return false;
        }
        i = i + 1;
    }
    true
}

fn keep_filled(list: Vec<String>) -> (r: Vec<String>)
    ensures
        texts(r@) == filled(texts(list@)),
{
    let ghost all = texts(list@);
    let mut out: Vec<String> = Vec::new();
    let mut i: usize = 0;
    assert(all.take(0) == Seq::<Seq<char>>::empty());
    assert(texts(out@) == Seq::<Seq<char>>::empty());
    while i < list.len()
        invariant
            all == texts(list@),
            i <= list@.len(),
            texts(out@) == filled(all.take(i as int)),
        decreases list@.len() - i,
    {
        assert(all.take(i + 1).drop_last() == all.take(i as int));
        if !list[i].as_str().is_empty() {
            let ghost before = texts(out@);
            out.push(list[i].clone());
            assert(texts(out@) == before.push(all[i as int]));
        }
        i = i + 1;
    }
    assert(all.take(i as int) == all);
    out
}

fn is_blank(s: &Option<String>) -> (r: bool)
    ensures
        r == (string_view(*s) == Some(Seq::<char>::empty())),
{
    match s {
        Some(t) => {
            let r = t.as_str().is_empty();
            assert(t@.len() == 0 ==> t@ == Seq::<char>::empty());
            r
        },
        None => false,
    }
}

fn answer(text: &str) -> (r: PushStep)
    ensures
        r@ == StepView::Answer(text@),
{
    PushStep::Answer(text.to_string())
}

/// Decides on a push request at the given time.
pub fn plan_push(params: &Params, cfg: &AppConfig, now: &str) -> (r: PushStep)
    ensures
        r@ == push_step(params@, cfg@, now@),
{
    let mut push_key = params.get_str("push_key");
    if push_key.is_none() {
        match params.get_str("temp_key") {
            Some(temp_key) => {
                push_key = cfg.find_by_temp_key(temp_key.as_str());
            },
            None => {},
        }
    }
    assert(string_view(push_key) == push_key_text(params@, cfg@));
    let third = detect(params);
    let mut title = params.get_str("title");
    let mut content = params.get_str("content");
    let mut kind = params.get_str("type");
    if third.detected {
        if !third.title.as_str().is_empty() {
            title = Some(third.title.clone());
        }
        if !third.content.as_str().is_empty() {
            content = Some(third.content.clone());
        }
        if same_text(third.kind.as_str(), "markdown") {
            kind = Some("markdown".to_string());
        }
    }
    assert(string_view(title) == title_of(params@));
    assert(string_view(content) == content_of(params@));
    assert(string_view(kind) == kind_of(params@));

    if push_key.is_none() && title.is_none() && content.is_none() {
        return answer("PushMe Server");
    }
    if is_nested_param(params, "push_key") {
        return answer("Push failed, push_key type must be string!");
    }
    let named = match push_key {
        Some(key) => key,
        None => String::new(),
    };
    if named.as_str().is_empty() {
        return answer("Push failed, empty push_key!");
    }
    if (title.is_none() && is_nested_param(params, "title")) || (content.is_none()
        && is_nested_param(params, "content")) {
        return answer("Push failed, the parameter format is incorrect!");
    }
    let keys = split_text(named.as_str(), ',');
    if keys.len() > MAX_KEYS {
        return answer("Push failed, push_key numbers must be less than 100!");
    }
    let allowed = cfg.key_set();
    let fine = all_allowed(&keys, &allowed);
    assert(fine == keys_allowed(split(named@, ','), cfg@.key_set()));
    if !fine {
        return answer("非法push_key!");
    }
    if is_blank(&title) && is_blank(&content) {
        return answer("Push failed, empty title and content!");
    }
    let date = match params.get_str("date") {
        Some(date) => if date.as_str().is_empty() {
            now.to_string()
        } else {
            date
        },
        None => now.to_string(),
    };
    assert(date@ == date_of(params@, now@));
    let payload = message_payload(&title, &content, date.as_str(), &kind);
    let single = keys.len() == 1;
    let shown = match title {
        Some(t) => t,
        None => String::new(),
    };
    PushStep::Publish(
        PushJob {
            keys: keep_filled(keys),
            single,
            title: shown,
            payload,
            third: third.detected,
            offline_messages: cfg.offline_messages,
            offline_limit: cfg.offline_limit,
        },
    )
}

/// Decides on a push request now.
pub fn push_api(params: &Params, cfg: &AppConfig) -> (r: PushStep)
    ensures
        exists|now: Seq<char>| #[trigger] is_timestamp(now) && r@ == push_step(params@, cfg@, now),
{
    let now = now_str();
    plan_push(params, cfg, now.as_str())
}

proof fn lemma_filled(list: Seq<Seq<char>>, keys: Set<Seq<char>>)
    requires
        keys_allowed(list, keys),
    ensures
        filled(list).len() <= list.len(),
        forall|i: int|
            0 <= i < filled(list).len() ==> (#[trigger] filled(list)[i]).len() > 0 && keys.contains(
                filled(list)[i],
            ),
    decreases list.len(),
{
    if list.len() > 0 {
        lemma_filled(list.drop_last(), keys);
        assert(keys_allowed(list.drop_last(), keys));
        assert(list.last() == list[list.len() - 1]);
    }
}

/// A message is published to configured keys only, and to no more than the
/// limit.
pub proof fn law_published_keys_are_configured(
    params: Map<Seq<char>, JsonTree>,
    cfg: ConfigView,
    now: Seq<char>,
)
    requires
        push_step(params, cfg, now) is Publish,
    ensures
        push_step(params, cfg, now)->Publish_0.keys.len() <= MAX_KEYS,
        forall|i: int|
            0 <= i < push_step(params, cfg, now)->Publish_0.keys.len() ==> cfg.key_set().contains(
                #[trigger] push_step(params, cfg, now)->Publish_0.keys[i],
            ),
{
    lemma_filled(split(text_or_none(push_key_text(params, cfg)), ','), cfg.key_set());
}

/// A temporary key stands for the push key that it was made with: naming
/// either comes to the same.
pub proof fn law_temp_key_stands_for_key(
    params: Map<Seq<char>, JsonTree>,
    cfg: ConfigView,
    now: Seq<char>,
    temp_key: Seq<char>,
    key: Seq<char>,
)
    requires
        !params.contains_key("push_key"@),
        text_param(params, "temp_key"@) == Some(temp_key),
        cfg.find_by_temp_key(temp_key) == Some(key),
    ensures
        push_step(params, cfg, now) == push_step(
            params.insert("push_key"@, JsonTree::Text(key)),
            cfg,
            now,
        ),
{
    reveal_strlit("push_key");
    reveal_strlit("temp_key");
    reveal_strlit("msg_type");
    reveal_strlit("msgtype");
    reveal_strlit("title");
    reveal_strlit("content");
    reveal_strlit("type");
    reveal_strlit("date");
    let other = params.insert("push_key"@, JsonTree::Text(key));
    assert("push_key"@[0] != "temp_key"@[0]);
    assert("push_key"@[0] != "msg_type"@[0]);
    assert("push_key"@[0] != "msgtype"@[0]);
    assert("push_key"@[0] != "title"@[0]);
    assert("push_key"@[0] != "content"@[0]);
    assert("push_key"@[0] != "type"@[0]);
    assert("push_key"@[0] != "date"@[0]);
    // A webhook message reads the parameter that its `msgtype` names, but none
    // of its kinds is named like the push key.
    reveal_strlit("text");
    reveal_strlit("markdown");
    reveal_strlit("image");
    reveal_strlit("news");
    reveal_strlit("file");
    reveal_strlit("template_card");
    reveal_strlit("link");
    reveal_strlit("actionCard");
    reveal_strlit("feedCard");
    assert("push_key"@[0] != "text"@[0]);
    assert("push_key"@[0] != "markdown"@[0]);
    assert("push_key"@[0] != "image"@[0]);
    assert("push_key"@[0] != "news"@[0]);
    assert("push_key"@[0] != "file"@[0]);
    assert("push_key"@[0] != "template_card"@[0]);
    assert("push_key"@[0] != "link"@[0]);
    assert("push_key"@[0] != "actionCard"@[0]);
    assert("push_key"@[0] != "feedCard"@[0]);
    assert(third_message(other) == third_message(params));
}

// ---- the outcome ----

/// What the log and the answer say of a publication.
pub open spec fn outcome_text(outcome: Result<(), String>) -> Seq<char> {
    match outcome {
        Ok(_) => "success"@,
        Err(e) => "failed: "@ + e@,
    }
}

/// What the answer says of all publications of a request: a request for one
/// key tells of a failure, one for several does not.
pub open spec fn result_of(single: bool, outcomes: Seq<Result<(), String>>) -> Seq<char> {
    if single && outcomes.len() > 0 {
        outcome_text(outcomes.last())
    } else {
        "success"@
    }
}

/// The answer to a webhook message.
pub open spec fn third_answer(result: Seq<char>) -> JsonTree {
    let code = JsonTree::Number(
        decimal(
            if result == "success"@ {
                0
            } else {
                1
            },
        ),
    );
    JsonTree::Object(
        seq![
            ("code"@, code),
            ("errcode"@, code),
            ("errmsg"@, JsonTree::Text(result)),
            ("msg"@, JsonTree::Text(result)),
        ],
    )
}

/// The answer to a request whose message was published.
pub open spec fn push_answer(job: JobView, outcomes: Seq<Result<(), String>>) -> ReplyView {
    let result = result_of(job.single, outcomes);
    if job.third {
        json_reply_of(200, third_answer(result))
    } else {
        text_reply_of(200, result)
    }
}

fn tell_outcome(outcome: &Result<(), String>) -> (r: String)
    ensures
        r@ == outcome_text(*outcome),
{
    match outcome {
        Ok(_) => "success".to_string(),
        Err(e) => {
            let mut r = "failed: ".to_string();
            r.append(e.as_str());
            r
        },
    }
}

/// Records the publication of a message to one key: a success counts, and
/// either way it is logged.
pub fn record_publish(
    store: &mut ConfigStore,
    log: &mut PushLog,
    time: String,
    key: &str,
    title: &str,
    outcome: &Result<(), String>,
)
    requires
        old(log).wf(),
    ensures
        final(log).wf(),
        final(log).room() == old(log).room(),
        final(log).entries() == last_n(
            old(log).entries().push(log_entry(time@, key@, title@, outcome_text(*outcome))),
            old(log).room(),
        ),
        final(store).config() == old(store).config(),
        final(store).count() == if *outcome is Ok {
            old(store).count().wrapping_add(1)
        } else {
            old(store).count()
        },
{
    if outcome.is_ok() {
        store.incr_message_count(1);
    }
    let text = tell_outcome(outcome);
    log.push_at(time, key, title, text.as_str());
}

fn third_reply(result: &str) -> (r: Json)
    ensures
        r@ == third_answer(result@),
{
    let code: u64 = if same_text(result, "success") {
        0
    } else {
        1
    };
    let mut entries: Vec<(String, Json)> = Vec::new();
    entries.push(("code".to_string(), Json::unsigned(code)));
    entries.push(("errcode".to_string(), Json::unsigned(code)));
    entries.push(("errmsg".to_string(), Json::Text(result.to_string())));
    entries.push(("msg".to_string(), Json::Text(result.to_string())));
    proof {
        lemma_object_tree(entries);
        assert(entry_trees(entries@) =~= third_answer(result@)->Object_0);
    }
    Json::Object(entries)
}

/// Answers a request whose message was published to its keys with the given
/// outcomes.
pub fn push_reply(job: &PushJob, outcomes: &Vec<Result<(), String>>) -> (r: Reply)
    ensures
        r@ == push_answer(job@, outcomes@),
{
    let result = if job.single && outcomes.len() > 0 {
        tell_outcome(&outcomes[outcomes.len() - 1])
    } else {
        "success".to_string()
    };
    if job.third {
        json_reply(200, &third_reply(result.as_str()))
    } else {
        text_reply(200, result.as_str())
    }
}

// ---- routes ----

/// The two headers of a WebSocket upgrade.
pub open spec fn is_upgrade(connection: Seq<char>, upgrade: Seq<char>) -> bool {
    has_text(lowered(connection), "upgrade"@) && lowered(upgrade) == "websocket"@
}

/// Whether the values of the headers `Connection` and `Upgrade` ask for a
/// WebSocket.
pub fn is_ws_request(connection: &str, upgrade: &str) -> (r: bool)
    ensures
        r == is_upgrade(connection@, upgrade@),
{
    let connection = lower_text(connection);
    let upgrade = lower_text(upgrade);
    contains_text(connection.as_str(), "upgrade") && same_text(upgrade.as_str(), "websocket")
}

/// What a request to the public port is.
pub enum Route {
    /// A question before a cross-origin request.
    Preflight,
    /// A WebSocket that carries MQTT.
    Socket,
    /// A push.
    Push,
    /// Nothing that the public port serves.
    Missing,
}

/// What a request is, by whether its path is the root, its method and the two
/// headers of an upgrade. Away from the root only a WebSocket is served.
pub open spec fn route_of(
    root: bool,
    method: Seq<char>,
    connection: Seq<char>,
    upgrade: Seq<char>,
) -> Route {
    if root && method == "OPTIONS"@ {
        Route::Preflight
    } else if is_upgrade(connection, upgrade) {
        Route::Socket
    } else if root {
        Route::Push
    } else {
        Route::Missing
    }
}

/// Tells what a request to the public port is; the paths of certificates are
/// not asked here.
pub fn route(root: bool, method: &str, connection: &str, upgrade: &str) -> (r: Route)
    ensures
        r == route_of(root, method@, connection@, upgrade@),
{
    if root && same_text(method, "OPTIONS") {
        Route::Preflight
    } else if is_ws_request(connection, upgrade) {
        Route::Socket
    } else if root {
        Route::Push
    } else {
        Route::Missing
    }
}

/// Away from the root the public port serves WebSockets and nothing else, so
/// no page of the panel can be reached there.
pub proof fn law_other_paths_serve_websockets_alone(
    method: Seq<char>,
    connection: Seq<char>,
    upgrade: Seq<char>,
)
    ensures
        route_of(false, method, connection, upgrade) == if is_upgrade(connection, upgrade) {
            Route::Socket
        } else {
            Route::Missing
        },
{
}

/// A reply with the headers that allow cross-origin requests.
pub open spec fn with_cors_of(r: ReplyView) -> ReplyView {
    let r = with_header_of(r, "access-control-allow-origin"@, "*"@);
    let r = with_header_of(
        r,
        "access-control-allow-methods"@,
        "GET, POST, PUT, DELETE, OPTIONS"@,
    );
    let r = with_header_of(
        r,
        "access-control-allow-headers"@,
        "Content-Type, Authorization, X-Requested-With, Accept, Origin"@,
    );
    with_header_of(r, "access-control-max-age"@, "86400"@)
}

/// Allows cross-origin requests.
pub fn with_cors(reply: Reply) -> (r: Reply)
    ensures
        r@ == with_cors_of(reply@),
{
    reply.with_header("access-control-allow-origin", "*").with_header(
        "access-control-allow-methods",
        "GET, POST, PUT, DELETE, OPTIONS",
    ).with_header(
        "access-control-allow-headers",
        "Content-Type, Authorization, X-Requested-With, Accept, Origin",
    ).with_header("access-control-max-age", "86400")
}

/// The answer to a question before a cross-origin request.
pub fn preflight_reply() -> (r: Reply)
    ensures
        r@ == with_cors_of(text_reply_of(200, ""@)),
{
    with_cors(text_reply(200, ""))
}

/// The answer to a request that the public port does not serve.
pub fn missing_reply() -> (r: Reply)
    ensures
        r@ == text_reply_of(404, "Not Found"@),
{
    text_reply(404, "Not Found")
}

/// The answer to a request for a WebSocket that cannot be upgraded.
pub fn bad_upgrade_reply() -> (r: Reply)
    ensures
        r@ == text_reply_of(400, "invalid websocket upgrade"@),
{
    text_reply(400, "invalid websocket upgrade")
}

/// The certificate to look at, or what to do where there is none yet.
pub fn cert_reply(pem: Option<Vec<u8>>) -> (r: Reply)
    ensures
        r@ == match pem {
            Some(b) => reply_of(200, "application/x-x509-ca-cert"@, b@),
            None => text_reply_of(200, "请先在服务端生成自签名证书"@),
        },
{
    match pem {
        Some(b) => bytes_reply(200, "application/x-x509-ca-cert", b),
        None => text_reply(200, "请先在服务端生成自签名证书"),
    }
}

/// The certificate as a file to save, where there is one.
pub fn cert_download_reply(pem: Option<Vec<u8>>) -> (r: Reply)
    ensures
        r@ == match pem {
            Some(b) => with_header_of(
                with_header_of(
                    reply_of(200, "application/x-x509-ca-cert"@, b@),
                    "content-disposition"@,
                    "attachment; filename=\"cert.crt\""@,
                ),
                "cache-control"@,
                "no-cache"@,
            ),
            None => (ReplyView { status: 404, headers: Seq::empty(), body: Seq::empty() }),
        },
{
    match pem {
        Some(b) => bytes_reply(200, "application/x-x509-ca-cert", b).with_header(
            "content-disposition",
            "attachment; filename=\"cert.crt\"",
        ).with_header("cache-control", "no-cache"),
        None => {
            let r = Reply { status: 404, headers: Vec::new(), body: Vec::new() };
            assert(r@ =~= (ReplyView { status: 404, headers: Seq::empty(), body: Seq::empty() }));
            r
        },
    }
}

} // verus!
