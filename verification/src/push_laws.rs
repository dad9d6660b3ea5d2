//! What a push comes to: what is published and to whom, what is refused, and
//! how the sender is answered.

use crate::config::ConfigView;
use crate::json::{lookup, parsed_tree, written, JsonTree};
use crate::push_api::{
    filled, is_json_body, push_answer, push_key_text, push_step, query_params, request_params,
    request_ok, route_of, take_entries, with_cors_of, JobView, PushJob, PushStep, Route, StepView,
};
use crate::reply::ReplyView;
use crate::text::{lowered, split};
use crate::third::{
    no_cut_escape, pair_key, pair_value, pairs_ok, take_pair, take_pairs, text_param,
    third_message, url_decodable, url_decoded, Params,
};
use vstd::prelude::*;
use vstd::utf8::{decode_utf8, encode_utf8, valid_utf8};

verus! {

broadcast use vstd::string::group_string_axioms;

// ---- what is published ----

/// A webhook message is published under its own title, and logged under it,
/// where it has one; a title beside it in the request does not count.
pub proof fn law_webhook_title_is_published(
    params: Map<Seq<char>, JsonTree>,
    cfg: ConfigView,
    now: Seq<char>,
)
    requires
        third_message(params).detected,
        third_message(params).title.len() > 0,
        push_step(params, cfg, now) is Publish,
    ensures
        push_step(params, cfg, now)->Publish_0.title == third_message(params).title,
        exists|rest: Seq<(Seq<char>, JsonTree)>|
            push_step(params, cfg, now)->Publish_0.payload == encode_utf8(
                #[trigger] written(
                    JsonTree::Object(
                        seq![("title"@, JsonTree::Text(third_message(params).title))] + rest,
                    ),
                ),
            ) && lookup(rest, "title"@) is None,
{
    law_published_message(params, cfg, now);
    let third = third_message(params);
    let content = if third.content.len() > 0 {
        Some(third.content)
    } else {
        text_param(params, "content"@)
    };
    let kind = if third.kind == "markdown"@ {
        Some("markdown"@)
    } else {
        text_param(params, "type"@)
    };
    let date = match text_param(params, "date"@) {
        Some(d) => if d.len() > 0 {
            d
        } else {
            now
        },
        None => now,
    };
    let rest = one_entry("content"@, content) + seq![("date"@, JsonTree::Text(date))] + one_entry(
        "type"@,
        kind,
    );
    assert(one_entry("title"@, Some(third.title)) + one_entry("content"@, content) + seq![
        ("date"@, JsonTree::Text(date)),
    ] + one_entry("type"@, kind) =~= seq![("title"@, JsonTree::Text(third.title))] + rest);
    reveal_strlit("title");
    reveal_strlit("content");
    reveal_strlit("date");
    reveal_strlit("type");
    assert("content"@.len() != "title"@.len());
    assert("date"@.len() != "title"@.len());
    assert("type"@.len() != "title"@.len());
    reveal_with_fuel(lookup, 4);
}

/// An object's entry, where there is a text for it.
pub open spec fn one_entry(name: Seq<char>, value: Option<Seq<char>>) -> Seq<
    (Seq<char>, JsonTree),
> {
    if value is Some {
        seq![(name, JsonTree::Text(value->Some_0))]
    } else {
        Seq::empty()
    }
}

/// What is published is a JSON object: the title and the content of the webhook
/// message, or those of the request where it has none; the date of the request,
/// or the time where it has none; and the type, which is markdown where the
/// webhook message is. The log gets the same title.
pub proof fn law_published_message(
    params: Map<Seq<char>, JsonTree>,
    cfg: ConfigView,
    now: Seq<char>,
)
    requires
        push_step(params, cfg, now) is Publish,
    ensures
        ({
            let job = push_step(params, cfg, now)->Publish_0;
            let third = third_message(params);
            let title = if third.detected && third.title.len() > 0 {
                Some(third.title)
            } else {
                text_param(params, "title"@)
            };
            let content = if third.detected && third.content.len() > 0 {
                Some(third.content)
            } else {
                text_param(params, "content"@)
            };
            let kind = if third.detected && third.kind == "markdown"@ {
                Some("markdown"@)
            } else {
                text_param(params, "type"@)
            };
            let date = match text_param(params, "date"@) {
                Some(d) => if d.len() > 0 {
                    d
                } else {
                    now
                },
                None => now,
            };
            &&& job.payload == encode_utf8(
                written(
                    JsonTree::Object(
                        one_entry("title"@, title) + one_entry("content"@, content) + seq![
                            ("date"@, JsonTree::Text(date)),
                        ] + one_entry("type"@, kind),
                    ),
                ),
            )
            &&& job.title == if title is Some {
                title->Some_0
            } else {
                Seq::<char>::empty()
            }
            &&& job.third == third.detected
            &&& job.offline_messages == cfg.offline_messages
            &&& job.offline_limit == cfg.offline_limit
        }),
{
}

/// A webhook message is published with its own content where it has some, and
/// as markdown where it is markdown, whatever the request says beside it.
pub proof fn law_webhook_content_is_published(
    params: Map<Seq<char>, JsonTree>,
    cfg: ConfigView,
    now: Seq<char>,
)
    requires
        third_message(params).detected,
        push_step(params, cfg, now) is Publish,
    ensures
        exists|entries: Seq<(Seq<char>, JsonTree)>|
            {
                &&& push_step(params, cfg, now)->Publish_0.payload == encode_utf8(
                    #[trigger] written(JsonTree::Object(entries)),
                )
                &&& third_message(params).title.len() > 0 ==> lookup(entries, "title"@) == Some(
                    JsonTree::Text(third_message(params).title),
                )
                &&& third_message(params).content.len() > 0 ==> lookup(entries, "content"@) == Some(
                    JsonTree::Text(third_message(params).content),
                )
                &&& third_message(params).kind == "markdown"@ ==> lookup(entries, "type"@) == Some(
                    JsonTree::Text("markdown"@),
                )
            },
{
    law_published_message(params, cfg, now);
    let third = third_message(params);
    let title = if third.title.len() > 0 {
        Some(third.title)
    } else {
        text_param(params, "title"@)
    };
    let content = if third.content.len() > 0 {
        Some(third.content)
    } else {
        text_param(params, "content"@)
    };
    let kind = if third.kind == "markdown"@ {
        Some("markdown"@)
    } else {
        text_param(params, "type"@)
    };
    let date = match text_param(params, "date"@) {
        Some(d) => if d.len() > 0 {
            d
        } else {
            now
        },
        None => now,
    };
    lemma_four_entries(title, content, date, kind);
}

proof fn lemma_four_entries(
    title: Option<Seq<char>>,
    content: Option<Seq<char>>,
    date: Seq<char>,
    kind: Option<Seq<char>>,
)
    ensures
        ({
            let entries = one_entry("title"@, title) + one_entry("content"@, content) + seq![
                ("date"@, JsonTree::Text(date)),
            ] + one_entry("type"@, kind);
            &&& title is Some ==> lookup(entries, "title"@) == Some(JsonTree::Text(title->Some_0))
            &&& title is None ==> lookup(entries, "title"@) is None
            &&& content is Some ==> lookup(entries, "content"@) == Some(
                JsonTree::Text(content->Some_0),
            )
            &&& content is None ==> lookup(entries, "content"@) is None
            &&& lookup(entries, "date"@) == Some(JsonTree::Text(date))
            &&& kind is Some ==> lookup(entries, "type"@) == Some(JsonTree::Text(kind->Some_0))
            &&& kind is None ==> lookup(entries, "type"@) is None
        }),
{
    reveal_strlit("title");
    reveal_strlit("content");
    reveal_strlit("date");
    reveal_strlit("type");
    assert("date"@[0] != "type"@[0]);
    assert("date"@.len() == 4 && "type"@.len() == 4 && "title"@.len() == 5 && "content"@.len()
        == 7);
    reveal_with_fuel(lookup, 6);
}

/// A request that is no webhook message is published as it came: its title, its
/// content, its date and its type, and nothing in the place of what it lacks
/// but the time for the date.
pub proof fn law_plain_push_is_published_as_it_came(
    params: Map<Seq<char>, JsonTree>,
    cfg: ConfigView,
    now: Seq<char>,
)
    requires
        !third_message(params).detected,
        push_step(params, cfg, now) is Publish,
    ensures
        exists|entries: Seq<(Seq<char>, JsonTree)>|
            {
                &&& push_step(params, cfg, now)->Publish_0.payload == encode_utf8(
                    #[trigger] written(JsonTree::Object(entries)),
                )
                &&& match text_param(params, "title"@) {
                    Some(t) => lookup(entries, "title"@) == Some(JsonTree::Text(t)),
                    None => lookup(entries, "title"@) is None,
                }
                &&& match text_param(params, "content"@) {
                    Some(t) => lookup(entries, "content"@) == Some(JsonTree::Text(t)),
                    None => lookup(entries, "content"@) is None,
                }
                &&& match text_param(params, "type"@) {
                    Some(t) => lookup(entries, "type"@) == Some(JsonTree::Text(t)),
                    None => lookup(entries, "type"@) is None,
                }
                &&& match text_param(params, "date"@) {
                    Some(t) => lookup(entries, "date"@) == Some(
                        JsonTree::Text(
                            if t.len() > 0 {
                                t
                            } else {
                                now
                            },
                        ),
                    ),
                    None => lookup(entries, "date"@) == Some(JsonTree::Text(now)),
                }
            },
{
    law_published_message(params, cfg, now);
    let date = match text_param(params, "date"@) {
        Some(d) => if d.len() > 0 {
            d
        } else {
            now
        },
        None => now,
    };
    lemma_four_entries(
        text_param(params, "title"@),
        text_param(params, "content"@),
        date,
        text_param(params, "type"@),
    );
}

// ---- to whom ----

/// The push key is the one that the request gives, or the one that its
/// temporary key stands for.
pub proof fn law_push_key_or_temporary_key(
    params: Map<Seq<char>, JsonTree>,
    cfg: ConfigView,
    k: Seq<char>,
)
    ensures
        text_param(params, "push_key"@) == Some(k) ==> push_key_text(params, cfg) == Some(k),
        text_param(params, "push_key"@) is None && text_param(params, "temp_key"@) == Some(k)
            ==> push_key_text(params, cfg) == cfg.find_by_temp_key(k),
        text_param(params, "push_key"@) is None && text_param(params, "temp_key"@) is None
            ==> push_key_text(params, cfg) is None,
{
}

/// The non-empty texts of a list, in order: those of two lists are those of the
/// first and then those of the second.
pub proof fn law_filled_texts_keep_their_order(x: Seq<Seq<char>>, y: Seq<Seq<char>>, k: Seq<char>)
    ensures
        filled(x + y) == filled(x) + filled(y),
        filled(seq![k]) == if k.len() > 0 {
            seq![k]
        } else {
            Seq::<Seq<char>>::empty()
        },
    decreases y.len(),
{
    reveal_with_fuel(filled, 3);
    assert(seq![k].drop_last() =~= Seq::<Seq<char>>::empty());
    if y.len() == 0 {
        assert(x + y =~= x);
        assert(filled(x) + filled(y) =~= filled(x));
    } else {
        assert((x + y).drop_last() =~= x + y.drop_last());
        assert((x + y).last() == y.last());
        law_filled_texts_keep_their_order(x, y.drop_last(), k);
    }
}

proof fn lemma_filled_holds(list: Seq<Seq<char>>, k: Seq<char>)
    ensures
        filled(list).contains(k) <==> k.len() > 0 && list.contains(k),
    decreases list.len(),
{
    if list.len() > 0 {
        let rest = list.drop_last();
        lemma_filled_holds(rest, k);
        assert(list =~= rest.push(list.last()));
        if list.contains(k) {
            let i = list.index_of(k);
            if i < rest.len() {
                assert(rest[i] == k);
            }
        }
        if rest.contains(k) {
            assert(list[rest.index_of(k)] == k);
        }
        if list.last() == k {
            assert(list[list.len() - 1] == k);
        }
        if k.len() > 0 && list.last() == k {
            assert(filled(list).last() == k);
            assert(filled(list)[filled(list).len() - 1] == k);
        }
        if filled(rest).contains(k) && list.last().len() > 0 {
            assert(filled(list)[filled(rest).index_of(k)] == k);
        }
        if filled(list).contains(k) && list.last().len() > 0 {
            let i = filled(list).index_of(k);
            if i < filled(rest).len() {
                assert(filled(rest)[i] == k);
            }
        }
    }
}

/// A push goes to every key that the request names between commas, and to no
/// other; each of them is configured.
pub proof fn law_every_named_key_is_pushed_to(
    params: Map<Seq<char>, JsonTree>,
    cfg: ConfigView,
    now: Seq<char>,
    k: Seq<char>,
)
    requires
        push_step(params, cfg, now) is Publish,
    ensures
        push_key_text(params, cfg) is Some,
        ({
            let named = split(push_key_text(params, cfg)->Some_0, ',');
            let job = push_step(params, cfg, now)->Publish_0;
            &&& job.keys.contains(k) <==> k.len() > 0 && named.contains(k)
            &&& job.keys.contains(k) ==> cfg.key_set().contains(k)
            &&& job.keys == filled(named)
            &&& job.single == (named.len() == 1)
            &&& 1 <= named.len() <= 100
        }),
{
    let named = split(push_key_text(params, cfg)->Some_0, ',');
    lemma_filled_holds(named, k);
    if named.contains(k) {
        assert(named[named.index_of(k)] == k);
    }
}

// ---- when it is published, and when not ----

/// A request with a key, at most a hundred of them and all of them configured,
/// is published, unless its title and content are both empty, or one of them is
/// an object or a list.
pub proof fn law_proper_push_is_published(
    params: Map<Seq<char>, JsonTree>,
    cfg: ConfigView,
    now: Seq<char>,
    key: Seq<char>,
)
    requires
        push_key_text(params, cfg) == Some(key),
        key.len() > 0,
        !(params.contains_key("push_key"@) && (params["push_key"@] is Object || params["push_key"@] is Array)),
        split(key, ',').len() <= 100,
        forall|i: int|
            0 <= i < split(key, ',').len() ==> (#[trigger] split(key, ',')[i]).len() == 0
                || cfg.key_set().contains(split(key, ',')[i]),
        !(params.contains_key("title"@) && (params["title"@] is Object || params["title"@] is Array)),
        !(params.contains_key("content"@) && (params["content"@] is Object || params["content"@] is Array)),
        !(text_param(params, "title"@) == Some(Seq::<char>::empty()) && text_param(
            params,
            "content"@,
        ) == Some(Seq::<char>::empty())),
        !third_message(params).detected,
    ensures
        push_step(params, cfg, now) is Publish,
{
}

/// A webhook message with a title and a content to such keys is published too.
pub proof fn law_proper_webhook_is_published(
    params: Map<Seq<char>, JsonTree>,
    cfg: ConfigView,
    now: Seq<char>,
    key: Seq<char>,
)
    requires
        push_key_text(params, cfg) == Some(key),
        key.len() > 0,
        !(params.contains_key("push_key"@) && (params["push_key"@] is Object || params["push_key"@] is Array)),
        split(key, ',').len() <= 100,
        forall|i: int|
            0 <= i < split(key, ',').len() ==> (#[trigger] split(key, ',')[i]).len() == 0
                || cfg.key_set().contains(split(key, ',')[i]),
        third_message(params).detected,
        third_message(params).content.len() > 0,
        !(params.contains_key("title"@) && (params["title"@] is Object || params["title"@] is Array)),
    ensures
        push_step(params, cfg, now) is Publish,
{
}

/// A request with no key, no title and no content is told what serves here.
pub proof fn law_empty_request_is_greeted(
    params: Map<Seq<char>, JsonTree>,
    cfg: ConfigView,
    now: Seq<char>,
)
    requires
        push_key_text(params, cfg) is None,
        !third_message(params).detected,
        text_param(params, "title"@) is None,
        text_param(params, "content"@) is None,
    ensures
        push_step(params, cfg, now) == StepView::Answer("PushMe Server"@),
{
}

/// A request with a title or a content but no key, or an empty one, is refused;
/// so is one whose key is an object or a list.
pub proof fn law_push_without_key_is_refused(
    params: Map<Seq<char>, JsonTree>,
    cfg: ConfigView,
    now: Seq<char>,
)
    requires
        text_param(params, "title"@) is Some || text_param(params, "content"@) is Some,
        push_key_text(params, cfg) is None || push_key_text(params, cfg)->Some_0.len() == 0,
    ensures
        push_step(params, cfg, now) == StepView::Answer(
            if params.contains_key("push_key"@) && (params["push_key"@] is Object
                || params["push_key"@] is Array) {
                "Push failed, push_key type must be string!"@
            } else {
                "Push failed, empty push_key!"@
            },
        ),
{
}

/// A request whose title is an object or a list, and that is no webhook
/// message, is refused; so is one whose content is.
pub proof fn law_nested_fields_are_refused(
    params: Map<Seq<char>, JsonTree>,
    cfg: ConfigView,
    now: Seq<char>,
    name: Seq<char>,
)
    requires
        name == "title"@ || name == "content"@,
        params.contains_key(name),
        params[name] is Object || params[name] is Array,
        !third_message(params).detected,
        text_param(params, "push_key"@) is Some,
        text_param(params, "push_key"@)->Some_0.len() > 0,
    ensures
        push_step(params, cfg, now) == StepView::Answer(
            "Push failed, the parameter format is incorrect!"@,
        ),
{
}

/// A push to more than a hundred keys is refused, and one that names a key that
/// is not configured.
pub proof fn law_too_many_or_unknown_keys_are_refused(
    params: Map<Seq<char>, JsonTree>,
    cfg: ConfigView,
    now: Seq<char>,
    i: int,
)
    requires
        push_key_text(params, cfg) is Some,
        push_key_text(params, cfg)->Some_0.len() > 0,
        !(params.contains_key("push_key"@) && (params["push_key"@] is Object || params["push_key"@] is Array)),
        text_param(params, "title"@) is Some || third_message(params).detected && third_message(
            params,
        ).title.len() > 0,
        text_param(params, "content"@) is Some || third_message(params).detected && third_message(
            params,
        ).content.len() > 0,
    ensures
        ({
            let named = split(push_key_text(params, cfg)->Some_0, ',');
            &&& named.len() > 100 ==> push_step(params, cfg, now) == StepView::Answer(
                "Push failed, push_key numbers must be less than 100!"@,
            )
            &&& named.len() <= 100 && 0 <= i < named.len() && named[i].len() > 0
                && !cfg.key_set().contains(named[i]) ==> push_step(params, cfg, now)
                == StepView::Answer("非法push_key!"@)
        }),
{
}

/// A push to a configured key whose title and content are both empty is refused.
pub proof fn law_empty_push_is_refused(
    params: Map<Seq<char>, JsonTree>,
    cfg: ConfigView,
    now: Seq<char>,
    key: Seq<char>,
)
    requires
        text_param(params, "push_key"@) == Some(key),
        key.len() > 0,
        split(key, ',').len() <= 100,
        forall|i: int|
            0 <= i < split(key, ',').len() ==> (#[trigger] split(key, ',')[i]).len() == 0
                || cfg.key_set().contains(split(key, ',')[i]),
        text_param(params, "title"@) == Some(Seq::<char>::empty()),
        text_param(params, "content"@) == Some(Seq::<char>::empty()),
        !third_message(params).detected,
    ensures
        push_step(params, cfg, now) == StepView::Answer("Push failed, empty title and content!"@),
{
}

// ---- the answer ----

/// The sender of a push is told how it went: success, or the reason where the
/// one key that it named failed. A webhook gets it in JSON, with a code that is
/// 0 for success.
pub proof fn law_sender_is_told_the_outcome(job: JobView, outcomes: Seq<Result<(), String>>)
    ensures
        ({
            let failed = job.single && outcomes.len() > 0 && outcomes.last() is Err;
            let result = if failed {
                "failed: "@ + outcomes.last()->Err_0@
            } else {
                "success"@
            };
            let code = JsonTree::Number(
                if failed {
                    "1"@
                } else {
                    "0"@
                },
            );
            &&& !job.third ==> push_answer(job, outcomes) == (ReplyView {
                status: 200,
                headers: seq![("content-type"@, "text/plain; charset=utf-8"@)],
                body: encode_utf8(result),
            })
            &&& job.third ==> push_answer(job, outcomes) == (ReplyView {
                status: 200,
                headers: seq![("content-type"@, "application/json"@)],
                body: encode_utf8(
                    crate::json::json_text(
                        JsonTree::Object(
                            seq![
                                ("code"@, code),
                                ("errcode"@, code),
                                ("errmsg"@, JsonTree::Text(result)),
                                ("msg"@, JsonTree::Text(result)),
                            ],
                        ),
                    ),
                ),
            })
        }),
{
    reveal_strlit("success");
    reveal_strlit("failed: ");
    reveal_strlit("0");
    reveal_strlit("1");
    let failed = job.single && outcomes.len() > 0 && outcomes.last() is Err;
    if failed {
        let result = "failed: "@ + outcomes.last()->Err_0@;
        assert(result[0] == 'f');
        assert("success"@[0] == 's');
    }
    assert(crate::text::decimal(0) =~= "0"@);
    assert(crate::text::decimal(1) =~= "1"@);
}

// ---- the parameters of a request ----

/// Entries that come later do not replace earlier ones: a name that is given
/// already stays, and another has the first value that the entries hold.
pub proof fn law_first_entry_counts(
    params: Map<Seq<char>, JsonTree>,
    entries: Seq<(Seq<char>, JsonTree)>,
    k: Seq<char>,
)
    ensures
        ({
            let after = take_entries(params, entries);
            &&& after.contains_key(k) <==> params.contains_key(k) || lookup(entries, k) is Some
            &&& params.contains_key(k) ==> after[k] == params[k]
            &&& !params.contains_key(k) && lookup(entries, k) is Some ==> after[k] == lookup(
                entries,
                k,
            )->Some_0
        }),
    decreases entries.len(),
{
    if entries.len() > 0 {
        law_first_entry_counts(params, entries.drop_last(), k);
        lemma_lookup_last(entries, k);
    }
}

/// The value of a name, by the last entry and those before it.
pub proof fn lemma_lookup_last(entries: Seq<(Seq<char>, JsonTree)>, k: Seq<char>)
    requires
        entries.len() > 0,
    ensures
        lookup(entries, k) == if lookup(entries.drop_last(), k) is Some {
            lookup(entries.drop_last(), k)
        } else if entries.last().0 == k {
            Some(entries.last().1)
        } else {
            None
        },
    decreases entries.len(),
{
    reveal_with_fuel(lookup, 2);
    if entries.len() > 1 {
        lemma_lookup_last(entries.skip(1), k);
        assert(entries.skip(1).drop_last() =~= entries.drop_last().skip(1));
    }
}

/// The parameters of a request: those of the query, then the entries of a JSON
/// body, or the pairs of a form.
pub proof fn law_body_follows_query(
    query: Option<Seq<char>>,
    content_type: Seq<char>,
    body: Seq<u8>,
    entries: Seq<(Seq<char>, JsonTree)>,
    q: Seq<char>,
)
    ensures
        query_params(None) == Map::<Seq<char>, JsonTree>::empty(),
        query_params(Some(q)) == take_pairs(Map::empty(), split(q, '&')),
        is_json_body(content_type) && parsed_tree(body) == Some(JsonTree::Object(entries))
            ==> request_params(query, content_type, body) == take_entries(
            query_params(query),
            entries,
        ),
        lowered(content_type) == "application/x-www-form-urlencoded"@ && valid_utf8(body)
            ==> request_params(query, content_type, body) == take_pairs(
            query_params(query),
            split(decode_utf8(body), '&'),
        ),
        lowered(content_type) == "application/json"@ ==> is_json_body(content_type),
        content_type.len() == 0 ==> request_params(query, content_type, body) == query_params(
            query,
        ),
{
    let low = lowered(content_type);
    reveal_strlit("application/json");
    reveal_strlit("application/x-www-form-urlencoded");
    if low == "application/json"@ {
        assert(low.subrange(0, low.len() as int) =~= low);
        assert(crate::text::stands_at(low, "application/json"@, 0));
    }
    if low == "application/x-www-form-urlencoded"@ {
        assert(low.subrange(0, low.len() as int) =~= low);
        assert(crate::text::stands_at(low, "application/x-www-form-urlencoded"@, 0));
        assert forall|at: int| !crate::text::stands_at(low, "application/json"@, at) by {
            if crate::text::stands_at(low, "application/json"@, at) {
                let cut = low.subrange(at, at + "application/json"@.len());
                assert(cut[12] == 'j');
                assert(low[at + 12] == 'j');
                assert("application/x-www-form-urlencoded"@.len() == 33);
                assert(at <= 17);
            }
        }
    }
}

/// Pairs are taken one after the other, and `name=value` gives the parameter
/// `name` the text `value`, both decoded.
pub proof fn law_pairs_are_taken_in_turn(
    params: Map<Seq<char>, JsonTree>,
    x: Seq<Seq<char>>,
    y: Seq<Seq<char>>,
    name: Seq<char>,
    value: Seq<char>,
)
    requires
        !name.contains('='),
    ensures
        take_pairs(params, x + y) == take_pairs(take_pairs(params, x), y),
        take_pairs(params, x.push(name + seq!['='] + value)) == take_pair(
            take_pairs(params, x),
            name + seq!['='] + value,
        ),
        url_decoded(name).len() > 0 && !params.contains_key(url_decoded(name)) ==> take_pair(
            params,
            name + seq!['='] + value,
        ) == params.insert(url_decoded(name), JsonTree::Text(url_decoded(value))),
        url_decoded(name).len() > 0 && params.contains_key(url_decoded(name)) ==> take_pair(
            params,
            name + seq!['='] + value,
        ) == params,
        take_pair(params, Seq::empty()) == params,
    decreases y.len(),
{
    let pair = name + seq!['='] + value;
    assert(pair[name.len() as int] == '=');
    assert forall|i: int| 0 <= i < name.len() implies pair[i] != '=' by {
        assert(pair[i] == name[i]);
    }
    crate::text::lemma_find_is(pair, '=', name.len() as int);
    assert(pair.take(name.len() as int) =~= name);
    assert(pair.skip(name.len() as int + 1) =~= value);
    assert(x.push(pair).drop_last() =~= x);
    if y.len() == 0 {
        assert(x + y =~= x);
    } else {
        assert((x + y).drop_last() =~= x + y.drop_last());
        law_pairs_are_taken_in_turn(params, x, y.drop_last(), name, value);
    }
}

/// Encoded bytes can be read where they are ASCII, and where nothing in them is
/// encoded; they cannot where two characters follow a percent sign and the
/// second is cut short by it.
pub proof fn law_plain_bytes_can_be_read(b: Seq<u8>, x: u8, y: u8, c: u8)
    ensures
        (forall|i: int| 0 <= i < b.len() ==> (#[trigger] b[i]) < 128) ==> no_cut_escape(b),
        (forall|i: int| 0 <= i < b.len() ==> (#[trigger] b[i]) != 37) ==> no_cut_escape(b),
        128 <= c < 192 ==> !no_cut_escape(seq![37u8, x, y, c]),
    decreases b.len(),
{
    if b.len() > 0 {
        law_plain_bytes_can_be_read(b.skip(1), x, y, c);
        if forall|i: int| 0 <= i < b.len() ==> (#[trigger] b[i]) < 128 {
            assert forall|i: int| 0 <= i < b.skip(1).len() implies (#[trigger] b.skip(1)[i])
                < 128 by {
                assert(b[i + 1] < 128);
            }
            if b.len() > 3 {
                assert(b[3] < 128);
            }
            if b.len() > 2 {
                law_plain_bytes_can_be_read(b.skip(3), x, y, c);
                assert forall|i: int| 0 <= i < b.skip(3).len() implies (#[trigger] b.skip(3)[i])
                    < 128 by {
                    assert(b[i + 3] < 128);
                }
            }
        }
        if forall|i: int| 0 <= i < b.len() ==> (#[trigger] b[i]) != 37 {
            assert forall|i: int| 0 <= i < b.skip(1).len() implies (#[trigger] b.skip(1)[i])
                != 37 by {
                assert(b[i + 1] != 37);
            }
            assert(b[0] != 37);
        }
    }
    assert(seq![37u8, x, y, c][3] == c);
}

/// A text of ASCII characters can be decoded.
pub proof fn law_ascii_text_can_be_decoded(s: Seq<char>)
    requires
        forall|i: int| 0 <= i < s.len() ==> '\0' <= (#[trigger] s[i]) <= '\u{7f}',
    ensures
        url_decodable(s),
{
    assert(vstd::utf8::is_ascii_chars(s));
    vstd::utf8::is_ascii_chars_encode_utf8(s);
    let b = encode_utf8(s);
    assert forall|i: int| 0 <= i < b.len() implies (#[trigger] b[i]) < 128 by {
        assert(s[i] <= '\u{7f}');
        assert(s[i] as u8 == b[i]);
    }
    law_plain_bytes_can_be_read(b, 0, 0, 0);
}

/// Pairs can be read where every name and every value can be decoded, and cannot
/// where a name cannot.
pub proof fn law_decodable_pairs_can_be_read(
    params: Map<Seq<char>, JsonTree>,
    pairs: Seq<Seq<char>>,
)
    ensures
        (forall|i: int|
            0 <= i < pairs.len() ==> url_decodable(pair_key(#[trigger] pairs[i])) && url_decodable(
                pair_value(pairs[i]),
            )) ==> pairs_ok(params, pairs),
        pairs_ok(params, pairs) ==> forall|i: int|
            0 <= i < pairs.len() && pairs[i].len() > 0 ==> url_decodable(
                pair_key(#[trigger] pairs[i]),
            ),
    decreases pairs.len(),
{
    if pairs.len() > 0 {
        let rest = pairs.drop_last();
        law_decodable_pairs_can_be_read(params, rest);
        if forall|i: int|
            0 <= i < pairs.len() ==> url_decodable(pair_key(#[trigger] pairs[i])) && url_decodable(
                pair_value(pairs[i]),
            ) {
            assert forall|i: int| 0 <= i < rest.len() implies url_decodable(
                pair_key(#[trigger] rest[i]),
            ) && url_decodable(pair_value(rest[i])) by {
                assert(rest[i] == pairs[i]);
            }
            assert(url_decodable(pair_key(pairs[pairs.len() - 1])));
        }
        if pairs_ok(params, pairs) {
            assert forall|i: int| 0 <= i < pairs.len() && pairs[i].len() > 0 implies url_decodable(
                pair_key(#[trigger] pairs[i]),
            ) by {
                if i < rest.len() {
                    assert(rest[i] == pairs[i]);
                }
            }
        }
    }
}

/// A request can be read where the pairs of its query can, and those of its body
/// where it is a form.
pub proof fn law_requests_can_be_read(q: Seq<char>, content_type: Seq<char>, body: Seq<u8>)
    ensures
        content_type.len() == 0 ==> request_ok(None, content_type, body),
        is_json_body(content_type) ==> request_ok(None, content_type, body),
        content_type.len() == 0 || is_json_body(content_type) ==> (request_ok(
            Some(q),
            content_type,
            body,
        ) <==> pairs_ok(Map::empty(), split(q, '&'))),
        lowered(content_type) == "application/x-www-form-urlencoded"@ && valid_utf8(body) ==> (
        request_ok(None, content_type, body) <==> pairs_ok(
            Map::empty(),
            split(decode_utf8(body), '&'),
        )),
{
    law_body_follows_query(None, content_type, body, Seq::empty(), q);
    reveal_strlit("application/x-www-form-urlencoded");
    reveal_strlit("application/json");
    let low = lowered(content_type);
    if low == "application/x-www-form-urlencoded"@ {
        assert(low.subrange(0, low.len() as int) =~= low);
        assert(crate::text::stands_at(low, "application/x-www-form-urlencoded"@, 0));
        assert forall|at: int| !crate::text::stands_at(low, "application/json"@, at) by {
            if crate::text::stands_at(low, "application/json"@, at) {
                let cut = low.subrange(at, at + "application/json"@.len());
                assert(cut[12] == 'j');
                assert(low[at + 12] == 'j');
                assert(at <= 17);
            }
        }
    }
}

// ---- the public port ----

/// What a request to the public port is for: at the root, OPTIONS asks about
/// other origins and anything else pushes; an upgrade to a WebSocket carries
/// MQTT at any path; and nothing else is served.
pub proof fn law_requests_are_routed(method: Seq<char>, connection: Seq<char>, upgrade: Seq<char>)
    ensures
        route_of(true, "OPTIONS"@, connection, upgrade) == Route::Preflight,
        connection.len() == 0 && method != "OPTIONS"@ ==> route_of(
            true,
            method,
            connection,
            upgrade,
        ) == Route::Push,
        lowered(upgrade) != "websocket"@ && method != "OPTIONS"@ ==> route_of(
            true,
            method,
            connection,
            upgrade,
        ) == Route::Push,
        lowered(upgrade) != "websocket"@ ==> route_of(false, method, connection, upgrade)
            == Route::Missing,
        lowered(connection) == "upgrade"@ && lowered(upgrade) == "websocket"@ ==> {
            &&& route_of(false, method, connection, upgrade) == Route::Socket
            &&& method != "OPTIONS"@ ==> route_of(true, method, connection, upgrade)
                == Route::Socket
        },
{
    reveal_strlit("upgrade");
    if lowered(connection) == "upgrade"@ {
        let low = lowered(connection);
        assert(low.subrange(0, low.len() as int) =~= low);
        assert(crate::text::stands_at(low, "upgrade"@, 0));
    }
}

/// Every answer of the public port may be read from any origin; nothing else of
/// it changes.
pub proof fn law_any_origin_may_read(r: ReplyView)
    ensures
        with_cors_of(r).status == r.status,
        with_cors_of(r).body == r.body,
        with_cors_of(r).headers == r.headers + seq![
            ("access-control-allow-origin"@, "*"@),
            ("access-control-allow-methods"@, "GET, POST, PUT, DELETE, OPTIONS"@),
            (
                "access-control-allow-headers"@,
                "Content-Type, Authorization, X-Requested-With, Accept, Origin"@,
            ),
            ("access-control-max-age"@, "86400"@),
        ],
{
}

// ---- what is seen of a push from outside ----

/// A push is seen as it is.
pub proof fn law_pushes_are_seen_as_they_are(job: PushJob, step: PushStep)
    ensures
        job@.keys.len() == job.keys@.len(),
        forall|i: int| 0 <= i < job.keys@.len() ==> (#[trigger] job@.keys[i]) == job.keys@[i]@,
        job@.single == job.single,
        job@.title == job.title@,
        job@.payload == job.payload@,
        job@.third == job.third,
        job@.offline_messages == job.offline_messages,
        job@.offline_limit == job.offline_limit,
        match step {
            PushStep::Answer(s) => step@ == StepView::Answer(s@),
            PushStep::Publish(j) => step@ == StepView::Publish(j@),
        },
{
}

/// A parameter is seen with the value that stands beside its name.
pub proof fn law_params_are_seen_as_they_are(params: Params, i: int)
    requires
        params.wf(),
        0 <= i < params.map@.len(),
    ensures
        params@.contains_key(params.map@[i].0@),
        params@[params.map@[i].0@] == params.map@[i].1@,
{
    let entries = crate::json::entry_trees(params.map@);
    assert forall|j: int| 0 <= j < i implies entries[j].0 != entries[i].0 by {
        assert(params.map@[j].0@ != params.map@[i].0@);
    }
    lemma_lookup_at(entries, i);
}

/// The first entry of a name has its value.
pub proof fn lemma_lookup_at(entries: Seq<(Seq<char>, JsonTree)>, i: int)
    requires
        0 <= i < entries.len(),
        forall|j: int| 0 <= j < i ==> (#[trigger] entries[j]).0 != entries[i].0,
    ensures
        lookup(entries, entries[i].0) == Some(entries[i].1),
    decreases i,
{
    if i > 0 {
        assert(entries[0].0 != entries[i].0);
        let rest = entries.skip(1);
        assert forall|j: int| 0 <= j < i - 1 implies (#[trigger] rest[j]).0 != rest[i - 1].0 by {
            assert(rest[j] == entries[j + 1]);
        }
        lemma_lookup_at(rest, i - 1);
    }
}

} // verus!
