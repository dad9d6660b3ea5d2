//! What webhook messages of other platforms become: each kind of message, and
//! the lists in them, item by item.

use crate::feishu::{
    card_action, card_actions, card_element, card_elements, feishu_message, note_lines,
    post_element, post_elements, post_lines,
};
use crate::json::JsonTree;
use crate::third::{
    escape_value, field_of, items_of, loose_text, strict_text, text_param, third_message,
    unescaped, ThirdData, ThirdView,
};
use crate::weiding::{articles, buttons, feed, weiding_message};
use vstd::prelude::*;

verus! {

broadcast use vstd::string::group_string_axioms;

// ---- which messages they are ----

/// A request with `msg_type` holds a message of one platform in `content`; one
/// with `msgtype` alone holds a message of two others, in the field that is
/// named after the type; any other is no webhook message.
pub proof fn law_webhooks_are_told_apart(
    params: Map<Seq<char>, JsonTree>,
    name: Seq<char>,
    node: JsonTree,
)
    ensures
        text_param(params, "msg_type"@) == Some(name) && params.contains_key("content"@)
            && params["content"@] == node ==> third_message(params) == feishu_message(
            name,
            Some(node),
        ),
        text_param(params, "msg_type"@) == Some(name) && !params.contains_key("content"@)
            ==> third_message(params) == feishu_message(name, None),
        text_param(params, "msg_type"@) is None && text_param(params, "msgtype"@) == Some(name)
            && params.contains_key(name) && params[name] == node ==> third_message(params)
            == weiding_message(name, Some(node)),
        text_param(params, "msg_type"@) is None && text_param(params, "msgtype"@) == Some(name)
            && !params.contains_key(name) ==> third_message(params) == weiding_message(name, None),
        third_message(params).detected <==> text_param(params, "msg_type"@) is Some || text_param(
            params,
            "msgtype"@,
        ) is Some,
{
}

/// The text of a parameter is the one it holds, or the number or the boolean as
/// it is written; nothing else has one.
pub proof fn law_parameters_are_read_as_text(
    params: Map<Seq<char>, JsonTree>,
    name: Seq<char>,
    s: Seq<char>,
)
    ensures
        !params.contains_key(name) ==> text_param(params, name) is None,
        params.contains_key(name) && params[name] == JsonTree::Text(s) ==> text_param(params, name)
            == Some(s),
        params.contains_key(name) && params[name] == JsonTree::Number(s) ==> text_param(
            params,
            name,
        ) == Some(s),
        params.contains_key(name) && params[name] == JsonTree::Bool(true) ==> text_param(
            params,
            name,
        ) == Some("true"@),
        params.contains_key(name) && params[name] == JsonTree::Bool(false) ==> text_param(
            params,
            name,
        ) == Some("false"@),
        params.contains_key(name) && (params[name] is Null || params[name] is Array
            || params[name] is Object) ==> text_param(params, name) is None,
{
}

/// What is read of a field that may be missing: a text as it is, a number where
/// numbers count, and else nothing.
pub proof fn law_fields_are_read_as_text(t: JsonTree, s: Seq<char>, key: Seq<char>, list: Seq<JsonTree>)
    ensures
        loose_text(Some(JsonTree::Text(s))) == s,
        loose_text(Some(JsonTree::Number(s))) == s,
        loose_text(None) == Seq::<char>::empty(),
        !(t is Text) && !(t is Number) ==> loose_text(Some(t)) == Seq::<char>::empty(),
        strict_text(Some(JsonTree::Text(s))) == s,
        strict_text(None) == Seq::<char>::empty(),
        !(t is Text) ==> strict_text(Some(t)) == Seq::<char>::empty(),
        field_of(Some(t), key) == t.field(key),
        field_of(None, key) is None,
        items_of(Some(JsonTree::Array(list))) == list,
        items_of(None) == Seq::<JsonTree>::empty(),
        !(t is Array) ==> items_of(Some(t)) == Seq::<JsonTree>::empty(),
{
}

/// A webhook message is seen as it is.
pub proof fn law_webhooks_are_seen_as_they_are(data: ThirdData)
    ensures
        data@.title == data.title@,
        data@.content == data.content@,
        data@.kind == data.kind@,
        data@.detected == data.detected,
{
}

// ---- lists of articles, links and buttons ----

/// Articles stand one after the other: those of two lists are those of the first
/// and then those of the second. One of them is a heading, a description, a
/// picture and a link.
pub proof fn law_articles_stand_one_after_the_other(x: Seq<JsonTree>, y: Seq<JsonTree>, t: JsonTree)
    ensures
        articles(x + y) == articles(x) + articles(y),
        articles(Seq::empty()) == Seq::<char>::empty(),
        articles(seq![t]) == "## "@ + loose_text(t.field("title"@)) + "\n"@ + loose_text(
            t.field("description"@),
        ) + "\n![]("@ + loose_text(t.field("picurl"@)) + ")\n[阅读原文]("@ + loose_text(
            t.field("url"@),
        ) + ")\n\n"@,
    decreases y.len(),
{
    reveal_with_fuel(articles, 2);
    assert(seq![t].drop_last() =~= Seq::<JsonTree>::empty());
    lemma_picture(loose_text(t.field("picurl"@)), loose_text(t.field("url"@)));
    reveal_strlit(")");
    reveal_strlit("\n\n");
    reveal_strlit(")\n\n");
    assert(")"@ + "\n\n"@ =~= ")\n\n"@);
    let tail = "\n![]("@ + loose_text(t.field("picurl"@)) + ")\n[阅读原文]("@ + loose_text(
        t.field("url"@),
    );
    assert((tail + ")"@) + "\n\n"@ =~= tail + ")\n\n"@);
    assert(articles(seq![t]) =~= "## "@ + loose_text(t.field("title"@)) + "\n"@ + loose_text(
        t.field("description"@),
    ) + "\n![]("@ + loose_text(t.field("picurl"@)) + ")\n[阅读原文]("@ + loose_text(t.field("url"@))
        + ")\n\n"@);
    if y.len() == 0 {
        assert(x + y =~= x);
        assert(articles(x) + articles(y) =~= articles(x));
    } else {
        assert((x + y).drop_last() =~= x + y.drop_last());
        law_articles_stand_one_after_the_other(x, y.drop_last(), t);
        assert(articles(x + y) =~= articles(x) + articles(y));
    }
}

proof fn lemma_picture(picture: Seq<char>, target: Seq<char>)
    ensures
        crate::weiding::picture_and_link(picture, target) == "\n![]("@ + picture
            + ")\n[阅读原文]("@ + target + ")"@,
{
    reveal_strlit("\n!");
    reveal_strlit("[");
    reveal_strlit("](");
    reveal_strlit(")");
    reveal_strlit("\n");
    reveal_strlit("阅读原文");
    reveal_strlit("\n![](");
    reveal_strlit(")\n[阅读原文](");
    assert("\n!"@ + ("["@ + Seq::<char>::empty() + "]("@) =~= "\n![]("@);
    assert(")"@ + "\n"@ + ("["@ + "阅读原文"@ + "]("@) =~= ")\n[阅读原文]("@);
    assert(crate::weiding::picture_and_link(picture, target) =~= ("\n!"@ + ("["@
        + Seq::<char>::empty() + "]("@)) + picture + (")"@ + "\n"@ + ("["@ + "阅读原文"@ + "]("@))
        + target + ")"@);
}

/// The links of a feed stand one after the other, each as a heading, a picture
/// and a link.
pub proof fn law_feed_links_stand_one_after_the_other(
    x: Seq<JsonTree>,
    y: Seq<JsonTree>,
    t: JsonTree,
)
    ensures
        feed(x + y) == feed(x) + feed(y),
        feed(Seq::empty()) == Seq::<char>::empty(),
        feed(seq![t]) == "## "@ + loose_text(t.field("title"@)) + "\n![]("@ + loose_text(
            t.field("picURL"@),
        ) + ")\n[阅读原文]("@ + loose_text(t.field("messageURL"@)) + ")\n\n"@,
    decreases y.len(),
{
    reveal_with_fuel(feed, 2);
    assert(seq![t].drop_last() =~= Seq::<JsonTree>::empty());
    lemma_picture(loose_text(t.field("picURL"@)), loose_text(t.field("messageURL"@)));
    reveal_strlit(")");
    reveal_strlit("\n\n");
    reveal_strlit(")\n\n");
    assert(")"@ + "\n\n"@ =~= ")\n\n"@);
    assert(feed(seq![t]) =~= "## "@ + loose_text(t.field("title"@)) + "\n![]("@ + loose_text(
        t.field("picURL"@),
    ) + ")\n[阅读原文]("@ + loose_text(t.field("messageURL"@)) + ")\n\n"@);
    if y.len() == 0 {
        assert(x + y =~= x);
        assert(feed(x) + feed(y) =~= feed(x));
    } else {
        assert((x + y).drop_last() =~= x + y.drop_last());
        law_feed_links_stand_one_after_the_other(x, y.drop_last(), t);
        assert(feed(x + y) =~= feed(x) + feed(y));
    }
}

/// The buttons of a card stand one after the other, each as a link in a line of
/// its own.
pub proof fn law_buttons_stand_one_after_the_other(x: Seq<JsonTree>, y: Seq<JsonTree>, t: JsonTree)
    ensures
        buttons(x + y) == buttons(x) + buttons(y),
        buttons(Seq::empty()) == Seq::<char>::empty(),
        buttons(seq![t]) == "\n["@ + loose_text(t.field("title"@)) + "]("@ + loose_text(
            t.field("actionURL"@),
        ) + ")"@,
    decreases y.len(),
{
    reveal_with_fuel(buttons, 2);
    assert(seq![t].drop_last() =~= Seq::<JsonTree>::empty());
    reveal_strlit("\n");
    reveal_strlit("[");
    reveal_strlit("\n[");
    assert("\n"@ + "["@ =~= "\n["@);
    assert(buttons(seq![t]) =~= "\n["@ + loose_text(t.field("title"@)) + "]("@ + loose_text(
        t.field("actionURL"@),
    ) + ")"@);
    if y.len() == 0 {
        assert(x + y =~= x);
        assert(buttons(x) + buttons(y) =~= buttons(x));
    } else {
        assert((x + y).drop_last() =~= x + y.drop_last());
        law_buttons_stand_one_after_the_other(x, y.drop_last(), t);
        assert(buttons(x + y) =~= buttons(x) + buttons(y));
    }
}

// ---- messages with `msgtype` ----

/// Messages with text alone: `text` is its content, `markdown` its content or
/// its title and text, and `file` the id of the file.
pub proof fn law_text_messages(node: Option<JsonTree>)
    ensures
        weiding_message("text"@, node) == (ThirdView {
            title: Seq::empty(),
            content: loose_text(field_of(node, "content"@)),
            kind: "text"@,
            detected: true,
        }),
        field_of(node, "content"@) is Some ==> weiding_message("markdown"@, node) == (ThirdView {
            title: Seq::empty(),
            content: loose_text(field_of(node, "content"@)),
            kind: "markdown"@,
            detected: true,
        }),
        field_of(node, "content"@) is None ==> weiding_message("markdown"@, node) == (ThirdView {
            title: loose_text(field_of(node, "title"@)),
            content: loose_text(field_of(node, "text"@)),
            kind: "markdown"@,
            detected: true,
        }),
        weiding_message("file"@, node) == (ThirdView {
            title: Seq::empty(),
            content: "文件media_id："@ + loose_text(field_of(node, "media_id"@)),
            kind: "markdown"@,
            detected: true,
        }),
{
    reveal_strlit("text");
    reveal_strlit("markdown");
    reveal_strlit("image");
    reveal_strlit("news");
    reveal_strlit("file");
    assert("text"@.len() == 4 && "file"@.len() == 4 && "news"@.len() == 4 && "image"@.len() == 5
        && "markdown"@.len() == 8);
    assert("text"@[0] == 't' && "file"@[0] == 'f' && "news"@[0] == 'n');
}

/// Messages that are not carried over say so.
pub proof fn law_unsupported_messages_say_so(node: Option<JsonTree>)
    ensures
        weiding_message("image"@, node) == (ThirdView {
            title: Seq::empty(),
            content: "暂不支持base64图片"@,
            kind: "markdown"@,
            detected: true,
        }),
        weiding_message("template_card"@, node) == (ThirdView {
            title: Seq::empty(),
            content: "暂不支持模板卡片消息"@,
            kind: "markdown"@,
            detected: true,
        }),
{
    reveal_strlit("text");
    reveal_strlit("markdown");
    reveal_strlit("image");
    reveal_strlit("news");
    reveal_strlit("file");
    reveal_strlit("template_card");
    assert("text"@.len() == 4 && "file"@.len() == 4 && "news"@.len() == 4 && "image"@.len() == 5
        && "markdown"@.len() == 8 && "template_card"@.len() == 13);
}

/// News is its articles, a link message its text, picture and link, and a feed
/// its links.
pub proof fn law_messages_with_links(node: Option<JsonTree>)
    ensures
        weiding_message("news"@, node) == (ThirdView {
            title: Seq::empty(),
            content: articles(items_of(field_of(node, "articles"@))),
            kind: "markdown"@,
            detected: true,
        }),
        weiding_message("link"@, node) == (ThirdView {
            title: loose_text(field_of(node, "title"@)),
            content: loose_text(field_of(node, "text"@)) + ("\n![]("@ + loose_text(
                field_of(node, "picUrl"@),
            ) + ")\n[阅读原文]("@ + loose_text(field_of(node, "messageUrl"@)) + ")"@),
            kind: "markdown"@,
            detected: true,
        }),
        weiding_message("feedCard"@, node) == (ThirdView {
            title: Seq::empty(),
            content: feed(items_of(field_of(node, "links"@))),
            kind: "markdown"@,
            detected: true,
        }),
{
    lemma_picture(
        loose_text(field_of(node, "picUrl"@)),
        loose_text(field_of(node, "messageUrl"@)),
    );
    lemma_later_types();
}

proof fn lemma_later_types()
    ensures
        "news"@ != "text"@ && "news"@ != "markdown"@ && "news"@ != "image"@,
        "link"@ != "text"@ && "link"@ != "markdown"@ && "link"@ != "image"@ && "link"@ != "news"@,
        "link"@ != "file"@ && "link"@ != "template_card"@,
        "actionCard"@ != "text"@ && "actionCard"@ != "markdown"@ && "actionCard"@ != "image"@,
        "actionCard"@ != "news"@ && "actionCard"@ != "file"@ && "actionCard"@ != "template_card"@,
        "actionCard"@ != "link"@,
        "feedCard"@ != "text"@ && "feedCard"@ != "markdown"@ && "feedCard"@ != "image"@,
        "feedCard"@ != "news"@ && "feedCard"@ != "file"@ && "feedCard"@ != "template_card"@,
        "feedCard"@ != "link"@ && "feedCard"@ != "actionCard"@,
{
    reveal_strlit("text");
    reveal_strlit("markdown");
    reveal_strlit("image");
    reveal_strlit("news");
    reveal_strlit("file");
    reveal_strlit("template_card");
    reveal_strlit("link");
    reveal_strlit("actionCard");
    reveal_strlit("feedCard");
    assert("text"@.len() == 4 && "file"@.len() == 4 && "news"@.len() == 4 && "link"@.len() == 4);
    assert("image"@.len() == 5 && "markdown"@.len() == 8 && "feedCard"@.len() == 8);
    assert("template_card"@.len() == 13 && "actionCard"@.len() == 10);
    assert("text"@[0] == 't' && "file"@[0] == 'f' && "news"@[0] == 'n' && "link"@[0] == 'l');
    assert("markdown"@[0] == 'm' && "feedCard"@[0] == 'f');
}

/// A card is its title, its text and then its one link, where it has one, or
/// its buttons.
pub proof fn law_card_messages(node: Option<JsonTree>)
    ensures
        ({
            let card = weiding_message("actionCard"@, node);
            &&& card.detected
            &&& card.kind == "markdown"@
            &&& card.title == loose_text(field_of(node, "title"@))
            &&& field_of(node, "singleURL"@) is Some ==> card.content == loose_text(
                field_of(node, "text"@),
            ) + ("\n["@ + loose_text(field_of(node, "singleTitle"@)) + "]("@ + loose_text(
                field_of(node, "singleURL"@),
            ) + ")"@)
            &&& field_of(node, "singleURL"@) is None ==> card.content == loose_text(
                field_of(node, "text"@),
            ) + buttons(items_of(field_of(node, "btns"@)))
        }),
{
    lemma_later_types();
    reveal_strlit("\n");
    reveal_strlit("[");
    reveal_strlit("\n[");
    assert("\n"@ + "["@ =~= "\n["@);
    let label = loose_text(field_of(node, "singleTitle"@));
    let target = loose_text(field_of(node, "singleURL"@));
    assert("\n"@ + ("["@ + label + "]("@ + target + ")"@) =~= "\n["@ + label + "]("@ + target
        + ")"@);
}

/// A message of a type that is not known is detected, with nothing in it.
pub proof fn law_unknown_messages_are_empty(
    name: Seq<char>,
    node: Option<JsonTree>,
    content: Option<JsonTree>,
)
    ensures
        !(seq![
            "text"@,
            "markdown"@,
            "image"@,
            "news"@,
            "file"@,
            "template_card"@,
            "link"@,
            "actionCard"@,
            "feedCard"@,
        ]).contains(name) ==> weiding_message(name, node) == (ThirdView {
            title: Seq::empty(),
            content: Seq::empty(),
            kind: Seq::empty(),
            detected: true,
        }),
        !(seq!["text"@, "post"@, "share_chat"@, "image"@, "interactive"@]).contains(name)
            ==> feishu_message(name, content) == (ThirdView {
            title: Seq::empty(),
            content: Seq::empty(),
            kind: Seq::empty(),
            detected: true,
        }),
{
    let types = seq![
        "text"@,
        "markdown"@,
        "image"@,
        "news"@,
        "file"@,
        "template_card"@,
        "link"@,
        "actionCard"@,
        "feedCard"@,
    ];
    let others = seq!["text"@, "post"@, "share_chat"@, "image"@, "interactive"@];
    assert(types[0] == "text"@ && types[1] == "markdown"@ && types[2] == "image"@ && types[3]
        == "news"@ && types[4] == "file"@ && types[5] == "template_card"@ && types[6] == "link"@
        && types[7] == "actionCard"@ && types[8] == "feedCard"@);
    assert(others[0] == "text"@ && others[1] == "post"@ && others[2] == "share_chat"@ && others[3]
        == "image"@ && others[4] == "interactive"@);
}

// ---- messages with `msg_type` ----

/// The elements of a post stand one after the other, each in a line of its own:
/// a text, a link, a mention or a picture.
pub proof fn law_post_elements_stand_one_after_the_other(
    x: Seq<JsonTree>,
    y: Seq<JsonTree>,
    t: JsonTree,
)
    ensures
        post_elements(x + y) == post_elements(x) + post_elements(y),
        post_elements(seq![t]) == post_element(t),
        t.field("tag"@) == Some(JsonTree::Text("text"@)) ==> post_element(t) == strict_text(
            t.field("text"@),
        ) + "\n"@,
        t.field("tag"@) == Some(JsonTree::Text("a"@)) ==> post_element(t) == "["@ + strict_text(
            t.field("text"@),
        ) + "]("@ + strict_text(t.field("href"@)) + ")"@ + "\n"@,
        t.field("tag"@) == Some(JsonTree::Text("at"@)) ==> post_element(t) == "@"@ + strict_text(
            t.field("user_id"@),
        ) + "\n"@,
        t.field("tag"@) == Some(JsonTree::Text("img"@)) ==> post_element(t) == "图片，image_key："@
            + strict_text(t.field("image_key"@)) + "\n"@,
        t.field("tag"@) != Some(JsonTree::Text("text"@)) && t.field("tag"@) != Some(
            JsonTree::Text("a"@),
        ) && t.field("tag"@) != Some(JsonTree::Text("at"@)) && t.field("tag"@) != Some(
            JsonTree::Text("img"@),
        ) ==> post_element(t) == Seq::<char>::empty(),
    decreases y.len(),
{
    reveal_with_fuel(post_elements, 2);
    assert(seq![t].drop_last() =~= Seq::<JsonTree>::empty());
    assert(post_elements(seq![t]) =~= post_element(t));
    lemma_tags();
    if y.len() == 0 {
        assert(x + y =~= x);
        assert(post_elements(x) + post_elements(y) =~= post_elements(x));
    } else {
        assert((x + y).drop_last() =~= x + y.drop_last());
        law_post_elements_stand_one_after_the_other(x, y.drop_last(), t);
        assert(post_elements(x + y) =~= post_elements(x) + post_elements(y));
    }
}

proof fn lemma_tags()
    ensures
        "a"@ != "text"@ && "at"@ != "text"@ && "at"@ != "a"@ && "img"@ != "text"@ && "img"@ != "a"@
            && "img"@ != "at"@,
        "hr"@ != "button"@ && "img"@ != "button"@ && "img"@ != "hr"@ && "markdown"@ != "button"@
            && "markdown"@ != "hr"@ && "markdown"@ != "img"@,
        "note"@ != "button"@ && "note"@ != "hr"@ && "note"@ != "img"@ && "note"@ != "markdown"@,
        "action"@ != "div"@,
        "post"@ != "text"@ && "share_chat"@ != "text"@ && "share_chat"@ != "post"@ && "image"@
            != "text"@ && "image"@ != "post"@ && "image"@ != "share_chat"@,
        "interactive"@ != "text"@ && "interactive"@ != "post"@ && "interactive"@ != "share_chat"@
            && "interactive"@ != "image"@,
{
    reveal_strlit("a");
    reveal_strlit("at");
    reveal_strlit("img");
    reveal_strlit("text");
    reveal_strlit("button");
    reveal_strlit("hr");
    reveal_strlit("markdown");
    reveal_strlit("note");
    reveal_strlit("action");
    reveal_strlit("div");
    reveal_strlit("post");
    reveal_strlit("share_chat");
    reveal_strlit("image");
    reveal_strlit("interactive");
    assert("a"@.len() == 1 && "at"@.len() == 2 && "img"@.len() == 3 && "text"@.len() == 4);
    assert("button"@.len() == 6 && "hr"@.len() == 2 && "markdown"@.len() == 8 && "note"@.len()
        == 4);
    assert("action"@.len() == 6 && "div"@.len() == 3 && "post"@.len() == 4);
    assert("share_chat"@.len() == 10 && "image"@.len() == 5 && "interactive"@.len() == 11);
    assert("post"@[0] == 'p' && "text"@[0] == 't');
}

/// The rows of a post stand one after the other, each as its elements; an
/// element outside a row stands for itself.
pub proof fn law_post_rows_stand_one_after_the_other(
    x: Seq<JsonTree>,
    y: Seq<JsonTree>,
    row: Seq<JsonTree>,
    t: JsonTree,
)
    ensures
        post_lines(x + y) == post_lines(x) + post_lines(y),
        post_lines(Seq::empty()) == Seq::<char>::empty(),
        post_lines(seq![JsonTree::Array(row)]) == post_elements(row),
        !(t is Array) ==> post_lines(seq![t]) == post_elements(seq![t]),
    decreases y.len(),
{
    reveal_with_fuel(post_lines, 2);
    reveal_with_fuel(post_elements, 2);
    let one = seq![JsonTree::Array(row)];
    assert(one.drop_last() =~= Seq::<JsonTree>::empty());
    assert(seq![t].drop_last() =~= Seq::<JsonTree>::empty());
    assert(post_lines(one) =~= post_elements(row));
    if y.len() == 0 {
        assert(x + y =~= x);
        assert(post_lines(x) + post_lines(y) =~= post_lines(x));
    } else {
        assert((x + y).drop_last() =~= x + y.drop_last());
        law_post_rows_stand_one_after_the_other(x, y.drop_last(), row, t);
        assert(post_lines(x + y) =~= post_lines(x) + post_lines(y));
    }
}

/// The elements of a note stand one after the other, each as its content in a
/// line of its own.
pub proof fn law_notes_stand_one_after_the_other(x: Seq<JsonTree>, y: Seq<JsonTree>, t: JsonTree)
    ensures
        note_lines(x + y) == note_lines(x) + note_lines(y),
        note_lines(Seq::empty()) == Seq::<char>::empty(),
        note_lines(seq![t]) == loose_text(t.field("content"@)) + "\n"@,
    decreases y.len(),
{
    reveal_with_fuel(note_lines, 2);
    assert(seq![t].drop_last() =~= Seq::<JsonTree>::empty());
    assert(note_lines(seq![t]) =~= loose_text(t.field("content"@)) + "\n"@);
    if y.len() == 0 {
        assert(x + y =~= x);
        assert(note_lines(x) + note_lines(y) =~= note_lines(x));
    } else {
        assert((x + y).drop_last() =~= x + y.drop_last());
        law_notes_stand_one_after_the_other(x, y.drop_last(), t);
        assert(note_lines(x + y) =~= note_lines(x) + note_lines(y));
    }
}

/// The actions of a card stand one after the other: a button is a link, a rule
/// a line, a picture its key, markdown its content and a note its lines.
pub proof fn law_card_actions_stand_one_after_the_other(
    x: Seq<JsonTree>,
    y: Seq<JsonTree>,
    t: JsonTree,
)
    ensures
        card_actions(x + y) == card_actions(x) + card_actions(y),
        card_actions(Seq::empty()) == Seq::<char>::empty(),
        card_actions(seq![t]) == card_action(t),
        t.field("tag"@) == Some(JsonTree::Text("button"@)) ==> card_action(t) == "["@ + loose_text(
            field_of(t.field("text"@), "content"@),
        ) + "]("@ + loose_text(t.field("url"@)) + ")"@ + "\n"@,
        t.field("tag"@) == Some(JsonTree::Text("hr"@)) ==> card_action(t)
            == "---------------------\n"@,
        t.field("tag"@) == Some(JsonTree::Text("img"@)) ==> card_action(t) == "图片，image_key："@
            + loose_text(t.field("img_key"@)) + "\n"@,
        t.field("tag"@) == Some(JsonTree::Text("markdown"@)) ==> card_action(t) == loose_text(
            t.field("content"@),
        ) + "\n"@,
        t.field("tag"@) == Some(JsonTree::Text("note"@)) ==> card_action(t) == "备注：\n"@
            + note_lines(items_of(t.field("elements"@))),
        t.field("tag"@) != Some(JsonTree::Text("button"@)) && t.field("tag"@) != Some(
            JsonTree::Text("hr"@),
        ) && t.field("tag"@) != Some(JsonTree::Text("img"@)) && t.field("tag"@) != Some(
            JsonTree::Text("markdown"@),
        ) && t.field("tag"@) != Some(JsonTree::Text("note"@)) ==> card_action(t) == Seq::<
            char,
        >::empty(),
    decreases y.len(),
{
    reveal_with_fuel(card_actions, 2);
    assert(seq![t].drop_last() =~= Seq::<JsonTree>::empty());
    assert(card_actions(seq![t]) =~= card_action(t));
    lemma_tags();
    if y.len() == 0 {
        assert(x + y =~= x);
        assert(card_actions(x) + card_actions(y) =~= card_actions(x));
    } else {
        assert((x + y).drop_last() =~= x + y.drop_last());
        law_card_actions_stand_one_after_the_other(x, y.drop_last(), t);
        assert(card_actions(x + y) =~= card_actions(x) + card_actions(y));
    }
}

/// The elements of a card stand one after the other: a `div` is its text in a
/// line of its own, and an `action` its actions.
pub proof fn law_card_elements_stand_one_after_the_other(
    x: Seq<JsonTree>,
    y: Seq<JsonTree>,
    t: JsonTree,
)
    ensures
        card_elements(x + y) == card_elements(x) + card_elements(y),
        card_elements(Seq::empty()) == Seq::<char>::empty(),
        card_elements(seq![t]) == card_element(t),
        t.field("tag"@) == Some(JsonTree::Text("div"@)) && field_of(
            t.field("text"@),
            "content"@,
        ) is Some ==> card_element(t) == loose_text(field_of(t.field("text"@), "content"@))
            + "\n"@,
        t.field("tag"@) == Some(JsonTree::Text("div"@)) && field_of(
            t.field("text"@),
            "content"@,
        ) is None ==> card_element(t) == Seq::<char>::empty(),
        t.field("tag"@) == Some(JsonTree::Text("action"@)) ==> card_element(t) == card_actions(
            items_of(t.field("actions"@)),
        ),
        t.field("tag"@) != Some(JsonTree::Text("div"@)) && t.field("tag"@) != Some(
            JsonTree::Text("action"@),
        ) ==> card_element(t) == Seq::<char>::empty(),
    decreases y.len(),
{
    reveal_with_fuel(card_elements, 2);
    assert(seq![t].drop_last() =~= Seq::<JsonTree>::empty());
    assert(card_elements(seq![t]) =~= card_element(t));
    lemma_tags();
    if y.len() == 0 {
        assert(x + y =~= x);
        assert(card_elements(x) + card_elements(y) =~= card_elements(x));
    } else {
        assert((x + y).drop_last() =~= x + y.drop_last());
        law_card_elements_stand_one_after_the_other(x, y.drop_last(), t);
        assert(card_elements(x + y) =~= card_elements(x) + card_elements(y));
    }
}

/// A post is its title and its rows, in Chinese where it has them and else in
/// English.
pub proof fn law_post_messages(content: Option<JsonTree>)
    ensures
        ({
            let post = field_of(content, "post"@);
            let zh = field_of(post, "zh_cn"@);
            let en = field_of(post, "en_us"@);
            &&& zh is Some ==> feishu_message("post"@, content) == (ThirdView {
                title: loose_text(field_of(zh, "title"@)),
                content: post_lines(items_of(field_of(zh, "content"@))),
                kind: "markdown"@,
                detected: true,
            })
            &&& zh is None && en is Some ==> feishu_message("post"@, content) == (ThirdView {
                title: loose_text(field_of(en, "title"@)),
                content: post_lines(items_of(field_of(en, "content"@))),
                kind: "markdown"@,
                detected: true,
            })
            &&& zh is None && en is None ==> feishu_message("post"@, content) == (ThirdView {
                title: Seq::empty(),
                content: Seq::empty(),
                kind: Seq::empty(),
                detected: true,
            })
        }),
{
    lemma_tags();
}

/// A text is its content, a chat and a picture are their ids, and a card is the
/// title of its header and its elements.
pub proof fn law_other_messages(content: Option<JsonTree>)
    ensures
        feishu_message("text"@, content) == (ThirdView {
            title: Seq::empty(),
            content: loose_text(field_of(content, "text"@)),
            kind: Seq::empty(),
            detected: true,
        }),
        feishu_message("share_chat"@, content) == (ThirdView {
            title: Seq::empty(),
            content: "群名片，share_chat_id："@ + loose_text(field_of(content, "share_chat_id"@)),
            kind: Seq::empty(),
            detected: true,
        }),
        feishu_message("image"@, content) == (ThirdView {
            title: Seq::empty(),
            content: "图片，image_key：$"@ + loose_text(field_of(content, "image_key"@)),
            kind: Seq::empty(),
            detected: true,
        }),
        field_of(content, "card"@) is Some ==> feishu_message("interactive"@, content) == (
        ThirdView {
            title: loose_text(
                field_of(field_of(field_of(content, "card"@), "header"@), "title"@),
            ),
            content: card_elements(items_of(field_of(field_of(content, "card"@), "elements"@))),
            kind: "markdown"@,
            detected: true,
        }),
        field_of(content, "card"@) is None ==> feishu_message("interactive"@, content) == (
        ThirdView {
            title: Seq::empty(),
            content: Seq::empty(),
            kind: Seq::empty(),
            detected: true,
        }),
{
    lemma_tags();
}

// ---- percent-encoding ----

/// In an encoded text a plus sign is a space, a percent sign with two
/// hexadecimal digits is the byte that they stand for, and any other byte
/// stands for itself.
pub proof fn law_encoded_bytes(x: u8, y: u8, c: u8, rest: Seq<u8>)
    requires
        48 <= x <= 57 || 65 <= x <= 70 || 97 <= x <= 102,
        48 <= y <= 57 || 65 <= y <= 70 || 97 <= y <= 102,
    ensures
        unescaped(seq![43u8] + rest) == seq![32u8] + unescaped(rest),
        unescaped(seq![37u8, x, y] + rest) == seq![
            (16 * digit_value(x) + digit_value(y)) as u8,
        ] + unescaped(rest),
        c != 37 && c != 43 ==> unescaped(seq![c] + rest) == seq![c] + unescaped(rest),
        unescaped(seq![37u8, 43u8, y] + rest) == seq![digit_value(y) as u8] + unescaped(rest),
        c != 43 && !(48 <= c <= 57 || 65 <= c <= 70 || 97 <= c <= 102) ==> unescaped(
            seq![37u8, c, y] + rest,
        ) == seq![37u8] + unescaped(seq![c, y] + rest),
        !(48 <= c <= 57 || 65 <= c <= 70 || 97 <= c <= 102) ==> unescaped(
            seq![37u8, x, c] + rest,
        ) == seq![37u8] + unescaped(seq![x, c] + rest),
        unescaped(seq![37u8, c]) == seq![37u8] + unescaped(seq![c]),
        unescaped(seq![37u8]) == seq![37u8],
        unescaped(Seq::empty()) == Seq::<u8>::empty(),
{
    assert((seq![37u8, 43u8, y] + rest).skip(3) =~= rest);
    assert((seq![37u8, c, y] + rest).skip(1) =~= seq![c, y] + rest);
    assert((seq![37u8, x, c] + rest).skip(1) =~= seq![x, c] + rest);
    assert(seq![37u8, c].skip(1) =~= seq![c]);
    assert((seq![43u8] + rest).skip(1) =~= rest);
    assert((seq![37u8, x, y] + rest).skip(3) =~= rest);
    assert((seq![c] + rest).skip(1) =~= rest);
    assert(seq![37u8].skip(1) =~= Seq::<u8>::empty());
    reveal_with_fuel(unescaped, 2);
    assert(escape_value(x, y) == Some((16 * digit_value(x) + digit_value(y)) as u8));
    assert(seq![37u8] + Seq::<u8>::empty() =~= seq![37u8]);
}

/// The value of a hexadecimal digit, small or capital.
pub open spec fn digit_value(b: u8) -> int {
    if b <= 57 {
        b - 48
    } else if b <= 70 {
        b - 55
    } else {
        b - 87
    }
}

} // verus!
