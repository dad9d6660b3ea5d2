//! Messages of Feishu robots.

use crate::json::{trees, Json, JsonTree};
use crate::text::same_text;
use crate::third::{
    field, field_of, is_text, items, items_of, link, loose, loose_text, push_link, strict,
    strict_text, tree_of, ThirdData, ThirdView,
};
use vstd::prelude::*;
use vstd::string::*;

verus! {

broadcast use vstd::string::group_string_axioms;

/// Whether an element is of the kind `tag`.
pub open spec fn has_tag(t: JsonTree, tag: Seq<char>) -> bool {
    t.field("tag"@) == Some(JsonTree::Text(tag))
}

fn tagged(j: &Json, tag: &str) -> (r: bool)
    ensures
        r == has_tag(j@, tag@),
{
    is_text(j.field("tag"), tag)
}

/// One element of a rich text, as a line.
pub open spec fn post_element(t: JsonTree) -> Seq<char> {
    if has_tag(t, "text"@) {
        strict_text(t.field("text"@)) + "\n"@
    } else if has_tag(t, "a"@) {
        link(strict_text(t.field("text"@)), strict_text(t.field("href"@))) + "\n"@
    } else if has_tag(t, "at"@) {
        "@"@ + strict_text(t.field("user_id"@)) + "\n"@
    } else if has_tag(t, "img"@) {
        "图片，image_key："@ + strict_text(t.field("image_key"@)) + "\n"@
    } else {
        Seq::empty()
    }
}

/// Elements of a rich text, as lines.
pub open spec fn post_elements(list: Seq<JsonTree>) -> Seq<char>
    decreases list.len(),
{
    if list.len() == 0 {
        Seq::empty()
    } else {
        post_elements(list.drop_last()) + post_element(list.last())
    }
}

/// The content of a rich text: elements, or rows of elements.
pub open spec fn post_lines(list: Seq<JsonTree>) -> Seq<char>
    decreases list.len(),
{
    if list.len() == 0 {
        Seq::empty()
    } else {
        post_lines(list.drop_last()) + match list.last() {
            JsonTree::Array(row) => post_elements(row),
            other => post_element(other),
        }
    }
}

/// The lines of the remarks on a card.
pub open spec fn note_lines(list: Seq<JsonTree>) -> Seq<char>
    decreases list.len(),
{
    if list.len() == 0 {
        Seq::empty()
    } else {
        note_lines(list.drop_last()) + loose_text(list.last().field("content"@)) + "\n"@
    }
}

/// One action of a card.
pub open spec fn card_action(t: JsonTree) -> Seq<char> {
    if has_tag(t, "button"@) {
        link(loose_text(field_of(t.field("text"@), "content"@)), loose_text(t.field("url"@)))
            + "\n"@
    } else if has_tag(t, "hr"@) {
        "---------------------\n"@
    } else if has_tag(t, "img"@) {
        "图片，image_key："@ + loose_text(t.field("img_key"@)) + "\n"@
    } else if has_tag(t, "markdown"@) {
        loose_text(t.field("content"@)) + "\n"@
    } else if has_tag(t, "note"@) {
        "备注：\n"@ + note_lines(items_of(t.field("elements"@)))
    } else {
        Seq::empty()
    }
}

/// The actions of a card.
pub open spec fn card_actions(list: Seq<JsonTree>) -> Seq<char>
    decreases list.len(),
{
    if list.len() == 0 {
        Seq::empty()
    } else {
        card_actions(list.drop_last()) + card_action(list.last())
    }
}

/// One element of a card: a paragraph, or a row of actions.
pub open spec fn card_element(t: JsonTree) -> Seq<char> {
    if has_tag(t, "div"@) {
        let text = field_of(t.field("text"@), "content"@);
        if text is Some {
            loose_text(text) + "\n"@
        } else {
            Seq::empty()
        }
    } else if has_tag(t, "action"@) {
        card_actions(items_of(t.field("actions"@)))
    } else {
        Seq::empty()
    }
}

/// The elements of a card.
pub open spec fn card_elements(list: Seq<JsonTree>) -> Seq<char>
    decreases list.len(),
{
    if list.len() == 0 {
        Seq::empty()
    } else {
        card_elements(list.drop_last()) + card_element(list.last())
    }
}

/// A Feishu message of the kind `msg_type` whose `content` is given.
pub open spec fn feishu_message(msg_type: Seq<char>, content: Option<JsonTree>) -> ThirdView {
    let none = ThirdView {
        title: Seq::empty(),
        content: Seq::empty(),
        kind: Seq::empty(),
        detected: true,
    };
    if msg_type == "text"@ {
        ThirdView { content: loose_text(field_of(content, "text"@)), ..none }
    } else if msg_type == "post"@ {
        let post = field_of(content, "post"@);
        let zh = field_of(post, "zh_cn"@);
        let root = if zh is Some {
            zh
        } else {
            field_of(post, "en_us"@)
        };
        if root is Some {
            ThirdView {
                title: loose_text(field_of(root, "title"@)),
                content: post_lines(items_of(field_of(root, "content"@))),
                kind: "markdown"@,
                ..none
            }
        } else {
            none
        }
    } else if msg_type == "share_chat"@ {
        ThirdView {
            content: "群名片，share_chat_id："@ + loose_text(field_of(content, "share_chat_id"@)),
            ..none
        }
    } else if msg_type == "image"@ {
        ThirdView {
            content: "图片，image_key：$"@ + loose_text(field_of(content, "image_key"@)),
            ..none
        }
    } else if msg_type == "interactive"@ {
        let card = field_of(content, "card"@);
        if card is Some {
            ThirdView {
                title: loose_text(field_of(field_of(card, "header"@), "title"@)),
                content: card_elements(items_of(field_of(card, "elements"@))),
                kind: "markdown"@,
                ..none
            }
        } else {
            none
        }
    } else {
        none
    }
}

fn push_post_element(item: &Json, out: &mut String)
    ensures
        final(out)@ == old(out)@ + post_element(item@),
{
    if tagged(item, "text") {
        out.append(strict(item.field("text")).as_str());
        out.append("\n");
    } else if tagged(item, "a") {
        let label = strict(item.field("text"));
        let target = strict(item.field("href"));
        push_link(out, label.as_str(), target.as_str());
        out.append("\n");
    } else if tagged(item, "at") {
        out.append("@");
        out.append(strict(item.field("user_id")).as_str());
        out.append("\n");
    } else if tagged(item, "img") {
        out.append("图片，image_key：");
        out.append(strict(item.field("image_key")).as_str());
        out.append("\n");
    }
    assert(out@ =~= old(out)@ + post_element(item@));
}

fn push_post_elements(list: &Vec<Json>, out: &mut String)
    ensures
        final(out)@ == old(out)@ + post_elements(trees(list@)),
{
    let mut i: usize = 0;
    let ghost all = trees(list@);
    assert(all.take(0) == Seq::<JsonTree>::empty());
    assert(out@ =~= old(out)@ + post_elements(all.take(0)));
    while i < list.len()
        invariant
            all == trees(list@),
            i <= list@.len(),
            out@ == old(out)@ + post_elements(all.take(i as int)),
        decreases list@.len() - i,
    {
        push_post_element(&list[i], out);
        i = i + 1;
        assert(all.take(i as int).drop_last() == all.take(i - 1));
        assert(out@ =~= old(out)@ + post_elements(all.take(i as int)));
    }
    assert(all.take(i as int) == all);
}

fn push_post_lines(list: &Vec<Json>, out: &mut String)
    ensures
        final(out)@ == old(out)@ + post_lines(trees(list@)),
{
    let mut i: usize = 0;
    let ghost all = trees(list@);
    assert(all.take(0) == Seq::<JsonTree>::empty());
    assert(out@ =~= old(out)@ + post_lines(all.take(0)));
    while i < list.len()
        invariant
            all == trees(list@),
            i <= list@.len(),
            out@ == old(out)@ + post_lines(all.take(i as int)),
        decreases list@.len() - i,
    {
        let ghost before = out@;
        assert(all[i as int] == list@[i as int]@);
        match items(Some(&list[i])) {
            Some(row) => {
                push_post_elements(row, out);
            },
            None => {
                push_post_element(&list[i], out);
            },
        }
        i = i + 1;
        assert(all.take(i as int).drop_last() == all.take(i - 1));
        assert(out@ =~= old(out)@ + post_lines(all.take(i as int)));
    }
    assert(all.take(i as int) == all);
}

fn push_note_lines(list: &Vec<Json>, out: &mut String)
    ensures
        final(out)@ == old(out)@ + note_lines(trees(list@)),
{
    let mut i: usize = 0;
    let ghost all = trees(list@);
    assert(all.take(0) == Seq::<JsonTree>::empty());
    assert(out@ =~= old(out)@ + note_lines(all.take(0)));
    while i < list.len()
        invariant
            all == trees(list@),
            i <= list@.len(),
            out@ == old(out)@ + note_lines(all.take(i as int)),
        decreases list@.len() - i,
    {
        out.append(loose(list[i].field("content")).as_str());
        out.append("\n");
        i = i + 1;
        assert(all.take(i as int).drop_last() == all.take(i - 1));
        assert(out@ =~= old(out)@ + note_lines(all.take(i as int)));
    }
    assert(all.take(i as int) == all);
}

fn push_card_action(ac: &Json, out: &mut String)
    ensures
        final(out)@ == old(out)@ + card_action(ac@),
{
    if tagged(ac, "button") {
        let label = loose(field(ac.field("text"), "content"));
        let target = loose(ac.field("url"));
        push_link(out, label.as_str(), target.as_str());
        out.append("\n");
    } else if tagged(ac, "hr") {
        out.append("---------------------\n");
    } else if tagged(ac, "img") {
        out.append("图片，image_key：");
        out.append(loose(ac.field("img_key")).as_str());
        out.append("\n");
    } else if tagged(ac, "markdown") {
        out.append(loose(ac.field("content")).as_str());
        out.append("\n");
    } else if tagged(ac, "note") {
        out.append("备注：\n");
        match items(ac.field("elements")) {
            Some(list) => {
                push_note_lines(list, out);
            },
            None => {},
        }
    }
    assert(out@ =~= old(out)@ + card_action(ac@));
}

fn push_card_actions(list: &Vec<Json>, out: &mut String)
    ensures
        final(out)@ == old(out)@ + card_actions(trees(list@)),
{
    let mut i: usize = 0;
    let ghost all = trees(list@);
    assert(all.take(0) == Seq::<JsonTree>::empty());
    assert(out@ =~= old(out)@ + card_actions(all.take(0)));
    while i < list.len()
        invariant
            all == trees(list@),
            i <= list@.len(),
            out@ == old(out)@ + card_actions(all.take(i as int)),
        decreases list@.len() - i,
    {
        push_card_action(&list[i], out);
        i = i + 1;
        assert(all.take(i as int).drop_last() == all.take(i - 1));
        assert(out@ =~= old(out)@ + card_actions(all.take(i as int)));
    }
    assert(all.take(i as int) == all);
}

fn push_card_element(el: &Json, out: &mut String)
    ensures
        final(out)@ == old(out)@ + card_element(el@),
{
    if tagged(el, "div") {
        let text = field(el.field("text"), "content");
        if text.is_some() {
            out.append(loose(text).as_str());
            out.append("\n");
        }
    } else if tagged(el, "action") {
        match items(el.field("actions")) {
            Some(list) => {
                push_card_actions(list, out);
            },
            None => {},
        }
    }
    assert(out@ =~= old(out)@ + card_element(el@));
}

fn push_card_elements(list: &Vec<Json>, out: &mut String)
    ensures
        final(out)@ == old(out)@ + card_elements(trees(list@)),
{
    let mut i: usize = 0;
    let ghost all = trees(list@);
    assert(all.take(0) == Seq::<JsonTree>::empty());
    assert(out@ =~= old(out)@ + card_elements(all.take(0)));
    while i < list.len()
        invariant
            all == trees(list@),
            i <= list@.len(),
            out@ == old(out)@ + card_elements(all.take(i as int)),
        decreases list@.len() - i,
    {
        push_card_element(&list[i], out);
        i = i + 1;
        assert(all.take(i as int).drop_last() == all.take(i - 1));
        assert(out@ =~= old(out)@ + card_elements(all.take(i as int)));
    }
    assert(all.take(i as int) == all);
}

/// Reads a Feishu message.
pub fn feishu(msg_type: &str, content: Option<&Json>) -> (r: ThirdData)
    ensures
        r@ == feishu_message(msg_type@, tree_of(content)),
{
    let mut title = String::new();
    let mut out = String::new();
    let mut kind = String::new();
    if same_text(msg_type, "text") {
        out = loose(field(content, "text"));
    } else if same_text(msg_type, "post") {
        let post = field(content, "post");
        let zh = field(post, "zh_cn");
        let root = if zh.is_some() {
            zh
        } else {
            field(post, "en_us")
        };
        if root.is_some() {
            title = loose(field(root, "title"));
            match items(field(root, "content")) {
                Some(list) => {
                    push_post_lines(list, &mut out);
                },
                None => {},
            }
            kind = "markdown".to_string();
            assert(out@ =~= post_lines(items_of(field_of(tree_of(root), "content"@))));
        }
    } else if same_text(msg_type, "share_chat") {
        out.append("群名片，share_chat_id：");
        out.append(loose(field(content, "share_chat_id")).as_str());
        assert(out@ =~= "群名片，share_chat_id："@ + loose_text(
            field_of(tree_of(content), "share_chat_id"@),
        ));
    } else if same_text(msg_type, "image") {
        out.append("图片，image_key：$");
        out.append(loose(field(content, "image_key")).as_str());
        assert(out@ =~= "图片，image_key：$"@ + loose_text(
            field_of(tree_of(content), "image_key"@),
        ));
    } else if same_text(msg_type, "interactive") {
        let card = field(content, "card");
        if card.is_some() {
            title = loose(field(field(card, "header"), "title"));
            match items(field(card, "elements")) {
                Some(list) => {
                    push_card_elements(list, &mut out);
                },
                None => {},
            }
            kind = "markdown".to_string();
            assert(out@ =~= card_elements(items_of(field_of(tree_of(card), "elements"@))));
        }
    }
    ThirdData { title, content: out, kind, detected: true }
}

} // verus!
