//! Messages of WeCom and DingTalk robots.

use crate::json::{trees, Json, JsonTree};
use crate::text::same_text;
use crate::third::{
    field, field_of, items, items_of, link, loose, loose_text, push_link, tree_of, ThirdData,
    ThirdView,
};
use vstd::prelude::*;
use vstd::string::*;

verus! {

broadcast use vstd::string::group_string_axioms;

/// A picture, then a link to the whole text, each on a line of its own.
pub open spec fn picture_and_link(picture: Seq<char>, target: Seq<char>) -> Seq<char> {
    "\n!"@ + link(Seq::empty(), picture) + "\n"@ + link("阅读原文"@, target)
}

/// One article of a news message.
pub open spec fn article(t: JsonTree) -> Seq<char> {
    "## "@ + loose_text(t.field("title"@)) + "\n"@ + loose_text(t.field("description"@))
        + picture_and_link(loose_text(t.field("picurl"@)), loose_text(t.field("url"@))) + "\n\n"@
}

/// The articles of a news message.
pub open spec fn articles(list: Seq<JsonTree>) -> Seq<char>
    decreases list.len(),
{
    if list.len() == 0 {
        Seq::empty()
    } else {
        articles(list.drop_last()) + article(list.last())
    }
}

/// One entry of a feed.
pub open spec fn feed_entry(t: JsonTree) -> Seq<char> {
    "## "@ + loose_text(t.field("title"@)) + picture_and_link(
        loose_text(t.field("picURL"@)),
        loose_text(t.field("messageURL"@)),
    ) + "\n\n"@
}

/// The entries of a feed.
pub open spec fn feed(list: Seq<JsonTree>) -> Seq<char>
    decreases list.len(),
{
    if list.len() == 0 {
        Seq::empty()
    } else {
        feed(list.drop_last()) + feed_entry(list.last())
    }
}

/// The buttons of a card, a link on a line of its own for each.
pub open spec fn buttons(list: Seq<JsonTree>) -> Seq<char>
    decreases list.len(),
{
    if list.len() == 0 {
        Seq::empty()
    } else {
        buttons(list.drop_last()) + "\n"@ + link(
            loose_text(list.last().field("title"@)),
            loose_text(list.last().field("actionURL"@)),
        )
    }
}

/// What follows the text of a card: the one link, or else the buttons.
pub open spec fn card_links(node: Option<JsonTree>) -> Seq<char> {
    let single = field_of(node, "singleURL"@);
    if single is Some {
        "\n"@ + link(loose_text(field_of(node, "singleTitle"@)), loose_text(single))
    } else {
        buttons(items_of(field_of(node, "btns"@)))
    }
}

/// A WeCom or DingTalk message of the kind `msgtype` whose body is `node`.
pub open spec fn weiding_message(msgtype: Seq<char>, node: Option<JsonTree>) -> ThirdView {
    let none = ThirdView {
        title: Seq::empty(),
        content: Seq::empty(),
        kind: "markdown"@,
        detected: true,
    };
    if msgtype == "text"@ {
        ThirdView { content: loose_text(field_of(node, "content"@)), kind: "text"@, ..none }
    } else if msgtype == "markdown"@ {
        let content = field_of(node, "content"@);
        if content is Some {
            ThirdView { content: loose_text(content), ..none }
        } else {
            ThirdView {
                title: loose_text(field_of(node, "title"@)),
                content: loose_text(field_of(node, "text"@)),
                ..none
            }
        }
    } else if msgtype == "image"@ {
        ThirdView { content: "暂不支持base64图片"@, ..none }
    } else if msgtype == "news"@ {
        ThirdView { content: articles(items_of(field_of(node, "articles"@))), ..none }
    } else if msgtype == "file"@ {
        ThirdView { content: "文件media_id："@ + loose_text(field_of(node, "media_id"@)), ..none }
    } else if msgtype == "template_card"@ {
        ThirdView { content: "暂不支持模板卡片消息"@, ..none }
    } else if msgtype == "link"@ {
        ThirdView {
            title: loose_text(field_of(node, "title"@)),
            content: loose_text(field_of(node, "text"@)) + picture_and_link(
                loose_text(field_of(node, "picUrl"@)),
                loose_text(field_of(node, "messageUrl"@)),
            ),
            ..none
        }
    } else if msgtype == "actionCard"@ {
        ThirdView {
            title: loose_text(field_of(node, "title"@)),
            content: loose_text(field_of(node, "text"@)) + card_links(node),
            ..none
        }
    } else if msgtype == "feedCard"@ {
        ThirdView { content: feed(items_of(field_of(node, "links"@))), ..none }
    } else {
        ThirdView { kind: Seq::empty(), ..none }
    }
}

fn push_picture_and_link(out: &mut String, picture: &str, target: &str)
    ensures
        final(out)@ == old(out)@ + picture_and_link(picture@, target@),
{
    out.append("\n!");
    push_link(out, "", picture);
    out.append("\n");
    push_link(out, "阅读原文", target);
    proof {
        reveal_strlit("");
        assert(""@ =~= Seq::<char>::empty());
    }
    assert(out@ =~= old(out)@ + picture_and_link(picture@, target@));
}

fn push_articles(list: &Vec<Json>, out: &mut String)
    ensures
        final(out)@ == old(out)@ + articles(trees(list@)),
{
    let mut i: usize = 0;
    let ghost all = trees(list@);
    assert(all.take(0) == Seq::<JsonTree>::empty());
    assert(out@ =~= old(out)@ + articles(all.take(0)));
    while i < list.len()
        invariant
            all == trees(list@),
            i <= list@.len(),
            out@ == old(out)@ + articles(all.take(i as int)),
        decreases list@.len() - i,
    {
        let a = &list[i];
        let ghost before = out@;
        out.append("## ");
        out.append(loose(a.field("title")).as_str());
        out.append("\n");
        out.append(loose(a.field("description")).as_str());
        push_picture_and_link(out, loose(a.field("picurl")).as_str(), loose(a.field("url")).as_str());
        out.append("\n\n");
        assert(out@ =~= before + article(a@));
        i = i + 1;
        assert(all.take(i as int).drop_last() == all.take(i - 1));
        assert(out@ =~= old(out)@ + articles(all.take(i as int)));
    }
    assert(all.take(i as int) == all);
}

fn push_feed(list: &Vec<Json>, out: &mut String)
    ensures
        final(out)@ == old(out)@ + feed(trees(list@)),
{
    let mut i: usize = 0;
    let ghost all = trees(list@);
    assert(all.take(0) == Seq::<JsonTree>::empty());
    assert(out@ =~= old(out)@ + feed(all.take(0)));
    while i < list.len()
        invariant
            all == trees(list@),
            i <= list@.len(),
            out@ == old(out)@ + feed(all.take(i as int)),
        decreases list@.len() - i,
    {
        let entry = &list[i];
        let ghost before = out@;
        out.append("## ");
        out.append(loose(entry.field("title")).as_str());
        push_picture_and_link(
            out,
            loose(entry.field("picURL")).as_str(),
            loose(entry.field("messageURL")).as_str(),
        );
        out.append("\n\n");
        assert(out@ =~= before + feed_entry(entry@));
        i = i + 1;
        assert(all.take(i as int).drop_last() == all.take(i - 1));
        assert(out@ =~= old(out)@ + feed(all.take(i as int)));
    }
    assert(all.take(i as int) == all);
}

fn push_buttons(list: &Vec<Json>, out: &mut String)
    ensures
        final(out)@ == old(out)@ + buttons(trees(list@)),
{
    let mut i: usize = 0;
    let ghost all = trees(list@);
    assert(all.take(0) == Seq::<JsonTree>::empty());
    assert(out@ =~= old(out)@ + buttons(all.take(0)));
    while i < list.len()
        invariant
            all == trees(list@),
            i <= list@.len(),
            out@ == old(out)@ + buttons(all.take(i as int)),
        decreases list@.len() - i,
    {
        out.append("\n");
        push_link(out, loose(list[i].field("title")).as_str(), loose(list[i].field("actionURL")).as_str());
        i = i + 1;
        assert(all.take(i as int).drop_last() == all.take(i - 1));
        assert(out@ =~= old(out)@ + buttons(all.take(i as int)));
    }
    assert(all.take(i as int) == all);
}

fn push_card_links(node: Option<&Json>, out: &mut String)
    ensures
        final(out)@ == old(out)@ + card_links(tree_of(node)),
{
    let single = field(node, "singleURL");
    if single.is_some() {
        out.append("\n");
        push_link(out, loose(field(node, "singleTitle")).as_str(), loose(single).as_str());
    } else {
        match items(field(node, "btns")) {
            Some(list) => {
                push_buttons(list, out);
            },
            None => {},
        }
    }
    assert(out@ =~= old(out)@ + card_links(tree_of(node)));
}

/// Reads a WeCom or DingTalk message.
pub fn weiding(msgtype: &str, node: Option<&Json>) -> (r: ThirdData)
    ensures
        r@ == weiding_message(msgtype@, tree_of(node)),
{
    let mut title = String::new();
    let mut out = String::new();
    let mut kind = "markdown".to_string();
    if same_text(msgtype, "text") {
        out = loose(field(node, "content"));
        kind = "text".to_string();
    } else if same_text(msgtype, "markdown") {
        let content = field(node, "content");
        if content.is_some() {
            out = loose(content);
        } else {
            title = loose(field(node, "title"));
            out = loose(field(node, "text"));
        }
    } else if same_text(msgtype, "image") {
        out = "暂不支持base64图片".to_string();
    } else if same_text(msgtype, "news") {
        match items(field(node, "articles")) {
            Some(list) => {
                push_articles(list, &mut out);
            },
            None => {},
        }
        assert(out@ =~= articles(items_of(field_of(tree_of(node), "articles"@))));
    } else if same_text(msgtype, "file") {
        out.append("文件media_id：");
        out.append(loose(field(node, "media_id")).as_str());
        assert(out@ =~= "文件media_id："@ + loose_text(field_of(tree_of(node), "media_id"@)));
    } else if same_text(msgtype, "template_card") {
        out = "暂不支持模板卡片消息".to_string();
    } else if same_text(msgtype, "link") {
        title = loose(field(node, "title"));
        out = loose(field(node, "text"));
        push_picture_and_link(
            &mut out,
            loose(field(node, "picUrl")).as_str(),
            loose(field(node, "messageUrl")).as_str(),
        );
    } else if same_text(msgtype, "actionCard") {
        title = loose(field(node, "title"));
        out = loose(field(node, "text"));
        push_card_links(node, &mut out);
    } else if same_text(msgtype, "feedCard") {
        match items(field(node, "links")) {
            Some(list) => {
                push_feed(list, &mut out);
            },
            None => {},
        }
        assert(out@ =~= feed(items_of(field_of(tree_of(node), "links"@))));
    } else {
        kind = String::new();
    }
    ThirdData { title, content: out, kind, detected: true }
}

} // verus!
