//! HTTP replies.

use crate::json::{json_text, Json, JsonTree};
use vstd::prelude::*;
use vstd::slice::slice_to_vec;
use vstd::utf8::*;

verus! {

broadcast use vstd::string::group_string_axioms;

/// The reply to an HTTP request.
pub struct Reply {
    pub status: u16,
    pub headers: Vec<(String, String)>,
    pub body: Vec<u8>,
}

/// What a `Reply` holds.
#[verifier::ext_equal]
pub struct ReplyView {
    pub status: u16,
    pub headers: Seq<(Seq<char>, Seq<char>)>,
    pub body: Seq<u8>,
}

/// What a list of headers holds.
pub open spec fn header_views(headers: Seq<(String, String)>) -> Seq<(Seq<char>, Seq<char>)> {
    Seq::new(headers.len(), |i: int| (headers[i].0@, headers[i].1@))
}

impl View for Reply {
    type V = ReplyView;

    open spec fn view(&self) -> ReplyView {
        ReplyView {
            status: self.status,
            headers: header_views(self.headers@),
            body: self.body@,
        }
    }
}

/// A reply with a body of the given type.
pub open spec fn reply_of(status: u16, content_type: Seq<char>, body: Seq<u8>) -> ReplyView {
    ReplyView { status, headers: seq![("content-type"@, content_type)], body }
}

/// A reply in plain text.
pub open spec fn text_reply_of(status: u16, text: Seq<char>) -> ReplyView {
    reply_of(status, "text/plain; charset=utf-8"@, encode_utf8(text))
}

/// A reply in HTML.
pub open spec fn html_reply_of(text: Seq<char>) -> ReplyView {
    reply_of(200, "text/html; charset=utf-8"@, encode_utf8(text))
}

/// A reply in JSON.
pub open spec fn json_reply_of(status: u16, tree: JsonTree) -> ReplyView {
    reply_of(status, "application/json"@, encode_utf8(json_text(tree)))
}

/// A redirect, with a cookie to set where there is one.
pub open spec fn redirect_of(location: Seq<char>, cookie: Option<Seq<char>>) -> ReplyView {
    let to = seq![("location"@, location)];
    ReplyView {
        status: 303,
        headers: match cookie {
            Some(c) => to.push(("set-cookie"@, c)),
            None => to,
        },
        body: Seq::empty(),
    }
}

/// The reply with a header added.
pub open spec fn with_header_of(r: ReplyView, name: Seq<char>, value: Seq<char>) -> ReplyView {
    ReplyView { headers: r.headers.push((name, value)), ..r }
}

impl Reply {
    /// Adds a header.
    pub fn with_header(self, name: &str, value: &str) -> (r: Reply)
        ensures
            r@ == with_header_of(self@, name@, value@),
    {
        let mut r = self;
        r.headers.push((name.to_string(), value.to_string()));
        assert(header_views(r.headers@) =~= header_views(self.headers@).push((name@, value@)));
        r
    }
}

/// Replies with bytes of the given type.
pub fn bytes_reply(status: u16, content_type: &str, body: Vec<u8>) -> (r: Reply)
    ensures
        r@ == reply_of(status, content_type@, body@),
{
    let r = Reply { status, headers: Vec::new(), body };
    let r = r.with_header("content-type", content_type);
    assert(r@.headers =~= seq![("content-type"@, content_type@)]);
    r
}

/// Replies in plain text.
pub fn text_reply(status: u16, text: &str) -> (r: Reply)
    ensures
        r@ == text_reply_of(status, text@),
{
    bytes_reply(status, "text/plain; charset=utf-8", slice_to_vec(text.as_bytes()))
}

/// Replies in HTML.
pub fn html_reply(text: &str) -> (r: Reply)
    ensures
        r@ == html_reply_of(text@),
{
    bytes_reply(200, "text/html; charset=utf-8", slice_to_vec(text.as_bytes()))
}

/// Replies in JSON.
pub fn json_reply(status: u16, value: &Json) -> (r: Reply)
    ensures
        r@ == json_reply_of(status, value@),
{
    let text = value.to_text();
    bytes_reply(status, "application/json", slice_to_vec(text.as_str().as_bytes()))
}

/// Redirects, with a cookie to set where there is one.
pub fn redirect(location: &str, cookie: Option<String>) -> (r: Reply)
    ensures
        r@ == redirect_of(
            location@,
            match cookie {
                Some(c) => Some(c@),
                None => None,
            },
        ),
{
    let r = Reply { status: 303, headers: Vec::new(), body: Vec::new() };
    let r = r.with_header("location", location);
    assert(r@.headers =~= seq![("location"@, location@)]);
    assert(r@.body =~= Seq::<u8>::empty());
    match cookie {
        Some(c) => r.with_header("set-cookie", c.as_str()),
        None => r,
    }
}

} // verus!
