//! What is sent back to the caller of the service, as plain values.

use vstd::prelude::*;

verus! {

/// A response: its status code, whether its body is XML, and the body.
#[derive(Debug)]
pub struct Reply {
    pub status: u16,
    pub xml: bool,
    pub body: String,
}

/// What a response holds, with its body as text.
pub ghost struct ReplyView {
    pub status: int,
    pub xml: bool,
    pub body: Seq<char>,
}

impl View for Reply {
    type V = ReplyView;

    open spec fn view(&self) -> ReplyView {
        ReplyView { status: self.status as int, xml: self.xml, body: self.body@ }
    }
}

/// The response with status 405 and `text` as its body.
pub open spec fn not_allowed(text: Seq<char>) -> ReplyView {
    ReplyView { status: 405, xml: false, body: text }
}

/// The response with status 400 and `text` as its body.
pub open spec fn bad_request(text: Seq<char>) -> ReplyView {
    ReplyView { status: 400, xml: false, body: text }
}

/// The response that says that the method is not allowed, with `text` as its body.
pub fn not_allowed_error(text: &str) -> (r: Reply)
    ensures
        r@ == not_allowed(text@),
{
    Reply { status: 405, xml: false, body: text.to_owned() }
}

/// The response that says that the request is bad, with `text` as its body.
pub fn bad_request_error(text: &str) -> (r: Reply)
    ensures
        r@ == bad_request(text@),
{
    Reply { status: 400, xml: false, body: text.to_owned() }
}

} // verus!
