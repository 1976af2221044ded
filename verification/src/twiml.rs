//! The instructions that the telephony platform understands.

use vstd::prelude::*;
use vstd::std_specs::convert::FromSpecImpl;
use crate::responses::{Reply, ReplyView};
use crate::text::{replace_all, replaced};

verus! {

/// An instruction document.
#[derive(Debug)]
pub struct Twiml {
    data: String,
}

/// What stands before the callback address in a request for a key press.
pub const GATHER_HEAD: &'static str =
    "<?xml version=\"1.0\" encoding=\"UTF-8\"?>\n                <Response>\n                    <Gather input=\"dtmf\" timeout=\"10\" numDigits=\"1\" action=\"";

/// What stands between the callback address and the prompt.
pub const GATHER_MIDDLE: &'static str = "\">\n                        <Say voice=\"woman\">";

/// What stands after the prompt in a request for a key press.
pub const GATHER_TAIL: &'static str =
    "</Say>\n                    </Gather>\n                </Response>\n                ";

/// What stands before the text in a message.
pub const SAY_HEAD: &'static str =
    "<?xml version=\"1.0\" encoding=\"UTF-8\"?>\n                <Response>\n                    <Say voice=\"woman\">";

/// What stands after the text in a message.
pub const SAY_TAIL: &'static str = "</Say>\n                </Response>\n                ";

/// `url` with every `&` written as `&amp;`.
pub open spec fn escaped(url: Seq<char>) -> Seq<char> {
    replaced(url, seq!['&'], seq!['&', 'a', 'm', 'p', ';'])
}

/// The document that asks for one key press, says `to_say` meanwhile, and sends
/// the key to `callback_url`.
pub open spec fn gather_document(callback_url: Seq<char>, to_say: Seq<char>) -> Seq<char> {
    GATHER_HEAD@ + escaped(callback_url) + GATHER_MIDDLE@ + to_say + GATHER_TAIL@
}

/// The document that says `to_say`.
pub open spec fn say_document(to_say: Seq<char>) -> Seq<char> {
    SAY_HEAD@ + to_say + SAY_TAIL@
}

impl View for Twiml {
    type V = Seq<char>;

    closed spec fn view(&self) -> Seq<char> {
        self.data@
    }
}

impl From<String> for Twiml {
    fn from(owned_str: String) -> (r: Twiml)
        ensures
            r@ == owned_str@,
    {
        Twiml { data: owned_str }
    }
}

impl FromSpecImpl<String> for Twiml {
    open spec fn obeys_from_spec() -> bool {
        true
    }

    closed spec fn from_spec(owned_str: String) -> Twiml {
        Twiml { data: owned_str }
    }
}

/// The response that carries `document`: status 200, marked as XML.
pub open spec fn document_reply(document: Seq<char>) -> ReplyView {
    ReplyView { status: 200, xml: true, body: document }
}

impl Twiml {
    /// The response that carries this document.
    pub fn into_reply(self) -> (r: Reply)
        ensures
            r@ == document_reply(self@),
    {
        Reply { status: 200, xml: true, body: self.data }
    }

    /// The document's text.
    pub fn into_string(self) -> (r: String)
        ensures
            r@ == self@,
    {
        self.data
    }
}

/// The document that asks for one key press.
pub fn get_input(callback_url: &str, to_say: &str) -> (r: Twiml)
    ensures
        r@ == gather_document(callback_url@, to_say@),
{
    proof {
        reveal_strlit("&");
        reveal_strlit("&amp;");
        assert("&"@ == seq!['&']);
        assert("&amp;"@ == seq!['&', 'a', 'm', 'p', ';']);
    }
    let mut data = String::from_str(GATHER_HEAD);
    data.append(replace_all(callback_url, "&", "&amp;").as_str());
    data.append(GATHER_MIDDLE);
    data.append(to_say);
    data.append(GATHER_TAIL);
    Twiml::from(data)
}

/// The document that says `to_say`.
pub fn say(to_say: &str) -> (r: Twiml)
    ensures
        r@ == say_document(to_say@),
{
    let mut data = String::from_str(SAY_HEAD);
    data.append(to_say);
    data.append(SAY_TAIL);
    Twiml::from(data)
}

} // verus!
