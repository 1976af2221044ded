//! Finding the service's public address in the tunnel's status page.

use vstd::prelude::*;
use crate::text::{lossy_text, text_of_bytes};

verus! {

/// The regular expression that a public address matches.
pub const PUBLIC_URL_PATTERN: &'static str = "(https://[a-zA-Z0-9]+\\.ngrok\\.io)";

/// What the `regex` crate finds first in `text` for the regular expression
/// `pattern`: nothing at all where the pattern does not compile, else the first
/// match, if there is one.
pub uninterp spec fn first_match(pattern: Seq<char>, text: Seq<char>) -> Option<Option<Seq<char>>>;

/// Compiles `pattern` with `regex::Regex::new` and searches `text` with
/// `Regex::find`; the text of the match is owned. The outcome is a function of
/// pattern and text alone; nothing more is claimed of it.
#[verifier::external_body]
fn find_first(pattern: &str, text: &str) -> (r: Option<Option<String>>)
    ensures
        match r {
            Some(Some(found)) => first_match(pattern@, text@) == Some(Some(found@)),
            Some(None) => first_match(pattern@, text@) == Some(None::<Seq<char>>),
            None => first_match(pattern@, text@) is None,
        },
{
    match regex::Regex::new(pattern) {
        Ok(re) => Some(
            match re.find(text) {
                Some(found) => Some(found.as_str().to_owned()),
                None => None,
            },
        ),
        Err(_) => None,
    }
}

/// The first public address in `html`, if there is one.
pub open spec fn public_url_in(html: Seq<char>) -> Option<Seq<char>> {
    match first_match(PUBLIC_URL_PATTERN@, html) {
        Some(found) => found,
        None => None,
    }
}

/// The first public address in `html`, if there is one.
pub fn find_public_url(html: &str) -> (r: Option<String>)
    ensures
        match r {
            Some(url) => public_url_in(html@) == Some(url@),
            None => public_url_in(html@) is None,
        },
{
    match find_first(PUBLIC_URL_PATTERN, html) {
        Some(found) => found,
        None => None,
    }
}

/// The first public address in the status page `body`, read as text.
pub fn public_url_of_page(body: &[u8]) -> (r: Option<String>)
    ensures
        match r {
            Some(url) => public_url_in(lossy_text(body@)) == Some(url@),
            None => public_url_in(lossy_text(body@)) is None,
        },
{
    let html = text_of_bytes(body);
    find_public_url(html.as_str())
}

} // verus!
