//! Names and values as they travel in a query string or a form body: a list
//! in the order of arrival, in which the later of two values for one name
//! counts.

use vstd::prelude::*;
use crate::text::same_text;

verus! {

/// A name and a value, both as text.
pub type Pair = (Seq<char>, Seq<char>);

/// What each pair of `kvs` holds, as text.
pub open spec fn pairs_view(kvs: Seq<(String, String)>) -> Seq<Pair> {
    Seq::new(kvs.len(), |i: int| (kvs[i].0@, kvs[i].1@))
}

/// What each pair of `kvs` holds, as text.
pub open spec fn borrowed_pairs_view(kvs: Seq<(&str, &str)>) -> Seq<Pair> {
    Seq::new(kvs.len(), |i: int| (kvs[i].0@, kvs[i].1@))
}

/// The value of the last pair of `kvs` named `key`, if there is one: where a
/// name comes twice, the later value counts.
pub open spec fn last_value(kvs: Seq<Pair>, key: Seq<char>) -> Option<Seq<char>>
    decreases kvs.len(),
{
    if kvs.len() == 0 {
        None
    } else if kvs.last().0 == key {
        Some(kvs.last().1)
    } else {
        last_value(kvs.drop_last(), key)
    }
}

/// The names and values that `url::form_urlencoded::parse` reads from `input`.
pub uninterp spec fn form_pairs(input: Seq<u8>) -> Seq<Pair>;

/// The text that `url::form_urlencoded::Serializer` writes for `pairs`.
pub uninterp spec fn form_encoded(pairs: Seq<Pair>) -> Seq<char>;

/// Calls `url::form_urlencoded::parse` on `input` and collects the pairs that
/// it yields, in order, as owned strings. The pairs are a function of the input
/// alone; nothing more is claimed of them.
#[verifier::external_body]
pub(crate) fn parse_form(input: &[u8]) -> (r: Vec<(String, String)>)
    ensures
        pairs_view(r@) == form_pairs(input@),
{
    url::form_urlencoded::parse(input).into_owned().collect()
}

/// Feeds `pairs`, in order, to a `url::form_urlencoded::Serializer` that writes
/// into an empty string, and returns that string. The text is a function of
/// the pairs alone; nothing more is claimed of it.
#[verifier::external_body]
pub(crate) fn encode_form(pairs: &Vec<(&str, &str)>) -> (r: String)
    ensures
        r@ == form_encoded(borrowed_pairs_view(pairs@)),
{
    url::form_urlencoded::Serializer::new(String::new()).extend_pairs(pairs.iter()).finish()
}

/// The value of the last pair of `kvs` named `key`.
pub fn lookup<'a>(kvs: &'a Vec<(String, String)>, key: &str) -> (r: Option<&'a String>)
    ensures
        match r {
            Some(value) => last_value(pairs_view(kvs@), key@) == Some(value@),
            None => last_value(pairs_view(kvs@), key@) is None,
        },
{
    let ghost pairs = pairs_view(kvs@);
    let mut i: usize = kvs.len();
    assert(pairs.take(i as int) == pairs);
    while i > 0
        invariant
            i <= kvs.len(),
            pairs == pairs_view(kvs@),
            last_value(pairs, key@) == last_value(pairs.take(i as int), key@),
        decreases i,
    {
        i -= 1;
        assert(pairs.take(i + 1).last() == pairs[i as int]);
        assert(pairs.take(i + 1).drop_last() == pairs.take(i as int));
        if same_text(kvs[i].0.as_str(), key) {
            return Some(&kvs[i].1);
        }
    }
    None
}

} // verus!
