//! The service's routes: key presses of a call under way, and the start of a
//! new call.

use vstd::prelude::*;
use vstd::string::StringSliceAdditionalSpecFns;
use crate::ctxmgr::{Context, ContextManager};
use crate::form::{form_pairs, last_value, lookup, pairs_view, parse_form, Pair};
use crate::responses::{bad_request, bad_request_error, Reply, ReplyView};
use crate::script::ScriptBase;
use crate::text::same_text;
use crate::webhook::{answers, handle_twilio, twilio_reply, Fault};

verus! {

/// The method of a request, as far as the routes tell methods apart.
#[derive(Debug, Clone, Copy, PartialEq, Eq)]
pub enum Method {
    Get,
    Post,
    Other,
}

/// Whether `kvs` names all that a new call needs: both names and the number to
/// call.
pub open spec fn names_a_call(kvs: Seq<Pair>) -> bool {
    &&& last_value(kvs, "f_name"@) is Some
    &&& last_value(kvs, "l_name"@) is Some
    &&& last_value(kvs, "phone"@) is Some
}

/// Whether a request for a new call that carries `kvs` adds a context to a
/// store whose last id is `last_id`.
pub open spec fn registers<C: Context>(kvs: Seq<Pair>, last_id: int) -> bool {
    names_a_call(kvs) && C::can_be_made_from(kvs) && last_id < i32::MAX
}

/// Whether the store is after a request as it was before.
pub open spec fn untouched<C: Context>(before: &ContextManager<C>, after: &ContextManager<C>) -> bool {
    after.last_id() == before.last_id() && after@ == before@
}

/// How a request for a new call that carries `kvs` changes the store: where it
/// registers, the next id holds a context made from `kvs`, and every other id
/// holds what it held; else nothing changes.
pub open spec fn registered<C: Context>(
    before: &ContextManager<C>,
    after: &ContextManager<C>,
    kvs: Seq<Pair>,
) -> bool {
    if registers::<C>(kvs, before.last_id()) {
        let id = (before.last_id() + 1) as i32;
        &&& after.last_id() == id
        &&& after@.dom() == before@.dom().insert(id)
        &&& after@[id].is_made_from(kvs)
        &&& forall|k: i32| before@.contains_key(k) ==> after@[k] == before@[k]
    } else {
        untouched(before, after)
    }
}

/// The answer to a request for a new call that carries `kvs`, put to a store
/// whose last id is `last_id`.
pub open spec fn make_call_reply<C: Context>(kvs: Seq<Pair>, last_id: int) -> Result<
    ReplyView,
    Fault,
> {
    if !names_a_call(kvs) {
        Ok(bad_request("Missing some required_keys"@))
    } else if !C::can_be_made_from(kvs) {
        Err(Fault::ContextNotMade)
    } else if last_id >= i32::MAX {
        Err(Fault::StoreFull)
    } else {
        Ok(bad_request("method/path not supported"@))
    }
}

/// Registers the context of a new call from the names and values of the
/// request, where they name all that a call needs.
pub fn make_call<C: Context>(contexts: &mut ContextManager<C>, kvs: Vec<(String, String)>) -> (r:
    Result<Reply, Fault>)
    ensures
        answers(r, make_call_reply::<C>(pairs_view(kvs@), old(contexts).last_id())),
        registered(old(contexts), final(contexts), pairs_view(kvs@)),
{
    if lookup(&kvs, "f_name").is_none() || lookup(&kvs, "l_name").is_none() || lookup(
        &kvs,
        "phone",
    ).is_none() {
        return Ok(bad_request_error("Missing some required_keys"));
    }
    let context = match C::from_kvs(kvs) {
        None => {
            return Err(Fault::ContextNotMade);
        },
        Some(context) => context,
    };
    if contexts.last_call_id() == i32::MAX {
        return Err(Fault::StoreFull);
    }
    let id = contexts.insert_context(context);
    assert(final(contexts)@.dom() =~= old(contexts)@.dom().insert(id));
    Ok(bad_request_error("method/path not supported"))
}

/// Whether a request is one for a new call.
pub open spec fn asks_for_call(method: Method, path: Seq<char>) -> bool {
    method == Method::Get && path == "/make_call"@
}

/// The names and values that a request for a new call carries in its query
/// string; an absent query string counts as an empty one.
pub open spec fn call_pairs(query: Option<&str>) -> Seq<Pair> {
    form_pairs(
        match query {
            Some(qs) => qs,
            None => "",
        }.spec_bytes(),
    )
}

/// The answer to a request. A key press is answered from the menu; a request
/// for a new call registers its context; everything but a key press is then
/// told that it is not supported.
pub fn call<C: Context>(
    tree: &ScriptBase,
    contexts: &mut ContextManager<C>,
    pub_url: &str,
    method: Method,
    path: &str,
    query: Option<&str>,
    body: &[u8],
) -> (r: Result<Reply, Fault>)
    ensures
        method == Method::Post ==> {
            &&& answers(r, twilio_reply(tree.root, old(contexts)@, pub_url@, query, body@))
            &&& untouched(old(contexts), final(contexts))
        },
        asks_for_call(method, path@) ==> {
            &&& answers(r, make_call_reply::<C>(call_pairs(query), old(contexts).last_id()))
            &&& registered(old(contexts), final(contexts), call_pairs(query))
        },
        method != Method::Post && !asks_for_call(method, path@) ==> {
            &&& answers(r, Ok(bad_request("method/path not supported"@)))
            &&& untouched(old(contexts), final(contexts))
        },
{
    match method {
        Method::Post => handle_twilio(tree, contexts, pub_url, query, body),
        Method::Get => {
            if same_text(path, "/make_call") {
                let qs = match query {
                    Some(qs) => qs,
                    None => "",
                };
                make_call(contexts, parse_form(qs.as_bytes()))
            } else {
                Ok(bad_request_error("method/path not supported"))
            }
        },
        Method::Other => Ok(bad_request_error("method/path not supported")),
    }
}

} // verus!
