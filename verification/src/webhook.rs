//! The answer to a request of the telephony platform: which prompt or message
//! follows from the keys pressed so far.

use vstd::prelude::*;
use vstd::string::StringSliceAdditionalSpecFns;
use crate::ctxmgr::{resolves_all, Context, ContextManager};
use crate::form::{form_pairs, last_value, lookup, pairs_view, parse_form, Pair};
use crate::resolution::{resolve, PathError};
use crate::responses::{bad_request, bad_request_error, Reply, ReplyView};
use crate::script::{Action, ScriptBase};
use crate::template::{filled, try_template};
use crate::text::{decimal, decimal_of, digit_value, parse_i32, parsed_i32};
use crate::twiml::{document_reply, gather_document, get_input, say, say_document};

verus! {

/// What keeps the service from answering, through no fault of the request.
#[derive(Debug, Clone, Copy, PartialEq, Eq)]
pub enum Fault {
    /// The call's context declares a variable that it has no value for.
    UnresolvedVariable,
    /// The path leads to an action that is neither a prompt nor a message.
    UnsupportedAction,
    /// The context type makes nothing of names and values that the service accepted.
    ContextNotMade,
    /// The store has given out its last id.
    StoreFull,
}

/// Whether `text` is one key: a single character, and that a decimal digit.
pub open spec fn is_one_key(text: Seq<char>) -> bool {
    text.len() == 1 && digit_value(text[0]) is Some
}

/// The key that the form reports, as the text to append to the path: nothing
/// where it reports none, the key where it reports one key, and an error
/// message for everything else. A number written in more than one character,
/// such as `05` or `+5`, is no key.
pub open spec fn pressed_key(form: Seq<Pair>) -> Result<Seq<char>, Seq<char>> {
    match last_value(form, "Digits"@) {
        None => Ok(Seq::empty()),
        Some(text) => if is_one_key(text) {
            Ok(text)
        } else if parsed_i32(text) is None {
            Err("Couldn't parse digits"@)
        } else {
            Err("Digits should be a single character only!"@)
        },
    }
}

/// What is appended to the path is one key, or nothing where the form reports
/// no key.
pub proof fn law_pressed_key_is_one_key(form: Seq<Pair>)
    ensures
        match pressed_key(form) {
            Ok(key) => if last_value(form, "Digits"@) is Some {
                is_one_key(key)
            } else {
                key.len() == 0
            },
            Err(_) => last_value(form, "Digits"@) is Some,
        },
{
}

/// The address that the platform is to send the next key to.
pub open spec fn callback_url(pub_url: Seq<char>, path: Seq<char>, id: int) -> Seq<char> {
    pub_url + "?path="@ + path + "&id="@ + decimal(id)
}

/// The answer to what was resolved for the call `id`.
pub open spec fn resolved_reply<C: Context>(
    resolved: Result<(Action, Seq<char>), PathError>,
    contexts: Map<i32, C>,
    pub_url: Seq<char>,
    id: int,
) -> Result<ReplyView, Fault> {
    match resolved {
        Ok((Action::ExecuteScript(script), canonical)) => if contexts.contains_key(id as i32) {
            if resolves_all(&contexts[id as i32]) {
                Ok(
                    document_reply(
                        gather_document(
                            callback_url(pub_url, canonical, id),
                            filled(script.prompt(), &contexts[id as i32]),
                        ),
                    ),
                )
            } else {
                Err(Fault::UnresolvedVariable)
            }
        } else {
            Ok(bad_request("Unknown call id"@))
        },
        Ok((Action::HangupWithMessage(message), _)) => Ok(document_reply(say_document(message@))),
        Ok(_) => Err(Fault::UnsupportedAction),
        Err(_) => Ok(document_reply(say_document("Invalid path"@))),
    }
}

/// The answer to a key press, from the names and values of the request's query
/// and of its form.
pub open spec fn key_press_reply<C: Context>(
    root: Action,
    contexts: Map<i32, C>,
    pub_url: Seq<char>,
    query: Seq<Pair>,
    form: Seq<Pair>,
) -> Result<ReplyView, Fault> {
    match (last_value(query, "path"@), last_value(query, "id"@)) {
        (Some(path), Some(id_text)) => match pressed_key(form) {
            Err(message) => Ok(bad_request(message)),
            Ok(key) => match parsed_i32(id_text) {
                None => Ok(bad_request("Couldn't parse id"@)),
                Some(id) => resolved_reply(resolve(root, path + key), contexts, pub_url, id),
            },
        },
        _ => Ok(bad_request("Missing path or id"@)),
    }
}

/// The answer to a request of the platform, from its query string and its body.
pub open spec fn twilio_reply<C: Context>(
    root: Action,
    contexts: Map<i32, C>,
    pub_url: Seq<char>,
    query: Option<&str>,
    body: Seq<u8>,
) -> Result<ReplyView, Fault> {
    match query {
        None => Ok(bad_request("Missing uri query"@)),
        Some(qs) => key_press_reply(
            root,
            contexts,
            pub_url,
            form_pairs(qs.spec_bytes()),
            form_pairs(body),
        ),
    }
}

/// Whether `text` is one key.
pub fn is_key(text: &str) -> (r: bool)
    ensures
        r == is_one_key(text@),
{
    if text.unicode_len() != 1 {
        return false;
    }
    let c = text.get_char(0);
    '0' <= c && c <= '9'
}

/// Whether `r` is `expected`, body for body.
pub open spec fn answers(r: Result<Reply, Fault>, expected: Result<ReplyView, Fault>) -> bool {
    match r {
        Ok(reply) => expected == Ok::<ReplyView, Fault>(reply@),
        Err(fault) => expected == Err::<ReplyView, Fault>(fault),
    }
}

/// The answer to a key press, from the names and values of the request's query
/// and of its form.
pub fn answer_key_press<C: Context>(
    tree: &ScriptBase,
    contexts: &ContextManager<C>,
    pub_url: &str,
    query: &Vec<(String, String)>,
    form: &Vec<(String, String)>,
) -> (r: Result<Reply, Fault>)
    ensures
        answers(
            r,
            key_press_reply(tree.root, contexts@, pub_url@, pairs_view(query@), pairs_view(form@)),
        ),
{
    let opt_path = lookup(query, "path");
    let opt_id = lookup(query, "id");
    let (path_str, id_str) = match (opt_path, opt_id) {
        (Some(path_str), Some(id_str)) => (path_str, id_str),
        _ => {
            return Ok(bad_request_error("Missing path or id"));
        },
    };
    let mut new_path = path_str.clone();
    let ghost mut key: Seq<char> = Seq::empty();
    if let Some(dig) = lookup(form, "Digits") {
        let pressed = dig.as_str();
        if !is_key(pressed) {
            if parse_i32(pressed).is_none() {
                return Ok(bad_request_error("Couldn't parse digits"));
            }
            return Ok(bad_request_error("Digits should be a single character only!"));
        }
        new_path.append(pressed);
        proof {
            key = pressed@;
        }
    }
    let id_i32 = match parse_i32(id_str.as_str()) {
        None => {
            return Ok(bad_request_error("Couldn't parse id"));
        },
        Some(id_i32) => id_i32,
    };
    assert(pressed_key(pairs_view(form@)) == Ok::<Seq<char>, Seq<char>>(key));
    assert(new_path@ == path_str@ + key);
    match tree.follow_path(new_path.as_str()) {
        Ok((Action::ExecuteScript(script), canonical)) => {
            let this_ctx = match contexts.load_context(id_i32) {
                None => {
                    return Ok(bad_request_error("Unknown call id"));
                },
                Some(this_ctx) => this_ctx,
            };
            let to_say = match try_template(script.text(), this_ctx) {
                None => {
                    return Err(Fault::UnresolvedVariable);
                },
                Some(to_say) => to_say,
            };
            let mut new_url = String::from_str(pub_url);
            new_url.append("?path=");
            new_url.append(canonical.as_str());
            new_url.append("&id=");
            new_url.append(decimal_of(id_i32).as_str());
            Ok(get_input(new_url.as_str(), to_say.as_str()).into_reply())
        },
        Ok((Action::HangupWithMessage(msg), _)) => Ok(say(msg.as_str()).into_reply()),
        Ok(_) => Err(Fault::UnsupportedAction),
        Err(_) => Ok(say("Invalid path").into_reply()),
    }
}

/// The answer to a request of the platform, from its query string and its body.
pub fn handle_twilio<C: Context>(
    tree: &ScriptBase,
    contexts: &ContextManager<C>,
    pub_url: &str,
    query: Option<&str>,
    body: &[u8],
) -> (r: Result<Reply, Fault>)
    ensures
        answers(r, twilio_reply(tree.root, contexts@, pub_url@, query, body@)),
{
    match query {
        None => Ok(bad_request_error("Missing uri query")),
        Some(qs) => {
            let qs_parsed_kvs = parse_form(qs.as_bytes());
            let body_params = parse_form(body);
            answer_key_press(tree, contexts, pub_url, &qs_parsed_kvs, &body_params)
        },
    }
}

} // verus!
