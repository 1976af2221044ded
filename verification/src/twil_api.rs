//! Requests to the telephony platform's API, and the reading of its answers.

use vstd::prelude::*;
use crate::form::{borrowed_pairs_view, encode_form, form_encoded, Pair};
use crate::text::{lossy_text, text_of_bytes};

verus! {

/// The id of the account that requests are made for.
pub const ACCOUNT_SID: &'static str = "your_api_sid";

/// The secret of that account.
pub const AUTH_TOKEN: &'static str = "your_api_auth";

/// The number that calls and messages come from.
pub const FROM_NUMBER: &'static str = "+your_twilio_phone";

/// What an API address begins with, up to the account.
pub const API_ROOT: &'static str = "https://api.twilio.com/2010-04-01/Accounts/";

/// `serde_json::Value`, a JSON value: carried through, never looked into.
#[verifier::external_type_specification]
#[verifier::external_body]
pub struct ExJsonValue(serde_json::Value);

/// `serde_json::Error`, why a text is no JSON: carried through, never looked
/// into.
#[verifier::external_type_specification]
#[verifier::external_body]
pub struct ExJsonError(serde_json::Error);

/// Whether `serde_json::from_str` reads `text` as a JSON value.
pub uninterp spec fn is_json(text: Seq<char>) -> bool;

/// Calls `serde_json::from_str` on `text`, for a value of any JSON shape.
/// Whether it succeeds is a function of the text alone; nothing is claimed of
/// the value or of the error.
#[verifier::external_body]
fn json_of(text: &str) -> (r: Result<serde_json::Value, serde_json::Error>)
    ensures
        r is Ok <==> is_json(text@),
{
    serde_json::from_str(text)
}

/// An account with the platform.
#[derive(Debug)]
pub struct Twilio {
    sid: String,
    auth: String,
}

/// A POST request with a form as its body, authorised by name and password.
#[derive(Debug)]
pub struct PostRequest {
    pub url: String,
    pub username: String,
    pub password: String,
    pub body: String,
}

/// What a POST request holds, as text.
pub ghost struct PostRequestView {
    pub url: Seq<char>,
    pub username: Seq<char>,
    pub password: Seq<char>,
    pub body: Seq<char>,
}

impl View for PostRequest {
    type V = PostRequestView;

    open spec fn view(&self) -> PostRequestView {
        PostRequestView {
            url: self.url@,
            username: self.username@,
            password: self.password@,
            body: self.body@,
        }
    }
}

/// Why an answer of the API is no JSON value.
#[derive(Debug)]
pub enum TwilioResponseError {
    /// The answer's status is not 201.
    HttpStatusError(u16),
    /// The answer's body, and why it is no JSON.
    CouldntParseJsonError(String, serde_json::Error),
}

/// The form that asks for a text message.
pub open spec fn text_message_form(number: Seq<char>, msg: Seq<char>) -> Seq<Pair> {
    seq![("To"@, number), ("From"@, FROM_NUMBER@), ("Body"@, msg)]
}

/// The form that asks for a call.
pub open spec fn call_form(to: Seq<char>, callback_url: Seq<char>) -> Seq<Pair> {
    seq![("To"@, to), ("From"@, FROM_NUMBER@), ("Url"@, callback_url)]
}

impl Twilio {
    /// The account's id.
    pub closed spec fn account(&self) -> Seq<char> {
        self.sid@
    }

    /// The account's secret.
    pub closed spec fn secret(&self) -> Seq<char> {
        self.auth@
    }

    /// The request that posts `body` to `endpoint` of this account.
    pub open spec fn post(&self, endpoint: Seq<char>, body: Seq<char>) -> PostRequestView {
        PostRequestView {
            url: API_ROOT@ + self.account() + "/"@ + endpoint + ".json"@,
            username: self.account(),
            password: self.secret(),
            body,
        }
    }

    /// The account that requests are made for.
    pub fn new() -> (r: Twilio)
        ensures
            r.account() == ACCOUNT_SID@,
            r.secret() == AUTH_TOKEN@,
    {
        Twilio { sid: ACCOUNT_SID.to_owned(), auth: AUTH_TOKEN.to_owned() }
    }

    /// The request that posts `body` to `endpoint` of this account.
    pub fn make_post_request(&self, endpoint: &str, body: String) -> (r: PostRequest)
        ensures
            r@ == self.post(endpoint@, body@),
    {
        let mut url = String::from_str(API_ROOT);
        url.append(self.sid.as_str());
        url.append("/");
        url.append(endpoint);
        url.append(".json");
        PostRequest { url, username: self.sid.clone(), password: self.auth.clone(), body }
    }

    /// The request that sends the text `msg` to `number`.
    pub fn send_text_message(&self, number: &str, msg: &str) -> (r: PostRequest)
        ensures
            r@ == self.post("Messages"@, form_encoded(text_message_form(number@, msg@))),
    {
        let pairs = vec![("To", number), ("From", FROM_NUMBER), ("Body", msg)];
        assert(borrowed_pairs_view(pairs@) == text_message_form(number@, msg@));
        let body = encode_form(&pairs);
        self.make_post_request("Messages", body)
    }

    /// The request that calls `to` and has the platform ask `callback_url` what
    /// to do.
    pub fn start_call(&self, to: &str, callback_url: &str) -> (r: PostRequest)
        ensures
            r@ == self.post("Calls"@, form_encoded(call_form(to@, callback_url@))),
    {
        let pairs = vec![("To", to), ("From", FROM_NUMBER), ("Url", callback_url)];
        assert(borrowed_pairs_view(pairs@) == call_form(to@, callback_url@));
        let body = encode_form(&pairs);
        self.make_post_request("Calls", body)
    }
}

/// Whether an answer of the API with this status is to be read: only one
/// with the status 201 is.
pub fn check_status(status: u16) -> (r: Result<(), TwilioResponseError>)
    ensures
        match r {
            Ok(_) => status == 201,
            Err(TwilioResponseError::HttpStatusError(code)) => status != 201 && code == status,
            Err(TwilioResponseError::CouldntParseJsonError(_, _)) => false,
        },
{
    if status != 201 {
        return Err(TwilioResponseError::HttpStatusError(status));
    }
    Ok(())
}

/// The JSON value that the body of an answer carries, where the body, read as
/// text, is JSON; else that text, and why it is none.
pub fn read_body(body: &[u8]) -> (r: Result<serde_json::Value, TwilioResponseError>)
    ensures
        match r {
            Ok(_) => is_json(lossy_text(body@)),
            Err(TwilioResponseError::CouldntParseJsonError(text, _)) => {
                &&& !is_json(lossy_text(body@))
                &&& text@ == lossy_text(body@)
            },
            Err(TwilioResponseError::HttpStatusError(_)) => false,
        },
{
    let s = text_of_bytes(body);
    match json_of(s.as_str()) {
        Ok(sj_val) => Ok(sj_val),
        Err(sj_err) => Err(TwilioResponseError::CouldntParseJsonError(s, sj_err)),
    }
}

} // verus!
