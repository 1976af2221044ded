use twilio_ivr::responses::{bad_request_error, not_allowed_error};
use twilio_ivr::twiml::{get_input, say};

const SAY_HELLO: &str = "<?xml version=\"1.0\" encoding=\"UTF-8\"?>
                <Response>
                    <Say voice=\"woman\">hello</Say>
                </Response>
                ";

const GATHER_HELLO: &str = "<?xml version=\"1.0\" encoding=\"UTF-8\"?>
                <Response>
                    <Gather input=\"dtmf\" timeout=\"10\" numDigits=\"1\" action=\"http://x.io?path=1&amp;id=2\">
                        <Say voice=\"woman\">hello</Say>
                    </Gather>
                </Response>
                ";

#[test]
fn say_wraps_the_text() {
    assert_eq!(say("hello").into_string(), SAY_HELLO);
}

#[test]
fn say_of_nothing_is_the_bare_document() {
    assert_eq!(say("").into_string(), SAY_HELLO.replace("hello", ""));
}

#[test]
fn get_input_escapes_the_ampersands_of_the_address() {
    assert_eq!(get_input("http://x.io?path=1&id=2", "hello").into_string(), GATHER_HELLO);
}

#[test]
fn get_input_escapes_every_ampersand() {
    let document = get_input("a&b&&c", "t").into_string();
    assert!(document.contains("action=\"a&amp;b&amp;&amp;c\""));
}

#[test]
fn get_input_leaves_the_prompt_as_it_is() {
    let document = get_input("u", "you & me").into_string();
    assert!(document.contains("<Say voice=\"woman\">you & me</Say>"));
}

#[test]
fn document_reply_is_xml_with_status_200() {
    let reply = say("hello").into_reply();
    assert_eq!(reply.status, 200);
    assert!(reply.xml);
    assert_eq!(reply.body, SAY_HELLO);
}

#[test]
fn bad_request_error_has_status_400() {
    let reply = bad_request_error("Missing uri query");
    assert_eq!(reply.status, 400);
    assert!(!reply.xml);
    assert_eq!(reply.body, "Missing uri query");
}

#[test]
fn not_allowed_error_has_status_405() {
    let reply = not_allowed_error("no");
    assert_eq!(reply.status, 405);
    assert!(!reply.xml);
    assert_eq!(reply.body, "no");
}
