use twilio_ivr::ctxmgr::{Context, ContextManager};
use twilio_ivr::example::ExampleUserContext;
use twilio_ivr::responses::Reply;
use twilio_ivr::script::{Action, Script, ScriptBase};
use twilio_ivr::service::{call, make_call, Method};
use twilio_ivr::twiml::say;
use twilio_ivr::webhook::Fault;

fn small_tree() -> ScriptBase {
    ScriptBase::from_root(
        Script::with_text("Hello {f_name}").on(2, Action::HangupWithMessage("two".to_owned())),
    )
}

fn expect_reply(r: Result<Reply, Fault>, status: u16, body: &str) {
    match r {
        Ok(reply) => {
            assert_eq!(reply.status, status);
            assert_eq!(reply.body, body);
        },
        Err(fault) => panic!("expected a reply, found {:?}", fault),
    }
}

fn pairs(kvs: &[(&str, &str)]) -> Vec<(String, String)> {
    kvs.iter().map(|(k, v)| (k.to_string(), v.to_string())).collect()
}

#[test]
fn a_post_is_answered_from_the_menu() {
    let mut store: ContextManager<ExampleUserContext> = ContextManager::new();
    let r = call(&small_tree(), &mut store, "u", Method::Post, "/", Some("path=&id=1"), b"Digits=2");
    expect_reply(r, 200, &say("two").into_string());
    assert_eq!(store.last_call_id(), 0);
}

#[test]
fn a_post_to_make_call_is_still_a_key_press() {
    let mut store: ContextManager<ExampleUserContext> = ContextManager::new();
    let r = call(&small_tree(), &mut store, "u", Method::Post, "/make_call", Some("f_name=a&l_name=b&phone=1"), b"");
    expect_reply(r, 400, "Missing path or id");
    assert_eq!(store.last_call_id(), 0);
}

#[test]
fn other_requests_are_not_supported() {
    let mut store: ContextManager<ExampleUserContext> = ContextManager::new();
    let tree = small_tree();
    let r = call(&tree, &mut store, "u", Method::Get, "/", Some("f_name=a&l_name=b&phone=1"), b"");
    expect_reply(r, 400, "method/path not supported");
    let r = call(&tree, &mut store, "u", Method::Get, "/make_call/", None, b"");
    expect_reply(r, 400, "method/path not supported");
    let r = call(&tree, &mut store, "u", Method::Other, "/make_call", Some("f_name=a&l_name=b&phone=1"), b"");
    expect_reply(r, 400, "method/path not supported");
    assert_eq!(store.last_call_id(), 0);
}

#[test]
fn a_new_call_registers_its_context() {
    let mut store: ContextManager<ExampleUserContext> = ContextManager::new();
    let r = call(
        &small_tree(),
        &mut store,
        "u",
        Method::Get,
        "/make_call",
        Some("f_name=will&l_name=k%65at&phone=%2B15550100"),
        b"",
    );
    expect_reply(r, 400, "method/path not supported");
    assert_eq!(store.last_call_id(), 1);
    let ctx = store.load_context(1).unwrap();
    assert_eq!(ctx.f_name, "will");
    assert_eq!(ctx.l_name, "keat");
}

#[test]
fn a_new_call_needs_names_and_number() {
    let mut store: ContextManager<ExampleUserContext> = ContextManager::new();
    let tree = small_tree();
    let r = call(&tree, &mut store, "u", Method::Get, "/make_call", None, b"");
    expect_reply(r, 400, "Missing some required_keys");
    let r = call(&tree, &mut store, "u", Method::Get, "/make_call", Some("f_name=a&l_name=b"), b"");
    expect_reply(r, 400, "Missing some required_keys");
    let r = call(&tree, &mut store, "u", Method::Get, "/make_call", Some("f_name=a&phone=1"), b"");
    expect_reply(r, 400, "Missing some required_keys");
    let r = call(&tree, &mut store, "u", Method::Get, "/make_call", Some("l_name=b&phone=1"), b"");
    expect_reply(r, 400, "Missing some required_keys");
    assert_eq!(store.last_call_id(), 0);
}

#[test]
fn make_call_gives_each_call_the_next_id() {
    let mut store: ContextManager<ExampleUserContext> = ContextManager::new();
    let kvs = pairs(&[("f_name", "a"), ("l_name", "b"), ("phone", "1")]);
    expect_reply(make_call(&mut store, kvs), 400, "method/path not supported");
    let kvs = pairs(&[("f_name", "c"), ("l_name", "d"), ("phone", "2")]);
    expect_reply(make_call(&mut store, kvs), 400, "method/path not supported");
    assert_eq!(store.last_call_id(), 2);
    assert_eq!(store.load_context(1).unwrap().f_name, "a");
    assert_eq!(store.load_context(2).unwrap().f_name, "c");
}

/// A context that nothing can be made into.
#[derive(Debug)]
struct Never;

impl Context for Never {
    fn resolve_variable<'a>(&'a self, _var: &str) -> Option<&'a str> {
        None
    }

    fn list_vars<'a, 'b: 'a>(&'a self) -> &'b [&'b str] {
        &[]
    }

    fn from_kvs(_kvs: Vec<(String, String)>) -> Option<Self> {
        None
    }
}

#[test]
fn a_context_that_cannot_be_made_is_a_fault() {
    let mut store: ContextManager<Never> = ContextManager::new();
    let kvs = pairs(&[("f_name", "a"), ("l_name", "b"), ("phone", "1")]);
    assert!(matches!(make_call(&mut store, kvs), Err(Fault::ContextNotMade)));
    assert_eq!(store.last_call_id(), 0);
}
