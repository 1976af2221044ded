use twilio_ivr::ctxmgr::{Context, ContextManager};
use twilio_ivr::example::ExampleUserContext;

fn user(first: &str, last: &str) -> ExampleUserContext {
    ExampleUserContext { f_name: first.to_owned(), l_name: last.to_owned() }
}

#[test]
fn new_store_holds_nothing() {
    let store: ContextManager<ExampleUserContext> = ContextManager::new();
    assert_eq!(store.last_call_id(), 0);
    assert!(store.load_context(0).is_none());
    assert!(store.load_context(1).is_none());
    assert!(store.load_context(-1).is_none());
}

#[test]
fn ids_count_up_from_one() {
    let mut store = ContextManager::new();
    assert_eq!(store.insert_context(user("a", "b")), 1);
    assert_eq!(store.insert_context(user("c", "d")), 2);
    assert_eq!(store.insert_context(user("e", "f")), 3);
    assert_eq!(store.last_call_id(), 3);
    assert!(store.load_context(4).is_none());
    assert!(store.load_context(0).is_none());
    assert!(store.load_context(i32::MIN).is_none());
    assert!(store.load_context(i32::MAX).is_none());
}

#[test]
fn load_gives_back_what_was_inserted() {
    let mut store = ContextManager::new();
    let first = store.insert_context(user("will", "keat"));
    let second = store.insert_context(user("ada", "lovelace"));
    let loaded = store.load_context(first).unwrap();
    assert_eq!(loaded.f_name, "will");
    assert_eq!(loaded.l_name, "keat");
    let loaded = store.load_context(second).unwrap();
    assert_eq!(loaded.f_name, "ada");
    assert_eq!(loaded.l_name, "lovelace");
}

#[test]
fn a_later_insert_leaves_earlier_contexts_alone() {
    let mut store = ContextManager::new();
    let first = store.insert_context(user("will", "keat"));
    for _ in 0..20 {
        store.insert_context(user("x", "y"));
    }
    assert_eq!(store.last_call_id(), 21);
    let loaded = store.load_context(first).unwrap();
    assert_eq!(loaded.f_name, "will");
    assert_eq!(loaded.l_name, "keat");
}

#[test]
fn example_context_resolves_its_declared_names() {
    let ctx = user("will", "keat");
    assert_eq!(ctx.list_vars(), ["f_name", "l_name"]);
    assert_eq!(ctx.resolve_variable("f_name"), Some("will"));
    assert_eq!(ctx.resolve_variable("l_name"), Some("keat"));
    assert_eq!(ctx.resolve_variable("phone"), None);
    assert_eq!(ctx.resolve_variable(""), None);
    assert_eq!(ctx.resolve_variable("F_NAME"), None);
}

#[test]
fn example_context_is_made_from_names_and_values() {
    let kvs = vec![
        ("phone".to_owned(), "+15550100".to_owned()),
        ("l_name".to_owned(), "keat".to_owned()),
        ("f_name".to_owned(), "will".to_owned()),
    ];
    let ctx = ExampleUserContext::from_kvs(kvs).unwrap();
    assert_eq!(ctx.f_name, "will");
    assert_eq!(ctx.l_name, "keat");
}

#[test]
fn example_context_takes_the_later_of_two_values() {
    let kvs = vec![
        ("f_name".to_owned(), "first".to_owned()),
        ("l_name".to_owned(), "keat".to_owned()),
        ("f_name".to_owned(), "second".to_owned()),
    ];
    let ctx = ExampleUserContext::from_kvs(kvs).unwrap();
    assert_eq!(ctx.f_name, "second");
    assert_eq!(ctx.l_name, "keat");
}

#[test]
fn example_context_needs_both_names() {
    assert!(ExampleUserContext::from_kvs(vec![]).is_none());
    assert!(ExampleUserContext::from_kvs(vec![("f_name".to_owned(), "will".to_owned())]).is_none());
    assert!(ExampleUserContext::from_kvs(vec![("l_name".to_owned(), "keat".to_owned())]).is_none());
}
