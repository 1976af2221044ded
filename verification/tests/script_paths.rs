use twilio_ivr::resolution::PathError;
use twilio_ivr::script::{Action, Script, ScriptBase};

fn demo_tree() -> ScriptBase {
    ScriptBase::from_root(
        Script::with_text("Hello {f_name}, please press 1 or 2")
            .on(
                1,
                Action::ExecuteScript(
                    Script::with_text("You pressed 1, now press 3 or 4")
                        .on(3, Action::HangupWithMessage("You pressed 1-3".to_owned()))
                        .on(4, Action::HangupWithMessage("You pressed 1-4".to_owned()))
                        .on(5, Action::GoToAction("2".to_owned())),
                ),
            )
            .on(2, Action::HangupWithMessage("You pressed 2".to_owned())),
    )
}

fn prompt_of(action: &Action) -> &str {
    match action {
        Action::ExecuteScript(script) => script.text(),
        other => panic!("expected a prompt, found {:?}", other),
    }
}

fn message_of(action: &Action) -> &str {
    match action {
        Action::HangupWithMessage(message) => message.as_str(),
        other => panic!("expected a message, found {:?}", other),
    }
}

#[test]
fn with_text_keeps_the_prompt_and_has_no_branch() {
    let tree = ScriptBase::from_root(Script::with_text("press something"));
    for key in ["0", "1", "2", "3", "4", "5", "6", "7", "8", "9"] {
        let (action, path) = tree.follow_path(key).unwrap();
        assert_eq!(prompt_of(action), "press something");
        assert_eq!(path, "");
    }
}

#[test]
fn empty_path_leads_to_the_root() {
    let tree = demo_tree();
    let (action, path) = tree.follow_path("").unwrap();
    assert_eq!(prompt_of(action), "Hello {f_name}, please press 1 or 2");
    assert_eq!(path, "");
}

#[test]
fn configured_branches_are_followed_literally() {
    let tree = demo_tree();
    let (action, path) = tree.follow_path("1").unwrap();
    assert_eq!(prompt_of(action), "You pressed 1, now press 3 or 4");
    assert_eq!(path, "1");
    let (action, path) = tree.follow_path("13").unwrap();
    assert_eq!(message_of(action), "You pressed 1-3");
    assert_eq!(path, "13");
    let (action, path) = tree.follow_path("14").unwrap();
    assert_eq!(message_of(action), "You pressed 1-4");
    assert_eq!(path, "14");
    let (action, path) = tree.follow_path("2").unwrap();
    assert_eq!(message_of(action), "You pressed 2");
    assert_eq!(path, "2");
}

#[test]
fn every_key_can_carry_a_branch() {
    let mut root = Script::with_text("root");
    let names = ["k0", "k1", "k2", "k3", "k4", "k5", "k6", "k7", "k8", "k9"];
    for key in 0..10 {
        root = root.on(key, Action::HangupWithMessage(names[key].to_owned()));
    }
    let tree = ScriptBase::from_root(root);
    for key in 0..10 {
        let path = format!("{}", key);
        let (action, canonical) = tree.follow_path(&path).unwrap();
        assert_eq!(message_of(action), names[key]);
        assert_eq!(canonical, path);
    }
}

#[test]
fn a_later_branch_replaces_an_earlier_one() {
    let tree = ScriptBase::from_root(
        Script::with_text("root")
            .on(1, Action::HangupWithMessage("first".to_owned()))
            .on(1, Action::HangupWithMessage("second".to_owned())),
    );
    let (action, _) = tree.follow_path("1").unwrap();
    assert_eq!(message_of(action), "second");
}

#[test]
fn repeat_strips_the_invalid_key() {
    let tree = ScriptBase::from_root(
        Script::with_text("root").on(1, Action::ExecuteScript(Script::with_text("one"))),
    );
    let (at_one, path_one) = tree.follow_path("1").unwrap();
    let (again, path_again) = tree.follow_path("19").unwrap();
    assert_eq!(prompt_of(at_one), "one");
    assert_eq!(prompt_of(again), "one");
    assert!(std::ptr::eq(at_one, again));
    assert_eq!(path_one, "1");
    assert_eq!(path_again, "1");
}

#[test]
fn repeat_at_the_root_gives_the_empty_path() {
    let tree = demo_tree();
    let (action, path) = tree.follow_path("7").unwrap();
    assert_eq!(prompt_of(action), "Hello {f_name}, please press 1 or 2");
    assert_eq!(path, "");
}

#[test]
fn repeat_in_the_middle_drops_only_the_last_character() {
    let tree = demo_tree();
    let (action, path) = tree.follow_path("195").unwrap();
    assert_eq!(prompt_of(action), "You pressed 1, now press 3 or 4");
    assert_eq!(path, "19");
    let (action, path) = tree.follow_path("19x").unwrap();
    assert_eq!(prompt_of(action), "You pressed 1, now press 3 or 4");
    assert_eq!(path, "19");
    let (action, path) = tree.follow_path("19é").unwrap();
    assert_eq!(prompt_of(action), "You pressed 1, now press 3 or 4");
    assert_eq!(path, "19");
}

#[test]
fn configured_error_action_keeps_the_path() {
    let tree = ScriptBase::from_root(
        Script::with_text("root").on(
            1,
            Action::ExecuteScript(
                Script::with_text("one").on_error(Action::HangupWithMessage("bye".to_owned())),
            ),
        ),
    );
    let (action, path) = tree.follow_path("17").unwrap();
    assert_eq!(message_of(action), "bye");
    assert_eq!(path, "17");
    let (action, path) = tree.follow_path("1700").unwrap();
    assert_eq!(message_of(action), "bye");
    assert_eq!(path, "1700");
}

#[test]
fn on_error_keeps_prompt_and_branches() {
    let tree = ScriptBase::from_root(
        Script::with_text("root")
            .on(3, Action::HangupWithMessage("three".to_owned()))
            .on_error(Action::HangupWithMessage("bye".to_owned())),
    );
    let (action, _) = tree.follow_path("").unwrap();
    assert_eq!(prompt_of(action), "root");
    let (action, _) = tree.follow_path("3").unwrap();
    assert_eq!(message_of(action), "three");
    let (action, path) = tree.follow_path("4").unwrap();
    assert_eq!(message_of(action), "bye");
    assert_eq!(path, "4");
}

#[test]
fn an_alias_as_error_action_is_returned_as_it_is() {
    let tree = ScriptBase::from_root(
        Script::with_text("root")
            .on(2, Action::HangupWithMessage("two".to_owned()))
            .on_error(Action::GoToAction("2".to_owned())),
    );
    let (action, path) = tree.follow_path("5").unwrap();
    assert!(matches!(action, Action::GoToAction(label) if label == "2"));
    assert_eq!(path, "5");
}

#[test]
fn alias_gives_what_its_label_gives() {
    let tree = demo_tree();
    let (by_alias, path_by_alias) = tree.follow_path("15").unwrap();
    let (direct, path_direct) = tree.follow_path("2").unwrap();
    assert!(std::ptr::eq(by_alias, direct));
    assert_eq!(message_of(by_alias), "You pressed 2");
    assert_eq!(path_by_alias, "2");
    assert_eq!(path_direct, "2");
}

#[test]
fn alias_to_a_repeating_prompt_takes_the_labels_path() {
    let tree = ScriptBase::from_root(
        Script::with_text("root")
            .on(1, Action::GoToAction("29".to_owned()))
            .on(2, Action::ExecuteScript(Script::with_text("two"))),
    );
    let (action, path) = tree.follow_path("1").unwrap();
    assert_eq!(prompt_of(action), "two");
    assert_eq!(path, "2");
}

#[test]
fn aliases_are_followed_one_after_the_other() {
    let tree = ScriptBase::from_root(
        Script::with_text("root")
            .on(1, Action::GoToAction("2".to_owned()))
            .on(2, Action::GoToAction("3".to_owned()))
            .on(3, Action::GoToAction("4".to_owned()))
            .on(4, Action::HangupWithMessage("four".to_owned())),
    );
    let (action, path) = tree.follow_path("1").unwrap();
    assert_eq!(message_of(action), "four");
    assert_eq!(path, "4");
}

#[test]
fn alias_to_the_empty_path_leads_to_the_root() {
    let tree = ScriptBase::from_root(
        Script::with_text("root").on(1, Action::GoToAction(String::new())),
    );
    let (action, path) = tree.follow_path("1").unwrap();
    assert_eq!(prompt_of(action), "root");
    assert_eq!(path, "");
}

#[test]
fn alias_to_itself_is_a_cycle() {
    let tree = ScriptBase::from_root(
        Script::with_text("root").on(1, Action::GoToAction("1".to_owned())),
    );
    assert_eq!(tree.follow_path("1").err(), Some(PathError::AliasCycle));
}

#[test]
fn aliases_in_a_ring_are_a_cycle() {
    let tree = ScriptBase::from_root(
        Script::with_text("root")
            .on(1, Action::GoToAction("2".to_owned()))
            .on(2, Action::GoToAction("3".to_owned()))
            .on(3, Action::GoToAction("1".to_owned()))
            .on(4, Action::GoToAction("1".to_owned())),
    );
    assert_eq!(tree.follow_path("1").err(), Some(PathError::AliasCycle));
    assert_eq!(tree.follow_path("2").err(), Some(PathError::AliasCycle));
    assert_eq!(tree.follow_path("4").err(), Some(PathError::AliasCycle));
    let (action, path) = tree.follow_path("5").unwrap();
    assert_eq!(prompt_of(action), "root");
    assert_eq!(path, "");
}

#[test]
fn alias_with_a_label_that_is_no_path_is_invalid() {
    let tree = ScriptBase::from_root(
        Script::with_text("root").on(1, Action::GoToAction("x".to_owned())),
    );
    assert_eq!(tree.follow_path("1").err(), Some(PathError::InvalidPath));
}

#[test]
fn a_character_that_is_no_digit_is_invalid() {
    let tree = demo_tree();
    assert_eq!(tree.follow_path("a").err(), Some(PathError::InvalidPath));
    assert_eq!(tree.follow_path("1a").err(), Some(PathError::InvalidPath));
    assert_eq!(tree.follow_path(" 1").err(), Some(PathError::InvalidPath));
    assert_eq!(tree.follow_path("1-3").err(), Some(PathError::InvalidPath));
    assert_eq!(tree.follow_path("١").err(), Some(PathError::InvalidPath));
}

#[test]
fn a_path_that_goes_on_below_a_message_is_invalid() {
    let tree = demo_tree();
    assert_eq!(tree.follow_path("21").err(), Some(PathError::InvalidPath));
    assert_eq!(tree.follow_path("131").err(), Some(PathError::InvalidPath));
    assert_eq!(tree.follow_path("151").err(), Some(PathError::InvalidPath));
}

#[test]
fn a_root_that_is_no_prompt_has_only_the_empty_path() {
    let tree = ScriptBase { root: Action::HangupWithMessage("closed".to_owned()) };
    let (action, path) = tree.follow_path("").unwrap();
    assert_eq!(message_of(action), "closed");
    assert_eq!(path, "");
    assert_eq!(tree.follow_path("1").err(), Some(PathError::InvalidPath));
}
