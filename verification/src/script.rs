//! The menu tree and the walk that turns a path of key presses into an action.

use vstd::prelude::*;
use vstd::set_lib::lemma_len_subset;
use crate::resolution::{
    is_trail, law_alias_cycle, lemma_chase_along, lemma_resolve_is_chase, resolve, walk,
    walk_from, PathError, Walk,
};
use crate::text::digit_value;

verus! {

/// What navigating to a place in the menu leads to.
#[derive(Debug)]
pub enum Action {
    /// Present a prompt and wait for another key press.
    ExecuteScript(Script),
    /// Say the text and end the call.
    HangupWithMessage(String),
    /// Stand for the place that the label reaches when read as a path from the root.
    GoToAction(String),
    /// As the answer to a key without a branch: ask again at the same prompt.
    Repeat,
}

/// One menu node: a prompt, an answer to keys without a branch, and ten branches,
/// one for each key from 0 to 9.
#[derive(Debug)]
pub struct Script {
    text: String,
    err: Box<Action>,
    other_scripts: Vec<Option<Action>>,
}

impl Script {
    #[verifier::type_invariant]
    spec fn has_ten_branches(&self) -> bool {
        self.other_scripts@.len() == 10
    }

    /// The prompt's text.
    pub closed spec fn prompt(&self) -> Seq<char> {
        self.text@
    }

    /// The action taken when the pressed key has no branch.
    pub closed spec fn error_action(&self) -> Action {
        *self.err
    }

    /// The branch configured for key `d`, if any.
    pub closed spec fn branch(&self, d: int) -> Option<Action> {
        if 0 <= d < self.other_scripts@.len() {
            self.other_scripts@[d]
        } else {
            None
        }
    }

    /// A node that says `s`, has no branch, and asks again on any key.
    pub fn with_text(s: &str) -> (r: Script)
        ensures
            r.prompt() == s@,
            r.error_action() == Action::Repeat,
            forall|d: int| r.branch(d) is None,
    {
        let default_err_option = Box::new(Action::Repeat);
        let mut branches: Vec<Option<Action>> = Vec::new();
        while branches.len() < 10
            invariant
                branches@.len() <= 10,
                forall|d: int| 0 <= d < branches@.len() ==> branches@[d] is None,
            decreases 10 - branches@.len(),
        {
            branches.push(None);
        }
        Script { text: s.to_owned(), other_scripts: branches, err: default_err_option }
    }

    /// The same node with `act` as the branch for `key`.
    pub fn on(self, key: usize, act: Action) -> (r: Script)
        requires
            key < 10,
        ensures
            r.prompt() == self.prompt(),
            r.error_action() == self.error_action(),
            r.branch(key as int) == Some(act),
            forall|d: int| d != key ==> r.branch(d) == self.branch(d),
    {
        proof {
            use_type_invariant(&self);
        }
        let mut script = self;
        script.other_scripts[key] = Some(act);
        script
    }

    /// The same node with `act` as the answer to keys without a branch.
    pub fn on_error(self, act: Action) -> (r: Script)
        ensures
            r.prompt() == self.prompt(),
            r.error_action() == act,
            forall|d: int| r.branch(d) == self.branch(d),
    {
        proof {
            use_type_invariant(&self);
        }
        let mut script = self;
        script.err = Box::new(act);
        script
    }

    /// The prompt's text, with its placeholders still in it.
    pub fn text(&self) -> (r: &str)
        ensures
            r@ == self.prompt(),
    {
        self.text.as_str()
    }
}

/// A menu tree: the action at its root, which `from_root` makes a prompt.
#[derive(Debug)]
pub struct ScriptBase {
    pub root: Action,
}

/// The outcome of one pass over a path, with the node it names borrowed from
/// the tree.
enum Step<'a> {
    Invalid,
    Answer(&'a Action, String),
    End(&'a Action),
}

impl<'a> Step<'a> {
    spec fn view(&self) -> Walk {
        match *self {
            Step::Invalid => Walk::Invalid,
            Step::Answer(action, canonical) => Walk::Answer(*action, canonical@),
            Step::End(node) => Walk::End(*node),
        }
    }
}

/// The labels of the aliases among the branches of `a`, at any depth.
spec fn labels_of(a: Action) -> Set<Seq<char>>
    decreases a, 0int,
{
    match a {
        Action::ExecuteScript(script) => labels_from(script, 0),
        Action::GoToAction(label) => set![label@],
        _ => Set::empty(),
    }
}

/// The labels of the aliases at or below the branches of `script` from key `d` on.
spec fn labels_from(script: Script, d: int) -> Set<Seq<char>>
    decreases script, script.other_scripts@.len() - d,
{
    if 0 <= d < script.other_scripts@.len() {
        let rest = labels_from(script, d + 1);
        match script.other_scripts@[d] {
            Some(next) => labels_of(next).union(rest),
            None => rest,
        }
    } else {
        Set::empty()
    }
}

proof fn lemma_labels_finite(a: Action)
    ensures
        labels_of(a).finite(),
    decreases a, 0int,
{
    if let Action::ExecuteScript(script) = a {
        lemma_labels_from_finite(script, 0);
    }
}

proof fn lemma_labels_from_finite(script: Script, d: int)
    ensures
        labels_from(script, d).finite(),
    decreases script, script.other_scripts@.len() - d,
{
    if 0 <= d < script.other_scripts@.len() {
        lemma_labels_from_finite(script, d + 1);
        if let Some(next) = script.other_scripts@[d] {
            lemma_labels_finite(next);
        }
    }
}

/// The labels below a branch are among those of its node.
proof fn lemma_branch_labels(script: Script, from: int, d: int)
    requires
        0 <= from <= d,
        script.branch(d) is Some,
    ensures
        labels_of(script.branch(d).unwrap()).subset_of(labels_from(script, from)),
    decreases d - from,
{
    if from < d {
        lemma_branch_labels(script, from + 1, d);
    }
}

/// An alias at the end of a pass is one of the tree's aliases.
proof fn lemma_walk_ends_in_tree(cur: Action, path: Seq<char>, i: int, label: String)
    requires
        walk_from(cur, path, i) == Walk::End(Action::GoToAction(label)),
    ensures
        labels_of(cur).contains(label@),
    decreases path.len() - i,
{
    if 0 <= i < path.len() {
        let d = digit_value(path[i]).unwrap();
        if let Action::ExecuteScript(script) = cur {
            let next = script.branch(d).unwrap();
            lemma_walk_ends_in_tree(next, path, i + 1, label);
            lemma_branch_labels(script, 0, d);
        }
    }
}

/// Whether `label` is among `seen`.
fn seen_before(seen: &Vec<&String>, label: &String) -> (r: bool)
    ensures
        r <==> exists|j: int| 0 <= j < seen@.len() && (#[trigger] seen@[j])@ == label@,
{
    let mut j: usize = 0;
    while j < seen.len()
        invariant
            j <= seen@.len(),
            forall|k: int| 0 <= k < j ==> (#[trigger] seen@[k])@ != label@,
        decreases seen@.len() - j,
    {
        if *seen[j] == *label {
            return true;
        }
        j += 1;
    }
    false
}

impl ScriptBase {
    /// The tree whose root is the prompt `root`.
    pub fn from_root(root: Script) -> (r: ScriptBase)
        ensures
            r.root == Action::ExecuteScript(root),
    {
        ScriptBase { root: Action::ExecuteScript(root) }
    }

    /// One pass over `path` from the root, following no alias.
    fn walk_once<'a>(&'a self, path: &str) -> (r: Step<'a>)
        ensures
            r.view() == walk(self.root, path@),
    {
        let mut cur: &Action = &self.root;
        for c in it: path.chars()
            invariant
                it.seq() == path@,
                walk(self.root, path@) == walk_from(*cur, path@, it.index() as int),
        {
            if c < '0' || c > '9' {
                return Step::Invalid;
            }
            let digit: usize = (c as u32 - '0' as u32) as usize;
            match cur {
                Action::ExecuteScript(script) => {
                    proof {
                        use_type_invariant(script);
                    }
                    match &script.other_scripts[digit] {
                        Some(next) => {
                            cur = next;
                        },
                        None => {
                            match &*script.err {
                                Action::Repeat => {
                                    let n = path.unicode_len();
                                    let shorter = path.substring_char(0, n - 1);
                                    return Step::Answer(cur, shorter.to_owned());
                                },
                                _ => {
                                    return Step::Answer(&*script.err, path.to_owned());
                                },
                            }
                        },
                    }
                },
                _ => {
                    return Step::Invalid;
                },
            }
        }
        Step::End(cur)
    }

    /// The action that `path` leads to, and the path to go on with: `path`
    /// itself, `path` without its last character where a key had no branch and
    /// the node asks again, or what the alias at the end of `path` gives.
    ///
    /// The character dropped is the last of the whole path. It is the key
    /// without a branch exactly when that key was pressed last, as it is when
    /// one key is appended to a path that this function gave out.
    ///
    /// Aliases are followed until one leads to no other. A label met twice
    /// would be met for ever: that is reported as a cycle.
    pub fn follow_path<'a>(&'a self, path: &str) -> (r: Result<(&'a Action, String), PathError>)
        ensures
            match r {
                Ok((action, canonical)) => resolve(self.root, path@) == Ok::<_, PathError>(
                    (*action, canonical@),
                ),
                Err(e) => resolve(self.root, path@) == Err::<(Action, Seq<char>), _>(e),
            },
    {
        let mut seen: Vec<&'a String> = Vec::new();
        let mut step = self.walk_once(path);
        let ghost mut trail: Seq<Seq<char>> = seq![path@];
        let ghost mut labels: Set<Seq<char>> = Set::empty();
        proof {
            lemma_labels_finite(self.root);
        }
        loop
            invariant
                is_trail(self.root, trail),
                trail.len() == seen@.len() + 1,
                trail[0] == path@,
                forall|j: int| 0 <= j < seen@.len() ==> (#[trigger] seen@[j])@ == trail[j + 1],
                step.view() == walk(self.root, trail.last()),
                labels.finite(),
                labels.len() == seen@.len(),
                labels.subset_of(labels_of(self.root)),
                labels_of(self.root).finite(),
                forall|s: Seq<char>|
                    labels.contains(s) <==> exists|j: int|
                        0 <= j < seen@.len() && (#[trigger] seen@[j])@ == s,
            decreases labels_of(self.root).len() - seen@.len(),
        {
            let ghost hops = seen@.len() as nat;
            proof {
                lemma_chase_along(self.root, trail, trail.len() - 1, 0);
                lemma_len_subset(labels, labels_of(self.root));
            }
            match step {
                Step::Invalid => {
                    proof {
                        lemma_resolve_is_chase(self.root, path@, hops);
                    }
                    return Err(PathError::InvalidPath);
                },
                Step::Answer(action, canonical) => {
                    proof {
                        lemma_resolve_is_chase(self.root, path@, hops);
                    }
                    return Ok((action, canonical));
                },
                Step::End(node) => {
                    match node {
                        Action::GoToAction(label) => {
                            if seen_before(&seen, label) {
                                proof {
                                    let back = choose|j: int|
                                        0 <= j < seen@.len() && (#[trigger] seen@[j])@ == label@;
                                    law_alias_cycle(self.root, trail, back + 1, *label);
                                }
                                return Err(PathError::AliasCycle);
                            }
                            proof {
                                lemma_walk_ends_in_tree(self.root, trail.last(), 0, *label);
                                assert(!labels.contains(label@));
                                lemma_len_subset(labels.insert(label@), labels_of(self.root));
                            }
                            let ghost before = seen@;
                            let ghost known = labels;
                            seen.push(label);
                            proof {
                                trail = trail.push(label@);
                                labels = known.insert(label@);
                                assert forall|s: Seq<char>| labels.contains(s) implies exists|j: int|
                                    0 <= j < seen@.len() && (#[trigger] seen@[j])@ == s by {
                                    if s == label@ {
                                        assert(seen@[before.len() as int]@ == s);
                                    } else {
                                        let j = choose|j: int|
                                            0 <= j < before.len() && (#[trigger] before[j])@ == s;
                                        assert(seen@[j]@ == s);
                                    }
                                }
                                assert forall|j: int| 0 <= j < seen@.len() implies labels.contains(
                                    (#[trigger] seen@[j])@,
                                ) by {
                                    if j < before.len() {
                                        assert(before[j]@ == seen@[j]@);
                                    }
                                }
                            }
                            step = self.walk_once(label.as_str());
                        },
                        _ => {
                            proof {
                                lemma_resolve_is_chase(self.root, path@, hops);
                            }
                            let current: &str = if seen.len() == 0 {
                                path
                            } else {
                                seen[seen.len() - 1].as_str()
                            };
                            return Ok((node, current.to_owned()));
                        },
                    }
                },
            }
        }
    }
}

} // verus!
