//! What a path of key presses means in a menu tree, as mathematics: one pass
//! over the path, the chase through aliases, and the laws that relate them.

use vstd::prelude::*;
use crate::script::Action;
use crate::text::digit_value;

verus! {

/// Why a path leads to no action.
#[derive(Debug, Clone, Copy, PartialEq, Eq)]
pub enum PathError {
    /// The path holds a character that is no digit, or goes on below a node
    /// that has no branches.
    InvalidPath,
    /// The aliases met on the way lead back to one of themselves.
    AliasCycle,
}

/// The outcome of one pass over a path, before any alias is followed.
pub ghost enum Walk {
    /// The path is no digit sequence, or does not fit the tree.
    Invalid,
    /// A key without a branch was pressed: the answer, and the path to go on with.
    Answer(Action, Seq<char>),
    /// Every key had a branch: the node at the end of the path.
    End(Action),
}

/// The pass over `path` from its `i`-th character on, standing at `cur`. It
/// ends at the first key without a branch: what follows that key is not read,
/// so a character there that is no digit does not make the path invalid.
pub open spec fn walk_from(cur: Action, path: Seq<char>, i: int) -> Walk
    decreases path.len() - i,
{
    if i < 0 || i >= path.len() {
        Walk::End(cur)
    } else {
        match digit_value(path[i]) {
            None => Walk::Invalid,
            Some(d) => match cur {
                Action::ExecuteScript(script) => match script.branch(d) {
                    Some(next) => walk_from(next, path, i + 1),
                    None => match script.error_action() {
                        Action::Repeat => Walk::Answer(cur, path.drop_last()),
                        other => Walk::Answer(other, path),
                    },
                },
                _ => Walk::Invalid,
            },
        }
    }
}

/// The pass over the whole of `path`, starting at the root.
pub open spec fn walk(root: Action, path: Seq<char>) -> Walk {
    walk_from(root, path, 0)
}

/// The node reached from `cur` by taking the branch of each key of `keys` in
/// turn, where every one of them is configured.
pub open spec fn follow_branches(cur: Action, keys: Seq<char>) -> Option<Action>
    decreases keys.len(),
{
    if keys.len() == 0 {
        Some(cur)
    } else {
        match (cur, digit_value(keys[0])) {
            (Action::ExecuteScript(script), Some(d)) => match script.branch(d) {
                Some(next) => follow_branches(next, keys.drop_first()),
                None => None,
            },
            _ => None,
        }
    }
}

/// The result of a path when at most `hops` aliases are followed; `None` when
/// that many do not suffice.
pub open spec fn chase(root: Action, path: Seq<char>, hops: nat) -> Option<
    Result<(Action, Seq<char>), PathError>,
>
    decreases hops,
{
    match walk(root, path) {
        Walk::Invalid => Some(Err(PathError::InvalidPath)),
        Walk::Answer(action, canonical) => Some(Ok((action, canonical))),
        Walk::End(Action::GoToAction(label)) => if hops == 0 {
            None
        } else {
            chase(root, label@, (hops - 1) as nat)
        },
        Walk::End(node) => Some(Ok((node, path))),
    }
}

/// Whether following aliases from `path` comes to an end.
pub open spec fn settles(root: Action, path: Seq<char>) -> bool {
    exists|hops: nat| chase(root, path, hops) is Some
}

/// The action that `path` leads to and the path to go on with, or the reason
/// why there is none.
pub open spec fn resolve(root: Action, path: Seq<char>) -> Result<(Action, Seq<char>), PathError> {
    if settles(root, path) {
        chase(root, path, choose|hops: nat| chase(root, path, hops) is Some).unwrap()
    } else {
        Err(PathError::AliasCycle)
    }
}

/// More hops change nothing once the chase has come to an end.
pub proof fn lemma_chase_stable(root: Action, path: Seq<char>, few: nat, many: nat)
    requires
        few <= many,
        chase(root, path, few) is Some,
    ensures
        chase(root, path, many) == chase(root, path, few),
    decreases few,
{
    if let Walk::End(Action::GoToAction(label)) = walk(root, path) {
        lemma_chase_stable(root, label@, (few - 1) as nat, (many - 1) as nat);
    }
}

/// A chase that ends within `hops` aliases gives the path's result.
pub proof fn lemma_resolve_is_chase(root: Action, path: Seq<char>, hops: nat)
    requires
        chase(root, path, hops) is Some,
    ensures
        settles(root, path),
        resolve(root, path) == chase(root, path, hops).unwrap(),
{
    let chosen = choose|h: nat| chase(root, path, h) is Some;
    if chosen <= hops {
        lemma_chase_stable(root, path, chosen, hops);
    } else {
        lemma_chase_stable(root, path, hops, chosen);
    }
}

/// A path whose last node is an alias has the result of the alias's label.
pub proof fn lemma_resolve_alias(root: Action, path: Seq<char>, label: String)
    requires
        walk(root, path) == Walk::End(Action::GoToAction(label)),
    ensures
        resolve(root, path) == resolve(root, label@),
{
    if settles(root, label@) {
        let h = choose|h: nat| chase(root, label@, h) is Some;
        lemma_resolve_is_chase(root, label@, h);
        assert(chase(root, path, h + 1) == chase(root, label@, h));
        lemma_resolve_is_chase(root, path, h + 1);
    } else if settles(root, path) {
        let h = choose|h: nat| chase(root, path, h) is Some;
        assert(h > 0);
        assert(chase(root, label@, (h - 1) as nat) is Some);
    }
}

/// Whether `trail` is the list of paths that a chase goes through: each but the
/// last ends at an alias whose label is the next.
pub open spec fn is_trail(root: Action, trail: Seq<Seq<char>>) -> bool {
    forall|i: int|
        0 <= i < trail.len() - 1 ==> match #[trigger] walk(root, trail[i]) {
            Walk::End(Action::GoToAction(label)) => label@ == trail[i + 1],
            _ => false,
        }
}

/// Along a trail, the chase from the first path is the chase from the `i`-th
/// with `i` hops spent.
pub proof fn lemma_chase_along(root: Action, trail: Seq<Seq<char>>, i: int, hops: nat)
    requires
        is_trail(root, trail),
        0 <= i < trail.len(),
    ensures
        chase(root, trail[0], hops + i as nat) == chase(root, trail[i], hops),
    decreases i,
{
    if i > 0 {
        lemma_chase_along(root, trail, i - 1, hops + 1);
        assert(walk(root, trail[i - 1]) is End);
    }
}

/// A trail whose last path ends at an alias for one of its own paths never
/// comes to an end.
pub proof fn lemma_cycle_never_ends(
    root: Action,
    trail: Seq<Seq<char>>,
    back: int,
    label: String,
    hops: nat,
    i: int,
)
    requires
        is_trail(root, trail),
        0 <= back <= i < trail.len(),
        walk(root, trail.last()) == Walk::End(Action::GoToAction(label)),
        label@ == trail[back],
    ensures
        chase(root, trail[i], hops) is None,
    decreases hops, trail.len() - i,
{
    if i < trail.len() - 1 {
        assert(walk(root, trail[i]) is End);
        if hops > 0 {
            lemma_cycle_never_ends(root, trail, back, label, (hops - 1) as nat, i + 1);
        }
    } else if hops > 0 {
        lemma_cycle_never_ends(root, trail, back, label, (hops - 1) as nat, back);
    }
}

/// A chase that comes back to a path it has been at goes on for ever: where
/// the last path of a trail ends at an alias for one of the trail's paths, the
/// first path leads to a cycle.
pub proof fn law_alias_cycle(root: Action, trail: Seq<Seq<char>>, back: int, label: String)
    requires
        is_trail(root, trail),
        0 <= back < trail.len(),
        walk(root, trail.last()) == Walk::End(Action::GoToAction(label)),
        label@ == trail[back],
    ensures
        !settles(root, trail[0]),
        resolve(root, trail[0]) == Err::<(Action, Seq<char>), _>(PathError::AliasCycle),
{
    assert forall|h: nat| chase(root, trail[0], h) is None by {
        if h >= back {
            lemma_chase_along(root, trail, back, (h - back) as nat);
            lemma_cycle_never_ends(root, trail, back, label, (h - back) as nat, back);
        } else {
            lemma_chase_along(root, trail, h as int, 0);
            assert(walk(root, trail[h as int]) is End);
        }
    }
}

/// A pass that takes configured branches from its `i`-th to its `j`-th key goes
/// on from the node that they lead to.
pub proof fn lemma_walk_over_branches(cur: Action, path: Seq<char>, i: int, j: int, node: Action)
    requires
        0 <= i <= j <= path.len(),
        follow_branches(cur, path.subrange(i, j)) == Some(node),
    ensures
        walk_from(cur, path, i) == walk_from(node, path, j),
    decreases j - i,
{
    if i < j {
        let keys = path.subrange(i, j);
        assert(keys[0] == path[i]);
        assert(keys.drop_first() == path.subrange(i + 1, j));
        if let Action::ExecuteScript(script) = cur {
            let next = script.branch(digit_value(path[i]).unwrap()).unwrap();
            lemma_walk_over_branches(next, path, i + 1, j, node);
        }
    }
}

/// Where every key of a path has a configured branch, the path leads to the
/// node that those branches reach; if that node is an alias, to what its label
/// leads to.
pub proof fn law_configured_path(root: Action, path: Seq<char>, node: Action)
    requires
        follow_branches(root, path) == Some(node),
    ensures
        walk(root, path) == Walk::End(node),
        !(node is GoToAction) ==> resolve(root, path) == Ok::<_, PathError>((node, path)),
        node matches Action::GoToAction(label) ==> resolve(root, path) == resolve(root, label@),
{
    assert(path.subrange(0, path.len() as int) == path);
    lemma_walk_over_branches(root, path, 0, path.len() as int, node);
    match node {
        Action::GoToAction(label) => {
            lemma_resolve_alias(root, path, label);
        },
        _ => {
            lemma_resolve_is_chase(root, path, 0);
        },
    }
}

/// The empty path leads to the root, and stays empty.
pub proof fn law_empty_path(root: Action)
    requires
        root is ExecuteScript,
    ensures
        resolve(root, Seq::<char>::empty()) == Ok::<_, PathError>((root, Seq::<char>::empty())),
{
    lemma_resolve_is_chase(root, Seq::<char>::empty(), 0);
}

/// A key without a branch, pressed at a prompt that asks again, leads back to
/// that prompt, and the path loses its last character.
pub proof fn law_repeat_drops_last_key(
    root: Action,
    before: Seq<char>,
    key: char,
    after: Seq<char>,
    script: crate::script::Script,
)
    requires
        follow_branches(root, before) == Some(Action::ExecuteScript(script)),
        digit_value(key) matches Some(d) && script.branch(d) is None,
        script.error_action() is Repeat,
    ensures
        resolve(root, before.push(key) + after) == Ok::<_, PathError>(
            (Action::ExecuteScript(script), (before.push(key) + after).drop_last()),
        ),
        resolve(root, before.push(key)) == Ok::<_, PathError>(
            (Action::ExecuteScript(script), before),
        ),
{
    let path = before.push(key) + after;
    let n = before.len() as int;
    assert(path.subrange(0, n) == before);
    assert(path[n] == key);
    lemma_walk_over_branches(root, path, 0, n, Action::ExecuteScript(script));
    lemma_resolve_is_chase(root, path, 0);
    let short = before.push(key);
    assert(short.subrange(0, n) == before);
    lemma_walk_over_branches(root, short, 0, n, Action::ExecuteScript(script));
    lemma_resolve_is_chase(root, short, 0);
    assert(short.drop_last() == before);
}

/// A key without a branch, pressed at a prompt with an answer of its own to
/// such keys, leads to that answer, and the path stays as it is.
pub proof fn law_error_action_keeps_path(
    root: Action,
    before: Seq<char>,
    key: char,
    after: Seq<char>,
    script: crate::script::Script,
)
    requires
        follow_branches(root, before) == Some(Action::ExecuteScript(script)),
        digit_value(key) matches Some(d) && script.branch(d) is None,
        !(script.error_action() is Repeat),
    ensures
        resolve(root, before.push(key) + after) == Ok::<_, PathError>(
            (script.error_action(), before.push(key) + after),
        ),
{
    let path = before.push(key) + after;
    let n = before.len() as int;
    assert(path.subrange(0, n) == before);
    assert(path[n] == key);
    lemma_walk_over_branches(root, path, 0, n, Action::ExecuteScript(script));
    lemma_resolve_is_chase(root, path, 0);
}

/// An alias placed at a path makes that path lead to what the alias's label
/// leads to.
pub proof fn law_alias(root: Action, path: Seq<char>, label: String)
    requires
        follow_branches(root, path) == Some(Action::GoToAction(label)),
    ensures
        resolve(root, path) == resolve(root, label@),
{
    law_configured_path(root, path, Action::GoToAction(label));
}

/// A path with a character that is no digit, met before any key without a
/// branch, leads nowhere.
pub proof fn law_non_digit_is_invalid(root: Action, before: Seq<char>, c: char, after: Seq<char>)
    requires
        follow_branches(root, before) is Some,
        digit_value(c) is None,
    ensures
        resolve(root, before.push(c) + after) == Err::<(Action, Seq<char>), _>(
            PathError::InvalidPath,
        ),
{
    let path = before.push(c) + after;
    let n = before.len() as int;
    assert(path.subrange(0, n) == before);
    assert(path[n] == c);
    lemma_walk_over_branches(root, path, 0, n, follow_branches(root, before).unwrap());
    lemma_resolve_is_chase(root, path, 0);
}

} // verus!
