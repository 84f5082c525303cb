//! Worktree groups: the main checkout of a repository and its linked
//! worktrees, and the short labels of grouped sessions.
use vstd::prelude::*;
use crate::model::{AppState, Workspace};

verus! {

/// The number of sessions whose worktree space has the key `key`.
pub open spec fn space_members(wss: Seq<Workspace>, key: Seq<char>) -> nat
    decreases wss.len(),
{
    if wss.len() == 0 {
        0
    } else {
        space_members(wss.drop_last(), key) + if wss.last().worktree_space matches Some(sp) && sp.key@ == key { 1nat } else { 0nat }
    }
}

/// Whether `keys` holds `key`.
pub open spec fn holds_key(keys: Seq<String>, key: Seq<char>) -> bool {
    exists|i: int| 0 <= i < keys.len() && (#[trigger] keys[i])@ == key
}

/// The group state of session `ws_idx`: for the main checkout of a space
/// with at least two sessions, the space's key and whether the user has
/// collapsed it; nothing otherwise.
pub open spec fn parent_group_state(app: AppState, ws_idx: usize) -> Option<(Seq<char>, bool)> {
    if ws_idx >= app.workspaces@.len() {
        None
    } else {
        match app.workspaces@[ws_idx as int].worktree_space {
            None => None,
            Some(space) => if space.is_linked_worktree || space_members(app.workspaces@, space.key@) < 2 {
                None
            } else {
                Some((space.key@, holds_key(app.collapsed_space_keys@, space.key@)))
            },
        }
    }
}

fn count_members(wss: &Vec<Workspace>, key: &String) -> (n: usize)
    ensures
        n == space_members(wss@, key@),
{
    let mut n: usize = 0;
    let mut i: usize = 0;
    while i < wss.len()
        invariant
            i <= wss@.len(),
            n == space_members(wss@.take(i as int), key@),
            n <= i,
        decreases wss@.len() - i,
    {
        assert(wss@.take(i + 1).drop_last() == wss@.take(i as int));
        match &wss[i].worktree_space {
            Some(space) => {
                if space.key == *key {
                    n = n + 1;
                }
            },
            None => {},
        }
        i = i + 1;
    }
    assert(wss@.take(wss@.len() as int) == wss@);
    n
}

fn holds_key_exec(keys: &Vec<String>, key: &String) -> (b: bool)
    ensures
        b == holds_key(keys@, key@),
{
    let mut i: usize = 0;
    while i < keys.len()
        invariant
            i <= keys@.len(),
            forall|j: int| 0 <= j < i ==> (#[trigger] keys@[j])@ != key@,
        decreases keys@.len() - i,
    {
        if keys[i] == *key {
            return true;
        }
        i = i + 1;
    }
    false
}

/// The group state of session `ws_idx`.
pub fn workspace_parent_group_state(app: &AppState, ws_idx: usize) -> (state: Option<(String, bool)>)
    ensures
        match parent_group_state(*app, ws_idx) {
            None => state is None,
            Some((key, collapsed)) => state matches Some((k, c)) && k@ == key && c == collapsed,
        },
{
    if ws_idx >= app.workspaces.len() {
        return None;
    }
    let space = match &app.workspaces[ws_idx].worktree_space {
        Some(space) => space,
        None => return None,
    };
    if space.is_linked_worktree {
        return None;
    }
    let member_count = count_members(&app.workspaces, &space.key);
    if member_count >= 2 {
        Some((space.key.clone(), holds_key_exec(&app.collapsed_space_keys, &space.key)))
    } else {
        None
    }
}

/// The prefix of the branches of worktrees created by the application.
pub open spec fn worktree_prefix() -> Seq<char> {
    seq!['w', 'o', 'r', 'k', 't', 'r', 'e', 'e', '/']
}

/// Calls `str::strip_prefix`: the rest of `s` after `prefix` when `s`
/// starts with it, nothing otherwise.
#[verifier::external_body]
fn strip_prefix<'a>(s: &'a str, prefix: &str) -> (rest: Option<&'a str>)
    ensures
        prefix@.is_prefix_of(s@) <==> rest is Some,
        rest matches Some(r) ==> r@ == s@.skip(prefix@.len() as int),
{
    s.strip_prefix(prefix)
}

/// The label of a session in a worktree group: its own name when it has a
/// custom one or no branch; otherwise its branch without the `worktree/`
/// prefix.
pub fn grouped_child_display_label(label: &str, branch: Option<&str>, has_custom_name: bool) -> (shown: String)
    ensures
        shown@ == (if has_custom_name || branch is None {
            label@
        } else if worktree_prefix().is_prefix_of(branch->0@) {
            branch->0@.skip(9)
        } else {
            branch->0@
        }),
{
    if has_custom_name {
        return String::from_str(label);
    }
    let branch = match branch {
        Some(branch) => branch,
        None => return String::from_str(label),
    };
    proof { reveal_strlit("worktree/"); }
    match strip_prefix(branch, "worktree/") {
        Some(rest) => String::from_str(rest),
        None => String::from_str(branch),
    }
}

} // verus!
