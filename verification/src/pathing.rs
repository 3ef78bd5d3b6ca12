//! Filesystem paths of bare repositories.
//!
//! Every path is derived from the root of the repositories and the canonical
//! user id of its owner.

use vstd::prelude::*;

use crate::text::{alike, eq_ignore_ascii_case, is_letter_or_number, join2, join3};
use crate::work::DirEntry;

verus! {

/// The root of the repositories: what is configured, or `./repos`.
pub open spec fn root_path(configured: Option<String>) -> Seq<char> {
    match configured {
        Some(root) => root@,
        None => "./repos"@,
    }
}

/// The directory of a user's repositories.
pub open spec fn user_path(root: Seq<char>, owner: Seq<char>) -> Seq<char> {
    root + "/"@ + owner
}

/// The directory of a bare repository.
pub open spec fn bare_path(root: Seq<char>, owner: Seq<char>, name: Seq<char>) -> Seq<char> {
    user_path(root, owner) + "/"@ + name + ".git"@
}

/// A character that a path segment may hold.
pub open spec fn is_safe_char(c: char) -> bool {
    is_letter_or_number(c) || c == '-' || c == '_' || c == '.'
}

/// A path segment that a request may name: not empty, and made of letters,
/// numbers, dashes, underscores and dots.
pub open spec fn is_safe(s: Seq<char>) -> bool {
    s.len() > 0 && forall|i: int| 0 <= i < s.len() ==> is_safe_char(#[trigger] s[i])
}

/// The directory that a name stands for: the first directory whose name is alike
/// but for case, or the name itself.
pub open spec fn matching_name(entries: Seq<DirEntry>, owner: Seq<char>) -> Seq<char>
    decreases entries.len(),
{
    if entries.len() == 0 {
        owner
    } else if entries[0].is_dir && alike(entries[0].name@, owner) {
        entries[0].name@
    } else {
        matching_name(entries.drop_first(), owner)
    }
}

/// The root of the repositories: what is configured, or `./repos`.
pub fn repos_root(configured: Option<String>) -> (root: String)
    ensures
        root@ == root_path(configured),
{
    match configured {
        Some(root) => root,
        None => "./repos".to_owned(),
    }
}

/// The directory of a user's repositories.
pub fn user_dir(root: &str, owner: &str) -> (path: String)
    ensures
        path@ == user_path(root@, owner@),
{
    join3(root, "/", owner)
}

/// The directory of a bare repository.
pub fn repo_path(root: &str, owner: &str, name: &str) -> (path: String)
    ensures
        path@ == bare_path(root@, owner@, name@),
{
    let dir = user_dir(root, owner);
    let head = join3(dir.as_str(), "/", name);
    join2(head.as_str(), ".git")
}

/// Whether a request may name this path segment. Rejects the empty one.
pub fn is_safe_segment(s: &str) -> (r: bool)
    ensures
        r == is_safe(s@),
{
    if s.is_empty() {
        return false;
    }
    for c in it: s.chars()
        invariant
            it.seq() == s@,
            forall|i: int| 0 <= i < it.index() ==> is_safe_char(#[trigger] s@[i]),
    {
        assert(c == s@[it.index() as int]);
        if !(c.is_alphanumeric() || c == '-' || c == '_' || c == '.') {
            return false;
        }
    }
    true
}

/// The directory that a name stands for among the entries of the root.
pub fn pick_owner(entries: &Vec<DirEntry>, owner: &str) -> (name: String)
    ensures
        name@ == matching_name(entries@, owner@),
{
    assert(entries@.skip(0) =~= entries@);
    for i in 0..entries.len()
        invariant
            matching_name(entries@, owner@) == matching_name(entries@.skip(i as int), owner@),
    {
        if entries[i].is_dir && eq_ignore_ascii_case(entries[i].name.as_str(), owner) {
            return entries[i].name.as_str().to_owned();
        }
        assert(entries@.skip(i as int).drop_first() =~= entries@.skip(i + 1));
    }
    owner.to_owned()
}

} // verus!
