//! Sidecar metadata of repositories.
//!
//! Each bare repository `{owner}/{name}.git` has a companion
//! `{owner}/{name}.meta.json` that holds visibility, description, stars,
//! collaborators and timestamps.

use vstd::prelude::*;

use crate::outside::{is_utc_time, read_clock};
use crate::pathing::{user_dir, user_path};
use crate::text::{copy_texts, join2, join3, texts};
use crate::work::{Work, WorkView};

verus! {

/// The metadata of one repository.
#[derive(Debug)]
pub struct RepoMeta {
    /// `public` or `private`.
    pub visibility: String,
    /// What the repository is about.
    pub description: String,
    /// The ids of the users who starred it.
    pub stars: Vec<String>,
    /// The ids of the users who may read it though it is private.
    pub collaborators: Vec<String>,
    /// When it was made.
    pub created_at: String,
    /// When its metadata last changed.
    pub updated_at: String,
}

/// What a [`RepoMeta`] holds.
#[verifier::ext_equal]
pub struct MetaView {
    /// `public` or `private`.
    pub visibility: Seq<char>,
    /// What the repository is about.
    pub description: Seq<char>,
    /// The ids of the users who starred it.
    pub stars: Seq<Seq<char>>,
    /// The ids of the users who may read it though it is private.
    pub collaborators: Seq<Seq<char>>,
    /// When it was made.
    pub created_at: Seq<char>,
    /// When its metadata last changed.
    pub updated_at: Seq<char>,
}

impl View for RepoMeta {
    type V = MetaView;

    open spec fn view(&self) -> MetaView {
        MetaView {
            visibility: self.visibility@,
            description: self.description@,
            stars: texts(self.stars@),
            collaborators: texts(self.collaborators@),
            created_at: self.created_at@,
            updated_at: self.updated_at@,
        }
    }
}

/// The metadata of a repository made at `now`: public, and otherwise empty.
pub open spec fn fresh_meta(now: Seq<char>) -> MetaView {
    MetaView {
        visibility: "public"@,
        description: seq![],
        stars: seq![],
        collaborators: seq![],
        created_at: now,
        updated_at: now,
    }
}

/// Stored metadata; that of a repository made now where none can be read.
pub open spec fn meta_or_fresh(stored: Option<RepoMeta>, now: Seq<char>) -> MetaView {
    match stored {
        Some(meta) => meta@,
        None => fresh_meta(now),
    }
}

/// The path of the metadata sidecar.
pub open spec fn sidecar_path(root: Seq<char>, owner: Seq<char>, name: Seq<char>) -> Seq<char> {
    user_path(root, owner) + "/"@ + name + ".meta.json"@
}

impl RepoMeta {
    /// The metadata of a repository made at `now`.
    pub fn fresh(now: &str) -> (meta: Self)
        ensures
            meta@ == fresh_meta(now@),
    {
        let meta = RepoMeta {
            visibility: "public".to_owned(),
            description: String::new(),
            stars: Vec::new(),
            collaborators: Vec::new(),
            created_at: now.to_owned(),
            updated_at: now.to_owned(),
        };
        assert(meta@ =~= fresh_meta(now@));
        meta
    }
}

impl Clone for RepoMeta {
    fn clone(&self) -> (meta: Self)
        ensures
            meta@ == self@,
    {
        RepoMeta {
            visibility: self.visibility.clone(),
            description: self.description.clone(),
            stars: copy_texts(&self.stars),
            collaborators: copy_texts(&self.collaborators),
            created_at: self.created_at.clone(),
            updated_at: self.updated_at.clone(),
        }
    }
}

impl Default for RepoMeta {
    /// The metadata of a repository made at this moment.
    fn default() -> (meta: Self)
        ensures
            meta@ == fresh_meta(meta@.created_at),
            is_utc_time(meta@.created_at),
    {
        let now = read_clock();
        RepoMeta::fresh(now.as_str())
    }
}

/// The path of the metadata sidecar of a repository.
pub fn meta_path(root: &str, owner: &str, name: &str) -> (path: String)
    ensures
        path@ == sidecar_path(root@, owner@, name@),
{
    let dir = user_dir(root, owner);
    let head = join3(dir.as_str(), "/", name);
    join2(head.as_str(), ".meta.json")
}

/// The metadata in force: what was stored, or the defaults.
pub fn read_meta(stored: &Option<RepoMeta>, now: &str) -> (meta: RepoMeta)
    ensures
        meta@ == meta_or_fresh(*stored, now@),
{
    match stored {
        Some(meta) => meta.clone(),
        None => RepoMeta::fresh(now),
    }
}

/// The work of storing metadata beside its repository.
pub fn write_meta(root: &str, owner: &str, name: &str, meta: RepoMeta) -> (work: Work)
    ensures
        work@ == (WorkView::WriteMeta { path: sidecar_path(root@, owner@, name@), meta: meta@ }),
{
    Work::WriteMeta { path: meta_path(root, owner, name), meta }
}

} // verus!
