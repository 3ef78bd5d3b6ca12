//! What stands in requests, work and answers is what the other statements speak
//! of, field for field.

use vstd::prelude::*;

use crate::errors::ApiError;
use crate::metadata::RepoMeta;
use crate::printing::git_is_lost;
use crate::repositories::Found;
use crate::types::{
    Blob, BranchList, Collaborators, Commit, CommitList, Diff, HitView, MetaSummary, Preview,
    ProfileList, ProfileRepo, Repository, RepositoryList, SearchHit, SearchResults, Settings,
    Starred, Tree, TreeEntry, Written, WrittenView,
};
use crate::work::{
    entries_in, flag_in, git_in, git_nth, meta_in, meta_nth, removal_in, GitCommand, GitReply,
    Removal, Reply, Step, StepView, Work, WorkView,
};

verus! {

/// A change that was committed is told by its commit, its path and its branch;
/// settings by visibility and description; stars by their number and whether
/// one is the caller's.
pub proof fn changes_are_told(w: Written, s: Settings, t: Starred, c: Collaborators, i: int)
    ensures
        w@.sha == w.sha@ && w@.path == w.path@ && w@.branch == w.branch@,
        s@.visibility == s.visibility@ && s@.description == s.description@,
        t@.starred == t.starred && t@.star_count == t.star_count,
        c@.len() == c.collaborators@.len(),
        0 <= i < c@.len() ==> c@[i] == c.collaborators@[i]@,
{
}

/// Commits, tree entries, trees and files are told by their fields.
pub proof fn contents_are_told(c: Commit, e: TreeEntry, t: Tree, b: Blob, i: int)
    ensures
        c@.sha == c.sha@ && c@.author_name == c.author_name@ && c@.author_email == c.author_email@,
        c@.timestamp == c.timestamp && c@.message == c.message@,
        e@.mode == e.mode@ && e@.kind == e.kind@ && e@.sha == e.sha@,
        e@.size == e.size && e@.name == e.name@,
        t@.git_ref == t.git_ref@ && t@.path == t.path@ && t@.entries.len() == t.entries@.len(),
        0 <= i < t@.entries.len() ==> t@.entries[i] == t.entries@[i]@,
        b@.git_ref == b.git_ref@ && b@.path == b.path@ && b@.content == b.content@,
        b@.is_binary == b.is_binary && b@.size == b.size,
{
}

/// Lists of branches and of commits, diffs and previews are told by their
/// fields.
pub proof fn histories_are_told(b: BranchList, l: CommitList, d: Diff, p: Preview, i: int)
    ensures
        b@.branches.len() == b.branches@.len(),
        0 <= i < b@.branches.len() ==> b@.branches[i] == b.branches@[i]@,
        match b.head {
            Some(h) => b@.head == Some(h@),
            None => b@.head is None,
        },
        l@.len() == l.commits@.len(),
        0 <= i < l@.len() ==> l@[i] == l.commits@[i]@,
        d@.commit == d.commit@ && d@.stats == d.stats && d@.diff == d.diff@,
        p@.commit == p.commit@ && p@.diff_stat == p.diff_stat@ && p@.diff == p.diff@,
        p@.branches.len() == p.branches@.len() && p@.tree.len() == p.tree@.len(),
        0 <= i < p@.branches.len() ==> p@.branches[i] == p.branches@[i]@,
        0 <= i < p@.tree.len() ==> p@.tree[i] == p.tree@[i]@,
{
}

/// Repositories, in lists and in profiles, and metadata are told by their
/// fields.
pub proof fn repositories_are_told(
    r: Repository,
    l: RepositoryList,
    p: ProfileRepo,
    q: ProfileList,
    i: int,
)
    ensures
        r@.id == r.id@ && r@.name == r.name@ && r@.owner == r.owner@ && r@.path == r.path@,
        r@.created_at == r.created_at@ && r@.updated_at == r.updated_at@,
        r@.visibility == r.visibility@ && r@.description == r.description@,
        r@.star_count == r.star_count,
        l@.len() == l.repositories@.len(),
        0 <= i < l@.len() ==> l@[i] == l.repositories@[i]@,
        p@.name == p.name@ && p@.owner == p.owner@,
        p@.created_at == p.created_at@ && p@.updated_at == p.updated_at@,
        p@.visibility == p.visibility@ && p@.description == p.description@,
        p@.star_count == p.star_count && p@.last_commit_timestamp == p.last_commit_timestamp,
        q@.len() == q.repositories@.len(),
        0 <= i < q@.len() ==> q@[i] == q.repositories@[i]@,
{
}

/// Metadata, stored or shown, are told by their fields.
pub proof fn metadata_are_told(m: RepoMeta, s: MetaSummary, f: Found, i: int)
    ensures
        m@.visibility == m.visibility@ && m@.description == m.description@,
        m@.created_at == m.created_at@ && m@.updated_at == m.updated_at@,
        m@.stars.len() == m.stars@.len() && m@.collaborators.len() == m.collaborators@.len(),
        0 <= i < m@.stars.len() ==> m@.stars[i] == m.stars@[i]@,
        0 <= i < m@.collaborators.len() ==> m@.collaborators[i] == m.collaborators@[i]@,
        s@.visibility == s.visibility@ && s@.description == s.description@,
        s@.created_at == s.created_at@ && s@.updated_at == s.updated_at@,
        s@.star_count == s.star_count && s@.starred_by_me == s.starred_by_me,
        s@.collaborators.len() == s.collaborators@.len(),
        0 <= i < s@.collaborators.len() ==> s@.collaborators[i] == s.collaborators@[i]@,
        f@.name == f.name@ && f@.path == f.path@,
{
}

/// Hits of a search are told by their fields.
pub proof fn hits_are_told(h: SearchHit, r: SearchResults, i: int)
    ensures
        match h {
            SearchHit::Repo { owner, name, description, visibility, star_count } => h@
                == (HitView::Repo {
                owner: owner@,
                name: name@,
                description: description@,
                visibility: visibility@,
                star_count: star_count as nat,
            }),
            SearchHit::Commit { owner, repo, sha, author, message } => h@ == (HitView::Commit {
                owner: owner@,
                repo: repo@,
                sha: sha@,
                author: author@,
                message: message@,
            }),
        },
        r@.len() == r.results@.len(),
        0 <= i < r@.len() ==> r@[i] == r.results@[i]@,
{
}

/// A git command is told by all that it is run with.
pub proof fn commands_are_told(c: GitCommand, i: int)
    ensures
        c@.args.len() == c.args@.len(),
        0 <= i < c@.args.len() ==> c@.args[i] == c.args@[i]@,
        c@.env.len() == c.env@.len(),
        0 <= i < c@.env.len() ==> c@.env[i] == (c.env@[i].0@, c.env@[i].1@),
        match c.dir {
            Some(d) => c@.dir == Some(d@),
            None => c@.dir is None,
        },
        match c.input {
            Some(b) => c@.input == Some(b@),
            None => c@.input is None,
        },
        match c.scratch {
            Some(s) => c@.scratch == Some(s@),
            None => c@.scratch is None,
        },
{
}

/// Work is told by its kind and all that it is about.
pub proof fn work_is_told(w: Work, i: int)
    ensures
        match w {
            Work::Git(c) => w@ == WorkView::Git(c@),
            Work::GitAll(list) => w@ matches WorkView::GitAll(views) && views.len() == list@.len()
                && (0 <= i < views.len() ==> views[i] == list@[i]@),
            Work::Lock { repo } => w@ == (WorkView::Lock { repo: repo@ }),
            Work::ReadMeta { path } => w@ == (WorkView::ReadMeta { path: path@ }),
            Work::ReadMetas { paths } => w@ matches WorkView::ReadMetas { paths: views }
                && views.len() == paths@.len() && (0 <= i < views.len() ==> views[i]
                == paths@[i]@),
            Work::WriteMeta { path, meta } => w@ == (WorkView::WriteMeta {
                path: path@,
                meta: meta@,
            }),
            Work::IsDir { path } => w@ == (WorkView::IsDir { path: path@ }),
            Work::ListDir { path } => w@ == (WorkView::ListDir { path: path@ }),
            Work::MakeDir { path } => w@ == (WorkView::MakeDir { path: path@ }),
            Work::RemoveDir { path } => w@ == (WorkView::RemoveDir { path: path@ }),
            Work::RemoveFile { path } => w@ == (WorkView::RemoveFile { path: path@ }),
        },
{
}

/// A step is told by the work it asks for, by its answer, or by its error, and
/// an error by its status, its message and its detail.
pub proof fn steps_are_told(s: Step<Written>, e: ApiError)
    ensures
        match s {
            Step::Ask(work) => s@ == StepView::<WrittenView>::Ask(work@),
            Step::Done(Ok(answer)) => s@ == StepView::Answer(answer.status, answer.body@),
            Step::Done(Err(error)) => s@ == StepView::<WrittenView>::Refuse(error@),
        },
        e@.status == e.status && e@.error == e.body.error@,
        match e.body.detail {
            Some(d) => e@.detail == Some(d@),
            None => e@.detail is None,
        },
{
}

/// A reply says what it says to the work that it answers, and failure to any
/// other.
pub proof fn replies_are_taken_at_their_word(reply: Reply, i: int)
    ensures
        match reply {
            Reply::Git(g) => git_in(reply) == g,
            _ => git_is_lost(Reply::Git(git_in(reply))),
        },
        match reply {
            Reply::Meta(stored) => meta_in(reply) == stored,
            _ => meta_in(reply) is None,
        },
        match reply {
            Reply::Flag(b) => flag_in(reply) == b,
            _ => !flag_in(reply),
        },
        match reply {
            Reply::Entries(entries) => entries_in(reply) == entries,
            _ => entries_in(reply) is None,
        },
        match reply {
            Reply::Removed(r) => removal_in(reply) == r,
            _ => removal_in(reply) == Removal::Failed,
        },
        match reply {
            Reply::Metas(list) => if 0 <= i < list@.len() {
                meta_nth(reply, i) == list@[i]
            } else {
                meta_nth(reply, i) is None
            },
            _ => meta_nth(reply, i) is None,
        },
        match reply {
            Reply::GitAll(list) => if 0 <= i < list@.len() {
                git_nth(reply, i) == list@[i]
            } else {
                git_nth(reply, i) == GitReply::NotStarted
            },
            _ => git_nth(reply, i) == GitReply::NotStarted,
        },
{
}

} // verus!
