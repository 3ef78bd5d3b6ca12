//! What requests bring and what answers hold.

use vstd::prelude::*;

use crate::text::texts;
use crate::work::text_or_none;

verus! {

/// The body of a request for a new repository.
#[derive(Debug)]
pub struct CreateRepoRequest {
    /// The repository's name.
    pub name: String,
    /// The id of its owner.
    pub user_id: String,
}

/// A repository, as lists show it.
#[derive(Debug)]
pub struct Repository {
    /// An id for this answer.
    pub id: String,
    /// The repository's name.
    pub name: String,
    /// The name that its owner goes by.
    pub owner: String,
    /// The path of its directory.
    pub path: String,
    /// When it was made.
    pub created_at: String,
    /// `public` or `private`.
    pub visibility: String,
    /// What it is about.
    pub description: String,
    /// How many users starred it.
    pub star_count: usize,
    /// When its metadata last changed.
    pub updated_at: String,
}

/// The repositories of a user.
#[derive(Debug)]
pub struct RepositoryList {
    /// The repositories.
    pub repositories: Vec<Repository>,
}

/// The query of a list of commits.
#[derive(Debug)]
pub struct CommitsQuery {
    /// The branch; `main` if left out.
    pub branch: Option<String>,
    /// How many commits a page holds; 30 if left out.
    pub limit: Option<u32>,
    /// The page, counted from 1; the first if left out.
    pub page: Option<u32>,
}

/// The query of a tree.
#[derive(Debug)]
pub struct TreeQuery {
    /// The branch; `HEAD` if left out.
    pub git_ref: Option<String>,
    /// The path of the tree; the root if left out.
    pub path: Option<String>,
}

/// The query of a file.
#[derive(Debug)]
pub struct BlobQuery {
    /// The commit or branch; `HEAD` if left out.
    pub git_ref: Option<String>,
    /// The path of the file.
    pub path: String,
}

/// The body of a request that writes a file.
#[derive(Debug)]
pub struct WriteFileBody {
    /// The path of the file.
    pub path: String,
    /// What it is to hold, in base64.
    pub content: String,
    /// The commit message.
    pub message: String,
    /// The branch to commit to.
    pub branch: String,
    /// The author's name.
    pub author_name: String,
    /// The author's e-mail address.
    pub author_email: String,
}

/// The body of a request that removes a file.
#[derive(Debug)]
pub struct DeleteFileBody {
    /// The path of the file.
    pub path: String,
    /// The commit message.
    pub message: String,
    /// The branch to commit to.
    pub branch: String,
    /// The author's name.
    pub author_name: String,
    /// The author's e-mail address.
    pub author_email: String,
}

/// The body of a request that changes settings; what is left out stays.
#[derive(Debug)]
pub struct UpdateSettingsBody {
    /// The new visibility.
    pub visibility: Option<String>,
    /// The new description.
    pub description: Option<String>,
}

/// The body of a request for a new collaborator.
#[derive(Debug)]
pub struct CollaboratorBody {
    /// The id of the collaborator.
    pub user_id: String,
}

/// The query of a search.
#[derive(Debug)]
pub struct SearchQuery {
    /// What to search for.
    pub q: String,
    /// `repo`, `commit`, or empty for both.
    pub kind: Option<String>,
    /// How many results at most; 20 if left out.
    pub limit: Option<u32>,
}

/// The query of a commit preview.
#[derive(Debug)]
pub struct PreviewQuery {
    /// The branch it is looked at from.
    pub branch: Option<String>,
}

/// The branches of a repository.
#[derive(Debug)]
pub struct BranchList {
    /// Their names.
    pub branches: Vec<String>,
    /// The branch that `HEAD` stands for, if any.
    pub head: Option<String>,
}

/// A commit.
#[derive(Debug)]
pub struct Commit {
    /// Its name.
    pub sha: String,
    /// Its author's name.
    pub author_name: String,
    /// Its author's e-mail address.
    pub author_email: String,
    /// When it was written, in seconds.
    pub timestamp: i64,
    /// The first line of its message.
    pub message: String,
}

/// A page of commits.
#[derive(Debug)]
pub struct CommitList {
    /// The commits.
    pub commits: Vec<Commit>,
}

/// An entry of a tree.
#[derive(Debug)]
pub struct TreeEntry {
    /// Its file mode.
    pub mode: String,
    /// `blob`, `tree` or `commit`.
    pub kind: String,
    /// The name of its object.
    pub sha: String,
    /// Its size in bytes, if it has one.
    pub size: Option<u64>,
    /// Its file name.
    pub name: String,
}

/// A tree.
#[derive(Debug)]
pub struct Tree {
    /// The branch that was asked for.
    pub git_ref: String,
    /// The path that was asked for.
    pub path: String,
    /// Its entries.
    pub entries: Vec<TreeEntry>,
}

/// A file.
#[derive(Debug)]
pub struct Blob {
    /// The commit or branch that was asked for.
    pub git_ref: String,
    /// The path that was asked for.
    pub path: String,
    /// What it holds, in base64.
    pub content: String,
    /// Whether it looks like something other than text.
    pub is_binary: bool,
    /// How many bytes it holds.
    pub size: usize,
}

/// How much a commit changes.
#[derive(Debug, Clone, Copy, PartialEq, Eq, Structural)]
pub struct DiffStats {
    /// How many files.
    pub files_changed: u32,
    /// How many lines it adds.
    pub insertions: u32,
    /// How many lines it takes away.
    pub deletions: u32,
}

/// A commit and what it changes.
#[derive(Debug)]
pub struct Diff {
    /// The commit.
    pub commit: Commit,
    /// How much it changes.
    pub stats: DiffStats,
    /// What it changes.
    pub diff: String,
}

/// A change that was committed.
#[derive(Debug)]
pub struct Written {
    /// The new commit.
    pub sha: String,
    /// The path of the file.
    pub path: String,
    /// The branch.
    pub branch: String,
}

/// The metadata of a repository, as a caller sees it.
#[derive(Debug)]
pub struct MetaSummary {
    /// `public` or `private`.
    pub visibility: String,
    /// What the repository is about.
    pub description: String,
    /// How many users starred it.
    pub star_count: usize,
    /// Whether the caller did.
    pub starred_by_me: bool,
    /// The ids of its collaborators.
    pub collaborators: Vec<String>,
    /// When it was made.
    pub created_at: String,
    /// When its metadata last changed.
    pub updated_at: String,
}

/// The settings of a repository.
#[derive(Debug)]
pub struct Settings {
    /// `public` or `private`.
    pub visibility: String,
    /// What the repository is about.
    pub description: String,
}

/// The stars of a repository, after the caller gave or took one.
#[derive(Debug, Clone, Copy, PartialEq, Eq, Structural)]
pub struct Starred {
    /// Whether the caller starred it.
    pub starred: bool,
    /// How many users did.
    pub star_count: usize,
}

/// The collaborators of a repository.
#[derive(Debug)]
pub struct Collaborators {
    /// Their ids.
    pub collaborators: Vec<String>,
}

/// Something that a search found.
#[derive(Debug)]
pub enum SearchHit {
    /// A repository.
    Repo {
        /// The id of its owner.
        owner: String,
        /// Its name.
        name: String,
        /// What it is about.
        description: String,
        /// `public` or `private`.
        visibility: String,
        /// How many users starred it.
        star_count: usize,
    },
    /// A commit.
    Commit {
        /// The id of the owner of its repository.
        owner: String,
        /// The name of its repository.
        repo: String,
        /// Its name.
        sha: String,
        /// Its author's name.
        author: String,
        /// The first line of its message.
        message: String,
    },
}

/// What a search found.
#[derive(Debug)]
pub struct SearchResults {
    /// The hits.
    pub results: Vec<SearchHit>,
}

/// A repository in a profile.
#[derive(Debug)]
pub struct ProfileRepo {
    /// Its name.
    pub name: String,
    /// Its owner, as the address names them.
    pub owner: String,
    /// `public` or `private`.
    pub visibility: String,
    /// What it is about.
    pub description: String,
    /// How many users starred it.
    pub star_count: usize,
    /// When it was made.
    pub created_at: String,
    /// When its metadata last changed.
    pub updated_at: String,
    /// When its latest commit was written, in seconds, if there is one.
    pub last_commit_timestamp: Option<i64>,
}

/// The repositories of a profile.
#[derive(Debug)]
pub struct ProfileList {
    /// The repositories.
    pub repositories: Vec<ProfileRepo>,
}

/// A commit, the branches that hold it, what it changes, and the tree at it.
#[derive(Debug)]
pub struct Preview {
    /// The commit.
    pub commit: Commit,
    /// The branches that hold it.
    pub branches: Vec<String>,
    /// How much it changes, in git's words.
    pub diff_stat: String,
    /// What it changes.
    pub diff: String,
    /// The entries of the tree at it.
    pub tree: Vec<TreeEntry>,
}

/// What a [`Repository`] holds.
#[verifier::ext_equal]
pub struct RepositoryView {
    pub id: Seq<char>,
    pub name: Seq<char>,
    pub owner: Seq<char>,
    pub path: Seq<char>,
    pub created_at: Seq<char>,
    pub visibility: Seq<char>,
    pub description: Seq<char>,
    pub star_count: nat,
    pub updated_at: Seq<char>,
}

/// What a [`BranchList`] holds.
#[verifier::ext_equal]
pub struct BranchListView {
    pub branches: Seq<Seq<char>>,
    pub head: Option<Seq<char>>,
}

/// What a [`Commit`] holds.
#[verifier::ext_equal]
pub struct CommitView {
    pub sha: Seq<char>,
    pub author_name: Seq<char>,
    pub author_email: Seq<char>,
    pub timestamp: i64,
    pub message: Seq<char>,
}

/// What a [`TreeEntry`] holds.
#[verifier::ext_equal]
pub struct TreeEntryView {
    pub mode: Seq<char>,
    pub kind: Seq<char>,
    pub sha: Seq<char>,
    pub size: Option<u64>,
    pub name: Seq<char>,
}

/// What a [`Tree`] holds.
#[verifier::ext_equal]
pub struct TreeView {
    pub git_ref: Seq<char>,
    pub path: Seq<char>,
    pub entries: Seq<TreeEntryView>,
}

/// What a [`Blob`] holds.
#[verifier::ext_equal]
pub struct BlobView {
    pub git_ref: Seq<char>,
    pub path: Seq<char>,
    pub content: Seq<char>,
    pub is_binary: bool,
    pub size: nat,
}

/// What a [`Diff`] holds.
#[verifier::ext_equal]
pub struct DiffView {
    pub commit: CommitView,
    pub stats: DiffStats,
    pub diff: Seq<char>,
}

/// What a [`Written`] holds.
#[verifier::ext_equal]
pub struct WrittenView {
    pub sha: Seq<char>,
    pub path: Seq<char>,
    pub branch: Seq<char>,
}

/// What a [`MetaSummary`] holds.
#[verifier::ext_equal]
pub struct SummaryView {
    pub visibility: Seq<char>,
    pub description: Seq<char>,
    pub star_count: nat,
    pub starred_by_me: bool,
    pub collaborators: Seq<Seq<char>>,
    pub created_at: Seq<char>,
    pub updated_at: Seq<char>,
}

/// What a [`Settings`] holds.
#[verifier::ext_equal]
pub struct SettingsView {
    pub visibility: Seq<char>,
    pub description: Seq<char>,
}

/// What a [`Starred`] holds.
pub struct StarredView {
    pub starred: bool,
    pub star_count: nat,
}

/// What a [`SearchHit`] holds.
#[verifier::ext_equal]
pub enum HitView {
    Repo {
        owner: Seq<char>,
        name: Seq<char>,
        description: Seq<char>,
        visibility: Seq<char>,
        star_count: nat,
    },
    Commit {
        owner: Seq<char>,
        repo: Seq<char>,
        sha: Seq<char>,
        author: Seq<char>,
        message: Seq<char>,
    },
}

/// What a [`ProfileRepo`] holds.
#[verifier::ext_equal]
pub struct ProfileView {
    pub name: Seq<char>,
    pub owner: Seq<char>,
    pub visibility: Seq<char>,
    pub description: Seq<char>,
    pub star_count: nat,
    pub created_at: Seq<char>,
    pub updated_at: Seq<char>,
    pub last_commit_timestamp: Option<i64>,
}

/// What a [`Preview`] holds.
#[verifier::ext_equal]
pub struct PreviewView {
    pub commit: CommitView,
    pub branches: Seq<Seq<char>>,
    pub diff_stat: Seq<char>,
    pub diff: Seq<char>,
    pub tree: Seq<TreeEntryView>,
}

/// The views of a list of commits.
pub open spec fn commit_views(list: Seq<Commit>) -> Seq<CommitView> {
    list.map_values(|c: Commit| c@)
}

/// The views of a list of tree entries.
pub open spec fn entry_views(list: Seq<TreeEntry>) -> Seq<TreeEntryView> {
    list.map_values(|e: TreeEntry| e@)
}

/// The views of a list of search hits.
pub open spec fn hit_views(list: Seq<SearchHit>) -> Seq<HitView> {
    list.map_values(|h: SearchHit| h@)
}

/// The views of a list of profile repositories.
pub open spec fn profile_views(list: Seq<ProfileRepo>) -> Seq<ProfileView> {
    list.map_values(|r: ProfileRepo| r@)
}

/// The views of a list of repositories.
pub open spec fn repository_views(list: Seq<Repository>) -> Seq<RepositoryView> {
    list.map_values(|r: Repository| r@)
}

impl View for Repository {
    type V = RepositoryView;

    open spec fn view(&self) -> RepositoryView {
        RepositoryView {
            id: self.id@,
            name: self.name@,
            owner: self.owner@,
            path: self.path@,
            created_at: self.created_at@,
            visibility: self.visibility@,
            description: self.description@,
            star_count: self.star_count as nat,
            updated_at: self.updated_at@,
        }
    }
}

impl View for RepositoryList {
    type V = Seq<RepositoryView>;

    open spec fn view(&self) -> Seq<RepositoryView> {
        repository_views(self.repositories@)
    }
}

impl View for ProfileList {
    type V = Seq<ProfileView>;

    open spec fn view(&self) -> Seq<ProfileView> {
        profile_views(self.repositories@)
    }
}

impl View for BranchList {
    type V = BranchListView;

    open spec fn view(&self) -> BranchListView {
        BranchListView { branches: texts(self.branches@), head: text_or_none(self.head) }
    }
}

impl View for Commit {
    type V = CommitView;

    open spec fn view(&self) -> CommitView {
        CommitView {
            sha: self.sha@,
            author_name: self.author_name@,
            author_email: self.author_email@,
            timestamp: self.timestamp,
            message: self.message@,
        }
    }
}

impl View for CommitList {
    type V = Seq<CommitView>;

    open spec fn view(&self) -> Seq<CommitView> {
        commit_views(self.commits@)
    }
}

impl View for TreeEntry {
    type V = TreeEntryView;

    open spec fn view(&self) -> TreeEntryView {
        TreeEntryView {
            mode: self.mode@,
            kind: self.kind@,
            sha: self.sha@,
            size: self.size,
            name: self.name@,
        }
    }
}

impl View for Tree {
    type V = TreeView;

    open spec fn view(&self) -> TreeView {
        TreeView {
            git_ref: self.git_ref@,
            path: self.path@,
            entries: entry_views(self.entries@),
        }
    }
}

impl View for Blob {
    type V = BlobView;

    open spec fn view(&self) -> BlobView {
        BlobView {
            git_ref: self.git_ref@,
            path: self.path@,
            content: self.content@,
            is_binary: self.is_binary,
            size: self.size as nat,
        }
    }
}

impl View for Diff {
    type V = DiffView;

    open spec fn view(&self) -> DiffView {
        DiffView { commit: self.commit@, stats: self.stats, diff: self.diff@ }
    }
}

impl View for Written {
    type V = WrittenView;

    open spec fn view(&self) -> WrittenView {
        WrittenView { sha: self.sha@, path: self.path@, branch: self.branch@ }
    }
}

impl View for MetaSummary {
    type V = SummaryView;

    open spec fn view(&self) -> SummaryView {
        SummaryView {
            visibility: self.visibility@,
            description: self.description@,
            star_count: self.star_count as nat,
            starred_by_me: self.starred_by_me,
            collaborators: texts(self.collaborators@),
            created_at: self.created_at@,
            updated_at: self.updated_at@,
        }
    }
}

impl View for Settings {
    type V = SettingsView;

    open spec fn view(&self) -> SettingsView {
        SettingsView { visibility: self.visibility@, description: self.description@ }
    }
}

impl View for Starred {
    type V = StarredView;

    open spec fn view(&self) -> StarredView {
        StarredView { starred: self.starred, star_count: self.star_count as nat }
    }
}

impl View for Collaborators {
    type V = Seq<Seq<char>>;

    open spec fn view(&self) -> Seq<Seq<char>> {
        texts(self.collaborators@)
    }
}

impl View for SearchHit {
    type V = HitView;

    open spec fn view(&self) -> HitView {
        match *self {
            SearchHit::Repo { owner, name, description, visibility, star_count } => HitView::Repo {
                owner: owner@,
                name: name@,
                description: description@,
                visibility: visibility@,
                star_count: star_count as nat,
            },
            SearchHit::Commit { owner, repo, sha, author, message } => HitView::Commit {
                owner: owner@,
                repo: repo@,
                sha: sha@,
                author: author@,
                message: message@,
            },
        }
    }
}

impl View for SearchResults {
    type V = Seq<HitView>;

    open spec fn view(&self) -> Seq<HitView> {
        hit_views(self.results@)
    }
}

impl View for ProfileRepo {
    type V = ProfileView;

    open spec fn view(&self) -> ProfileView {
        ProfileView {
            name: self.name@,
            owner: self.owner@,
            visibility: self.visibility@,
            description: self.description@,
            star_count: self.star_count as nat,
            created_at: self.created_at@,
            updated_at: self.updated_at@,
            last_commit_timestamp: self.last_commit_timestamp,
        }
    }
}

impl View for Preview {
    type V = PreviewView;

    open spec fn view(&self) -> PreviewView {
        PreviewView {
            commit: self.commit@,
            branches: texts(self.branches@),
            diff_stat: self.diff_stat@,
            diff: self.diff@,
            tree: entry_views(self.tree@),
        }
    }
}

} // verus!
