//! Work for the outside world, and what it answers.
//!
//! An operation never touches the disk or git by itself. It is a function of
//! the request and of the replies so far: it either asks for one more piece of
//! [`Work`], or is done. Whoever runs it performs the work, adds the
//! [`Reply`], and calls it again with the longer list.

use vstd::prelude::*;

use crate::errors::{ApiError, ErrorView};
use crate::metadata::{MetaView, RepoMeta};
use crate::text::texts;

verus! {

/// A git command.
#[derive(Debug)]
pub struct GitCommand {
    /// The repository to run in (`-C`), if any.
    pub dir: Option<String>,
    /// The arguments after it.
    pub args: Vec<String>,
    /// Environment variables to set.
    pub env: Vec<(String, String)>,
    /// What to write to its standard input, if anything.
    pub input: Option<Vec<u8>>,
    /// The name of a temporary directory to serve as the work tree, if any: it
    /// is made for this command and removed after it.
    pub scratch: Option<String>,
}

/// How a git command went.
#[derive(Debug)]
pub enum GitReply {
    /// It could not be started.
    NotStarted,
    /// Its input could not be written.
    InputLost,
    /// Its end could not be awaited.
    EndLost,
    /// It ended.
    Ended {
        /// Whether it ended with success.
        success: bool,
        /// What it wrote to its standard output.
        stdout: Vec<u8>,
        /// What it wrote to its standard error.
        stderr: Vec<u8>,
    },
}

/// An entry of a directory.
#[derive(Debug)]
pub struct DirEntry {
    /// Its file name.
    pub name: String,
    /// Its path.
    pub path: String,
    /// Whether it is a directory.
    pub is_dir: bool,
}

/// How the removal of a directory went.
#[derive(Debug, Clone, Copy, PartialEq, Eq, Structural)]
pub enum Removal {
    /// It is gone.
    Removed,
    /// It was not there.
    Missing,
    /// It could not be removed.
    Failed,
}

/// A piece of work for the outside world. Each variant says which [`Reply`]
/// answers it.
#[derive(Debug)]
pub enum Work {
    /// Run a git command: `Reply::Git`.
    Git(GitCommand),
    /// Run git commands one after another: `Reply::GitAll`.
    GitAll(Vec<GitCommand>),
    /// Wait for the write lock of a repository and keep it until the operation
    /// is done: `Reply::Done`.
    Lock {
        /// The repository's directory.
        repo: String,
    },
    /// Read metadata: `Reply::Meta`.
    ReadMeta {
        /// The sidecar's path.
        path: String,
    },
    /// Read the metadata of several repositories: `Reply::Metas`.
    ReadMetas {
        /// The sidecars' paths.
        paths: Vec<String>,
    },
    /// Write metadata: `Reply::Flag`, whether it was written.
    WriteMeta {
        /// The sidecar's path.
        path: String,
        /// The metadata.
        meta: RepoMeta,
    },
    /// Look whether a directory is there: `Reply::Flag`.
    IsDir {
        /// Its path.
        path: String,
    },
    /// List a directory: `Reply::Entries`.
    ListDir {
        /// Its path.
        path: String,
    },
    /// Make a directory and its parents: `Reply::Flag`, whether it is there.
    MakeDir {
        /// Its path.
        path: String,
    },
    /// Remove a directory and all in it: `Reply::Removed`.
    RemoveDir {
        /// Its path.
        path: String,
    },
    /// Remove a file if it is there: `Reply::Done`.
    RemoveFile {
        /// Its path.
        path: String,
    },
}

/// What the outside world answered to a piece of work.
#[derive(Debug)]
pub enum Reply {
    /// How a git command went.
    Git(GitReply),
    /// How several git commands went, in their order.
    GitAll(Vec<GitReply>),
    /// Metadata, if it could be read.
    Meta(Option<RepoMeta>),
    /// The metadata of several repositories, in their order.
    Metas(Vec<Option<RepoMeta>>),
    /// Whether it is so.
    Flag(bool),
    /// The entries of a directory, if it could be read.
    Entries(Option<Vec<DirEntry>>),
    /// How a removal went.
    Removed(Removal),
    /// It is done.
    Done,
}

/// A successful answer.
#[derive(Debug)]
pub struct Answer<T> {
    /// The HTTP status code.
    pub status: u16,
    /// The body of the answer.
    pub body: T,
}

/// What an operation does next.
#[derive(Debug)]
pub enum Step<T> {
    /// It asks for one more piece of work.
    Ask(Work),
    /// It is done.
    Done(Result<Answer<T>, ApiError>),
}

/// What a part of an operation has come to.
#[derive(Debug)]
pub enum Part<T> {
    /// It asks for one more piece of work.
    Ask(Work),
    /// The operation fails here.
    Fail(ApiError),
    /// It has its value.
    Have {
        /// The value.
        value: T,
        /// How many replies have been used so far.
        used: usize,
    },
}

/// What a [`GitCommand`] says.
#[verifier::ext_equal]
pub struct CommandView {
    /// The repository to run in.
    pub dir: Option<Seq<char>>,
    /// The arguments after it.
    pub args: Seq<Seq<char>>,
    /// Environment variables to set.
    pub env: Seq<(Seq<char>, Seq<char>)>,
    /// What to write to its standard input.
    pub input: Option<Seq<u8>>,
    /// The name of a temporary work tree.
    pub scratch: Option<Seq<char>>,
}

/// What a [`Work`] says.
#[verifier::ext_equal]
pub enum WorkView {
    /// Run a git command.
    Git(CommandView),
    /// Run git commands one after another.
    GitAll(Seq<CommandView>),
    /// Wait for the write lock of a repository.
    Lock { repo: Seq<char> },
    /// Read metadata.
    ReadMeta { path: Seq<char> },
    /// Read the metadata of several repositories.
    ReadMetas { paths: Seq<Seq<char>> },
    /// Write metadata.
    WriteMeta { path: Seq<char>, meta: MetaView },
    /// Look whether a directory is there.
    IsDir { path: Seq<char> },
    /// List a directory.
    ListDir { path: Seq<char> },
    /// Make a directory and its parents.
    MakeDir { path: Seq<char> },
    /// Remove a directory and all in it.
    RemoveDir { path: Seq<char> },
    /// Remove a file if it is there.
    RemoveFile { path: Seq<char> },
}

/// What a [`Step`] says.
#[verifier::ext_equal]
pub enum StepView<T> {
    /// It asks for one more piece of work.
    Ask(WorkView),
    /// It is done, with a status and a body.
    Answer(u16, T),
    /// It is done, with an error.
    Refuse(ErrorView),
}

/// What a [`Part`] says.
#[verifier::ext_equal]
pub enum PartView<T> {
    /// It asks for one more piece of work.
    Ask(WorkView),
    /// The operation fails here.
    Fail(ErrorView),
    /// It has its value, after so many replies.
    Have(T, int),
}

/// The view of an optional text.
pub open spec fn text_or_none(s: Option<String>) -> Option<Seq<char>> {
    match s {
        Some(t) => Some(t@),
        None => None,
    }
}

/// The views of a list of pairs of strings.
pub open spec fn pairs(list: Seq<(String, String)>) -> Seq<(Seq<char>, Seq<char>)> {
    list.map_values(|p: (String, String)| (p.0@, p.1@))
}

/// The views of a list of commands.
pub open spec fn commands(list: Seq<GitCommand>) -> Seq<CommandView> {
    list.map_values(|c: GitCommand| c@)
}

impl View for GitCommand {
    type V = CommandView;

    open spec fn view(&self) -> CommandView {
        CommandView {
            dir: text_or_none(self.dir),
            args: texts(self.args@),
            env: pairs(self.env@),
            input: match self.input {
                Some(bytes) => Some(bytes@),
                None => None,
            },
            scratch: text_or_none(self.scratch),
        }
    }
}

impl View for Work {
    type V = WorkView;

    open spec fn view(&self) -> WorkView {
        match *self {
            Work::Git(c) => WorkView::Git(c@),
            Work::GitAll(list) => WorkView::GitAll(commands(list@)),
            Work::Lock { repo } => WorkView::Lock { repo: repo@ },
            Work::ReadMeta { path } => WorkView::ReadMeta { path: path@ },
            Work::ReadMetas { paths } => WorkView::ReadMetas { paths: texts(paths@) },
            Work::WriteMeta { path, meta } => WorkView::WriteMeta { path: path@, meta: meta@ },
            Work::IsDir { path } => WorkView::IsDir { path: path@ },
            Work::ListDir { path } => WorkView::ListDir { path: path@ },
            Work::MakeDir { path } => WorkView::MakeDir { path: path@ },
            Work::RemoveDir { path } => WorkView::RemoveDir { path: path@ },
            Work::RemoveFile { path } => WorkView::RemoveFile { path: path@ },
        }
    }
}

impl<T: View> View for Step<T> {
    type V = StepView<T::V>;

    open spec fn view(&self) -> StepView<T::V> {
        match *self {
            Step::Ask(work) => StepView::Ask(work@),
            Step::Done(Ok(answer)) => StepView::Answer(answer.status, answer.body@),
            Step::Done(Err(e)) => StepView::Refuse(e@),
        }
    }
}

impl<T: View> View for Part<T> {
    type V = PartView<T::V>;

    open spec fn view(&self) -> PartView<T::V> {
        match *self {
            Part::Ask(work) => PartView::Ask(work@),
            Part::Fail(e) => PartView::Fail(e@),
            Part::Have { value, used } => PartView::Have(value@, used as int),
        }
    }
}

/// The git reply in a reply; a reply of another kind counts as a command that
/// could not be started.
pub open spec fn git_in(reply: Reply) -> GitReply {
    match reply {
        Reply::Git(g) => g,
        _ => GitReply::NotStarted,
    }
}

/// The metadata in a reply; a reply of another kind counts as none.
pub open spec fn meta_in(reply: Reply) -> Option<RepoMeta> {
    match reply {
        Reply::Meta(stored) => stored,
        _ => None,
    }
}

/// The flag in a reply; a reply of another kind counts as no.
pub open spec fn flag_in(reply: Reply) -> bool {
    match reply {
        Reply::Flag(b) => b,
        _ => false,
    }
}

/// The entries in a reply; a reply of another kind counts as unreadable.
pub open spec fn entries_in(reply: Reply) -> Option<Vec<DirEntry>> {
    match reply {
        Reply::Entries(entries) => entries,
        _ => None,
    }
}

/// The outcome in a reply; a reply of another kind counts as a failure.
pub open spec fn removal_in(reply: Reply) -> Removal {
    match reply {
        Reply::Removed(r) => r,
        _ => Removal::Failed,
    }
}

/// The metadata at a place of a reply; what is not there counts as none.
pub open spec fn meta_nth(reply: Reply, i: int) -> Option<RepoMeta> {
    match reply {
        Reply::Metas(list) => if 0 <= i < list@.len() {
            list@[i]
        } else {
            None
        },
        _ => None,
    }
}

/// The git reply at a place of a reply; what is not there counts as a command
/// that could not be started.
pub open spec fn git_nth(reply: Reply, i: int) -> GitReply {
    match reply {
        Reply::GitAll(list) => if 0 <= i < list@.len() {
            list@[i]
        } else {
            GitReply::NotStarted
        },
        _ => GitReply::NotStarted,
    }
}

impl Reply {
    /// The git reply in this reply.
    pub fn git(&self) -> (g: &GitReply)
        ensures
            *g == git_in(*self),
    {
        match self {
            Reply::Git(g) => g,
            _ => &GitReply::NotStarted,
        }
    }

    /// The metadata in this reply.
    pub fn meta(&self) -> (stored: &Option<RepoMeta>)
        ensures
            *stored == meta_in(*self),
    {
        match self {
            Reply::Meta(stored) => stored,
            _ => &None,
        }
    }

    /// The flag in this reply.
    pub fn flag(&self) -> (b: bool)
        ensures
            b == flag_in(*self),
    {
        match self {
            Reply::Flag(b) => *b,
            _ => false,
        }
    }

    /// The entries in this reply.
    pub fn entries(&self) -> (entries: &Option<Vec<DirEntry>>)
        ensures
            *entries == entries_in(*self),
    {
        match self {
            Reply::Entries(entries) => entries,
            _ => &None,
        }
    }

    /// The outcome in this reply.
    pub fn removal(&self) -> (r: Removal)
        ensures
            r == removal_in(*self),
    {
        match self {
            Reply::Removed(r) => *r,
            _ => Removal::Failed,
        }
    }

    /// The metadata at a place of this reply.
    pub fn nth_meta(&self, i: usize) -> (stored: &Option<RepoMeta>)
        ensures
            *stored == meta_nth(*self, i as int),
    {
        match self {
            Reply::Metas(list) => if i < list.len() {
                &list[i]
            } else {
                &None
            },
            _ => &None,
        }
    }

    /// The git reply at a place of this reply.
    pub fn nth_git(&self, i: usize) -> (g: &GitReply)
        ensures
            *g == git_nth(*self, i as int),
    {
        match self {
            Reply::GitAll(list) => if i < list.len() {
                &list[i]
            } else {
                &GitReply::NotStarted
            },
            _ => &GitReply::NotStarted,
        }
    }
}

} // verus!
