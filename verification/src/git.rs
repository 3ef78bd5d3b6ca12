//! Git commands: how they are put, how their replies are read, the sequence of
//! plumbing steps that commits one change, and the write lock around it.

use vstd::prelude::*;

use crate::errors::{internal, plain, ApiError, ErrorView};
use crate::text::{
    add_text, join2, join3, lossy, lossy_text, same, texts, trim, trimmed,
};
use crate::work::{
    git_in, pairs, text_or_none, CommandView, GitCommand, GitReply, Part, PartView, Reply, Work,
    WorkView,
};

verus! {

/// The command ended, with or without success.
pub open spec fn ended(g: GitReply) -> bool {
    g is Ended
}

/// The command ended with success.
pub open spec fn succeeded(g: GitReply) -> bool {
    match g {
        GitReply::Ended { success, .. } => success,
        _ => false,
    }
}

/// What the command wrote to its standard output.
pub open spec fn stdout_of(g: GitReply) -> Seq<u8> {
    match g {
        GitReply::Ended { stdout, .. } => stdout@,
        _ => seq![],
    }
}

/// What the command wrote to its standard error.
pub open spec fn stderr_of(g: GitReply) -> Seq<u8> {
    match g {
        GitReply::Ended { stderr, .. } => stderr@,
        _ => seq![],
    }
}

/// The text that the command printed.
pub open spec fn printed(g: GitReply) -> Seq<char> {
    lossy_text(stdout_of(g))
}

/// The text that the command printed, without the white space around it: an
/// object name, mostly.
pub open spec fn printed_name(g: GitReply) -> Seq<char> {
    trimmed(printed(g))
}

/// The texts of a list of string slices.
pub open spec fn slices(list: Seq<&str>) -> Seq<Seq<char>> {
    list.map_values(|s: &str| s@)
}

/// `git -C <dir> <args>`.
pub open spec fn git_command(dir: Seq<char>, args: Seq<Seq<char>>) -> CommandView {
    CommandView { dir: Some(dir), args, env: seq![], input: None, scratch: None }
}

/// The work of running `git -C <dir> <args>`.
pub open spec fn git_work(dir: Seq<char>, args: Seq<Seq<char>>) -> WorkView {
    WorkView::Git(git_command(dir, args))
}

/// The full name of a branch.
pub open spec fn branch_ref(branch: Seq<char>) -> Seq<char> {
    "refs/heads/"@ + branch
}

/// A file in a branch, as git names it.
pub open spec fn object_at(branch: Seq<char>, path: Seq<char>) -> Seq<char> {
    branch + ":"@ + path
}

/// A command whose failure is `on_fail`, or one message where git could not be
/// run at all.
pub open spec fn git_part(
    dir: Seq<char>,
    args: Seq<Seq<char>>,
    on_fail: ErrorView,
    replies: Seq<Reply>,
    at: int,
) -> PartView<Seq<u8>> {
    if replies.len() <= at {
        PartView::Ask(git_work(dir, args))
    } else {
        let g = git_in(replies[at]);
        if succeeded(g) {
            PartView::Have(stdout_of(g), at + 1)
        } else if ended(g) {
            PartView::Fail(on_fail)
        } else {
            PartView::Fail(plain(500, "Failed to run git command"@))
        }
    }
}

/// [`git_part`], with what was printed as text.
pub open spec fn git_text_part(
    dir: Seq<char>,
    args: Seq<Seq<char>>,
    on_fail: ErrorView,
    replies: Seq<Reply>,
    at: int,
) -> PartView<Seq<char>> {
    match git_part(dir, args, on_fail, replies, at) {
        PartView::Ask(work) => PartView::Ask(work),
        PartView::Fail(e) => PartView::Fail(e),
        PartView::Have(bytes, used) => PartView::Have(lossy_text(bytes), used),
    }
}

/// A command that only answers whether it succeeds.
pub open spec fn question_part(
    dir: Seq<char>,
    args: Seq<Seq<char>>,
    replies: Seq<Reply>,
    at: int,
) -> PartView<bool> {
    if replies.len() <= at {
        PartView::Ask(git_work(dir, args))
    } else {
        PartView::Have(succeeded(git_in(replies[at])), at + 1)
    }
}

/// Whether a path is there in a branch.
pub open spec fn path_part(
    dir: Seq<char>,
    branch: Seq<char>,
    path: Seq<char>,
    replies: Seq<Reply>,
    at: int,
) -> PartView<bool> {
    question_part(dir, seq!["cat-file"@, "-e"@, object_at(branch, path)], replies, at)
}

/// Whether a branch is there.
pub open spec fn branch_part(
    dir: Seq<char>,
    branch: Seq<char>,
    replies: Seq<Reply>,
    at: int,
) -> PartView<bool> {
    question_part(dir, seq!["rev-parse"@, "--verify"@, branch_ref(branch)], replies, at)
}

/// A plumbing step, whose every failure has one label.
pub open spec fn step_part(
    work: CommandView,
    label: Seq<char>,
    replies: Seq<Reply>,
    at: int,
) -> PartView<Seq<u8>> {
    if replies.len() <= at {
        PartView::Ask(WorkView::Git(work))
    } else {
        let g = git_in(replies[at]);
        if succeeded(g) {
            PartView::Have(stdout_of(g), at + 1)
        } else {
            PartView::Fail(plain(500, label))
        }
    }
}

/// A change to one file.
#[derive(Debug)]
pub enum WriteUpdate {
    /// The file is to hold this.
    Add {
        /// Its path.
        path: String,
        /// What it is to hold.
        content: Vec<u8>,
    },
    /// The file is to go.
    Remove {
        /// Its path.
        path: String,
    },
}

/// What a [`WriteUpdate`] says.
#[verifier::ext_equal]
pub enum UpdateView {
    /// The file is to hold this.
    Add { path: Seq<char>, content: Seq<u8> },
    /// The file is to go.
    Remove { path: Seq<char> },
}

impl View for WriteUpdate {
    type V = UpdateView;

    open spec fn view(&self) -> UpdateView {
        match *self {
            WriteUpdate::Add { path, content } => UpdateView::Add {
                path: path@,
                content: content@,
            },
            WriteUpdate::Remove { path } => UpdateView::Remove { path: path@ },
        }
    }
}

/// A change to commit: where, what, by whom and with which words.
#[verifier::ext_equal]
pub struct WriteView {
    /// The repository's directory.
    pub dir: Seq<char>,
    /// The branch to move.
    pub branch: Seq<char>,
    /// The commit message.
    pub message: Seq<char>,
    /// The name of author and committer.
    pub author_name: Seq<char>,
    /// The e-mail address of author and committer.
    pub author_email: Seq<char>,
    /// The change.
    pub update: UpdateView,
    /// The name of the temporary work tree, should one be needed.
    pub scratch: Seq<char>,
}

/// `git hash-object` with the content as its input.
pub open spec fn hash_command(dir: Seq<char>, content: Seq<u8>) -> CommandView {
    CommandView {
        input: Some(content),
        ..git_command(dir, seq!["hash-object"@, "-w"@, "--stdin"@])
    }
}

/// The index entry of a file: an ordinary file of that object, at that path.
pub open spec fn cache_info(blob: Seq<char>, path: Seq<char>) -> Seq<char> {
    "100644,"@ + blob + ","@ + path
}

/// `git update-index` that enters a file.
pub open spec fn enter_command(dir: Seq<char>, blob: Seq<char>, path: Seq<char>) -> CommandView {
    git_command(
        dir,
        seq!["update-index"@, "--add"@, "--cacheinfo"@, cache_info(blob, path)],
    )
}

/// `git update-index` that takes a file out. It wants a repository that is not
/// bare, so it gets a temporary work tree.
pub open spec fn take_out_command(
    dir: Seq<char>,
    path: Seq<char>,
    scratch: Seq<char>,
) -> CommandView {
    CommandView {
        scratch: Some(scratch),
        ..git_command(
            dir,
            seq!["-c"@, "core.bare=false"@, "update-index"@, "--force-remove"@, path],
        )
    }
}

/// `git read-tree` of the parent commit, or of nothing.
pub open spec fn read_tree_command(dir: Seq<char>, parent: Option<Seq<char>>) -> CommandView {
    git_command(
        dir,
        seq![
            "read-tree"@,
            match parent {
                Some(p) => p,
                None => "--empty"@,
            },
        ],
    )
}

/// The environment that names the author, who is the committer too.
pub open spec fn author_env(name: Seq<char>, email: Seq<char>) -> Seq<(Seq<char>, Seq<char>)> {
    seq![
        ("GIT_AUTHOR_NAME"@, name),
        ("GIT_AUTHOR_EMAIL"@, email),
        ("GIT_COMMITTER_NAME"@, name),
        ("GIT_COMMITTER_EMAIL"@, email),
    ]
}

/// `git commit-tree` of a tree on top of the parent, if there is one.
pub open spec fn commit_command(
    dir: Seq<char>,
    message: Seq<char>,
    env: Seq<(Seq<char>, Seq<char>)>,
    tree: Seq<char>,
    parent: Option<Seq<char>>,
) -> CommandView {
    CommandView {
        env,
        ..git_command(
            dir,
            match parent {
                Some(p) => seq!["commit-tree"@, tree, "-p"@, p, "-m"@, message],
                None => seq!["commit-tree"@, tree, "-m"@, message],
            },
        )
    }
}

/// `git update-ref` that moves the branch to a commit.
pub open spec fn move_command(w: WriteView, commit: Seq<char>) -> CommandView {
    git_command(w.dir, seq!["update-ref"@, branch_ref(w.branch), commit])
}

/// The commit that a branch is at, as `git rev-parse` tells; none for a branch
/// that is not there yet.
pub open spec fn parent_of(g: GitReply) -> Option<Seq<char>> {
    if succeeded(g) {
        Some(printed_name(g))
    } else {
        None
    }
}

/// Entering a file into the index: its content is stored, then its path is
/// entered.
pub open spec fn add_part(
    dir: Seq<char>,
    path: Seq<char>,
    content: Seq<u8>,
    replies: Seq<Reply>,
    at: int,
) -> PartView<()> {
    if replies.len() <= at {
        PartView::Ask(WorkView::Git(hash_command(dir, content)))
    } else {
        let g = git_in(replies[at]);
        if g is InputLost {
            PartView::Fail(plain(500, "hash-object write failed"@))
        } else if g is EndLost {
            PartView::Fail(plain(500, "hash-object wait failed"@))
        } else if !succeeded(g) {
            PartView::Fail(plain(500, "hash-object failed"@))
        } else {
            match step_part(
                enter_command(dir, printed_name(g), path),
                "update-index failed"@,
                replies,
                at + 1,
            ) {
                PartView::Ask(work) => PartView::Ask(work),
                PartView::Fail(e) => PartView::Fail(e),
                PartView::Have(_, used) => PartView::Have((), used),
            }
        }
    }
}

/// Taking a file out of the index.
pub open spec fn remove_part(
    dir: Seq<char>,
    path: Seq<char>,
    scratch: Seq<char>,
    replies: Seq<Reply>,
    at: int,
) -> PartView<()> {
    match step_part(take_out_command(dir, path, scratch), "update-index failed"@, replies, at) {
        PartView::Ask(work) => PartView::Ask(work),
        PartView::Fail(e) => PartView::Fail(e),
        PartView::Have(_, used) => PartView::Have((), used),
    }
}

/// Bringing a change into the index.
pub open spec fn stage_part(w: WriteView, replies: Seq<Reply>, at: int) -> PartView<()> {
    match w.update {
        UpdateView::Add { path, content } => add_part(w.dir, path, content, replies, at),
        UpdateView::Remove { path } => remove_part(w.dir, path, w.scratch, replies, at),
    }
}

/// Committing the index as it stands, and moving the branch to the commit.
pub open spec fn commit_part(
    w: WriteView,
    parent: Option<Seq<char>>,
    replies: Seq<Reply>,
    at: int,
) -> PartView<Seq<char>> {
    match step_part(git_command(w.dir, seq!["write-tree"@]), "write-tree failed"@, replies, at) {
        PartView::Ask(work) => PartView::Ask(work),
        PartView::Fail(e) => PartView::Fail(e),
        PartView::Have(written, at1) => {
            let tree = trimmed(lossy_text(written));
            match step_part(
                commit_command(
                    w.dir,
                    w.message,
                    author_env(w.author_name, w.author_email),
                    tree,
                    parent,
                ),
                "commit-tree failed"@,
                replies,
                at1,
            ) {
                PartView::Ask(work) => PartView::Ask(work),
                PartView::Fail(e) => PartView::Fail(e),
                PartView::Have(made, at2) => {
                    let commit = trimmed(lossy_text(made));
                    match step_part(
                        move_command(w, commit),
                        "update-ref failed"@,
                        replies,
                        at2,
                    ) {
                        PartView::Ask(work) => PartView::Ask(work),
                        PartView::Fail(e) => PartView::Fail(e),
                        PartView::Have(_, at3) => PartView::Have(commit, at3),
                    }
                },
            }
        },
    }
}

/// The whole of a write, once the branch's commit is known.
pub open spec fn write_onto_part(
    w: WriteView,
    parent: Option<Seq<char>>,
    replies: Seq<Reply>,
    at: int,
) -> PartView<Seq<char>> {
    match step_part(read_tree_command(w.dir, parent), "read-tree failed"@, replies, at) {
        PartView::Ask(work) => PartView::Ask(work),
        PartView::Fail(e) => PartView::Fail(e),
        PartView::Have(_, at1) => match stage_part(w, replies, at1) {
            PartView::Ask(work) => PartView::Ask(work),
            PartView::Fail(e) => PartView::Fail(e),
            PartView::Have(_, at2) => commit_part(w, parent, replies, at2),
        },
    }
}

/// The whole of a write: take the lock, look up the branch's commit, prime the
/// index from it, bring in the change, commit, and move the branch.
pub open spec fn write_part(w: WriteView, replies: Seq<Reply>, at: int) -> PartView<Seq<char>> {
    if replies.len() <= at {
        PartView::Ask(WorkView::Lock { repo: w.dir })
    } else if replies.len() <= at + 1 {
        PartView::Ask(git_work(w.dir, seq!["rev-parse"@, "--verify"@, branch_ref(w.branch)]))
    } else {
        let g = git_in(replies[at + 1]);
        if !ended(g) {
            PartView::Fail(plain(500, "rev-parse failed"@))
        } else {
            write_onto_part(w, parent_of(g), replies, at + 2)
        }
    }
}

impl GitReply {
    /// Whether the command ended with success.
    pub fn success(&self) -> (r: bool)
        ensures
            r == succeeded(*self),
    {
        match self {
            GitReply::Ended { success, .. } => *success,
            _ => false,
        }
    }

    /// Whether the command ended.
    pub fn ended(&self) -> (r: bool)
        ensures
            r == ended(*self),
    {
        match self {
            GitReply::Ended { .. } => true,
            _ => false,
        }
    }

    /// The text that the command printed.
    pub fn printed(&self) -> (text: String)
        ensures
            text@ == printed(*self),
    {
        match self {
            GitReply::Ended { stdout, .. } => lossy(stdout.as_slice()),
            _ => lossy(Vec::new().as_slice()),
        }
    }

    /// The text that the command printed, without the white space around it.
    pub fn printed_name(&self) -> (text: String)
        ensures
            text@ == printed_name(*self),
    {
        let text = self.printed();
        trim(text.as_str())
    }

    /// The text that the command wrote to its standard error.
    pub fn complaint(&self) -> (text: String)
        ensures
            text@ == lossy_text(stderr_of(*self)),
    {
        match self {
            GitReply::Ended { stderr, .. } => lossy(stderr.as_slice()),
            _ => lossy(Vec::new().as_slice()),
        }
    }

    /// The bytes that the command wrote to its standard output.
    pub fn stdout(&self) -> (bytes: Vec<u8>)
        ensures
            bytes@ == stdout_of(*self),
    {
        match self {
            GitReply::Ended { stdout, .. } => {
                let bytes = stdout.clone();
                assert(bytes@ =~= stdout@);
                bytes
            },
            _ => Vec::new(),
        }
    }
}

/// The strings of a list of string slices.
pub fn strings(list: &[&str]) -> (all: Vec<String>)
    ensures
        texts(all@) == slices(list@),
{
    let mut all: Vec<String> = Vec::new();
    for i in 0..list.len()
        invariant
            texts(all@) =~= slices(list@).take(i as int),
    {
        add_text(&mut all, list[i]);
    }
    all
}

/// Puts a command `git -C <repo_dir> <args>`.
pub fn git_in_dir(repo_dir: &str, args: &[&str]) -> (command: GitCommand)
    ensures
        command@ == git_command(repo_dir@, slices(args@)),
{
    let command = GitCommand {
        dir: Some(repo_dir.to_owned()),
        args: strings(args),
        env: Vec::new(),
        input: None,
        scratch: None,
    };
    assert(command@ =~= git_command(repo_dir@, slices(args@)));
    command
}

/// Runs `git -C <repo_dir> <args>` for the bytes it prints. Where git cannot be
/// run the error is always the same; where it fails the error is `on_fail`.
pub fn run_git(
    repo_dir: &str,
    args: &[&str],
    on_fail: ApiError,
    replies: &[Reply],
    at: usize,
) -> (part: Part<Vec<u8>>)
    ensures
        part@ == git_part(repo_dir@, slices(args@), on_fail@, replies@, at as int),
{
    if replies.len() <= at {
        return Part::Ask(Work::Git(git_in_dir(repo_dir, args)));
    }
    let g = replies[at].git();
    if g.success() {
        Part::Have { value: g.stdout(), used: at + 1 }
    } else if g.ended() {
        Part::Fail(on_fail)
    } else {
        Part::Fail(internal("Failed to run git command"))
    }
}

/// Runs `git -C <repo_dir> <args>` for the text it prints.
pub fn run_git_str(
    repo_dir: &str,
    args: &[&str],
    on_fail: ApiError,
    replies: &[Reply],
    at: usize,
) -> (part: Part<String>)
    ensures
        part@ == git_text_part(repo_dir@, slices(args@), on_fail@, replies@, at as int),
{
    match run_git(repo_dir, args, on_fail, replies, at) {
        Part::Ask(work) => Part::Ask(work),
        Part::Fail(e) => Part::Fail(e),
        Part::Have { value, used } => Part::Have { value: lossy(value.as_slice()), used },
    }
}

/// Runs a command that only answers whether it succeeds.
fn ask_git(repo_dir: &str, args: &[&str], replies: &[Reply], at: usize) -> (part: Part<bool>)
    ensures
        part@ == question_part(repo_dir@, slices(args@), replies@, at as int),
{
    if replies.len() <= at {
        return Part::Ask(Work::Git(git_in_dir(repo_dir, args)));
    }
    Part::Have { value: replies[at].git().success(), used: at + 1 }
}

/// Whether `path` is there in the branch's tree.
pub fn path_exists(
    repo_dir: &str,
    branch: &str,
    path: &str,
    replies: &[Reply],
    at: usize,
) -> (part: Part<bool>)
    ensures
        part@ == path_part(repo_dir@, branch@, path@, replies@, at as int),
{
    let spec = join3(branch, ":", path);
    let args: [&str; 3] = ["cat-file", "-e", spec.as_str()];
    assert(slices(args@) =~= seq!["cat-file"@, "-e"@, object_at(branch@, path@)]);
    ask_git(repo_dir, &args, replies, at)
}

/// Whether the branch is there.
pub fn branch_exists(
    repo_dir: &str,
    branch: &str,
    replies: &[Reply],
    at: usize,
) -> (part: Part<bool>)
    ensures
        part@ == branch_part(repo_dir@, branch@, replies@, at as int),
{
    let full = join2("refs/heads/", branch);
    let args: [&str; 3] = ["rev-parse", "--verify", full.as_str()];
    assert(slices(args@) =~= seq!["rev-parse"@, "--verify"@, branch_ref(branch@)]);
    ask_git(repo_dir, &args, replies, at)
}

/// Runs one plumbing step; every failure of it is an internal error of that
/// label.
fn run_step(command: GitCommand, label: &str, replies: &[Reply], at: usize) -> (part: Part<Vec<u8>>)
    ensures
        part@ == step_part(command@, label@, replies@, at as int),
{
    if replies.len() <= at {
        return Part::Ask(Work::Git(command));
    }
    let g = replies[at].git();
    if g.success() {
        Part::Have { value: g.stdout(), used: at + 1 }
    } else {
        Part::Fail(internal(label))
    }
}

/// Enters a file into the index.
fn stage_add(
    repo_dir: &str,
    path: &str,
    content: &Vec<u8>,
    replies: &[Reply],
    at: usize,
) -> (part: Part<()>)
    ensures
        part@ == add_part(repo_dir@, path@, content@, replies@, at as int),
{
    if replies.len() <= at {
        let args: [&str; 3] = ["hash-object", "-w", "--stdin"];
        assert(slices(args@) =~= seq!["hash-object"@, "-w"@, "--stdin"@]);
        let mut command = git_in_dir(repo_dir, &args);
        let input = content.clone();
        assert(input@ =~= content@);
        command.input = Some(input);
        return Part::Ask(Work::Git(command));
    }
    let g = replies[at].git();
    match g {
        GitReply::InputLost => {
            return Part::Fail(internal("hash-object write failed"));
        },
        GitReply::EndLost => {
            return Part::Fail(internal("hash-object wait failed"));
        },
        _ => {},
    }
    if !g.success() {
        return Part::Fail(internal("hash-object failed"));
    }
    let blob = g.printed_name();
    let head = join3("100644,", blob.as_str(), ",");
    let info = join2(head.as_str(), path);
    let args: [&str; 4] = ["update-index", "--add", "--cacheinfo", info.as_str()];
    assert(slices(args@) =~= seq![
        "update-index"@,
        "--add"@,
        "--cacheinfo"@,
        cache_info(blob@, path@),
    ]);
    match run_step(git_in_dir(repo_dir, &args), "update-index failed", replies, at + 1) {
        Part::Ask(work) => Part::Ask(work),
        Part::Fail(e) => Part::Fail(e),
        Part::Have { used, .. } => Part::Have { value: (), used },
    }
}

/// Takes a file out of the index.
fn stage_remove(
    repo_dir: &str,
    path: &str,
    scratch: &str,
    replies: &[Reply],
    at: usize,
) -> (part: Part<()>)
    ensures
        part@ == remove_part(repo_dir@, path@, scratch@, replies@, at as int),
{
    let args: [&str; 5] = ["-c", "core.bare=false", "update-index", "--force-remove", path];
    assert(slices(args@) =~= seq![
        "-c"@,
        "core.bare=false"@,
        "update-index"@,
        "--force-remove"@,
        path@,
    ]);
    let mut command = git_in_dir(repo_dir, &args);
    command.scratch = Some(scratch.to_owned());
    match run_step(command, "update-index failed", replies, at) {
        Part::Ask(work) => Part::Ask(work),
        Part::Fail(e) => Part::Fail(e),
        Part::Have { used, .. } => Part::Have { value: (), used },
    }
}

/// Adds a pair to a list of environment variables.
fn add_pair(list: &mut Vec<(String, String)>, name: &str, value: &str)
    ensures
        pairs(final(list)@) == pairs(old(list)@).push((name@, value@)),
{
    let ghost before = list@;
    list.push((name.to_owned(), value.to_owned()));
    assert(pairs(list@) =~= pairs(before).push((name@, value@)));
}

/// Puts the command that commits a tree.
fn commit_tree(
    repo_dir: &str,
    message: &str,
    author_name: &str,
    author_email: &str,
    tree: &str,
    parent: &Option<String>,
) -> (command: GitCommand)
    ensures
        command@ == commit_command(
            repo_dir@,
            message@,
            author_env(author_name@, author_email@),
            tree@,
            text_or_none(*parent),
        ),
{
    let mut env: Vec<(String, String)> = Vec::new();
    assert(pairs(env@) =~= seq![]);
    add_pair(&mut env, "GIT_AUTHOR_NAME", author_name);
    add_pair(&mut env, "GIT_AUTHOR_EMAIL", author_email);
    add_pair(&mut env, "GIT_COMMITTER_NAME", author_name);
    add_pair(&mut env, "GIT_COMMITTER_EMAIL", author_email);
    assert(pairs(env@) =~= author_env(author_name@, author_email@));
    let mut command = match parent {
        Some(p) => {
            let args: [&str; 6] = ["commit-tree", tree, "-p", p.as_str(), "-m", message];
            assert(slices(args@) =~= seq!["commit-tree"@, tree@, "-p"@, p@, "-m"@, message@]);
            git_in_dir(repo_dir, &args)
        },
        None => {
            let args: [&str; 4] = ["commit-tree", tree, "-m", message];
            assert(slices(args@) =~= seq!["commit-tree"@, tree@, "-m"@, message@]);
            git_in_dir(repo_dir, &args)
        },
    };
    command.env = env;
    command
}

/// Applies one change to a branch and gives the new commit. The lock that it
/// asks for first keeps other writers of the repository out until it is done.
pub fn run_write_sequence(
    repo_dir: &str,
    branch: &str,
    message: &str,
    author_name: &str,
    author_email: &str,
    update: &WriteUpdate,
    scratch: &str,
    replies: &[Reply],
    at: usize,
) -> (part: Part<String>)
    ensures
        part@ == write_part(
            (WriteView {
                dir: repo_dir@,
                branch: branch@,
                message: message@,
                author_name: author_name@,
                author_email: author_email@,
                update: update@,
                scratch: scratch@,
            }),
            replies@,
            at as int,
        ),
{
    if replies.len() <= at {
        return Part::Ask(Work::Lock { repo: repo_dir.to_owned() });
    }
    let full = join2("refs/heads/", branch);
    // The commit that the branch is at, if there is one.
    if replies.len() <= at + 1 {
        let args: [&str; 3] = ["rev-parse", "--verify", full.as_str()];
        assert(slices(args@) =~= seq!["rev-parse"@, "--verify"@, branch_ref(branch@)]);
        return Part::Ask(Work::Git(git_in_dir(repo_dir, &args)));
    }
    let g = replies[at + 1].git();
    if !g.ended() {
        return Part::Fail(internal("rev-parse failed"));
    }
    let parent: Option<String> = if g.success() {
        Some(g.printed_name())
    } else {
        None
    };
    let ghost p = text_or_none(parent);
    assert(p == parent_of(*g));
    // The index holds the parent's tree, or nothing for a new branch.
    let base: &str = match &parent {
        Some(sha) => sha.as_str(),
        None => "--empty",
    };
    let args: [&str; 2] = ["read-tree", base];
    assert(git_command(repo_dir@, slices(args@)) =~= read_tree_command(repo_dir@, p));
    let used: usize = match run_step(
        git_in_dir(repo_dir, &args),
        "read-tree failed",
        replies,
        at + 2,
    ) {
        Part::Ask(work) => return Part::Ask(work),
        Part::Fail(e) => return Part::Fail(e),
        Part::Have { used, .. } => used,
    };
    // The change goes into the index.
    let staged = match update {
        WriteUpdate::Add { path, content } => stage_add(
            repo_dir,
            path.as_str(),
            content,
            replies,
            used,
        ),
        WriteUpdate::Remove { path } => stage_remove(
            repo_dir,
            path.as_str(),
            scratch,
            replies,
            used,
        ),
    };
    let used: usize = match staged {
        Part::Ask(work) => return Part::Ask(work),
        Part::Fail(e) => return Part::Fail(e),
        Part::Have { used, .. } => used,
    };
    // The index becomes a tree.
    let args: [&str; 1] = ["write-tree"];
    assert(slices(args@) =~= seq!["write-tree"@]);
    let (written, used) = match run_step(
        git_in_dir(repo_dir, &args),
        "write-tree failed",
        replies,
        used,
    ) {
        Part::Ask(work) => return Part::Ask(work),
        Part::Fail(e) => return Part::Fail(e),
        Part::Have { value, used } => (value, used),
    };
    let printed_tree = lossy(written.as_slice());
    let tree = trim(printed_tree.as_str());
    // The tree becomes a commit.
    let command = commit_tree(
        repo_dir,
        message,
        author_name,
        author_email,
        tree.as_str(),
        &parent,
    );
    let (made, used) = match run_step(command, "commit-tree failed", replies, used) {
        Part::Ask(work) => return Part::Ask(work),
        Part::Fail(e) => return Part::Fail(e),
        Part::Have { value, used } => (value, used),
    };
    let printed_commit = lossy(made.as_slice());
    let commit = trim(printed_commit.as_str());
    // The branch moves to the commit.
    let args: [&str; 3] = ["update-ref", full.as_str(), commit.as_str()];
    assert(slices(args@) =~= seq!["update-ref"@, branch_ref(branch@), commit@]);
    match run_step(git_in_dir(repo_dir, &args), "update-ref failed", replies, used) {
        Part::Ask(work) => Part::Ask(work),
        Part::Fail(e) => Part::Fail(e),
        Part::Have { used, .. } => Part::Have { value: commit, used },
    }
}

/// The repositories that have a write lock, each at the place of its lock.
pub struct LockTable {
    repos: Vec<String>,
}

impl View for LockTable {
    type V = Seq<Seq<char>>;

    closed spec fn view(&self) -> Seq<Seq<char>> {
        texts(self.repos@)
    }
}

impl LockTable {
    /// No repository has two locks.
    pub open spec fn wf(&self) -> bool {
        self@.no_duplicates()
    }

    /// A table without locks.
    pub fn new() -> (table: Self)
        ensures
            table.wf(),
            table@ == Seq::<Seq<char>>::empty(),
    {
        let table = LockTable { repos: Vec::new() };
        assert(table@ =~= Seq::<Seq<char>>::empty());
        table
    }
}

/// The place of a repository's write lock; a repository that has none yet gets
/// one after the others.
pub fn write_lock(table: &mut LockTable, repo: &str) -> (slot: usize)
    requires
        old(table).wf(),
    ensures
        final(table).wf(),
        slot < final(table)@.len(),
        final(table)@[slot as int] == repo@,
        old(table)@.contains(repo@) ==> final(table)@ == old(table)@,
        !old(table)@.contains(repo@) ==> final(table)@ == old(table)@.push(repo@),
{
    for i in 0..table.repos.len()
        invariant
            *table == *old(table),
            table.wf(),
            forall|j: int| 0 <= j < i ==> table@[j] != repo@,
    {
        if same(table.repos[i].as_str(), repo) {
            assert(table@[i as int] == repo@);
            return i;
        }
    }
    let slot: usize = table.repos.len();
    add_text(&mut table.repos, repo);
    slot
}

/// The write lock is one per repository: whatever repositories get their locks
/// in between (the table only grows), two requests get the same lock if and
/// only if they are for the same repository.
pub proof fn one_lock_per_repository(
    earlier: Seq<Seq<char>>,
    later: Seq<Seq<char>>,
    a: Seq<char>,
    b: Seq<char>,
    slot_a: int,
    slot_b: int,
)
    requires
        later.no_duplicates(),
        earlier.is_prefix_of(later),
        0 <= slot_a < earlier.len(),
        earlier[slot_a] == a,
        0 <= slot_b < later.len(),
        later[slot_b] == b,
    ensures
        slot_a == slot_b <==> a == b,
{
    assert(later.take(earlier.len() as int)[slot_a] == later[slot_a]);
}

} // verus!
