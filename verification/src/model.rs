//! A model of a git repository, and what writes and reads come to in it.
//!
//! The library only says which commands git is to run. This module says what
//! those commands do, as far as writes and reads of files need it, and proves
//! what follows: what a write leaves behind, that writers who keep to the lock
//! lose no update, and that a file reads back as it was written.

use vstd::prelude::*;

use crate::authz::{read_part, Context};
use crate::browse::blob_step;
use crate::errors::ErrorView;
use crate::files::{
    create_step, delete_step, drop_view, own_dir, put_view, update_step,
};
use crate::git::{
    author_env, branch_ref, cache_info, commit_command, enter_command, git_command, hash_command,
    move_command, object_at, parent_of, printed_name, read_tree_command, stage_part, stdout_of,
    succeeded, take_out_command, write_part, UpdateView, WriteView,
};
use crate::laws::{failed_writes_leave_their_branch, writes_lock_their_repository};
use crate::outside::{base64_bytes, base64_text};
use crate::output::{is_hex, is_sha, looks_binary};
use crate::split::{index_of, lemma_index_is};
use crate::types::{BlobQuery, BlobView, DeleteFileBody, WriteFileBody, WrittenView};
use crate::work::{
    git_in, CommandView, GitReply, PartView, Reply, StepView, WorkView,
};

verus! {

/// The files of a commit or of the index: what each path holds.
pub type Files = Map<Seq<char>, Seq<u8>>;

/// A commit.
#[verifier::ext_equal]
pub struct CommitModel {
    /// Its files.
    pub files: Files,
    /// The commit that it stands on, if any.
    pub parent: Option<Seq<char>>,
    /// Its message.
    pub message: Seq<char>,
    /// The environment that named its author.
    pub env: Seq<(Seq<char>, Seq<char>)>,
}

/// A bare repository.
#[verifier::ext_equal]
pub struct Repo {
    /// The stored contents, by name.
    pub blobs: Map<Seq<char>, Seq<u8>>,
    /// The stored trees, by name.
    pub trees: Map<Seq<char>, Files>,
    /// The commits, by name.
    pub commits: Map<Seq<char>, CommitModel>,
    /// The commit that each branch is at, by the branch's full name.
    pub refs: Map<Seq<char>, Seq<char>>,
    /// The index.
    pub index: Files,
    /// The short names that stand for something else than a branch: `HEAD` and
    /// its like, and tags.
    pub taken: Set<Seq<char>>,
}

impl Repo {
    /// Branches have names that git accepts, and are at commits.
    pub open spec fn wf(self) -> bool {
        forall|name: Seq<char>| #[trigger]
            self.refs.contains_key(name) ==> !name.contains(':') && is_sha(self.refs[name])
                && self.commits.contains_key(self.refs[name])
    }

    /// The commit that a branch is at, if it is there.
    pub open spec fn tip(self, branch: Seq<char>) -> Option<Seq<char>> {
        if self.refs.contains_key(branch_ref(branch)) {
            Some(self.refs[branch_ref(branch)])
        } else {
            None
        }
    }

    /// The files of a branch; a branch that is not there has none.
    pub open spec fn files(self, branch: Seq<char>) -> Files {
        match self.tip(branch) {
            Some(sha) => self.commits[sha].files,
            None => Map::empty(),
        }
    }

    /// The short name of a branch stands for it: it is not read as an option, as
    /// an object name, or as something else of that name.
    pub open spec fn means_branch(self, name: Seq<char>) -> bool {
        &&& name.len() > 0
        &&& name[0] != '-'
        &&& !((name.len() == 40 || name.len() == 64) && is_sha(name))
        &&& !self.taken.contains(name)
        &&& !self.refs.contains_key(name)
        &&& !self.refs.contains_key("refs/"@ + name)
    }

    /// Every commit of this repository is in a later one, unchanged.
    pub open spec fn lives_on(self, later: Repo) -> bool {
        forall|sha: Seq<char>| #[trigger]
            self.commits.contains_key(sha) ==> later.commits.contains_key(sha)
                && later.commits[sha] == self.commits[sha]
    }
}

/// What a git command does.
pub enum Act {
    /// Looks up the commit of a full name.
    LookUp { name: Seq<char> },
    /// Fills the index with the files of a commit, or empties it.
    Prime { base: Option<Seq<char>> },
    /// Stores content.
    Store { content: Seq<u8> },
    /// Enters stored content into the index.
    Enter { blob: Seq<char>, path: Seq<char> },
    /// Takes a path out of the index.
    TakeOut { path: Seq<char> },
    /// Stores the index as a tree.
    WriteTree,
    /// Makes a commit of a tree.
    Commit {
        tree: Seq<char>,
        parent: Option<Seq<char>>,
        message: Seq<char>,
        env: Seq<(Seq<char>, Seq<char>)>,
    },
    /// Moves a branch to a commit.
    Move { name: Seq<char>, commit: Seq<char> },
    /// Shows a file of a branch.
    Show { branch: Seq<char>, path: Seq<char> },
    /// Looks whether a file is there.
    Exists { branch: Seq<char>, path: Seq<char> },
    /// Something that this model does not cover.
    Other,
}

/// The text before the first `c`.
pub open spec fn before(s: Seq<char>, c: char) -> Seq<char> {
    s.take(index_of(s, c) as int)
}

/// The text behind the first `c`.
pub open spec fn behind(s: Seq<char>, c: char) -> Seq<char> {
    s.skip(index_of(s, c) as int + 1)
}

/// What a git command does, by its arguments.
pub open spec fn act_of(c: CommandView) -> Act {
    let args = c.args;
    if args.len() == 1 && args[0] == "write-tree"@ {
        Act::WriteTree
    } else if args.len() == 2 && args[0] == "read-tree"@ {
        Act::Prime {
            base: if args[1] == "--empty"@ {
                None
            } else {
                Some(args[1])
            },
        }
    } else if args.len() == 2 && args[0] == "show"@ {
        Act::Show { branch: before(args[1], ':'), path: behind(args[1], ':') }
    } else if args.len() == 3 && args[0] == "rev-parse"@ {
        Act::LookUp { name: args[2] }
    } else if args.len() == 3 && args[0] == "cat-file"@ {
        Act::Exists { branch: before(args[2], ':'), path: behind(args[2], ':') }
    } else if args.len() == 3 && args[0] == "hash-object"@ && c.input is Some {
        Act::Store { content: c.input->0 }
    } else if args.len() == 3 && args[0] == "update-ref"@ {
        Act::Move { name: args[1], commit: args[2] }
    } else if args.len() == 4 && args[0] == "update-index"@ {
        let entry = behind(args[3], ',');
        Act::Enter { blob: before(entry, ','), path: behind(entry, ',') }
    } else if args.len() == 4 && args[0] == "commit-tree"@ {
        Act::Commit { tree: args[1], parent: None, message: args[3], env: c.env }
    } else if args.len() == 6 && args[0] == "commit-tree"@ {
        Act::Commit { tree: args[1], parent: Some(args[3]), message: args[5], env: c.env }
    } else if args.len() == 5 && args[0] == "-c"@ {
        Act::TakeOut { path: args[4] }
    } else {
        Act::Other
    }
}

/// An object that git stored under a name: the name is hexadecimal, and no other
/// object has it.
pub open spec fn stores<T>(
    r: Map<Seq<char>, T>,
    name: Seq<char>,
    value: T,
    s: Map<Seq<char>, T>,
) -> bool {
    &&& is_sha(name)
    &&& r.contains_key(name) ==> r[name] == value
    &&& s == r.insert(name, value)
}

/// What a command that succeeds makes of a repository, and what it prints.
pub open spec fn does(r: Repo, act: Act, g: GitReply, s: Repo) -> bool {
    let name = printed_name(g);
    match act {
        Act::Prime { base: None } => s == (Repo { index: Map::empty(), ..r }),
        Act::Prime { base: Some(c) } => r.commits.contains_key(c) && s == (Repo {
            index: r.commits[c].files,
            ..r
        }),
        Act::Store { content } => stores(r.blobs, name, content, s.blobs) && s == (Repo {
            blobs: s.blobs,
            ..r
        }),
        Act::Enter { blob, path } => r.blobs.contains_key(blob) && s == (Repo {
            index: r.index.insert(path, r.blobs[blob]),
            ..r
        }),
        Act::TakeOut { path } => s == (Repo { index: r.index.remove(path), ..r }),
        Act::WriteTree => stores(r.trees, name, r.index, s.trees) && s == (Repo {
            trees: s.trees,
            ..r
        }),
        Act::Commit { tree, parent, message, env } => {
            &&& r.trees.contains_key(tree)
            &&& stores(
                r.commits,
                name,
                CommitModel { files: r.trees[tree], parent, message, env },
                s.commits,
            )
            &&& s == (Repo { commits: s.commits, ..r })
        },
        Act::Move { name: full, commit } => {
            &&& !full.contains(':')
            &&& r.commits.contains_key(commit)
            &&& s == (Repo { refs: r.refs.insert(full, commit), ..r })
        },
        _ => true,
    }
}

/// What a command makes of a repository, and what git answers. Looking changes
/// nothing. A change that fails may leave things behind, but moves no branch.
pub open spec fn runs(r: Repo, act: Act, g: GitReply, s: Repo) -> bool {
    match act {
        Act::LookUp { name } => {
            &&& s == r
            &&& succeeded(g) <==> r.refs.contains_key(name)
            &&& succeeded(g) ==> printed_name(g) == r.refs[name]
        },
        Act::Show { branch, path } => {
            &&& s == r
            &&& r.means_branch(branch) && r.tip(branch) is Some ==> {
                &&& succeeded(g) <==> r.files(branch).contains_key(path)
                &&& succeeded(g) ==> stdout_of(g) == r.files(branch)[path]
            }
        },
        Act::Exists { .. } => s == r,
        Act::Other => true,
        _ => if succeeded(g) {
            does(r, act, g, s)
        } else {
            s.refs == r.refs && s.taken == r.taken && r.lives_on(s)
        },
    }
}

/// What a piece of work makes of a repository.
pub open spec fn performs(r: Repo, work: WorkView, reply: Reply, s: Repo) -> bool {
    match work {
        WorkView::Git(c) => runs(r, act_of(c), git_in(reply), s),
        _ => s == r,
    }
}

/// A write gets its replies from git, as the repository goes through these
/// states: `states[k]` is the one before reply `k`.
pub open spec fn write_runs(
    w: WriteView,
    replies: Seq<Reply>,
    at: int,
    states: Seq<Repo>,
) -> bool {
    &&& states.len() == replies.len() + 1
    &&& forall|k: int| #![trigger states[k + 1]]
        at <= k < replies.len() ==> match write_part(w, replies.take(k), at) {
            PartView::Ask(work) => performs(states[k], work, replies[k], states[k + 1]),
            _ => states[k + 1] == states[k],
        }
}

/// The files after a change.
pub open spec fn applied(files: Files, update: UpdateView) -> Files {
    match update {
        UpdateView::Add { path, content } => files.insert(path, content),
        UpdateView::Remove { path } => files.remove(path),
    }
}

/// A write left this behind: its branch is at the new commit, which stands on
/// the commit that the branch was at and holds its files with the change. No
/// other branch moved, and no commit is lost.
pub open spec fn wrote(w: WriteView, sha: Seq<char>, r: Repo, s: Repo) -> bool {
    &&& s.wf()
    &&& s.refs == r.refs.insert(branch_ref(w.branch), sha)
    &&& s.taken == r.taken
    &&& r.lives_on(s)
    &&& s.commits.contains_key(sha)
    &&& s.commits[sha] == (CommitModel {
        files: applied(r.files(w.branch), w.update),
        parent: r.tip(w.branch),
        message: w.message,
        env: author_env(w.author_name, w.author_email),
    })
}

/// A text cut at the first `c`, from its two parts.
proof fn lemma_cut(a: Seq<char>, c: char, b: Seq<char>, whole: Seq<char>)
    requires
        !a.contains(c),
        whole == a + seq![c] + b,
    ensures
        before(whole, c) == a,
        behind(whole, c) == b,
{
    assert forall|j: int| 0 <= j < a.len() implies whole[j] != c by {
        assert(whole[j] == a[j]);
    }
    lemma_index_is(whole, c, a.len() as int);
    assert(whole.take(a.len() as int) =~= a);
    assert(whole.skip(a.len() as int + 1) =~= b);
}

proof fn lemma_sha_is_plain(sha: Seq<char>)
    requires
        is_sha(sha),
    ensures
        !sha.contains(','),
        !sha.contains(':'),
        sha != "--empty"@,
{
    reveal_strlit("--empty");
    assert(is_hex(sha[0]));
    assert(!is_hex("--empty"@[0]));
    assert forall|i: int| 0 <= i < sha.len() implies sha[i] != ',' && sha[i] != ':' by {
        assert(is_hex(sha[i]));
    }
}

/// The commands of a write, and what they do.
proof fn lemma_acts(w: WriteView, name: Seq<char>, other: Seq<char>, parent: Option<Seq<char>>)
    requires
        is_sha(name),
        parent is Some ==> is_sha(parent->0),
    ensures
        act_of(git_command(w.dir, seq!["rev-parse"@, "--verify"@, branch_ref(w.branch)]))
            == (Act::LookUp { name: branch_ref(w.branch) }),
        act_of(read_tree_command(w.dir, parent)) == (Act::Prime { base: parent }),
        w.update matches UpdateView::Add { path, content } ==> {
            &&& act_of(hash_command(w.dir, content)) == (Act::Store { content })
            &&& act_of(enter_command(w.dir, name, path)) == (Act::Enter { blob: name, path })
        },
        w.update matches UpdateView::Remove { path } ==> act_of(
            take_out_command(w.dir, path, w.scratch),
        ) == (Act::TakeOut { path }),
        act_of(git_command(w.dir, seq!["write-tree"@])) == Act::WriteTree,
        act_of(
            commit_command(
                w.dir,
                w.message,
                author_env(w.author_name, w.author_email),
                other,
                parent,
            ),
        ) == (Act::Commit {
            tree: other,
            parent,
            message: w.message,
            env: author_env(w.author_name, w.author_email),
        }),
        act_of(move_command(w, other)) == (Act::Move {
            name: branch_ref(w.branch),
            commit: other,
        }),
{
    reveal_strlit("write-tree");
    reveal_strlit("read-tree");
    reveal_strlit("show");
    reveal_strlit("rev-parse");
    reveal_strlit("cat-file");
    reveal_strlit("hash-object");
    reveal_strlit("update-ref");
    reveal_strlit("update-index");
    reveal_strlit("commit-tree");
    reveal_strlit("-c");
    assert("write-tree"@.len() == 10 && "read-tree"@.len() == 9 && "show"@.len() == 4);
    assert("rev-parse"@.len() == 9 && "cat-file"@.len() == 8 && "hash-object"@.len() == 11);
    assert("update-ref"@.len() == 10 && "update-index"@.len() == 12);
    assert("commit-tree"@.len() == 11 && "-c"@.len() == 2);
    if let Some(p) = parent {
        lemma_sha_is_plain(p);
    }
    let commits = commit_command(
        w.dir,
        w.message,
        author_env(w.author_name, w.author_email),
        other,
        parent,
    );
    assert(commits.args[0] == "commit-tree"@);
    if let UpdateView::Add { path, content } = w.update {
        lemma_sha_is_plain(name);
        reveal_strlit("100644,");
        reveal_strlit(",");
        let mode = seq!['1', '0', '0', '6', '4', '4'];
        assert("100644,"@ =~= mode + seq![',']);
        assert(","@ =~= seq![',']);
        let entry = name + seq![','] + path;
        let info = cache_info(name, path);
        assert(info =~= mode + seq![','] + entry);
        lemma_cut(mode, ',', entry, info);
        lemma_cut(name, ',', path, entry);
        let enters = enter_command(w.dir, name, path);
        assert(enters.args.len() == 4 && enters.args[0] == "update-index"@);
        assert(enters.args[3] == info);
        let hashes = hash_command(w.dir, content);
        assert(hashes.args.len() == 3 && hashes.args[0] == "hash-object"@);
    }
}

/// The work that a write asks for with so many replies.
spec fn next_work(w: WriteView, replies: Seq<Reply>, at: int, n: int) -> PartView<Seq<char>> {
    write_part(w, replies.take(n), at)
}

/// A command that a write asks for.
spec fn asks(c: CommandView) -> PartView<Seq<char>> {
    PartView::Ask(WorkView::Git(c))
}

/// The steps of a write that is done, one after another, and that each of them
/// succeeded but for the look at the branch.
proof fn lemma_steps(w: WriteView, replies: Seq<Reply>, at: int, sha: Seq<char>, used: int)
    requires
        0 <= at,
        write_part(w, replies, at) == PartView::Have(sha, used),
    ensures
        used == at + (if w.update is Add {
            8int
        } else {
            7
        }),
        used <= replies.len(),
        next_work(w, replies, at, at) == PartView::<Seq<char>>::Ask(
            WorkView::Lock { repo: w.dir },
        ),
        next_work(w, replies, at, at + 1) == asks(
            git_command(w.dir, seq!["rev-parse"@, "--verify"@, branch_ref(w.branch)]),
        ),
        next_work(w, replies, at, at + 2) == asks(
            read_tree_command(w.dir, parent_of(git_in(replies[at + 1]))),
        ),
        succeeded(git_in(replies[at + 2])),
        w.update matches UpdateView::Add { path, content } ==> {
            &&& next_work(w, replies, at, at + 3) == asks(hash_command(w.dir, content))
            &&& succeeded(git_in(replies[at + 3]))
            &&& next_work(w, replies, at, at + 4) == asks(
                enter_command(w.dir, printed_name(git_in(replies[at + 3])), path),
            )
            &&& succeeded(git_in(replies[at + 4]))
        },
        w.update matches UpdateView::Remove { path } ==> {
            &&& next_work(w, replies, at, at + 3) == asks(take_out_command(w.dir, path, w.scratch))
            &&& succeeded(git_in(replies[at + 3]))
        },
        next_work(w, replies, at, used - 3) == asks(git_command(w.dir, seq!["write-tree"@])),
        succeeded(git_in(replies[used - 3])),
        next_work(w, replies, at, used - 2) == asks(
            commit_command(
                w.dir,
                w.message,
                author_env(w.author_name, w.author_email),
                printed_name(git_in(replies[used - 3])),
                parent_of(git_in(replies[at + 1])),
            ),
        ),
        succeeded(git_in(replies[used - 2])),
        sha == printed_name(git_in(replies[used - 2])),
        next_work(w, replies, at, used - 1) == asks(move_command(w, sha)),
        succeeded(git_in(replies[used - 1])),
{
}

/// Bringing a change into the index, in the model.
proof fn lemma_staged(
    w: WriteView,
    replies: Seq<Reply>,
    at: int,
    states: Seq<Repo>,
    sha: Seq<char>,
    used: int,
)
    requires
        0 <= at,
        write_part(w, replies, at) == PartView::Have(sha, used),
        write_runs(w, replies, at, states),
        states[at].wf(),
    ensures
        ({
            let r = states[at];
            let s = states[used - 3];
            &&& parent_of(git_in(replies[at + 1])) == r.tip(w.branch)
            &&& s.index == applied(r.files(w.branch), w.update)
            &&& s.commits == r.commits
            &&& s.refs == r.refs
            &&& s.taken == r.taken
        }),
{
    lemma_steps(w, replies, at, sha, used);
    let r = states[at];
    let g = git_in(replies[at + 1]);
    let parent = parent_of(g);
    let blob = printed_name(git_in(replies[at + 3]));
    let some = seq!['a'];
    assert(is_sha(some));
    assert(states[at + 0 + 1] == r);
    lemma_acts(w, some, some, None);
    assert(performs(
        states[at + 1],
        WorkView::Git(git_command(w.dir, seq!["rev-parse"@, "--verify"@, branch_ref(w.branch)])),
        replies[at + 1],
        states[at + 1 + 1],
    ));
    assert(parent == r.tip(w.branch));
    lemma_acts(w, some, some, parent);
    assert(states[at + 2 + 1] == (Repo { index: r.files(w.branch), ..r }));
    match w.update {
        UpdateView::Add { path, content } => {
            assert(does(
                states[at + 3],
                Act::Store { content },
                git_in(replies[at + 3]),
                states[at + 3 + 1],
            ));
            assert(is_sha(blob));
            lemma_acts(w, blob, some, parent);
            assert(does(
                states[at + 4],
                Act::Enter { blob, path },
                git_in(replies[at + 4]),
                states[at + 4 + 1],
            ));
        },
        UpdateView::Remove { path } => {
            assert(does(
                states[at + 3],
                Act::TakeOut { path },
                git_in(replies[at + 3]),
                states[at + 3 + 1],
            ));
        },
    }
}

/// A write that is done has moved its branch, and only that, to a commit of its
/// own: the commit stands on the one that the branch was at, and its files are
/// the files of the branch with the change and no other.
pub proof fn writes_leave_their_change(
    w: WriteView,
    replies: Seq<Reply>,
    at: int,
    states: Seq<Repo>,
    sha: Seq<char>,
    used: int,
)
    requires
        0 <= at,
        write_part(w, replies, at) == PartView::Have(sha, used),
        write_runs(w, replies, at, states),
        states[at].wf(),
    ensures
        at < used <= replies.len(),
        wrote(w, sha, states[at], states[used]),
{
    lemma_steps(w, replies, at, sha, used);
    lemma_staged(w, replies, at, states, sha, used);
    let r = states[at];
    let parent = r.tip(w.branch);
    let tree = printed_name(git_in(replies[used - 3]));
    let some = seq!['a'];
    assert(is_sha(some));
    lemma_acts(w, some, tree, parent);
    lemma_acts(w, some, sha, parent);
    assert(does(
        states[used - 3],
        Act::WriteTree,
        git_in(replies[used - 3]),
        states[used - 3 + 1],
    ));
    assert(runs(
        states[used - 2],
        Act::Commit {
            tree,
            parent,
            message: w.message,
            env: author_env(w.author_name, w.author_email),
        },
        git_in(replies[used - 2]),
        states[used - 2 + 1],
    ));
    assert(runs(
        states[used - 1],
        Act::Move { name: branch_ref(w.branch), commit: sha },
        git_in(replies[used - 1]),
        states[used - 1 + 1],
    ));
}

/// A command of a write is one of the model's, and only the last moves a branch.
proof fn lemma_write_commands(w: WriteView, replies: Seq<Reply>, at: int, c: CommandView)
    requires
        0 <= at,
        write_part(w, replies, at) == asks(c),
    ensures
        act_of(c) !is Other,
        act_of(c) is Move ==> exists|commit: Seq<char>| c == #[trigger] move_command(w, commit),
{
    reveal_strlit("write-tree");
    reveal_strlit("read-tree");
    reveal_strlit("show");
    reveal_strlit("rev-parse");
    reveal_strlit("cat-file");
    reveal_strlit("hash-object");
    reveal_strlit("update-ref");
    reveal_strlit("update-index");
    reveal_strlit("commit-tree");
    reveal_strlit("-c");
    assert("write-tree"@.len() == 10 && "read-tree"@.len() == 9 && "show"@.len() == 4);
    assert("rev-parse"@.len() == 9 && "cat-file"@.len() == 8 && "hash-object"@.len() == 11);
    assert("update-ref"@.len() == 10 && "update-index"@.len() == 12);
    assert("commit-tree"@.len() == 11 && "-c"@.len() == 2);
    if replies.len() > at + 1 {
        let parent = parent_of(git_in(replies[at + 1]));
        let primes = read_tree_command(w.dir, parent);
        assert(primes.args.len() == 2 && primes.args[0] == "read-tree"@);
        assert(act_of(primes) is Prime);
        if replies.len() > at + 2 {
            let tree = git_command(w.dir, seq!["write-tree"@]);
            assert(act_of(tree) is WriteTree);
            match w.update {
                UpdateView::Add { path, content } => {
                    let hashes = hash_command(w.dir, content);
                    assert(hashes.args.len() == 3 && hashes.args[0] == "hash-object"@);
                    assert(act_of(hashes) is Store);
                    if replies.len() > at + 3 {
                        let enters = enter_command(
                            w.dir,
                            printed_name(git_in(replies[at + 3])),
                            path,
                        );
                        assert(enters.args.len() == 4 && enters.args[0] == "update-index"@);
                        assert(act_of(enters) is Enter);
                    }
                },
                UpdateView::Remove { path } => {
                    let takes = take_out_command(w.dir, path, w.scratch);
                    assert(takes.args.len() == 5 && takes.args[0] == "-c"@);
                    assert(act_of(takes) is TakeOut);
                },
            }
            let staged = stage_part(w, replies, at + 3);
            if staged is Have {
                let at1 = staged->Have_1;
                if replies.len() > at1 {
                    let commits = commit_command(
                        w.dir,
                        w.message,
                        author_env(w.author_name, w.author_email),
                        printed_name(git_in(replies[at1])),
                        parent,
                    );
                    assert(commits.args[0] == "commit-tree"@);
                    assert(act_of(commits) is Commit);
                }
            }
        }
    }
}

/// A write that fails has moved no branch and lost no commit.
pub proof fn failed_writes_move_nothing(
    w: WriteView,
    replies: Seq<Reply>,
    at: int,
    states: Seq<Repo>,
    n: int,
)
    requires
        0 <= at <= n <= replies.len(),
        write_part(w, replies, at) is Fail,
        write_runs(w, replies, at, states),
    ensures
        states[n].refs == states[at].refs,
        states[at].lives_on(states[n]),
    decreases n,
{
    if n > at {
        failed_writes_move_nothing(w, replies, at, states, n - 1);
        let k = n - 1;
        assert(states[k + 1] == states[n]);
        writes_lock_their_repository(w, replies.take(k), at);
        if let PartView::Ask(WorkView::Git(c)) = write_part(w, replies.take(k), at) {
            lemma_write_commands(w, replies.take(k), at, c);
            let g = git_in(replies[k]);
            assert(runs(states[k], act_of(c), g, states[k + 1]));
            if act_of(c) is Move {
                let commit = choose|commit: Seq<char>| c == #[trigger] move_command(w, commit);
                failed_writes_leave_their_branch(w, replies, at, k, commit);
            }
            assert(states[k].lives_on(states[n]));
        }
    }
}

/// A writer's turn: it performs what it asks for, and gets the reply.
pub struct Turn {
    /// Which writer's turn it is.
    pub who: int,
    /// The reply that it gets.
    pub reply: Reply,
}

/// The replies that a writer got, in their order.
pub open spec fn replies_of(turns: Seq<Turn>, who: int) -> Seq<Reply>
    decreases turns.len(),
{
    if turns.len() == 0 {
        seq![]
    } else {
        let before = replies_of(turns.drop_last(), who);
        if turns.last().who == who {
            before.push(turns.last().reply)
        } else {
            before
        }
    }
}

/// What a writer has come to.
pub open spec fn part_of(writers: Seq<WriteView>, turns: Seq<Turn>, who: int) -> PartView<
    Seq<char>,
> {
    write_part(writers[who], replies_of(turns, who), 0)
}

/// A writer holds the lock: it has got it, and is not done.
pub open spec fn holds_lock(writers: Seq<WriteView>, turns: Seq<Turn>, who: int) -> bool {
    0 <= who < writers.len() && replies_of(turns, who).len() > 0 && part_of(
        writers,
        turns,
        who,
    ) is Ask
}

/// Turn `n` can be taken: the writer has something to ask for, and if that is
/// the lock, no other writer holds it.
pub open spec fn takes_turn(
    writers: Seq<WriteView>,
    turns: Seq<Turn>,
    states: Seq<Repo>,
    n: int,
) -> bool {
    let who = turns[n].who;
    let past = turns.take(n);
    &&& 0 <= who < writers.len()
    &&& match part_of(writers, past, who) {
        PartView::Ask(work) => {
            &&& performs(states[n], work, turns[n].reply, states[n + 1])
            &&& work is Lock ==> forall|other: int|
                other != who ==> !#[trigger] holds_lock(writers, past, other)
        },
        _ => false,
    }
}

/// Any number of writers at work in one repository at the same time: their
/// turns, in whatever order they come, and the states that the repository goes
/// through.
pub open spec fn is_history(writers: Seq<WriteView>, turns: Seq<Turn>, states: Seq<Repo>) -> bool {
    &&& states.len() == turns.len() + 1
    &&& forall|i: int, j: int|
        0 <= i < writers.len() && 0 <= j < writers.len() ==> (#[trigger] writers[i]).dir
            == (#[trigger] writers[j]).dir
    &&& forall|n: int| 0 <= n < turns.len() ==> #[trigger] takes_turn(writers, turns, states, n)
}

proof fn lemma_one_more(turns: Seq<Turn>, who: int, n: int)
    requires
        0 <= n < turns.len(),
    ensures
        replies_of(turns.take(n + 1), who) == if turns[n].who == who {
            replies_of(turns.take(n), who).push(turns[n].reply)
        } else {
            replies_of(turns.take(n), who)
        },
{
    assert(turns.take(n + 1).drop_last() =~= turns.take(n));
}

/// At no time do two writers hold the lock.
proof fn lemma_one_holder(
    writers: Seq<WriteView>,
    turns: Seq<Turn>,
    states: Seq<Repo>,
    n: int,
    a: int,
    b: int,
)
    requires
        is_history(writers, turns, states),
        0 <= n <= turns.len(),
        holds_lock(writers, turns.take(n), a),
        holds_lock(writers, turns.take(n), b),
    ensures
        a == b,
    decreases n,
{
    if n > 0 && a != b {
        let who = turns[n - 1].who;
        let past = turns.take(n - 1);
        assert(takes_turn(writers, turns, states, n - 1));
        lemma_one_more(turns, a, n - 1);
        lemma_one_more(turns, b, n - 1);
        if who == a || who == b {
            let other = if who == a {
                b
            } else {
                a
            };
            assert(holds_lock(writers, past, other));
            if replies_of(past, who).len() > 0 {
                assert(holds_lock(writers, past, who));
                lemma_one_holder(writers, turns, states, n - 1, a, b);
            }
        } else {
            lemma_one_holder(writers, turns, states, n - 1, a, b);
        }
    }
}

/// A writer that takes a turn later is not done before.
proof fn lemma_not_done(
    writers: Seq<WriteView>,
    turns: Seq<Turn>,
    states: Seq<Repo>,
    j: int,
    k: int,
)
    requires
        is_history(writers, turns, states),
        0 <= j <= k < turns.len(),
    ensures
        part_of(writers, turns.take(j), turns[k].who) is Ask,
    decreases k - j,
{
    assert(takes_turn(writers, turns, states, j));
    if turns[j].who != turns[k].who {
        lemma_not_done(writers, turns, states, j + 1, k);
        lemma_one_more(turns, turns[k].who, j);
    }
}

/// A writer that took a turn has a reply.
proof fn lemma_has_reply(turns: Seq<Turn>, i: int, n: int)
    requires
        0 <= i < n <= turns.len(),
    ensures
        replies_of(turns.take(n), turns[i].who).len() > 0,
    decreases n,
{
    lemma_one_more(turns, turns[i].who, n - 1);
    if i < n - 1 {
        lemma_has_reply(turns, i, n - 1);
    }
}

/// Writers of one repository come one after another, however many there are and
/// in whatever order they get their turns: between two turns of a writer no
/// other writer has one.
pub proof fn writes_run_alone(
    writers: Seq<WriteView>,
    turns: Seq<Turn>,
    states: Seq<Repo>,
    i: int,
    j: int,
    k: int,
)
    requires
        is_history(writers, turns, states),
        0 <= i < j < k < turns.len(),
        turns[i].who == turns[k].who,
    ensures
        turns[j].who == turns[i].who,
{
    let a = turns[i].who;
    let b = turns[j].who;
    if a != b {
        let past = turns.take(j);
        assert(takes_turn(writers, turns, states, j));
        assert(takes_turn(writers, turns, states, k));
        lemma_not_done(writers, turns, states, j, k);
        lemma_has_reply(turns, i, j);
        assert(holds_lock(writers, past, a));
        if replies_of(past, b).len() > 0 {
            assert(holds_lock(writers, past, b));
            lemma_one_holder(writers, turns, states, j, a, b);
        }
    }
}

/// The replies of a writer whose turns are those from `from` on.
proof fn lemma_replies_between(turns: Seq<Turn>, who: int, from: int, n: int)
    requires
        0 <= from <= n <= turns.len(),
        forall|k: int| 0 <= k < from ==> (#[trigger] turns[k]).who != who,
        forall|k: int| from <= k < n ==> (#[trigger] turns[k]).who == who,
    ensures
        replies_of(turns.take(n), who) == Seq::new(
            (n - from) as nat,
            |i: int| turns[from + i].reply,
        ),
    decreases n,
{
    if n > 0 {
        lemma_one_more(turns, who, n - 1);
        if n > from {
            lemma_replies_between(turns, who, from, n - 1);
        } else {
            lemma_replies_between(turns, who, n - 1, n - 1);
        }
        assert(replies_of(turns.take(n), who) =~= Seq::new(
            (n - from) as nat,
            |i: int| turns[from + i].reply,
        ));
    } else {
        assert(replies_of(turns.take(0), who) =~= seq![]);
    }
}

/// The replies of a writer do not change while it has no turn.
proof fn lemma_no_more_replies(turns: Seq<Turn>, who: int, from: int, n: int)
    requires
        0 <= from <= n <= turns.len(),
        forall|k: int| from <= k < n ==> (#[trigger] turns[k]).who != who,
    ensures
        replies_of(turns.take(n), who) == replies_of(turns.take(from), who),
    decreases n - from,
{
    if n > from {
        lemma_one_more(turns, who, n - 1);
        lemma_no_more_replies(turns, who, from, n - 1);
    }
}

/// A writer that has all the turns between two moments, and none before, runs
/// as it would alone.
proof fn lemma_runs_as_alone(
    writers: Seq<WriteView>,
    turns: Seq<Turn>,
    states: Seq<Repo>,
    who: int,
    from: int,
    to: int,
)
    requires
        is_history(writers, turns, states),
        0 <= who < writers.len(),
        0 <= from <= to <= turns.len(),
        forall|k: int| 0 <= k < from ==> (#[trigger] turns[k]).who != who,
        forall|k: int| from <= k < to ==> (#[trigger] turns[k]).who == who,
    ensures
        write_runs(
            writers[who],
            replies_of(turns.take(to), who),
            0,
            states.subrange(from, to + 1),
        ),
{
    let w = writers[who];
    let replies = replies_of(turns.take(to), who);
    let own = states.subrange(from, to + 1);
    lemma_replies_between(turns, who, from, to);
    assert forall|k: int| #![trigger own[k + 1]] 0 <= k < replies.len() implies match write_part(
        w,
        replies.take(k),
        0,
    ) {
        PartView::Ask(work) => performs(own[k], work, replies[k], own[k + 1]),
        _ => own[k + 1] == own[k],
    } by {
        lemma_replies_between(turns, who, from, from + k);
        assert(replies.take(k) =~= replies_of(turns.take(from + k), who));
        assert(takes_turn(writers, turns, states, from + k));
    }
}

/// The first turn of a writer, if it has one.
proof fn lemma_first_turn(turns: Seq<Turn>, who: int, n: int) -> (p: int)
    requires
        0 <= n <= turns.len(),
        replies_of(turns.take(n), who).len() > 0,
    ensures
        0 <= p < n,
        turns[p].who == who,
        forall|k: int| 0 <= k < p ==> (#[trigger] turns[k]).who != who,
    decreases n,
{
    if n == 0 {
        assert(replies_of(turns.take(0), who) =~= seq![]);
        0
    } else {
        lemma_one_more(turns, who, n - 1);
        if replies_of(turns.take(n - 1), who).len() > 0 {
            lemma_first_turn(turns, who, n - 1)
        } else {
            assert forall|k: int| 0 <= k < n - 1 implies (#[trigger] turns[k]).who != who by {
                if turns[k].who == who {
                    lemma_has_reply(turns, k, n - 1);
                }
            }
            n - 1
        }
    }
}

/// Of two writers that are done, this one came first, and the other found what
/// it left.
pub open spec fn came_first(
    first: WriteView,
    first_sha: Seq<char>,
    second: WriteView,
    second_sha: Seq<char>,
    r: Repo,
    s: Repo,
) -> bool {
    exists|between: Repo|
        wrote(first, first_sha, r, between) && #[trigger] wrote(second, second_sha, between, s)
}

proof fn lemma_second_follows(
    writers: Seq<WriteView>,
    turns: Seq<Turn>,
    states: Seq<Repo>,
    a: int,
    b: int,
    a_sha: Seq<char>,
    b_sha: Seq<char>,
    a_used: int,
    b_used: int,
)
    requires
        writers.len() == 2,
        is_history(writers, turns, states),
        states[0].wf(),
        turns.len() > 0,
        0 <= a < 2,
        b == 1 - a,
        turns[0].who == a,
        part_of(writers, turns, a) == PartView::Have(a_sha, a_used),
        part_of(writers, turns, b) == PartView::Have(b_sha, b_used),
    ensures
        came_first(writers[a], a_sha, writers[b], b_sha, states[0], states.last()),
{
    let all = turns.len() as int;
    assert(turns.take(all) =~= turns);
    lemma_steps(writers[b], replies_of(turns, b), 0, b_sha, b_used);
    let p = lemma_first_turn(turns, b, all);
    assert forall|k: int| 0 <= k < p implies (#[trigger] turns[k]).who == a by {
        assert(takes_turn(writers, turns, states, k));
    }
    assert forall|k: int| p <= k < all implies (#[trigger] turns[k]).who == b by {
        assert(takes_turn(writers, turns, states, k));
        if turns[k].who == a {
            writes_run_alone(writers, turns, states, 0, p, k);
        }
    }
    lemma_runs_as_alone(writers, turns, states, a, 0, p);
    lemma_no_more_replies(turns, a, p, all);
    lemma_replies_between(turns, a, 0, p);
    let a_states = states.subrange(0, p + 1);
    writes_leave_their_change(
        writers[a],
        replies_of(turns.take(p), a),
        0,
        a_states,
        a_sha,
        a_used,
    );
    lemma_ends_with(writers, turns, states, a, 0, p, a_sha, a_used);
    lemma_runs_as_alone(writers, turns, states, b, p, all);
    lemma_replies_between(turns, b, p, all);
    let b_states = states.subrange(p, all + 1);
    assert(b_states[0] == states[p]);
    assert(a_states[p] == states[p]);
    writes_leave_their_change(writers[b], replies_of(turns, b), 0, b_states, b_sha, b_used);
    lemma_ends_with(writers, turns, states, b, p, all, b_sha, b_used);
    assert(wrote(writers[a], a_sha, states[0], states[p]));
    assert(wrote(writers[b], b_sha, states[p], states.last()));
}

/// A writer whose last turn this was used all its replies.
proof fn lemma_ends_with(
    writers: Seq<WriteView>,
    turns: Seq<Turn>,
    states: Seq<Repo>,
    who: int,
    from: int,
    to: int,
    sha: Seq<char>,
    used: int,
)
    requires
        is_history(writers, turns, states),
        0 <= from < to <= turns.len(),
        turns[to - 1].who == who,
        part_of(writers, turns.take(to), who) == PartView::Have(sha, used),
        replies_of(turns.take(to), who).len() == to - from,
    ensures
        used == to - from,
{
    assert(takes_turn(writers, turns, states, to - 1));
    lemma_one_more(turns, who, to - 1);
    let w = writers[who];
    let replies = replies_of(turns.take(to), who);
    let short = replies_of(turns.take(to - 1), who);
    assert(short =~= replies.drop_last());
    lemma_steps(w, replies, 0, sha, used);
    if used < replies.len() {
        lemma_stays_done(w, replies, 0, sha, used, short.len() as int);
        assert(short =~= replies.take(short.len() as int));
    }
}

/// A write that is done needs no more replies.
proof fn lemma_stays_done(
    w: WriteView,
    replies: Seq<Reply>,
    at: int,
    sha: Seq<char>,
    used: int,
    n: int,
)
    requires
        0 <= at,
        write_part(w, replies, at) == PartView::Have(sha, used),
        used <= n <= replies.len(),
    ensures
        write_part(w, replies.take(n), at) == PartView::Have(sha, used),
{
}

/// Two writers at work in one repository at the same time, who are both done,
/// leave what they would if one had come wholly after the other.
pub proof fn writes_are_serialised(
    writers: Seq<WriteView>,
    turns: Seq<Turn>,
    states: Seq<Repo>,
    sha0: Seq<char>,
    sha1: Seq<char>,
    used0: int,
    used1: int,
)
    requires
        writers.len() == 2,
        is_history(writers, turns, states),
        states[0].wf(),
        part_of(writers, turns, 0) == PartView::Have(sha0, used0),
        part_of(writers, turns, 1) == PartView::Have(sha1, used1),
    ensures
        ({
            ||| came_first(writers[0], sha0, writers[1], sha1, states[0], states.last())
            ||| came_first(writers[1], sha1, writers[0], sha0, states[0], states.last())
        }),
{
    lemma_steps(writers[0], replies_of(turns, 0), 0, sha0, used0);
    assert(turns.take(turns.len() as int) =~= turns);
    assert(turns.len() > 0);
    assert(takes_turn(writers, turns, states, 0));
    if turns[0].who == 0 {
        lemma_second_follows(writers, turns, states, 0, 1, sha0, sha1, used0, used1);
    } else {
        lemma_second_follows(writers, turns, states, 1, 0, sha1, sha0, used1, used0);
    }
}

/// No update is lost: of two writers who add different files to one branch at
/// the same time, and are both done, one's commit stands on the other's, the
/// branch is at the later one, and that holds both files as they were written.
pub proof fn no_update_is_lost(
    writers: Seq<WriteView>,
    turns: Seq<Turn>,
    states: Seq<Repo>,
    sha0: Seq<char>,
    sha1: Seq<char>,
    used0: int,
    used1: int,
    path0: Seq<char>,
    path1: Seq<char>,
    content0: Seq<u8>,
    content1: Seq<u8>,
)
    requires
        writers.len() == 2,
        is_history(writers, turns, states),
        states[0].wf(),
        writers[0].branch == writers[1].branch,
        writers[0].update == (UpdateView::Add { path: path0, content: content0 }),
        writers[1].update == (UpdateView::Add { path: path1, content: content1 }),
        path0 != path1,
        part_of(writers, turns, 0) == PartView::Have(sha0, used0),
        part_of(writers, turns, 1) == PartView::Have(sha1, used1),
    ensures
        ({
            let s = states.last();
            let tip = s.tip(writers[0].branch);
            let files = s.files(writers[0].branch);
            &&& {
                ||| tip == Some(sha1) && s.commits[sha1].parent == Some(sha0)
                ||| tip == Some(sha0) && s.commits[sha0].parent == Some(sha1)
            }
            &&& s.commits.contains_key(sha0) && s.commits.contains_key(sha1)
            &&& files.contains_key(path0) && files[path0] == content0
            &&& files.contains_key(path1) && files[path1] == content1
        }),
{
    writes_are_serialised(writers, turns, states, sha0, sha1, used0, used1);
}

/// An operation gets its replies from git, as the repository goes through these
/// states: `steps[k]` is what it came to with the first `k` replies.
pub open spec fn op_runs(
    steps: spec_fn(int) -> StepView<WrittenView>,
    replies: Seq<Reply>,
    states: Seq<Repo>,
) -> bool {
    &&& states.len() == replies.len() + 1
    &&& forall|k: int| #![trigger states[k + 1]]
        0 <= k < replies.len() ==> match steps(k) {
            StepView::Ask(work) => performs(states[k], work, replies[k], states[k + 1]),
            _ => states[k + 1] == states[k],
        }
}

/// What [`create_blob`](crate::files::create_blob) comes to with so many
/// replies.
pub open spec fn creating(
    ctx: Context,
    owner: Seq<char>,
    repo: Seq<char>,
    body: WriteFileBody,
    scratch: Seq<char>,
    replies: Seq<Reply>,
) -> spec_fn(int) -> StepView<WrittenView> {
    |k: int| create_step(ctx, owner, repo, body, scratch, replies.take(k))
}

/// What [`update_blob`](crate::files::update_blob) comes to with so many
/// replies.
pub open spec fn updating(
    ctx: Context,
    owner: Seq<char>,
    repo: Seq<char>,
    body: WriteFileBody,
    scratch: Seq<char>,
    replies: Seq<Reply>,
) -> spec_fn(int) -> StepView<WrittenView> {
    |k: int| update_step(ctx, owner, repo, body, scratch, replies.take(k))
}

/// A request that made or changed a file, in a repository that went through
/// these states.
pub open spec fn file_was_put(
    ctx: Context,
    owner: Seq<char>,
    repo: Seq<char>,
    body: WriteFileBody,
    scratch: Seq<char>,
    replies: Seq<Reply>,
    states: Seq<Repo>,
    written: WrittenView,
) -> bool {
    ||| {
        &&& create_step(ctx, owner, repo, body, scratch, replies) == StepView::Answer(201, written)
        &&& op_runs(creating(ctx, owner, repo, body, scratch, replies), replies, states)
    }
    ||| {
        &&& update_step(ctx, owner, repo, body, scratch, replies) == StepView::Answer(200, written)
        &&& op_runs(updating(ctx, owner, repo, body, scratch, replies), replies, states)
    }
}

proof fn lemma_looks_first(c: CommandView, branch: Seq<char>, path: Seq<char>)
    requires
        c.args == seq!["cat-file"@, "-e"@, object_at(branch, path)],
    ensures
        act_of(c) is Exists,
{
    reveal_strlit("rev-parse");
    reveal_strlit("cat-file");
    assert("rev-parse"@.len() != "cat-file"@.len());
}

/// A request that made or changed a file is a look whether the file is there,
/// and a write.
proof fn lemma_put_is_write(
    ctx: Context,
    owner: Seq<char>,
    repo: Seq<char>,
    body: WriteFileBody,
    scratch: Seq<char>,
    replies: Seq<Reply>,
    states: Seq<Repo>,
    written: WrittenView,
    content: Seq<u8>,
)
    requires
        file_was_put(ctx, owner, repo, body, scratch, replies, states, written),
        base64_bytes(body.content@) == Some(content),
    ensures
        ({
            let w = put_view(own_dir(ctx, repo), body, content, scratch);
            &&& states[1] == states[0]
            &&& write_runs(w, replies, 1, states)
            &&& write_part(w, replies, 1) matches PartView::Have(sha, used) && sha == written.sha
        }),
{
    let dir = own_dir(ctx, repo);
    let w = put_view(dir, body, content, scratch);
    let looks = git_command(
        dir,
        seq!["cat-file"@, "-e"@, object_at(body.branch@, body.path@)],
    );
    lemma_looks_first(looks, body.branch@, body.path@);
    let creates = create_step(ctx, owner, repo, body, scratch, replies) == StepView::Answer(
        201,
        written,
    ) && op_runs(creating(ctx, owner, repo, body, scratch, replies), replies, states);
    assert(replies.len() > 0);
    assert(replies.take(0).len() == 0);
    assert(states[0int + 1] == states[0]) by {
        if creates {
            assert(creating(ctx, owner, repo, body, scratch, replies)(0) == StepView::<
                WrittenView,
            >::Ask(WorkView::Git(looks)));
        } else {
            assert(updating(ctx, owner, repo, body, scratch, replies)(0) == StepView::<
                WrittenView,
            >::Ask(WorkView::Git(looks)));
        }
    }
    assert forall|k: int| #![trigger states[k + 1]] 1 <= k < replies.len() implies match write_part(
        w,
        replies.take(k),
        1,
    ) {
        PartView::Ask(work) => performs(states[k], work, replies[k], states[k + 1]),
        _ => states[k + 1] == states[k],
    } by {
        let short = replies.take(k);
        assert(short[0] == replies[0]);
        let step = if creates {
            creating(ctx, owner, repo, body, scratch, replies)(k)
        } else {
            updating(ctx, owner, repo, body, scratch, replies)(k)
        };
        assert(match write_part(w, short, 1) {
            PartView::Ask(work) => step == StepView::<WrittenView>::Ask(work),
            _ => step !is Ask,
        });
    }
}

/// Nothing happens after a write is done.
proof fn lemma_rests(
    w: WriteView,
    replies: Seq<Reply>,
    at: int,
    states: Seq<Repo>,
    sha: Seq<char>,
    used: int,
    n: int,
)
    requires
        0 <= at <= used <= n <= replies.len(),
        write_part(w, replies, at) == PartView::Have(sha, used),
        write_runs(w, replies, at, states),
    ensures
        states[n] == states[used],
    decreases n,
{
    if n > used {
        lemma_rests(w, replies, at, states, sha, used, n - 1);
        lemma_stays_done(w, replies, at, sha, used, n - 1);
        assert(states[n - 1 + 1] == states[n - 1]);
    }
}

/// A file that was made or changed is in its branch as it was written: the
/// branch is at the commit that the answer names, and that holds what the
/// branch held before, and the file.
pub proof fn put_files_are_there(
    ctx: Context,
    owner: Seq<char>,
    repo: Seq<char>,
    body: WriteFileBody,
    scratch: Seq<char>,
    replies: Seq<Reply>,
    states: Seq<Repo>,
    written: WrittenView,
    content: Seq<u8>,
)
    requires
        file_was_put(ctx, owner, repo, body, scratch, replies, states, written),
        base64_bytes(body.content@) == Some(content),
        states[0].wf(),
    ensures
        wrote(
            put_view(own_dir(ctx, repo), body, content, scratch),
            written.sha,
            states[0],
            states.last(),
        ),
{
    let w = put_view(own_dir(ctx, repo), body, content, scratch);
    lemma_put_is_write(ctx, owner, repo, body, scratch, replies, states, written, content);
    let used = write_part(w, replies, 1)->Have_1;
    writes_leave_their_change(w, replies, 1, states, written.sha, used);
    lemma_rests(w, replies, 1, states, written.sha, used, replies.len() as int);
}

/// What [`delete_blob`](crate::files::delete_blob) comes to with so many
/// replies.
pub open spec fn deleting(
    ctx: Context,
    owner: Seq<char>,
    repo: Seq<char>,
    body: DeleteFileBody,
    scratch: Seq<char>,
    replies: Seq<Reply>,
) -> spec_fn(int) -> StepView<WrittenView> {
    |k: int| delete_step(ctx, owner, repo, body, scratch, replies.take(k))
}

/// A request that took a file away, in a repository that went through these
/// states.
pub open spec fn file_was_dropped(
    ctx: Context,
    owner: Seq<char>,
    repo: Seq<char>,
    body: DeleteFileBody,
    scratch: Seq<char>,
    replies: Seq<Reply>,
    states: Seq<Repo>,
    written: WrittenView,
) -> bool {
    &&& delete_step(ctx, owner, repo, body, scratch, replies) == StepView::Answer(200, written)
    &&& op_runs(deleting(ctx, owner, repo, body, scratch, replies), replies, states)
}

/// A request that took a file away is a look whether the file is there, and a
/// write.
proof fn lemma_drop_is_write(
    ctx: Context,
    owner: Seq<char>,
    repo: Seq<char>,
    body: DeleteFileBody,
    scratch: Seq<char>,
    replies: Seq<Reply>,
    states: Seq<Repo>,
    written: WrittenView,
)
    requires
        file_was_dropped(ctx, owner, repo, body, scratch, replies, states, written),
    ensures
        ({
            let w = drop_view(own_dir(ctx, repo), body, scratch);
            &&& states[1] == states[0]
            &&& write_runs(w, replies, 1, states)
            &&& write_part(w, replies, 1) matches PartView::Have(sha, used) && sha == written.sha
        }),
{
    let dir = own_dir(ctx, repo);
    let w = drop_view(dir, body, scratch);
    let looks = git_command(
        dir,
        seq!["cat-file"@, "-e"@, object_at(body.branch@, body.path@)],
    );
    lemma_looks_first(looks, body.branch@, body.path@);
    let steps = deleting(ctx, owner, repo, body, scratch, replies);
    assert(replies.len() > 0);
    assert(replies.take(0).len() == 0);
    assert(steps(0) == StepView::<WrittenView>::Ask(WorkView::Git(looks)));
    assert(states[0int + 1] == states[0]);
    assert forall|k: int| #![trigger states[k + 1]] 1 <= k < replies.len() implies match write_part(
        w,
        replies.take(k),
        1,
    ) {
        PartView::Ask(work) => performs(states[k], work, replies[k], states[k + 1]),
        _ => states[k + 1] == states[k],
    } by {
        let short = replies.take(k);
        assert(short[0] == replies[0]);
        assert(match write_part(w, short, 1) {
            PartView::Ask(work) => steps(k) == StepView::<WrittenView>::Ask(work),
            _ => steps(k) !is Ask,
        });
    }
}

/// A file that was taken away is no more in its branch: the branch is at the
/// commit that the answer names, and that holds what the branch held before but
/// for the file.
pub proof fn dropped_files_are_gone(
    ctx: Context,
    owner: Seq<char>,
    repo: Seq<char>,
    body: DeleteFileBody,
    scratch: Seq<char>,
    replies: Seq<Reply>,
    states: Seq<Repo>,
    written: WrittenView,
)
    requires
        file_was_dropped(ctx, owner, repo, body, scratch, replies, states, written),
        states[0].wf(),
    ensures
        wrote(
            drop_view(own_dir(ctx, repo), body, scratch),
            written.sha,
            states[0],
            states.last(),
        ),
{
    let w = drop_view(own_dir(ctx, repo), body, scratch);
    lemma_drop_is_write(ctx, owner, repo, body, scratch, replies, states, written);
    let used = write_part(w, replies, 1)->Have_1;
    writes_leave_their_change(w, replies, 1, states, written.sha, used);
    lemma_rests(w, replies, 1, states, written.sha, used, replies.len() as int);
}

/// A file reads back as it was written. A request made or changed it; the
/// repository is now in a state in which the branch is still at the commit that
/// the answer named; and a caller who may read the repository asks for the file
/// of that branch. Then the answer is 200, its content is the text that was
/// written, which stands for the same bytes, and its size is their number.
/// That `content` and its text stand for each other is what encoding and
/// decoding base64 give.
pub proof fn files_read_back(
    ctx: Context,
    owner: Seq<char>,
    repo: Seq<char>,
    body: WriteFileBody,
    scratch: Seq<char>,
    replies: Seq<Reply>,
    states: Seq<Repo>,
    written: WrittenView,
    content: Seq<u8>,
    reader: Context,
    reader_owner: Seq<char>,
    query: BlobQuery,
    read_replies: Seq<Reply>,
    at: int,
    now: Repo,
)
    requires
        file_was_put(ctx, owner, repo, body, scratch, replies, states, written),
        base64_bytes(body.content@) == Some(content),
        base64_text(content) == body.content@,
        states[0].wf(),
        states.last().lives_on(now),
        now.wf(),
        now.tip(body.branch@) == Some(written.sha),
        now.means_branch(body.branch@),
        read_part(reader, reader_owner, repo, read_replies, 0) == PartView::Have(
            own_dir(ctx, repo),
            at,
        ),
        query.git_ref is Some && query.git_ref->0@ == body.branch@,
        query.path@ == body.path@,
        read_replies.len() == at + 1,
        blob_step(reader, reader_owner, repo, query, read_replies.take(at)) matches StepView::Ask(
            work,
        ) && performs(now, work, read_replies[at], now),
    ensures
        blob_step(reader, reader_owner, repo, query, read_replies) == StepView::Answer(
            200,
            BlobView {
                git_ref: body.branch@,
                path: body.path@,
                content: body.content@,
                is_binary: looks_binary(content),
                size: content.len(),
            },
        ),
{
    put_files_are_there(ctx, owner, repo, body, scratch, replies, states, written, content);
    let branch = body.branch@;
    let path = body.path@;
    let shows = git_command(own_dir(ctx, repo), seq!["show"@, object_at(branch, path)]);
    lemma_shows(own_dir(ctx, repo), branch, path, now);
    lemma_reads_alike(reader, reader_owner, repo, read_replies, at);
    assert(blob_step(reader, reader_owner, repo, query, read_replies.take(at)) == StepView::<
        BlobView,
    >::Ask(WorkView::Git(shows)));
    assert(now.files(branch) == applied(
        states[0].files(branch),
        UpdateView::Add { path, content },
    ));
}

/// A file that was taken away is not found. A request took it away; the branch
/// is still at the commit that the answer named; and a caller who may read the
/// repository asks for the file of that branch. Then git does not show it, and
/// where git ends with that the answer is 404.
pub proof fn dropped_files_are_not_found(
    ctx: Context,
    owner: Seq<char>,
    repo: Seq<char>,
    body: DeleteFileBody,
    scratch: Seq<char>,
    replies: Seq<Reply>,
    states: Seq<Repo>,
    written: WrittenView,
    reader: Context,
    reader_owner: Seq<char>,
    query: BlobQuery,
    read_replies: Seq<Reply>,
    at: int,
    now: Repo,
)
    requires
        file_was_dropped(ctx, owner, repo, body, scratch, replies, states, written),
        states[0].wf(),
        states.last().lives_on(now),
        now.wf(),
        now.tip(body.branch@) == Some(written.sha),
        now.means_branch(body.branch@),
        read_part(reader, reader_owner, repo, read_replies, 0) == PartView::Have(
            own_dir(ctx, repo),
            at,
        ),
        query.git_ref is Some && query.git_ref->0@ == body.branch@,
        query.path@ == body.path@,
        read_replies.len() == at + 1,
        read_replies[at] matches Reply::Git(GitReply::Ended { .. }),
        blob_step(reader, reader_owner, repo, query, read_replies.take(at)) matches StepView::Ask(
            work,
        ) && performs(now, work, read_replies[at], now),
    ensures
        blob_step(reader, reader_owner, repo, query, read_replies) == StepView::<BlobView>::Refuse(
            ErrorView { status: 404, error: "file not found"@, detail: None },
        ),
{
    dropped_files_are_gone(ctx, owner, repo, body, scratch, replies, states, written);
    let branch = body.branch@;
    let path = body.path@;
    lemma_shows(own_dir(ctx, repo), branch, path, now);
    lemma_reads_alike(reader, reader_owner, repo, read_replies, at);
    let shows = git_command(own_dir(ctx, repo), seq!["show"@, object_at(branch, path)]);
    assert(blob_step(reader, reader_owner, repo, query, read_replies.take(at)) == StepView::<
        BlobView,
    >::Ask(WorkView::Git(shows)));
    assert(now.files(branch) == applied(states[0].files(branch), UpdateView::Remove { path }));
}

/// The command that shows a file shows that file of that branch.
proof fn lemma_shows(dir: Seq<char>, branch: Seq<char>, path: Seq<char>, now: Repo)
    requires
        now.wf(),
        now.tip(branch) is Some,
    ensures
        act_of(git_command(dir, seq!["show"@, object_at(branch, path)])) == (Act::Show {
            branch,
            path,
        }),
{
    let object = object_at(branch, path);
    reveal_strlit("show");
    reveal_strlit("read-tree");
    reveal_strlit(":");
    assert("show"@.len() != "read-tree"@.len());
    assert(":"@ =~= seq![':']);
    let full = branch_ref(branch);
    assert(now.refs.contains_key(full));
    assert(!branch.contains(':')) by {
        reveal_strlit("refs/heads/");
        if branch.contains(':') {
            let i = branch.index_of(':');
            assert(full["refs/heads/"@.len() + i] == ':');
        }
    }
    lemma_cut(branch, ':', path, object);
}

/// Access that was granted does not depend on replies that came later.
proof fn lemma_reads_alike(
    ctx: Context,
    owner: Seq<char>,
    repo: Seq<char>,
    replies: Seq<Reply>,
    at: int,
)
    requires
        read_part(ctx, owner, repo, replies, 0) is Have,
        read_part(ctx, owner, repo, replies, 0)->Have_1 == at,
    ensures
        0 <= at <= replies.len(),
        read_part(ctx, owner, repo, replies.take(at), 0) == read_part(ctx, owner, repo, replies, 0),
{
}

} // verus!
