//! Writing files: what git is asked, what that leaves behind, and what the
//! answer is, from the fields of the request.

use vstd::prelude::*;

use super::access::{home_of, is_own, is_refused};
use crate::authz::Context;
use crate::files::{create_step, delete_step, drop_view, own_dir, put_view, update_step};
use crate::git::{write_part, UpdateView, WriteView};
use crate::model::{
    dropped_files_are_gone, file_was_dropped, file_was_put, put_files_are_there, CommitModel,
    Files, Repo,
};
use crate::outside::base64_bytes;
use crate::pathing::is_safe;
use crate::printing::{
    git_fails, git_is_fine, git_is_lost, git_is_not_fine, git_names, git_runs, names_are_read,
};
use crate::text::trimmed;
use crate::types::{DeleteFileBody, WriteFileBody, WrittenView};
use crate::work::{CommandView, GitReply, PartView, Reply, StepView, WorkView};

verus! {

/// Git looks up the commit of a branch: it prints it, or there is none.
pub open spec fn git_tells_tip(reply: Reply, tip: Option<Seq<char>>) -> bool {
    match tip {
        Some(sha) => git_names(reply, sha),
        None => git_fails(reply),
    }
}

/// The steps of a write that puts content into a file, and what it leads to.
proof fn lemma_put_goes(
    w: WriteView,
    path: Seq<char>,
    content: Seq<u8>,
    replies: Seq<Reply>,
    at: int,
    tip: Option<Seq<char>>,
    blob: Seq<char>,
    tree: Seq<char>,
    commit: Seq<char>,
)
    requires
        0 <= at,
        w.update == (UpdateView::Add { path, content }),
        replies.len() == at + 8,
        git_tells_tip(replies[at + 1], tip),
        git_is_fine(replies[at + 2]),
        git_names(replies[at + 3], blob),
        git_is_fine(replies[at + 4]),
        git_names(replies[at + 5], tree),
        git_names(replies[at + 6], commit),
        git_is_fine(replies[at + 7]),
    ensures
        write_part(w, replies.take(at), at) == PartView::<Seq<char>>::Ask(
            WorkView::Lock { repo: w.dir },
        ),
        write_part(w, replies.take(at + 1), at) == PartView::<Seq<char>>::Ask(
            git_runs(w.dir, seq!["rev-parse"@, "--verify"@, "refs/heads/"@ + w.branch]),
        ),
        write_part(w, replies.take(at + 2), at) == PartView::<Seq<char>>::Ask(
            git_runs(
                w.dir,
                match tip {
                    Some(sha) => seq!["read-tree"@, sha],
                    None => seq!["read-tree"@, "--empty"@],
                },
            ),
        ),
        write_part(w, replies.take(at + 3), at) == PartView::<Seq<char>>::Ask(
            WorkView::Git(
                CommandView {
                    dir: Some(w.dir),
                    args: seq!["hash-object"@, "-w"@, "--stdin"@],
                    env: seq![],
                    input: Some(content),
                    scratch: None,
                },
            ),
        ),
        write_part(w, replies.take(at + 4), at) == PartView::<Seq<char>>::Ask(
            git_runs(
                w.dir,
                seq![
                    "update-index"@,
                    "--add"@,
                    "--cacheinfo"@,
                    "100644,"@ + blob + ","@ + path,
                ],
            ),
        ),
        write_part(w, replies.take(at + 5), at) == PartView::<Seq<char>>::Ask(
            git_runs(w.dir, seq!["write-tree"@]),
        ),
        write_part(w, replies.take(at + 6), at) == PartView::<Seq<char>>::Ask(
            WorkView::Git(
                CommandView {
                    dir: Some(w.dir),
                    args: match tip {
                        Some(sha) => seq!["commit-tree"@, tree, "-p"@, sha, "-m"@, w.message],
                        None => seq!["commit-tree"@, tree, "-m"@, w.message],
                    },
                    env: seq![
                        ("GIT_AUTHOR_NAME"@, w.author_name),
                        ("GIT_AUTHOR_EMAIL"@, w.author_email),
                        ("GIT_COMMITTER_NAME"@, w.author_name),
                        ("GIT_COMMITTER_EMAIL"@, w.author_email),
                    ],
                    input: None,
                    scratch: None,
                },
            ),
        ),
        write_part(w, replies.take(at + 7), at) == PartView::<Seq<char>>::Ask(
            git_runs(w.dir, seq!["update-ref"@, "refs/heads/"@ + w.branch, commit]),
        ),
        write_part(w, replies, at) == PartView::Have(commit, at + 8),
{
    if let Some(sha) = tip {
        names_are_read(replies[at + 1], sha);
    }
    names_are_read(replies[at + 3], blob);
    names_are_read(replies[at + 5], tree);
    names_are_read(replies[at + 6], commit);
    let args = match tip {
        Some(sha) => seq!["read-tree"@, sha],
        None => seq!["read-tree"@, "--empty"@],
    };
    assert(args =~= seq![
        "read-tree"@,
        match tip {
            Some(sha) => sha,
            None => "--empty"@,
        },
    ]);
}

/// The steps of a write that takes a file away, and what it leads to.
proof fn lemma_drop_goes(
    w: WriteView,
    path: Seq<char>,
    replies: Seq<Reply>,
    at: int,
    tip: Option<Seq<char>>,
    tree: Seq<char>,
    commit: Seq<char>,
)
    requires
        0 <= at,
        w.update == (UpdateView::Remove { path }),
        replies.len() == at + 7,
        git_tells_tip(replies[at + 1], tip),
        git_is_fine(replies[at + 2]),
        git_is_fine(replies[at + 3]),
        git_names(replies[at + 4], tree),
        git_names(replies[at + 5], commit),
        git_is_fine(replies[at + 6]),
    ensures
        write_part(w, replies.take(at), at) == PartView::<Seq<char>>::Ask(
            WorkView::Lock { repo: w.dir },
        ),
        write_part(w, replies.take(at + 1), at) == PartView::<Seq<char>>::Ask(
            git_runs(w.dir, seq!["rev-parse"@, "--verify"@, "refs/heads/"@ + w.branch]),
        ),
        write_part(w, replies.take(at + 2), at) == PartView::<Seq<char>>::Ask(
            git_runs(
                w.dir,
                match tip {
                    Some(sha) => seq!["read-tree"@, sha],
                    None => seq!["read-tree"@, "--empty"@],
                },
            ),
        ),
        write_part(w, replies.take(at + 3), at) == PartView::<Seq<char>>::Ask(
            WorkView::Git(
                CommandView {
                    dir: Some(w.dir),
                    args: seq![
                        "-c"@,
                        "core.bare=false"@,
                        "update-index"@,
                        "--force-remove"@,
                        path,
                    ],
                    env: seq![],
                    input: None,
                    scratch: Some(w.scratch),
                },
            ),
        ),
        write_part(w, replies.take(at + 4), at) == PartView::<Seq<char>>::Ask(
            git_runs(w.dir, seq!["write-tree"@]),
        ),
        write_part(w, replies.take(at + 5), at) == PartView::<Seq<char>>::Ask(
            WorkView::Git(
                CommandView {
                    dir: Some(w.dir),
                    args: match tip {
                        Some(sha) => seq!["commit-tree"@, tree, "-p"@, sha, "-m"@, w.message],
                        None => seq!["commit-tree"@, tree, "-m"@, w.message],
                    },
                    env: seq![
                        ("GIT_AUTHOR_NAME"@, w.author_name),
                        ("GIT_AUTHOR_EMAIL"@, w.author_email),
                        ("GIT_COMMITTER_NAME"@, w.author_name),
                        ("GIT_COMMITTER_EMAIL"@, w.author_email),
                    ],
                    input: None,
                    scratch: None,
                },
            ),
        ),
        write_part(w, replies.take(at + 6), at) == PartView::<Seq<char>>::Ask(
            git_runs(w.dir, seq!["update-ref"@, "refs/heads/"@ + w.branch, commit]),
        ),
        write_part(w, replies, at) == PartView::Have(commit, at + 7),
{
    if let Some(sha) = tip {
        names_are_read(replies[at + 1], sha);
    }
    names_are_read(replies[at + 4], tree);
    names_are_read(replies[at + 5], commit);
    let args = match tip {
        Some(sha) => seq!["read-tree"@, sha],
        None => seq!["read-tree"@, "--empty"@],
    };
    assert(args =~= seq![
        "read-tree"@,
        match tip {
            Some(sha) => sha,
            None => "--empty"@,
        },
    ]);
}

/// What a request to make (or else to change) a file comes to.
pub open spec fn put_step_of(
    makes: bool,
    ctx: Context,
    owner: Seq<char>,
    repo: Seq<char>,
    body: WriteFileBody,
    scratch: Seq<char>,
    replies: Seq<Reply>,
) -> StepView<WrittenView> {
    if makes {
        create_step(ctx, owner, repo, body, scratch, replies)
    } else {
        update_step(ctx, owner, repo, body, scratch, replies)
    }
}

proof fn lemma_takes(replies: Seq<Reply>, n: int, m: int)
    requires
        0 <= n <= m <= replies.len(),
    ensures
        replies.take(m).len() == m,
        n < m ==> replies.take(m)[n] == replies[n],
{
}

/// Making or changing a file, from the first look to the answer: each command
/// names the branch, the path, the content, the message and the author of the
/// request, the commit stands on the one that the branch was at, and the branch
/// moves to the commit that git made, which the answer names. A file is made
/// where there is none, and changed where there is one.
#[verifier::spinoff_prover]
pub proof fn files_are_put_step_by_step(
    makes: bool,
    ctx: Context,
    owner: Seq<char>,
    repo: Seq<char>,
    body: WriteFileBody,
    content: Seq<u8>,
    scratch: Seq<char>,
    replies: Seq<Reply>,
    tip: Option<Seq<char>>,
    blob: Seq<char>,
    tree: Seq<char>,
    commit: Seq<char>,
)
    requires
        is_own(ctx, owner, repo),
        makes ==> trimmed(body.path@).len() > 0,
        base64_bytes(body.content@) == Some(content),
        replies.len() == 9,
        if makes {
            git_fails(replies[0])
        } else {
            git_is_fine(replies[0])
        },
        git_tells_tip(replies[2], tip),
        git_is_fine(replies[3]),
        git_names(replies[4], blob),
        git_is_fine(replies[5]),
        git_names(replies[6], tree),
        git_names(replies[7], commit),
        git_is_fine(replies[8]),
    ensures
        ({
            let dir = home_of(ctx.root@, ctx.claims->0.sub@, repo);
            let after = |k: int|
                put_step_of(makes, ctx, owner, repo, body, scratch, replies.take(k));
            &&& after(0) == StepView::<WrittenView>::Ask(
                git_runs(dir, seq!["cat-file"@, "-e"@, body.branch@ + ":"@ + body.path@]),
            )
            &&& after(1) == StepView::<WrittenView>::Ask(WorkView::Lock { repo: dir })
            &&& after(2) == StepView::<WrittenView>::Ask(
                git_runs(dir, seq!["rev-parse"@, "--verify"@, "refs/heads/"@ + body.branch@]),
            )
            &&& after(3) == StepView::<WrittenView>::Ask(
                git_runs(
                    dir,
                    match tip {
                        Some(sha) => seq!["read-tree"@, sha],
                        None => seq!["read-tree"@, "--empty"@],
                    },
                ),
            )
            &&& after(4) == StepView::<WrittenView>::Ask(
                WorkView::Git(
                    CommandView {
                        dir: Some(dir),
                        args: seq!["hash-object"@, "-w"@, "--stdin"@],
                        env: seq![],
                        input: Some(content),
                        scratch: None,
                    },
                ),
            )
            &&& after(5) == StepView::<WrittenView>::Ask(
                git_runs(
                    dir,
                    seq![
                        "update-index"@,
                        "--add"@,
                        "--cacheinfo"@,
                        "100644,"@ + blob + ","@ + body.path@,
                    ],
                ),
            )
            &&& after(6) == StepView::<WrittenView>::Ask(git_runs(dir, seq!["write-tree"@]))
            &&& after(7) == StepView::<WrittenView>::Ask(
                WorkView::Git(
                    CommandView {
                        dir: Some(dir),
                        args: match tip {
                            Some(sha) => seq![
                                "commit-tree"@,
                                tree,
                                "-p"@,
                                sha,
                                "-m"@,
                                body.message@,
                            ],
                            None => seq!["commit-tree"@, tree, "-m"@, body.message@],
                        },
                        env: seq![
                            ("GIT_AUTHOR_NAME"@, body.author_name@),
                            ("GIT_AUTHOR_EMAIL"@, body.author_email@),
                            ("GIT_COMMITTER_NAME"@, body.author_name@),
                            ("GIT_COMMITTER_EMAIL"@, body.author_email@),
                        ],
                        input: None,
                        scratch: None,
                    },
                ),
            )
            &&& after(8) == StepView::<WrittenView>::Ask(
                git_runs(dir, seq!["update-ref"@, "refs/heads/"@ + body.branch@, commit]),
            )
            &&& put_step_of(makes, ctx, owner, repo, body, scratch, replies) == StepView::Answer(
                if makes {
                    201u16
                } else {
                    200u16
                },
                WrittenView { sha: commit, path: body.path@, branch: body.branch@ },
            )
        }),
{
    let dir = own_dir(ctx, repo);
    assert(dir == home_of(ctx.root@, ctx.claims->0.sub@, repo));
    let w = put_view(dir, body, content, scratch);
    lemma_put_goes(w, body.path@, content, replies, 1, tip, blob, tree, commit);
    lemma_takes(replies, 0, 1);
    lemma_takes(replies, 0, 2);
    lemma_takes(replies, 0, 3);
    lemma_takes(replies, 0, 4);
    lemma_takes(replies, 0, 5);
    lemma_takes(replies, 0, 6);
    lemma_takes(replies, 0, 7);
    lemma_takes(replies, 0, 8);
}

/// Taking a file away, from the first look to the answer.
#[verifier::spinoff_prover]
pub proof fn files_are_dropped_step_by_step(
    ctx: Context,
    owner: Seq<char>,
    repo: Seq<char>,
    body: DeleteFileBody,
    scratch: Seq<char>,
    replies: Seq<Reply>,
    tip: Option<Seq<char>>,
    tree: Seq<char>,
    commit: Seq<char>,
)
    requires
        is_own(ctx, owner, repo),
        replies.len() == 8,
        git_is_fine(replies[0]),
        git_tells_tip(replies[2], tip),
        git_is_fine(replies[3]),
        git_is_fine(replies[4]),
        git_names(replies[5], tree),
        git_names(replies[6], commit),
        git_is_fine(replies[7]),
    ensures
        ({
            let dir = home_of(ctx.root@, ctx.claims->0.sub@, repo);
            let after = |k: int| delete_step(ctx, owner, repo, body, scratch, replies.take(k));
            &&& after(0) == StepView::<WrittenView>::Ask(
                git_runs(dir, seq!["cat-file"@, "-e"@, body.branch@ + ":"@ + body.path@]),
            )
            &&& after(1) == StepView::<WrittenView>::Ask(WorkView::Lock { repo: dir })
            &&& after(2) == StepView::<WrittenView>::Ask(
                git_runs(dir, seq!["rev-parse"@, "--verify"@, "refs/heads/"@ + body.branch@]),
            )
            &&& after(3) == StepView::<WrittenView>::Ask(
                git_runs(
                    dir,
                    match tip {
                        Some(sha) => seq!["read-tree"@, sha],
                        None => seq!["read-tree"@, "--empty"@],
                    },
                ),
            )
            &&& after(4) == StepView::<WrittenView>::Ask(
                WorkView::Git(
                    CommandView {
                        dir: Some(dir),
                        args: seq![
                            "-c"@,
                            "core.bare=false"@,
                            "update-index"@,
                            "--force-remove"@,
                            body.path@,
                        ],
                        env: seq![],
                        input: None,
                        scratch: Some(scratch),
                    },
                ),
            )
            &&& after(5) == StepView::<WrittenView>::Ask(git_runs(dir, seq!["write-tree"@]))
            &&& after(6) == StepView::<WrittenView>::Ask(
                WorkView::Git(
                    CommandView {
                        dir: Some(dir),
                        args: match tip {
                            Some(sha) => seq![
                                "commit-tree"@,
                                tree,
                                "-p"@,
                                sha,
                                "-m"@,
                                body.message@,
                            ],
                            None => seq!["commit-tree"@, tree, "-m"@, body.message@],
                        },
                        env: seq![
                            ("GIT_AUTHOR_NAME"@, body.author_name@),
                            ("GIT_AUTHOR_EMAIL"@, body.author_email@),
                            ("GIT_COMMITTER_NAME"@, body.author_name@),
                            ("GIT_COMMITTER_EMAIL"@, body.author_email@),
                        ],
                        input: None,
                        scratch: None,
                    },
                ),
            )
            &&& after(7) == StepView::<WrittenView>::Ask(
                git_runs(dir, seq!["update-ref"@, "refs/heads/"@ + body.branch@, commit]),
            )
            &&& delete_step(ctx, owner, repo, body, scratch, replies) == StepView::Answer(
                200,
                WrittenView { sha: commit, path: body.path@, branch: body.branch@ },
            )
        }),
{
    let dir = own_dir(ctx, repo);
    assert(dir == home_of(ctx.root@, ctx.claims->0.sub@, repo));
    let w = drop_view(dir, body, scratch);
    lemma_drop_goes(w, body.path@, replies, 1, tip, tree, commit);
    lemma_takes(replies, 0, 1);
    lemma_takes(replies, 0, 2);
    lemma_takes(replies, 0, 3);
    lemma_takes(replies, 0, 4);
    lemma_takes(replies, 0, 5);
    lemma_takes(replies, 0, 6);
    lemma_takes(replies, 0, 7);
}

/// A write that fails says at which of its steps it did, with status 500, and
/// asks for nothing more.
#[verifier::spinoff_prover]
pub proof fn failed_puts_say_where(
    makes: bool,
    ctx: Context,
    owner: Seq<char>,
    repo: Seq<char>,
    body: WriteFileBody,
    content: Seq<u8>,
    scratch: Seq<char>,
    replies: Seq<Reply>,
)
    requires
        is_own(ctx, owner, repo),
        makes ==> trimmed(body.path@).len() > 0,
        base64_bytes(body.content@) == Some(content),
        replies.len() >= 3,
        if makes {
            git_fails(replies[0])
        } else {
            git_is_fine(replies[0])
        },
    ensures
        ({
            let step = put_step_of(makes, ctx, owner, repo, body, scratch, replies);
            let fine = |n: int|
                replies.len() > n && !git_is_lost(replies[2]) && replies[2] is Git && (forall|
                    k: int,
                |
                    3 <= k < n ==> git_is_fine(#[trigger] replies[k]));
            &&& git_is_lost(replies[2]) ==> is_refused(step, 500, "rev-parse failed"@)
            &&& fine(3) && git_is_not_fine(replies[3]) ==> is_refused(
                step,
                500,
                "read-tree failed"@,
            )
            &&& fine(4) && replies[4] == Reply::Git(GitReply::InputLost) ==> is_refused(
                step,
                500,
                "hash-object write failed"@,
            )
            &&& fine(4) && replies[4] == Reply::Git(GitReply::EndLost) ==> is_refused(
                step,
                500,
                "hash-object wait failed"@,
            )
            &&& fine(4) && (git_fails(replies[4]) || replies[4] == Reply::Git(GitReply::NotStarted))
                ==> is_refused(step, 500, "hash-object failed"@)
            &&& fine(5) && git_is_not_fine(replies[5]) ==> is_refused(
                step,
                500,
                "update-index failed"@,
            )
            &&& fine(6) && git_is_not_fine(replies[6]) ==> is_refused(
                step,
                500,
                "write-tree failed"@,
            )
            &&& fine(7) && git_is_not_fine(replies[7]) ==> is_refused(
                step,
                500,
                "commit-tree failed"@,
            )
            &&& fine(8) && git_is_not_fine(replies[8]) ==> is_refused(
                step,
                500,
                "update-ref failed"@,
            )
        }),
{
}

/// The same for taking a file away.
#[verifier::spinoff_prover]
pub proof fn failed_drops_say_where(
    ctx: Context,
    owner: Seq<char>,
    repo: Seq<char>,
    body: DeleteFileBody,
    scratch: Seq<char>,
    replies: Seq<Reply>,
)
    requires
        is_own(ctx, owner, repo),
        replies.len() >= 3,
        git_is_fine(replies[0]),
    ensures
        ({
            let step = delete_step(ctx, owner, repo, body, scratch, replies);
            let fine = |n: int|
                replies.len() > n && !git_is_lost(replies[2]) && replies[2] is Git && (forall|
                    k: int,
                |
                    3 <= k < n ==> git_is_fine(#[trigger] replies[k]));
            &&& git_is_lost(replies[2]) ==> is_refused(step, 500, "rev-parse failed"@)
            &&& fine(3) && git_is_not_fine(replies[3]) ==> is_refused(
                step,
                500,
                "read-tree failed"@,
            )
            &&& fine(4) && git_is_not_fine(replies[4]) ==> is_refused(
                step,
                500,
                "update-index failed"@,
            )
            &&& fine(5) && git_is_not_fine(replies[5]) ==> is_refused(
                step,
                500,
                "write-tree failed"@,
            )
            &&& fine(6) && git_is_not_fine(replies[6]) ==> is_refused(
                step,
                500,
                "commit-tree failed"@,
            )
            &&& fine(7) && git_is_not_fine(replies[7]) ==> is_refused(
                step,
                500,
                "update-ref failed"@,
            )
        }),
{
}

/// What stands in the way of a write: nobody calls, the address is not sound,
/// the caller is another, a new file has no path or is there already, an old one
/// is not there, or the content is no base64 text.
#[verifier::spinoff_prover]
pub proof fn puts_are_refused_for_a_reason(
    makes: bool,
    ctx: Context,
    owner: Seq<char>,
    repo: Seq<char>,
    body: WriteFileBody,
    scratch: Seq<char>,
    replies: Seq<Reply>,
)
    ensures
        ({
            let step = put_step_of(makes, ctx, owner, repo, body, scratch, replies);
            let safe = is_safe(owner) && is_safe(repo);
            let own = is_own(ctx, owner, repo);
            let named = !makes || trimmed(body.path@).len() > 0;
            &&& ctx.claims is None ==> is_refused(step, 401, "authentication required"@)
            &&& ctx.claims is Some && !safe ==> is_refused(step, 400, "invalid path segment"@)
            &&& ctx.claims is Some && safe && !own ==> is_refused(step, 403, "forbidden"@)
            &&& own && !named ==> is_refused(step, 400, "path is required"@)
            &&& own && named && replies.len() == 0 ==> step == StepView::<WrittenView>::Ask(
                git_runs(
                    home_of(ctx.root@, ctx.claims->0.sub@, repo),
                    seq!["cat-file"@, "-e"@, body.branch@ + ":"@ + body.path@],
                ),
            )
            &&& own && named && replies.len() > 0 && makes && git_is_fine(replies[0])
                ==> is_refused(step, 409, "file already exists"@)
            &&& own && named && replies.len() > 0 && !makes && git_is_not_fine(replies[0])
                ==> is_refused(step, 404, "file not found"@)
            &&& own && named && replies.len() > 0 && git_is_not_fine(replies[0]) == makes && (
            git_is_fine(replies[0]) == !makes) && base64_bytes(body.content@) is None
                ==> is_refused(step, 400, "content is not valid base64"@)
        }),
{
}

/// What stands in the way of taking a file away.
pub proof fn drops_are_refused_for_a_reason(
    ctx: Context,
    owner: Seq<char>,
    repo: Seq<char>,
    body: DeleteFileBody,
    scratch: Seq<char>,
    replies: Seq<Reply>,
)
    ensures
        ({
            let step = delete_step(ctx, owner, repo, body, scratch, replies);
            let safe = is_safe(owner) && is_safe(repo);
            let own = is_own(ctx, owner, repo);
            &&& ctx.claims is None ==> is_refused(step, 401, "authentication required"@)
            &&& ctx.claims is Some && !safe ==> is_refused(step, 400, "invalid path segment"@)
            &&& ctx.claims is Some && safe && !own ==> is_refused(step, 403, "forbidden"@)
            &&& own && replies.len() > 0 && git_is_not_fine(replies[0]) ==> is_refused(
                step,
                404,
                "file not found"@,
            )
        }),
{
}

/// What a request that makes or changes a file leaves in the repository, said
/// with its own fields: the branch that it names, and no other, is at the commit
/// that the answer names. That commit stands on the one that this branch was at,
/// and holds the files of this branch with the content at the path. Its message
/// and its author are the request's. Every commit that was there is still there
/// as it was.
pub proof fn puts_land_on_the_branch_they_name(
    ctx: Context,
    owner: Seq<char>,
    repo: Seq<char>,
    body: WriteFileBody,
    scratch: Seq<char>,
    replies: Seq<Reply>,
    states: Seq<Repo>,
    written: WrittenView,
    content: Seq<u8>,
)
    requires
        file_was_put(ctx, owner, repo, body, scratch, replies, states, written),
        base64_bytes(body.content@) == Some(content),
        states[0].wf(),
    ensures
        written.branch == body.branch@,
        written.path == body.path@,
        states.last().refs == states[0].refs.insert("refs/heads/"@ + body.branch@, written.sha),
        states.last().commits.contains_key(written.sha),
        ({
            let before = states[0];
            let full = "refs/heads/"@ + body.branch@;
            let there = before.refs.contains_key(full);
            states.last().commits[written.sha] == (CommitModel {
                files: if there {
                    before.commits[before.refs[full]].files.insert(body.path@, content)
                } else {
                    map![body.path@ => content]
                },
                parent: if there {
                    Some(before.refs[full])
                } else {
                    None
                },
                message: body.message@,
                env: seq![
                    ("GIT_AUTHOR_NAME"@, body.author_name@),
                    ("GIT_AUTHOR_EMAIL"@, body.author_email@),
                    ("GIT_COMMITTER_NAME"@, body.author_name@),
                    ("GIT_COMMITTER_EMAIL"@, body.author_email@),
                ],
            })
        }),
        forall|sha: Seq<char>| #[trigger]
            states[0].commits.contains_key(sha) ==> states.last().commits.contains_key(sha)
                && states.last().commits[sha] == states[0].commits[sha],
{
    put_files_are_there(ctx, owner, repo, body, scratch, replies, states, written, content);
}

/// What a request that takes a file away leaves in the repository, said with its
/// own fields: as [`puts_land_on_the_branch_they_name`], but the new commit
/// holds the files of the branch without the one at the path.
pub proof fn drops_land_on_the_branch_they_name(
    ctx: Context,
    owner: Seq<char>,
    repo: Seq<char>,
    body: DeleteFileBody,
    scratch: Seq<char>,
    replies: Seq<Reply>,
    states: Seq<Repo>,
    written: WrittenView,
)
    requires
        file_was_dropped(ctx, owner, repo, body, scratch, replies, states, written),
        states[0].wf(),
    ensures
        written.branch == body.branch@,
        written.path == body.path@,
        states.last().refs == states[0].refs.insert("refs/heads/"@ + body.branch@, written.sha),
        states.last().commits.contains_key(written.sha),
        ({
            let before = states[0];
            let full = "refs/heads/"@ + body.branch@;
            let there = before.refs.contains_key(full);
            states.last().commits[written.sha] == (CommitModel {
                files: if there {
                    before.commits[before.refs[full]].files.remove(body.path@)
                } else {
                    Map::empty()
                },
                parent: if there {
                    Some(before.refs[full])
                } else {
                    None
                },
                message: body.message@,
                env: seq![
                    ("GIT_AUTHOR_NAME"@, body.author_name@),
                    ("GIT_AUTHOR_EMAIL"@, body.author_email@),
                    ("GIT_COMMITTER_NAME"@, body.author_name@),
                    ("GIT_COMMITTER_EMAIL"@, body.author_email@),
                ],
            })
        }),
        forall|sha: Seq<char>| #[trigger]
            states[0].commits.contains_key(sha) ==> states.last().commits.contains_key(sha)
                && states.last().commits[sha] == states[0].commits[sha],
{
    dropped_files_are_gone(ctx, owner, repo, body, scratch, replies, states, written);
    let none: Files = Map::empty();
    assert(none.remove(body.path@) =~= none);
}

} // verus!
