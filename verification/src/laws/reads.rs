//! Reading a repository: what git is asked and what the answer is, from the
//! fields of the request and from what git prints.
//!
//! Each statement starts where access has been granted: the repository is in
//! `dir`, and `at` replies have been used for finding that out.

use vstd::prelude::*;

use super::access::{access_is_settled_early, is_refused};
use crate::authz::{read_part, Context};
use crate::browse::{blob_step, branches_step, commits_step, diff_step, preview_step, tree_step};
use crate::git::{printed, succeeded};
use crate::number::decimal;
use crate::output::is_sha;
use crate::outside::base64_text;
use crate::printing::{
    branches_read_back, commit_line, commit_lines, commits_read_back, diff_text, diffs_read_back,
    entries_read_back, entry_lines, git_fails, git_is_fine, git_is_lost, git_is_not_fine,
    git_names, git_prints, git_runs, is_bare_name, is_detail, is_field, is_line, is_local_branch,
    is_printable, is_printable_entry, lines_text, names_are_read, names_read_back,
    prints_are_read, shown_commits_read_back, starts_no_patch, summary_line,
    trimming_empties_white_space, trimming_takes_white_space,
};
use crate::text::{is_space, starts, trimmed_end};
use crate::types::{
    BlobQuery, BlobView, BranchListView, CommitView, CommitsQuery, DiffStats, DiffView,
    PreviewView, TreeEntryView, TreeQuery, TreeView,
};
use crate::work::{git_in, GitReply, PartView, Reply, StepView, WorkView};

verus! {

/// Listing branches asks git for them and for the branch that `HEAD` stands
/// for. The answer holds them as git prints them, in their order.
pub proof fn branches_are_answered(
    ctx: Context,
    owner: Seq<char>,
    repo: Seq<char>,
    replies: Seq<Reply>,
    dir: Seq<char>,
    at: int,
    list: Seq<Seq<char>>,
    head: Seq<char>,
)
    requires
        read_part(ctx, owner, repo, replies, 0) == PartView::Have(dir, at),
        forall|i: int| 0 <= i < list.len() ==> is_local_branch(#[trigger] list[i]),
        list.no_duplicates(),
    ensures
        ({
            let step = branches_step(ctx, owner, repo, replies);
            let listed = replies.len() > at && git_prints(replies[at], lines_text(list));
            &&& replies.len() <= at ==> step == StepView::<BranchListView>::Ask(
                git_runs(dir, seq!["branch"@, "-a"@, "--format=%(refname:short)"@]),
            )
            &&& replies.len() > at && git_fails(replies[at]) ==> is_refused(
                step,
                500,
                "git branch failed"@,
            )
            &&& replies.len() > at && git_is_lost(replies[at]) ==> is_refused(
                step,
                500,
                "Failed to run git command"@,
            )
            &&& listed && replies.len() == at + 1 ==> step == StepView::<BranchListView>::Ask(
                git_runs(dir, seq!["symbolic-ref"@, "--short"@, "HEAD"@]),
            )
            &&& listed && replies.len() > at + 1 && git_names(replies[at + 1], head) ==> step
                == StepView::Answer(200, BranchListView { branches: list, head: Some(head) })
            &&& listed && replies.len() > at + 1 && git_is_not_fine(replies[at + 1]) ==> step
                == StepView::Answer(200, BranchListView { branches: list, head: None })
            &&& listed && replies.len() > at + 1 && git_prints(replies[at + 1], "\n"@) ==> step
                == StepView::Answer(200, BranchListView { branches: list, head: None })
        }),
{
    branches_read_back(list);
    if replies.len() > at && git_prints(replies[at], lines_text(list)) {
        prints_are_read(replies[at], lines_text(list));
        if replies.len() > at + 1 && git_names(replies[at + 1], head) {
            names_are_read(replies[at + 1], head);
        }
        if replies.len() > at + 1 && git_prints(replies[at + 1], "\n"@) {
            prints_are_read(replies[at + 1], "\n"@);
            reveal_strlit("\n");
            trimming_empties_white_space("\n"@);
        }
    }
}

/// A page of commits is asked of git by its branch, its size and the number of
/// commits before it; the answer holds the commits that git prints, in their
/// order. A branch that is not there has none.
pub proof fn commits_are_answered(
    ctx: Context,
    owner: Seq<char>,
    repo: Seq<char>,
    query: CommitsQuery,
    replies: Seq<Reply>,
    dir: Seq<char>,
    at: int,
    branch: Seq<char>,
    size: nat,
    page: nat,
    list: Seq<CommitView>,
)
    requires
        read_part(ctx, owner, repo, replies, 0) == PartView::Have(dir, at),
        match query.branch {
            Some(b) => branch == b@,
            None => branch == "main"@,
        },
        match query.limit {
            Some(n) => if n == 0 {
                size == 1
            } else if n <= 100 {
                size == n
            } else {
                size == 100
            },
            None => size == 30,
        },
        match query.page {
            Some(n) => if n == 0 {
                page == 1
            } else {
                page == n
            },
            None => page == 1,
        },
        forall|i: int| 0 <= i < list.len() ==> is_printable(#[trigger] list[i]),
    ensures
        ({
            let step = commits_step(ctx, owner, repo, query, replies);
            let there = replies.len() > at && git_is_fine(replies[at]);
            &&& replies.len() <= at ==> step == StepView::<Seq<CommitView>>::Ask(
                git_runs(dir, seq!["rev-parse"@, "--verify"@, "refs/heads/"@ + branch]),
            )
            &&& replies.len() > at && git_is_not_fine(replies[at]) ==> step == StepView::<
                Seq<CommitView>,
            >::Answer(200, seq![])
            &&& there && replies.len() == at + 1 ==> step == StepView::<Seq<CommitView>>::Ask(
                git_runs(
                    dir,
                    seq![
                        "log"@,
                        branch,
                        "--format=%H%x00%an%x00%ae%x00%at%x00%s"@,
                        "-n"@ + decimal(size),
                        "--skip="@ + decimal((size * (page - 1)) as nat),
                    ],
                ),
            )
            &&& there && replies.len() > at + 1 && git_prints(
                replies[at + 1],
                lines_text(commit_lines(list)),
            ) ==> step == StepView::Answer(200, list)
            &&& there && replies.len() > at + 1 && git_fails(replies[at + 1]) ==> is_refused(
                step,
                500,
                "git log failed"@,
            )
            &&& there && replies.len() > at + 1 && git_is_lost(replies[at + 1]) ==> is_refused(
                step,
                500,
                "Failed to run git command"@,
            )
        }),
{
    commits_read_back(list);
    assert(size * (page - 1) == (page - 1) * size) by (nonlinear_arith);
    if replies.len() > at + 1 && git_prints(replies[at + 1], lines_text(commit_lines(list))) {
        prints_are_read(replies[at + 1], lines_text(commit_lines(list)));
    }
}

/// The object of a tree, as git gets it: the query's ref, a colon, and the path
/// with one slash at its end. A ref other than `HEAD` is looked up first, and has
/// an empty tree where it is no branch.
pub proof fn trees_are_asked_by_ref_and_path(
    ctx: Context,
    owner: Seq<char>,
    repo: Seq<char>,
    query: TreeQuery,
    replies: Seq<Reply>,
    dir: Seq<char>,
    at: int,
    name: Seq<char>,
    path: Seq<char>,
    slashes: Seq<char>,
)
    requires
        read_part(ctx, owner, repo, replies, 0) == PartView::Have(dir, at),
        match query.git_ref {
            Some(r) => name == r@,
            None => name == "HEAD"@,
        },
        match query.path {
            Some(p) => p@ == path + slashes,
            None => path.len() == 0 && slashes.len() == 0,
        },
        path.len() > 0 ==> path.last() != '/',
        forall|i: int| 0 <= i < slashes.len() ==> #[trigger] slashes[i] == '/',
    ensures
        ({
            let step = tree_step(ctx, owner, repo, query, replies);
            let object = if (path + slashes).len() == 0 {
                name + ":"@
            } else {
                name + ":"@ + path + "/"@
            };
            let asks = step == StepView::<TreeView>::Ask(
                git_runs(dir, seq!["ls-tree"@, "--long"@, object]),
            );
            &&& name == "HEAD"@ && replies.len() <= at ==> asks
            &&& name != "HEAD"@ && replies.len() <= at ==> step == StepView::<TreeView>::Ask(
                git_runs(dir, seq!["rev-parse"@, "--verify"@, "refs/heads/"@ + name]),
            )
            &&& name != "HEAD"@ && replies.len() == at + 1 && git_is_fine(replies[at]) ==> asks
            &&& name != "HEAD"@ && replies.len() > at && git_is_not_fine(replies[at]) ==> step
                == StepView::Answer(
                200,
                TreeView { git_ref: name, path: path + slashes, entries: seq![] },
            )
        }),
{
    lemma_slashes(path, slashes);
    assert(path + slashes =~= match query.path {
        Some(p) => p@,
        None => seq![],
    });
}

proof fn lemma_slashes(path: Seq<char>, slashes: Seq<char>)
    requires
        path.len() > 0 ==> path.last() != '/',
        forall|i: int| 0 <= i < slashes.len() ==> #[trigger] slashes[i] == '/',
    ensures
        trimmed_end(path + slashes, '/') == path,
    decreases slashes.len(),
{
    if slashes.len() == 0 {
        assert(path + slashes =~= path);
    } else {
        let fewer = slashes.drop_last();
        assert(slashes.last() == '/');
        assert((path + slashes).drop_last() =~= path + fewer);
        lemma_slashes(path, fewer);
    }
}

/// Objects of trees differ where their paths do, and where their refs do.
pub proof fn tree_objects_differ(
    name: Seq<char>,
    path: Seq<char>,
    other_name: Seq<char>,
    other_path: Seq<char>,
)
    requires
        path != other_path || name != other_name,
        name == other_name || (!name.contains(':') && !other_name.contains(':')),
    ensures
        name + ":"@ + path + "/"@ != other_name + ":"@ + other_path + "/"@,
        name + ":"@ + path + "/"@ != other_name + ":"@,
{
    reveal_strlit(":");
    reveal_strlit("/");
    let a = name + ":"@ + path + "/"@;
    let b = other_name + ":"@ + other_path + "/"@;
    if a == b {
        if name.len() < other_name.len() {
            assert(a[name.len() as int] == ':');
            assert(b[name.len() as int] == other_name[name.len() as int]);
            assert(other_name.contains(':'));
        } else if name.len() > other_name.len() {
            assert(b[other_name.len() as int] == ':');
            assert(a[other_name.len() as int] == name[other_name.len() as int]);
            assert(name.contains(':'));
        } else {
            assert(a.take(name.len() as int) =~= name);
            assert(b.take(other_name.len() as int) =~= other_name);
            assert(a.subrange(name.len() as int + 1, a.len() - 1) =~= path);
            assert(b.subrange(other_name.len() as int + 1, b.len() - 1) =~= other_path);
        }
    }
    assert(a.last() == '/');
    assert((other_name + ":"@).last() == ':');
}

/// Trees at different paths of one ref are asked for by different commands.
pub proof fn trees_at_different_paths_are_asked_apart(
    ctx: Context,
    owner: Seq<char>,
    repo: Seq<char>,
    one: TreeQuery,
    two: TreeQuery,
    replies: Seq<Reply>,
    dir: Seq<char>,
    at: int,
)
    requires
        read_part(ctx, owner, repo, replies, 0) == PartView::Have(dir, at),
        one.git_ref is Some && two.git_ref is Some && one.git_ref->0@ == two.git_ref->0@,
        one.git_ref->0@ == "HEAD"@ ==> replies.len() <= at,
        one.git_ref->0@ != "HEAD"@ ==> replies.len() == at + 1 && git_is_fine(replies[at]),
        one.path is Some && two.path is Some && one.path->0@ != two.path->0@,
        one.path->0@.len() > 0 && one.path->0@.last() != '/',
        two.path->0@.len() > 0 && two.path->0@.last() != '/',
    ensures
        tree_step(ctx, owner, repo, one, replies) is Ask,
        tree_step(ctx, owner, repo, one, replies) != tree_step(ctx, owner, repo, two, replies),
{
    let name = one.git_ref->0@;
    let none: Seq<char> = seq![];
    let a = one.path->0@;
    let b = two.path->0@;
    assert(a + none =~= a);
    assert(b + none =~= b);
    trees_are_asked_by_ref_and_path(ctx, owner, repo, one, replies, dir, at, name, a, none);
    trees_are_asked_by_ref_and_path(ctx, owner, repo, two, replies, dir, at, name, b, none);
    tree_objects_differ(name, a, name, b);
    let first = seq!["ls-tree"@, "--long"@, name + ":"@ + a + "/"@];
    let second = seq!["ls-tree"@, "--long"@, name + ":"@ + b + "/"@];
    assert(first[2] != second[2]);
}

/// A tree is answered with the entries that git prints, in their order, under
/// the ref and the path of the query.
pub proof fn trees_are_answered(
    ctx: Context,
    owner: Seq<char>,
    repo: Seq<char>,
    query: TreeQuery,
    replies: Seq<Reply>,
    dir: Seq<char>,
    at: int,
    list: Seq<TreeEntryView>,
    pads: Seq<nat>,
)
    requires
        read_part(ctx, owner, repo, replies, 0) == PartView::Have(dir, at),
        forall|i: int| 0 <= i < list.len() ==> is_printable_entry(#[trigger] list[i]),
    ensures
        ({
            let step = tree_step(ctx, owner, repo, query, replies);
            let name = match query.git_ref {
                Some(r) => r@,
                None => "HEAD"@,
            };
            let last = if name == "HEAD"@ {
                at
            } else {
                at + 1
            };
            let there = replies.len() > last && (name == "HEAD"@ || git_is_fine(replies[at]));
            &&& there && git_prints(replies[last], lines_text(entry_lines(list, pads))) ==> step
                == StepView::Answer(
                200,
                TreeView {
                    git_ref: name,
                    path: match query.path {
                        Some(p) => p@,
                        None => seq![],
                    },
                    entries: list,
                },
            )
            &&& there && git_fails(replies[last]) ==> is_refused(step, 404, "tree not found"@)
            &&& there && git_is_lost(replies[last]) ==> is_refused(
                step,
                500,
                "Failed to run git command"@,
            )
        }),
{
    entries_read_back(list, pads);
    let text = lines_text(entry_lines(list, pads));
    if replies.len() > at && git_prints(replies[at], text) {
        prints_are_read(replies[at], text);
    }
    if replies.len() > at + 1 && git_prints(replies[at + 1], text) {
        prints_are_read(replies[at + 1], text);
    }
}

/// A file is asked for by the ref and the path of the query, and answered with
/// its bytes: in base64, with their number, and whether a zero is among the
/// first 8000.
pub proof fn blobs_are_answered(
    ctx: Context,
    owner: Seq<char>,
    repo: Seq<char>,
    query: BlobQuery,
    replies: Seq<Reply>,
    dir: Seq<char>,
    at: int,
)
    requires
        read_part(ctx, owner, repo, replies, 0) == PartView::Have(dir, at),
    ensures
        ({
            let step = blob_step(ctx, owner, repo, query, replies);
            let name = match query.git_ref {
                Some(r) => r@,
                None => "HEAD"@,
            };
            &&& replies.len() <= at ==> step == StepView::<BlobView>::Ask(
                git_runs(dir, seq!["show"@, name + ":"@ + query.path@]),
            )
            &&& replies.len() > at && git_fails(replies[at]) ==> is_refused(
                step,
                404,
                "file not found"@,
            )
            &&& replies.len() > at && git_is_lost(replies[at]) ==> is_refused(
                step,
                500,
                "Failed to run git command"@,
            )
            &&& replies.len() > at ==> (replies[at] matches Reply::Git(
                GitReply::Ended { success: true, stdout, .. },
            ) ==> step == StepView::Answer(
                200,
                BlobView {
                    git_ref: name,
                    path: query.path@,
                    content: base64_text(stdout@),
                    is_binary: stdout@.take(
                        if stdout@.len() < 8000 {
                            stdout@.len() as int
                        } else {
                            8000
                        },
                    ).contains(0u8),
                    size: stdout@.len(),
                },
            ))
        }),
{
    if replies.len() > at {
        if let Reply::Git(GitReply::Ended { success, stdout, .. }) = replies[at] {
            let bytes = stdout@;
            let n = if bytes.len() < 8000 {
                bytes.len() as int
            } else {
                8000
            };
            let first = bytes.take(n);
            if first.contains(0u8) {
                let i = first.index_of(0u8);
                assert(bytes[i] == 0);
            }
            assert forall|i: int|
                0 <= i < bytes.len() && i < 8000 && bytes[i] == 0u8 implies first.contains(
                0u8,
            ) by {
                assert(first[i] == 0);
            }
        }
    }
}

/// What a commit changes is asked for by its name, and answered with the commit,
/// the counts and the patch that git prints. A name that is not hexadecimal is
/// refused.
pub proof fn diffs_are_answered(
    ctx: Context,
    owner: Seq<char>,
    repo: Seq<char>,
    sha: Seq<char>,
    replies: Seq<Reply>,
    dir: Seq<char>,
    at: int,
    c: CommitView,
    before: Seq<Seq<char>>,
    files: u32,
    insertions: u32,
    deletions: u32,
    after: Seq<Seq<char>>,
    patch: Seq<char>,
)
    requires
        read_part(ctx, owner, repo, replies, 0) == PartView::Have(dir, at),
        is_field(c.sha),
        is_field(c.author_name),
        is_field(c.author_email),
        is_field(c.message),
        forall|i: int| 0 <= i < before.len() ==> is_detail(#[trigger] before[i]) && is_line(
            before[i],
        ) && starts_no_patch(before[i]),
        forall|i: int| 0 <= i < after.len() ==> is_detail(#[trigger] after[i]) && is_line(after[i])
            && starts_no_patch(after[i]),
        patch.len() == 0 || starts(patch, "diff --git"@),
    ensures
        ({
            let step = diff_step(ctx, owner, repo, sha, replies);
            let summary = summary_line(files, Some(insertions), Some(deletions));
            &&& !is_sha(sha) ==> is_refused(step, 400, "invalid sha"@)
            &&& is_sha(sha) && replies.len() <= at ==> step == StepView::<DiffView>::Ask(
                git_runs(
                    dir,
                    seq![
                        "show"@,
                        "--format=%H%x00%an%x00%ae%x00%at%x00%s%x00"@,
                        "--stat"@,
                        "-p"@,
                        sha,
                    ],
                ),
            )
            &&& is_sha(sha) && replies.len() > at && git_fails(replies[at]) ==> is_refused(
                step,
                404,
                "commit not found"@,
            )
            &&& is_sha(sha) && replies.len() > at && git_is_lost(replies[at]) ==> is_refused(
                step,
                500,
                "Failed to run git command"@,
            )
            &&& is_sha(sha) && replies.len() > at && git_prints(
                replies[at],
                diff_text(c, before.push(summary) + after, patch),
            ) ==> step == StepView::Answer(
                200,
                DiffView {
                    commit: c,
                    stats: DiffStats { files_changed: files, insertions, deletions },
                    diff: patch,
                },
            )
        }),
{
    let summary = summary_line(files, Some(insertions), Some(deletions));
    diffs_read_back(c, before, files, Some(insertions), Some(deletions), after, patch);
    let text = diff_text(c, before.push(summary) + after, patch);
    if replies.len() > at && git_prints(replies[at], text) {
        prints_are_read(replies[at], text);
    }
}

/// Every command that a preview asks for names the commit that is previewed:
/// git is to show it, to list the branches that hold it, to count and to show
/// what it changes, and to list its tree.
pub proof fn previews_name_their_commit(
    ctx: Context,
    owner: Seq<char>,
    repo: Seq<char>,
    sha: Seq<char>,
    replies: Seq<Reply>,
    dir: Seq<char>,
    at: int,
)
    requires
        read_part(ctx, owner, repo, replies, 0) == PartView::Have(dir, at),
    ensures
        ({
            let step = preview_step(ctx, owner, repo, sha, replies);
            let shown = is_sha(sha) && replies.len() > at && git_is_fine(replies[at]);
            &&& !is_sha(sha) ==> is_refused(step, 400, "invalid sha"@)
            &&& is_sha(sha) && replies.len() <= at ==> step == StepView::<PreviewView>::Ask(
                git_runs(
                    dir,
                    seq!["show"@, "--format=%H%x00%an%x00%ae%x00%at%x00%s"@, "-s"@, sha],
                ),
            )
            &&& is_sha(sha) && replies.len() > at && git_fails(replies[at]) ==> is_refused(
                step,
                404,
                "commit not found"@,
            )
            &&& is_sha(sha) && replies.len() > at && git_is_lost(replies[at]) ==> is_refused(
                step,
                500,
                "Failed to run git command"@,
            )
            &&& shown && replies.len() == at + 1 ==> step == StepView::<PreviewView>::Ask(
                git_runs(
                    dir,
                    seq!["branch"@, "--contains"@, sha, "--format=%(refname:short)"@],
                ),
            )
            &&& shown && replies.len() == at + 2 ==> step == StepView::<PreviewView>::Ask(
                git_runs(dir, seq!["diff-tree"@, "--stat"@, "--no-commit-id"@, "-r"@, sha]),
            )
            &&& shown && replies.len() == at + 3 ==> step == StepView::<PreviewView>::Ask(
                git_runs(dir, seq!["diff-tree"@, "-p"@, "--no-commit-id"@, "-r"@, sha]),
            )
            &&& shown && replies.len() == at + 4 ==> step == StepView::<PreviewView>::Ask(
                git_runs(dir, seq!["ls-tree"@, "--long"@, sha + ":"@]),
            )
            &&& shown && replies.len() > at + 4 ==> step is Answer
        }),
{
}

/// A preview is answered with what git printed at each of its commands: the
/// commit, the branches, the counts without white space around them, the patch
/// as it is, and the entries of the tree. A command that fails after the commit
/// was shown counts as one that printed nothing.
#[verifier::spinoff_prover]
pub proof fn previews_are_answered(
    ctx: Context,
    owner: Seq<char>,
    repo: Seq<char>,
    sha: Seq<char>,
    replies: Seq<Reply>,
    dir: Seq<char>,
    at: int,
    c: CommitView,
    branches: Seq<Seq<char>>,
    stat: Seq<char>,
    patch: Seq<char>,
    list: Seq<TreeEntryView>,
    pads: Seq<nat>,
)
    requires
        read_part(ctx, owner, repo, replies, 0) == PartView::Have(dir, at),
        is_sha(sha),
        replies.len() > at + 4,
        is_printable(c),
        c.sha.len() > 0,
        !is_space(c.sha[0]),
        c.message.len() == 0 || !is_space(c.message.last()),
        git_prints(replies[at], commit_line(c) + seq!['\n']),
        if branches.len() == 0 {
            git_is_not_fine(replies[at + 1]) || git_prints(replies[at + 1], seq![])
        } else {
            git_prints(replies[at + 1], lines_text(branches)) && forall|i: int|
                0 <= i < branches.len() ==> is_bare_name(#[trigger] branches[i])
        },
        if stat.len() == 0 {
            git_is_not_fine(replies[at + 2]) || git_prints(replies[at + 2], seq![])
        } else {
            !is_space(stat[0]) && !is_space(stat.last()) && git_prints(
                replies[at + 2],
                seq![' '] + stat + seq!['\n'],
            )
        },
        if patch.len() == 0 {
            git_is_not_fine(replies[at + 3]) || git_prints(replies[at + 3], seq![])
        } else {
            git_prints(replies[at + 3], patch)
        },
        if list.len() == 0 {
            git_is_not_fine(replies[at + 4]) || git_prints(replies[at + 4], seq![])
        } else {
            git_prints(replies[at + 4], lines_text(entry_lines(list, pads))) && forall|i: int|
                0 <= i < list.len() ==> is_printable_entry(#[trigger] list[i])
        },
    ensures
        preview_step(ctx, owner, repo, sha, replies) == StepView::Answer(
            200,
            PreviewView { commit: c, branches, diff_stat: stat, diff: patch, tree: list },
        ),
{
    let none: Seq<char> = seq![];
    let shown = commit_line(c) + seq!['\n'];
    prints_are_read(replies[at], shown);
    shown_commits_read_back(c, sha);
    lemma_quiet(replies[at + 1], lines_text(branches));
    names_read_back(branches);
    let stat_text = if stat.len() == 0 {
        none
    } else {
        seq![' '] + stat + seq!['\n']
    };
    lemma_quiet(replies[at + 2], stat_text);
    if stat.len() == 0 {
        trimming_empties_white_space(none);
        assert(stat =~= none);
    } else {
        trimming_takes_white_space(seq![' '], stat, seq!['\n']);
    }
    lemma_quiet(replies[at + 3], patch);
    lemma_quiet(replies[at + 4], lines_text(entry_lines(list, pads)));
    entries_read_back(list, pads);
}

/// What a command that may fail is taken to have printed.
proof fn lemma_quiet(reply: Reply, text: Seq<char>)
    requires
        git_prints(reply, text) || (text.len() == 0 && (git_is_not_fine(reply) || git_prints(
            reply,
            seq![],
        ))),
    ensures
        text == if succeeded(git_in(reply)) {
            printed(git_in(reply))
        } else {
            seq![]
        },
{
    if git_prints(reply, text) {
        prints_are_read(reply, text);
    } else {
        assert(text =~= seq![]);
        if git_prints(reply, seq![]) {
            prints_are_read(reply, seq![]);
        }
    }
}

/// Git lists the tree of the commit that a command names, where `trees` tells
/// the tree of each.
pub open spec fn git_lists(
    trees: spec_fn(Seq<char>) -> Seq<TreeEntryView>,
    work: WorkView,
    reply: Reply,
) -> bool {
    match work {
        WorkView::Git(c) => c.args.len() == 3 && c.args[0] == "ls-tree"@ && c.args[2].len() > 0
            && c.args[2].last() == ':' ==> {
            let list = trees(c.args[2].drop_last());
            exists|pads: Seq<nat>|
                git_prints(reply, #[trigger] lines_text(entry_lines(list, pads)))
        },
        _ => true,
    }
}

/// The tree of a preview is the tree of the commit that was asked for.
pub proof fn previews_show_the_tree_of_their_commit(
    ctx: Context,
    owner: Seq<char>,
    repo: Seq<char>,
    sha: Seq<char>,
    replies: Seq<Reply>,
    dir: Seq<char>,
    at: int,
    trees: spec_fn(Seq<char>) -> Seq<TreeEntryView>,
    work: WorkView,
)
    requires
        read_part(ctx, owner, repo, replies, 0) == PartView::Have(dir, at),
        forall|name: Seq<char>, i: int|
            0 <= i < trees(name).len() ==> is_printable_entry(#[trigger] trees(name)[i]),
        is_sha(sha),
        replies.len() == at + 5,
        git_is_fine(replies[at]),
        preview_step(ctx, owner, repo, sha, replies.take(at + 4)) == StepView::<PreviewView>::Ask(
            work,
        ),
        git_lists(trees, work, replies[at + 4]),
    ensures
        preview_step(ctx, owner, repo, sha, replies) matches StepView::Answer(status, preview)
            && preview.tree == trees(sha),
{
    access_is_settled_early(ctx, owner, repo, replies, at, at + 4);
    previews_name_their_commit(ctx, owner, repo, sha, replies.take(at + 4), dir, at);
    assert(replies.take(at + 4)[at] == replies[at]);
    reveal_strlit(":");
    let object = sha + ":"@;
    assert(object.last() == ':');
    assert(object.drop_last() =~= sha);
    let pads = choose|pads: Seq<nat>|
        git_prints(replies[at + 4], #[trigger] lines_text(entry_lines(trees(sha), pads)));
    prints_are_read(replies[at + 4], lines_text(entry_lines(trees(sha), pads)));
    entries_read_back(trees(sha), pads);
}

/// Previews of commits with different trees differ.
pub proof fn previews_of_different_trees_differ(
    ctx: Context,
    owner: Seq<char>,
    repo: Seq<char>,
    one: Seq<char>,
    two: Seq<char>,
    ones: Seq<Reply>,
    twos: Seq<Reply>,
    dir: Seq<char>,
    at: int,
    trees: spec_fn(Seq<char>) -> Seq<TreeEntryView>,
    work1: WorkView,
    work2: WorkView,
)
    requires
        read_part(ctx, owner, repo, ones, 0) == PartView::Have(dir, at),
        read_part(ctx, owner, repo, twos, 0) == PartView::Have(dir, at),
        forall|name: Seq<char>, i: int|
            0 <= i < trees(name).len() ==> is_printable_entry(#[trigger] trees(name)[i]),
        trees(one) != trees(two),
        is_sha(one),
        is_sha(two),
        ones.len() == at + 5,
        twos.len() == at + 5,
        git_is_fine(ones[at]),
        git_is_fine(twos[at]),
        preview_step(ctx, owner, repo, one, ones.take(at + 4)) == StepView::<PreviewView>::Ask(
            work1,
        ),
        preview_step(ctx, owner, repo, two, twos.take(at + 4)) == StepView::<PreviewView>::Ask(
            work2,
        ),
        git_lists(trees, work1, ones[at + 4]),
        git_lists(trees, work2, twos[at + 4]),
    ensures
        preview_step(ctx, owner, repo, one, ones) != preview_step(ctx, owner, repo, two, twos),
{
    previews_show_the_tree_of_their_commit(ctx, owner, repo, one, ones, dir, at, trees, work1);
    previews_show_the_tree_of_their_commit(ctx, owner, repo, two, twos, dir, at, trees, work2);
}

} // verus!
