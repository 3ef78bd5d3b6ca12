//! Reading a repository: branches, commits, trees, files and diffs.

use vstd::prelude::*;

use crate::authz::{read_part, require_read_access, Context};
use crate::errors::{bad_request, internal, not_found, plain};
use crate::git::{
    branch_exists, branch_part, git_in_dir, git_part, git_text_part, git_work, object_at, printed,
    printed_name, run_git, run_git_str, slices, stdout_of, succeeded,
};
use crate::number::{decimal, to_decimal};
use crate::output::{
    branches_in, check_binary, check_sha, commits_in, diff_of, entries_of, is_sha, looks_binary,
    names_in, parse_branches, parse_commits, parse_diff, parse_entries, parse_names, parse_shown,
    shown_commit,
};
use crate::outside::{base64_bytes, base64_text, encodable, encode_base64};
use crate::split::lines_of;
use crate::text::{join2, join3, same, trim, trim_end_matches, trimmed, trimmed_end};
use crate::types::{
    Blob, BlobQuery, BlobView, BranchList, BranchListView, CommitList, CommitView,
    CommitsQuery, Diff, DiffView, Preview, PreviewQuery, PreviewView, Tree, TreeQuery, TreeView,
};
use crate::work::{
    git_in, Answer, GitReply, Part, PartView, Reply, Step, StepView, Work,
};

verus! {

/// The branch that `git symbolic-ref` printed, if any.
pub open spec fn head_of(g: GitReply) -> Option<Seq<char>> {
    if succeeded(g) && printed_name(g).len() > 0 {
        Some(printed_name(g))
    } else {
        None
    }
}

/// The arguments that list branches.
pub open spec fn branch_args() -> Seq<Seq<char>> {
    seq!["branch"@, "-a"@, "--format=%(refname:short)"@]
}

/// Listing the branches of a repository.
pub open spec fn branches_step(
    ctx: Context,
    owner: Seq<char>,
    repo: Seq<char>,
    replies: Seq<Reply>,
) -> StepView<BranchListView> {
    match read_part(ctx, owner, repo, replies, 0) {
        PartView::Ask(work) => StepView::Ask(work),
        PartView::Fail(e) => StepView::Refuse(e),
        PartView::Have(dir, at) => match git_text_part(
            dir,
            branch_args(),
            plain(500, "git branch failed"@),
            replies,
            at,
        ) {
            PartView::Ask(work) => StepView::Ask(work),
            PartView::Fail(e) => StepView::Refuse(e),
            PartView::Have(out, at1) => if replies.len() <= at1 {
                StepView::Ask(git_work(dir, seq!["symbolic-ref"@, "--short"@, "HEAD"@]))
            } else {
                StepView::Answer(
                    200,
                    BranchListView {
                        branches: branches_in(lines_of(out)),
                        head: head_of(git_in(replies[at1])),
                    },
                )
            },
        },
    }
}

/// `GET /repositories/{owner}/{repo}/branches`
pub fn list_branches(
    ctx: &Context,
    owner: &str,
    repo: &str,
    replies: &[Reply],
) -> (step: Step<BranchList>)
    ensures
        step@ == branches_step(*ctx, owner@, repo@, replies@),
{
    let (dir, at) = match require_read_access(ctx, owner, repo, replies, 0) {
        Part::Ask(work) => return Step::Ask(work),
        Part::Fail(e) => return Step::Done(Err(e)),
        Part::Have { value, used } => (value, used),
    };
    let args: [&str; 3] = ["branch", "-a", "--format=%(refname:short)"];
    assert(slices(args@) =~= branch_args());
    let (out, at1) = match run_git_str(
        dir.as_str(),
        &args,
        internal("git branch failed"),
        replies,
        at,
    ) {
        Part::Ask(work) => return Step::Ask(work),
        Part::Fail(e) => return Step::Done(Err(e)),
        Part::Have { value, used } => (value, used),
    };
    if replies.len() <= at1 {
        let args: [&str; 3] = ["symbolic-ref", "--short", "HEAD"];
        assert(slices(args@) =~= seq!["symbolic-ref"@, "--short"@, "HEAD"@]);
        return Step::Ask(Work::Git(git_in_dir(dir.as_str(), &args)));
    }
    let g = replies[at1].git();
    let name = g.printed_name();
    let head = if g.success() && !name.as_str().is_empty() {
        Some(name)
    } else {
        None
    };
    Step::Done(
        Ok(
            Answer {
                status: 200,
                body: BranchList { branches: parse_branches(out.as_str()), head },
            },
        ),
    )
}

/// How many commits a page holds: 30 unless asked, and 1 to 100.
pub open spec fn page_size(query: CommitsQuery) -> int {
    match query.limit {
        None => 30,
        Some(n) => if n < 1 {
            1
        } else if n > 100 {
            100
        } else {
            n as int
        },
    }
}

/// The page, counted from 1.
pub open spec fn page_number(query: CommitsQuery) -> int {
    match query.page {
        None => 1,
        Some(n) => if n < 1 {
            1
        } else {
            n as int
        },
    }
}

/// How many commits come before the page.
pub open spec fn skipped(query: CommitsQuery) -> int {
    (page_number(query) - 1) * page_size(query)
}

/// The branch whose commits are listed.
pub open spec fn commits_branch(query: CommitsQuery) -> Seq<char> {
    match query.branch {
        Some(b) => b@,
        None => "main"@,
    }
}

/// The arguments that list a page of commits.
pub open spec fn log_args(query: CommitsQuery) -> Seq<Seq<char>> {
    seq![
        "log"@,
        commits_branch(query),
        "--format=%H%x00%an%x00%ae%x00%at%x00%s"@,
        "-n"@ + decimal(page_size(query) as nat),
        "--skip="@ + decimal(skipped(query) as nat),
    ]
}

/// Listing a page of commits. A branch that is not there has none.
pub open spec fn commits_step(
    ctx: Context,
    owner: Seq<char>,
    repo: Seq<char>,
    query: CommitsQuery,
    replies: Seq<Reply>,
) -> StepView<Seq<CommitView>> {
    match read_part(ctx, owner, repo, replies, 0) {
        PartView::Ask(work) => StepView::Ask(work),
        PartView::Fail(e) => StepView::Refuse(e),
        PartView::Have(dir, at) => match branch_part(dir, commits_branch(query), replies, at) {
            PartView::Ask(work) => StepView::Ask(work),
            PartView::Fail(e) => StepView::Refuse(e),
            PartView::Have(there, at1) => if !there {
                StepView::Answer(200, seq![])
            } else {
                match git_text_part(
                    dir,
                    log_args(query),
                    plain(500, "git log failed"@),
                    replies,
                    at1,
                ) {
                    PartView::Ask(work) => StepView::Ask(work),
                    PartView::Fail(e) => StepView::Refuse(e),
                    PartView::Have(out, _) => StepView::Answer(200, commits_in(lines_of(out))),
                }
            },
        },
    }
}

/// How many commits a page of this query holds.
fn limit_of(query: &CommitsQuery) -> (n: u32)
    ensures
        n == page_size(*query),
        1 <= n <= 100,
{
    match query.limit {
        None => 30,
        Some(n) => if n < 1 {
            1
        } else if n > 100 {
            100
        } else {
            n
        },
    }
}

/// The page that this query asks for.
fn page_of(query: &CommitsQuery) -> (n: u32)
    ensures
        n == page_number(*query),
        n >= 1,
{
    match query.page {
        None => 1,
        Some(n) => if n < 1 {
            1
        } else {
            n
        },
    }
}

/// Whether the number of commits before the page fits in 32 bits.
pub fn page_fits(query: &CommitsQuery) -> (r: bool)
    ensures
        r == (skipped(*query) <= u32::MAX),
{
    let size: u64 = limit_of(query) as u64;
    let before: u64 = (page_of(query) - 1) as u64;
    assert(before * size <= 0xffff_ffff * 100) by (nonlinear_arith)
        requires
            before <= 0xffff_ffff,
            size <= 100,
    ;
    before * size <= u32::MAX as u64
}

/// `GET /repositories/{owner}/{repo}/commits`
pub fn list_commits(
    ctx: &Context,
    owner: &str,
    repo: &str,
    query: &CommitsQuery,
    replies: &[Reply],
) -> (step: Step<CommitList>)
    requires
        read_part(*ctx, owner@, repo@, replies@, 0) is Have ==> skipped(*query) <= u32::MAX,
    ensures
        step@ == commits_step(*ctx, owner@, repo@, *query, replies@),
{
    let (dir, at) = match require_read_access(ctx, owner, repo, replies, 0) {
        Part::Ask(work) => return Step::Ask(work),
        Part::Fail(e) => return Step::Done(Err(e)),
        Part::Have { value, used } => (value, used),
    };
    let branch: &str = match &query.branch {
        Some(b) => b.as_str(),
        None => "main",
    };
    let limit: u32 = limit_of(query);
    let page: u32 = page_of(query);
    assert(0 <= (page - 1) * limit) by (nonlinear_arith)
        requires
            page >= 1,
            limit >= 1,
    ;
    let skip: u32 = (page - 1) * limit;
    let (there, at1) = match branch_exists(dir.as_str(), branch, replies, at) {
        Part::Ask(work) => return Step::Ask(work),
        Part::Fail(e) => return Step::Done(Err(e)),
        Part::Have { value, used } => (value, used),
    };
    if !there {
        let body = CommitList { commits: Vec::new() };
        assert(body@ =~= seq![]);
        return Step::Done(Ok(Answer { status: 200, body }));
    }
    let limit_text = to_decimal(limit as u64);
    let limit_arg = join2("-n", limit_text.as_str());
    let skip_text = to_decimal(skip as u64);
    let skip_arg = join2("--skip=", skip_text.as_str());
    let args: [&str; 5] = [
        "log",
        branch,
        "--format=%H%x00%an%x00%ae%x00%at%x00%s",
        limit_arg.as_str(),
        skip_arg.as_str(),
    ];
    assert(slices(args@) =~= log_args(*query));
    match run_git_str(dir.as_str(), &args, internal("git log failed"), replies, at1) {
        Part::Ask(work) => Step::Ask(work),
        Part::Fail(e) => Step::Done(Err(e)),
        Part::Have { value, .. } => Step::Done(
            Ok(
                Answer {
                    status: 200,
                    body: CommitList { commits: parse_commits(value.as_str()) },
                },
            ),
        ),
    }
}

/// [`list_commits`] for any page: none where the caller may read the repository
/// and the number of commits before the page does not fit in 32 bits.
pub fn list_commits_checked(
    ctx: &Context,
    owner: &str,
    repo: &str,
    query: &CommitsQuery,
    replies: &[Reply],
) -> (step: Option<Step<CommitList>>)
    ensures
        match step {
            Some(s) => {
                &&& read_part(*ctx, owner@, repo@, replies@, 0) is Have ==> skipped(*query)
                    <= u32::MAX
                &&& s@ == commits_step(*ctx, owner@, repo@, *query, replies@)
            },
            None => read_part(*ctx, owner@, repo@, replies@, 0) is Have && skipped(*query)
                > u32::MAX,
        },
{
    if page_fits(query) {
        return Some(list_commits(ctx, owner, repo, query, replies));
    }
    match require_read_access(ctx, owner, repo, replies, 0) {
        Part::Ask(work) => Some(Step::Ask(work)),
        Part::Fail(e) => Some(Step::Done(Err(e))),
        Part::Have { .. } => None,
    }
}

/// The branch whose tree is shown.
pub open spec fn tree_ref(query: TreeQuery) -> Seq<char> {
    match query.git_ref {
        Some(r) => r@,
        None => "HEAD"@,
    }
}

/// The path of the tree that is shown.
pub open spec fn tree_path(query: TreeQuery) -> Seq<char> {
    match query.path {
        Some(p) => p@,
        None => seq![],
    }
}

/// A tree, as git names it.
pub open spec fn tree_object(query: TreeQuery) -> Seq<char> {
    if tree_path(query).len() == 0 {
        tree_ref(query) + ":"@
    } else {
        tree_ref(query) + ":"@ + trimmed_end(tree_path(query), '/') + "/"@
    }
}

/// Whether the branch of the tree is there. `HEAD` need not be looked up.
pub open spec fn tree_branch_part(
    dir: Seq<char>,
    query: TreeQuery,
    replies: Seq<Reply>,
    at: int,
) -> PartView<bool> {
    if tree_ref(query) == "HEAD"@ {
        PartView::Have(true, at)
    } else {
        branch_part(dir, tree_ref(query), replies, at)
    }
}

/// Showing a tree. A branch that is not there has an empty one.
pub open spec fn tree_step(
    ctx: Context,
    owner: Seq<char>,
    repo: Seq<char>,
    query: TreeQuery,
    replies: Seq<Reply>,
) -> StepView<TreeView> {
    let empty = TreeView { git_ref: tree_ref(query), path: tree_path(query), entries: seq![] };
    match read_part(ctx, owner, repo, replies, 0) {
        PartView::Ask(work) => StepView::Ask(work),
        PartView::Fail(e) => StepView::Refuse(e),
        PartView::Have(dir, at) => match tree_branch_part(dir, query, replies, at) {
            PartView::Ask(work) => StepView::Ask(work),
            PartView::Fail(e) => StepView::Refuse(e),
            PartView::Have(there, at1) => if !there {
                StepView::Answer(200, empty)
            } else {
                match git_text_part(
                    dir,
                    seq!["ls-tree"@, "--long"@, tree_object(query)],
                    plain(404, "tree not found"@),
                    replies,
                    at1,
                ) {
                    PartView::Ask(work) => StepView::Ask(work),
                    PartView::Fail(e) => StepView::Refuse(e),
                    PartView::Have(out, _) => StepView::Answer(
                        200,
                        TreeView { entries: entries_of(lines_of(out)), ..empty },
                    ),
                }
            },
        },
    }
}

/// `GET /repositories/{owner}/{repo}/tree`
pub fn get_tree(
    ctx: &Context,
    owner: &str,
    repo: &str,
    query: &TreeQuery,
    replies: &[Reply],
) -> (step: Step<Tree>)
    ensures
        step@ == tree_step(*ctx, owner@, repo@, *query, replies@),
{
    let (dir, at) = match require_read_access(ctx, owner, repo, replies, 0) {
        Part::Ask(work) => return Step::Ask(work),
        Part::Fail(e) => return Step::Done(Err(e)),
        Part::Have { value, used } => (value, used),
    };
    let git_ref: &str = match &query.git_ref {
        Some(r) => r.as_str(),
        None => "HEAD",
    };
    let path: String = match &query.path {
        Some(p) => p.clone(),
        None => String::new(),
    };
    assert(path@ =~= tree_path(*query));
    let object = if path.as_str().is_empty() {
        join2(git_ref, ":")
    } else {
        let bare = trim_end_matches(path.as_str(), '/');
        let head = join3(git_ref, ":", bare.as_str());
        join2(head.as_str(), "/")
    };
    let (there, at1) = if same(git_ref, "HEAD") {
        (true, at)
    } else {
        match branch_exists(dir.as_str(), git_ref, replies, at) {
            Part::Ask(work) => return Step::Ask(work),
            Part::Fail(e) => return Step::Done(Err(e)),
            Part::Have { value, used } => (value, used),
        }
    };
    if !there {
        let body = Tree { git_ref: git_ref.to_owned(), path, entries: Vec::new() };
        assert(body@.entries =~= seq![]);
        return Step::Done(Ok(Answer { status: 200, body }));
    }
    let args: [&str; 3] = ["ls-tree", "--long", object.as_str()];
    assert(slices(args@) =~= seq!["ls-tree"@, "--long"@, tree_object(*query)]);
    match run_git_str(dir.as_str(), &args, not_found("tree not found"), replies, at1) {
        Part::Ask(work) => Step::Ask(work),
        Part::Fail(e) => Step::Done(Err(e)),
        Part::Have { value, .. } => Step::Done(
            Ok(
                Answer {
                    status: 200,
                    body: Tree {
                        git_ref: git_ref.to_owned(),
                        path,
                        entries: parse_entries(value.as_str()),
                    },
                },
            ),
        ),
    }
}

/// The commit or branch whose file is shown.
pub open spec fn blob_ref(query: BlobQuery) -> Seq<char> {
    match query.git_ref {
        Some(r) => r@,
        None => "HEAD"@,
    }
}

/// A file of these bytes.
pub open spec fn blob_of(query: BlobQuery, bytes: Seq<u8>) -> BlobView {
    BlobView {
        git_ref: blob_ref(query),
        path: query.path@,
        content: base64_text(bytes),
        is_binary: looks_binary(bytes),
        size: bytes.len(),
    }
}

/// Showing a file.
pub open spec fn blob_step(
    ctx: Context,
    owner: Seq<char>,
    repo: Seq<char>,
    query: BlobQuery,
    replies: Seq<Reply>,
) -> StepView<BlobView> {
    match read_part(ctx, owner, repo, replies, 0) {
        PartView::Ask(work) => StepView::Ask(work),
        PartView::Fail(e) => StepView::Refuse(e),
        PartView::Have(dir, at) => match git_part(
            dir,
            seq!["show"@, object_at(blob_ref(query), query.path@)],
            plain(404, "file not found"@),
            replies,
            at,
        ) {
            PartView::Ask(work) => StepView::Ask(work),
            PartView::Fail(e) => StepView::Refuse(e),
            PartView::Have(bytes, _) => StepView::Answer(200, blob_of(query, bytes)),
        },
    }
}

/// The bytes that git printed for a file that is shown.
pub open spec fn shown_bytes(
    ctx: Context,
    owner: Seq<char>,
    repo: Seq<char>,
    replies: Seq<Reply>,
) -> Seq<u8> {
    match read_part(ctx, owner, repo, replies, 0) {
        PartView::Have(_, at) => stdout_of(git_in(replies[at])),
        _ => seq![],
    }
}

/// Every command printed few enough bytes for their base64 text to fit in
/// memory.
pub open spec fn all_encodable(replies: Seq<Reply>) -> bool {
    forall|i: int|
        0 <= i < replies.len() ==> encodable(stdout_of(git_in(#[trigger] replies[i])).len())
}

/// A file of these bytes, as it is shown, with its content written as given.
pub fn show_blob(query: &BlobQuery, bytes: &Vec<u8>, content: String) -> (blob: Blob)
    ensures
        blob@ == (BlobView { content: content@, ..blob_of(*query, bytes@) }),
{
    let git_ref = match &query.git_ref {
        Some(r) => r.clone(),
        None => "HEAD".to_owned(),
    };
    Blob {
        git_ref,
        path: query.path.clone(),
        content,
        is_binary: check_binary(bytes),
        size: bytes.len(),
    }
}

/// Whether every command printed few enough bytes for their base64 text to fit
/// in memory.
pub fn check_encodable(replies: &[Reply]) -> (r: bool)
    ensures
        r == all_encodable(replies@),
{
    let most: usize = (isize::MAX as usize) / 4;
    for i in 0..replies.len()
        invariant
            most == isize::MAX / 4,
            forall|j: int|
                0 <= j < i ==> encodable(stdout_of(git_in(#[trigger] replies@[j])).len()),
    {
        let len: usize = match replies[i].git() {
            GitReply::Ended { stdout, .. } => stdout.len(),
            _ => 0,
        };
        assert(len == stdout_of(git_in(replies@[i as int])).len());
        let groups: usize = len / 3 + if len % 3 == 0 {
            0
        } else {
            1
        };
        assert(groups == (len + 2) / 3);
        if groups > most {
            assert(!encodable(len as nat));
            return false;
        }
    }
    true
}

/// `GET /repositories/{owner}/{repo}/blob`
pub fn get_blob(
    ctx: &Context,
    owner: &str,
    repo: &str,
    query: &BlobQuery,
    replies: &[Reply],
) -> (step: Step<Blob>)
    requires
        all_encodable(replies@),
    ensures
        step@ == blob_step(*ctx, owner@, repo@, *query, replies@),
        match step@ {
            StepView::Answer(_, blob) => base64_bytes(blob.content) == Some(
                shown_bytes(*ctx, owner@, repo@, replies@),
            ),
            _ => true,
        },
{
    let (dir, at) = match require_read_access(ctx, owner, repo, replies, 0) {
        Part::Ask(work) => return Step::Ask(work),
        Part::Fail(e) => return Step::Done(Err(e)),
        Part::Have { value, used } => (value, used),
    };
    let git_ref: &str = match &query.git_ref {
        Some(r) => r.as_str(),
        None => "HEAD",
    };
    let object = join3(git_ref, ":", query.path.as_str());
    let args: [&str; 2] = ["show", object.as_str()];
    assert(slices(args@) =~= seq!["show"@, object_at(blob_ref(*query), query.path@)]);
    match run_git(dir.as_str(), &args, not_found("file not found"), replies, at) {
        Part::Ask(work) => Step::Ask(work),
        Part::Fail(e) => Step::Done(Err(e)),
        Part::Have { value, .. } => {
            let content = encode_base64(value.as_slice());
            Step::Done(Ok(Answer { status: 200, body: show_blob(query, &value, content) }))
        },
    }
}

/// The arguments that show a commit with counts and patch.
pub open spec fn diff_args(sha: Seq<char>) -> Seq<Seq<char>> {
    seq!["show"@, "--format=%H%x00%an%x00%ae%x00%at%x00%s%x00"@, "--stat"@, "-p"@, sha]
}

/// Showing what a commit changes.
pub open spec fn diff_step(
    ctx: Context,
    owner: Seq<char>,
    repo: Seq<char>,
    sha: Seq<char>,
    replies: Seq<Reply>,
) -> StepView<DiffView> {
    match read_part(ctx, owner, repo, replies, 0) {
        PartView::Ask(work) => StepView::Ask(work),
        PartView::Fail(e) => StepView::Refuse(e),
        PartView::Have(dir, at) => if !is_sha(sha) {
            StepView::Refuse(plain(400, "invalid sha"@))
        } else {
            match git_text_part(
                dir,
                diff_args(sha),
                plain(404, "commit not found"@),
                replies,
                at,
            ) {
                PartView::Ask(work) => StepView::Ask(work),
                PartView::Fail(e) => StepView::Refuse(e),
                PartView::Have(out, _) => StepView::Answer(200, diff_of(out)),
            }
        },
    }
}

/// `GET /repositories/{owner}/{repo}/commits/{sha}/diff`
pub fn get_diff(
    ctx: &Context,
    owner: &str,
    repo: &str,
    sha: &str,
    replies: &[Reply],
) -> (step: Step<Diff>)
    ensures
        step@ == diff_step(*ctx, owner@, repo@, sha@, replies@),
{
    let (dir, at) = match require_read_access(ctx, owner, repo, replies, 0) {
        Part::Ask(work) => return Step::Ask(work),
        Part::Fail(e) => return Step::Done(Err(e)),
        Part::Have { value, used } => (value, used),
    };
    if !check_sha(sha) {
        return Step::Done(Err(bad_request("invalid sha")));
    }
    let args: [&str; 5] = [
        "show",
        "--format=%H%x00%an%x00%ae%x00%at%x00%s%x00",
        "--stat",
        "-p",
        sha,
    ];
    assert(slices(args@) =~= diff_args(sha@));
    match run_git_str(dir.as_str(), &args, not_found("commit not found"), replies, at) {
        Part::Ask(work) => Step::Ask(work),
        Part::Fail(e) => Step::Done(Err(e)),
        Part::Have { value, .. } => Step::Done(
            Ok(Answer { status: 200, body: parse_diff(value.as_str()) }),
        ),
    }
}

/// A command whose failure counts as printing nothing.
pub open spec fn quiet_part(
    dir: Seq<char>,
    args: Seq<Seq<char>>,
    replies: Seq<Reply>,
    at: int,
) -> PartView<Seq<char>> {
    if replies.len() <= at {
        PartView::Ask(git_work(dir, args))
    } else {
        let g = git_in(replies[at]);
        PartView::Have(
            if succeeded(g) {
                printed(g)
            } else {
                seq![]
            },
            at + 1,
        )
    }
}

/// The arguments that show a commit alone.
pub open spec fn commit_args(sha: Seq<char>) -> Seq<Seq<char>> {
    seq!["show"@, "--format=%H%x00%an%x00%ae%x00%at%x00%s"@, "-s"@, sha]
}

/// Previewing a commit whose own fields are known.
pub open spec fn preview_rest(
    dir: Seq<char>,
    sha: Seq<char>,
    commit: CommitView,
    replies: Seq<Reply>,
    at: int,
) -> StepView<PreviewView> {
    match quiet_part(
        dir,
        seq!["branch"@, "--contains"@, sha, "--format=%(refname:short)"@],
        replies,
        at,
    ) {
        PartView::Ask(work) => StepView::Ask(work),
        PartView::Fail(e) => StepView::Refuse(e),
        PartView::Have(holders, at1) => match quiet_part(
            dir,
            seq!["diff-tree"@, "--stat"@, "--no-commit-id"@, "-r"@, sha],
            replies,
            at1,
        ) {
            PartView::Ask(work) => StepView::Ask(work),
            PartView::Fail(e) => StepView::Refuse(e),
            PartView::Have(stat, at2) => match quiet_part(
                dir,
                seq!["diff-tree"@, "-p"@, "--no-commit-id"@, "-r"@, sha],
                replies,
                at2,
            ) {
                PartView::Ask(work) => StepView::Ask(work),
                PartView::Fail(e) => StepView::Refuse(e),
                PartView::Have(patch, at3) => match quiet_part(
                    dir,
                    seq!["ls-tree"@, "--long"@, sha + ":"@],
                    replies,
                    at3,
                ) {
                    PartView::Ask(work) => StepView::Ask(work),
                    PartView::Fail(e) => StepView::Refuse(e),
                    PartView::Have(tree, _) => StepView::Answer(
                        200,
                        PreviewView {
                            commit,
                            branches: names_in(lines_of(holders)),
                            diff_stat: trimmed(stat),
                            diff: patch,
                            tree: entries_of(lines_of(tree)),
                        },
                    ),
                },
            },
        },
    }
}

/// Previewing a commit: what it is, which branches hold it, what it changes and
/// the tree at it.
pub open spec fn preview_step(
    ctx: Context,
    owner: Seq<char>,
    repo: Seq<char>,
    sha: Seq<char>,
    replies: Seq<Reply>,
) -> StepView<PreviewView> {
    match read_part(ctx, owner, repo, replies, 0) {
        PartView::Ask(work) => StepView::Ask(work),
        PartView::Fail(e) => StepView::Refuse(e),
        PartView::Have(dir, at) => if !is_sha(sha) {
            StepView::Refuse(plain(400, "invalid sha"@))
        } else {
            match git_text_part(
                dir,
                commit_args(sha),
                plain(404, "commit not found"@),
                replies,
                at,
            ) {
                PartView::Ask(work) => StepView::Ask(work),
                PartView::Fail(e) => StepView::Refuse(e),
                PartView::Have(out, at1) => preview_rest(
                    dir,
                    sha,
                    shown_commit(out, sha),
                    replies,
                    at1,
                ),
            }
        },
    }
}

/// Runs a command whose failure counts as printing nothing.
fn run_quietly(dir: &str, args: &[&str], replies: &[Reply], at: usize) -> (part: Part<String>)
    ensures
        part@ == quiet_part(dir@, slices(args@), replies@, at as int),
{
    if replies.len() <= at {
        return Part::Ask(Work::Git(git_in_dir(dir, args)));
    }
    let g = replies[at].git();
    let value = if g.success() {
        g.printed()
    } else {
        String::new()
    };
    Part::Have { value, used: at + 1 }
}

/// `GET /repositories/{owner}/{repo}/commits/{sha}/preview`
pub fn commit_preview(
    ctx: &Context,
    owner: &str,
    repo: &str,
    sha: &str,
    _query: &PreviewQuery,
    replies: &[Reply],
) -> (step: Step<Preview>)
    ensures
        step@ == preview_step(*ctx, owner@, repo@, sha@, replies@),
{
    let (dir, at) = match require_read_access(ctx, owner, repo, replies, 0) {
        Part::Ask(work) => return Step::Ask(work),
        Part::Fail(e) => return Step::Done(Err(e)),
        Part::Have { value, used } => (value, used),
    };
    if !check_sha(sha) {
        return Step::Done(Err(bad_request("invalid sha")));
    }
    let args: [&str; 4] = ["show", "--format=%H%x00%an%x00%ae%x00%at%x00%s", "-s", sha];
    assert(slices(args@) =~= commit_args(sha@));
    let (info, at1) = match run_git_str(
        dir.as_str(),
        &args,
        not_found("commit not found"),
        replies,
        at,
    ) {
        Part::Ask(work) => return Step::Ask(work),
        Part::Fail(e) => return Step::Done(Err(e)),
        Part::Have { value, used } => (value, used),
    };
    let commit = parse_shown(info.as_str(), sha);
    let args: [&str; 4] = ["branch", "--contains", sha, "--format=%(refname:short)"];
    assert(slices(args@) =~= seq![
        "branch"@,
        "--contains"@,
        sha@,
        "--format=%(refname:short)"@,
    ]);
    let (holders, at2) = match run_quietly(dir.as_str(), &args, replies, at1) {
        Part::Ask(work) => return Step::Ask(work),
        Part::Fail(e) => return Step::Done(Err(e)),
        Part::Have { value, used } => (value, used),
    };
    let args: [&str; 5] = ["diff-tree", "--stat", "--no-commit-id", "-r", sha];
    assert(slices(args@) =~= seq!["diff-tree"@, "--stat"@, "--no-commit-id"@, "-r"@, sha@]);
    let (stat, at3) = match run_quietly(dir.as_str(), &args, replies, at2) {
        Part::Ask(work) => return Step::Ask(work),
        Part::Fail(e) => return Step::Done(Err(e)),
        Part::Have { value, used } => (value, used),
    };
    let args: [&str; 5] = ["diff-tree", "-p", "--no-commit-id", "-r", sha];
    assert(slices(args@) =~= seq!["diff-tree"@, "-p"@, "--no-commit-id"@, "-r"@, sha@]);
    let (patch, at4) = match run_quietly(dir.as_str(), &args, replies, at3) {
        Part::Ask(work) => return Step::Ask(work),
        Part::Fail(e) => return Step::Done(Err(e)),
        Part::Have { value, used } => (value, used),
    };
    let object = join2(sha, ":");
    let args: [&str; 3] = ["ls-tree", "--long", object.as_str()];
    assert(slices(args@) =~= seq!["ls-tree"@, "--long"@, sha@ + ":"@]);
    match run_quietly(dir.as_str(), &args, replies, at4) {
        Part::Ask(work) => Step::Ask(work),
        Part::Fail(e) => Step::Done(Err(e)),
        Part::Have { value, .. } => Step::Done(
            Ok(
                Answer {
                    status: 200,
                    body: Preview {
                        commit,
                        branches: parse_names(holders.as_str()),
                        diff_stat: trim(stat.as_str()),
                        diff: patch,
                        tree: parse_entries(value.as_str()),
                    },
                },
            ),
        ),
    }
}

} // verus!
