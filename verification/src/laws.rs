//! What holds of the library as a whole.
//!
//! What holds of each operation, in the terms of its request, of git's output
//! and of its answer, stands in the modules below.

pub mod access;
pub mod reads;
pub mod repositories;
pub mod search;
pub mod server;
pub mod settings;
pub mod text;
pub mod views;
pub mod writes;

use vstd::prelude::*;

use crate::authz::{
    canonical_part, is_member, is_owner, no_caller, not_allowed, owner_in, owner_refusal,
    read_part, read_refusal, unsafe_segment, Claims, Context,
};
use crate::browse::{
    blob_step, branches_step, commits_step, diff_step, page_number, page_size, preview_step,
    shown_bytes, skipped, tree_path, tree_ref, tree_step,
};
use crate::errors::{plain, ErrorView};
use crate::files::{
    create_step, delete_step, drop_view, own_dir, put_view, stores_only, update_step,
};
use crate::git::{
    author_env, branch_ref, commit_command, enter_command, git_command, hash_command,
    move_command, parent_of, printed_name, read_tree_command, stage_part, succeeded,
    take_out_command, write_part, UpdateView, WriteView,
};
use crate::metadata::{fresh_meta, meta_or_fresh, sidecar_path, MetaView};
use crate::pathing::{bare_path, is_safe, matching_name};
use crate::split::lemma_index_is;
use crate::output::{branch_of, branches_in};
use crate::outside::base64_bytes;
use crate::repositories::{
    bare_in, commit_time, is_bare, latest_first, list_step, looks_at_self, make_step, place_in,
    profile_rows, profile_step, remove_step, shown_in, FoundView,
};
use crate::search::{sees, Wanted};
use crate::settings::{
    after_join, after_leave, after_settings, after_star, after_unstar, collaborators_step,
    is_visibility, lemma_without, settings_step, star_step, summary_of, summary_step,
    unstar_step, without,
};
use crate::text::{alike, ends, starts, trimmed, without_suffix};
use crate::types::{
    BlobQuery, BlobView, CommitView, CommitsQuery, CreateRepoRequest, DeleteFileBody,
    ProfileView, TreeQuery, TreeView, UpdateSettingsBody, WriteFileBody,
};
use crate::work::{
    entries_in, flag_in, git_in, meta_in, CommandView, DirEntry, PartView, Reply, StepView,
    WorkView,
};

verus! {

/// A safe path segment holds no slash, so it names one step of a path.
pub proof fn safe_segments_hold_no_slash(s: Seq<char>)
    requires
        is_safe(s),
    ensures
        !s.contains('/'),
{
}

/// Two texts that end at the first slash of one text are the same.
proof fn lemma_same_segment(a: Seq<char>, b: Seq<char>, x: Seq<char>, y: Seq<char>)
    requires
        !a.contains('/'),
        !b.contains('/'),
        a + "/"@ + x == b + "/"@ + y,
    ensures
        a == b,
        x == y,
{
    reveal_strlit("/");
    let all = a + "/"@ + x;
    assert(all[a.len() as int] == '/');
    assert((b + "/"@ + y)[b.len() as int] == '/');
    if a.len() < b.len() {
        assert(all[a.len() as int] == b[a.len() as int]);
    } else if b.len() < a.len() {
        assert(all[b.len() as int] == a[b.len() as int]);
    }
    assert(a =~= all.take(a.len() as int));
    assert(b =~= all.take(a.len() as int));
    assert(x =~= all.skip(a.len() as int + 1));
    assert(y =~= all.skip(a.len() as int + 1));
}

/// Two texts with the same front and the same end are the same between them.
proof fn lemma_same_between(
    front: Seq<char>,
    a: Seq<char>,
    b: Seq<char>,
    end: Seq<char>,
)
    requires
        front + a + end == front + b + end,
    ensures
        a == b,
{
    let all = front + a + end;
    assert(all.len() == (front + b + end).len());
    assert(a =~= all.subrange(front.len() as int, (front.len() + a.len()) as int));
    assert(b =~= all.subrange(front.len() as int, (front.len() + a.len()) as int));
}

/// No two repositories share a directory.
pub proof fn each_repository_has_its_own_directory(
    root: Seq<char>,
    owner: Seq<char>,
    name: Seq<char>,
    other_owner: Seq<char>,
    other_name: Seq<char>,
)
    requires
        is_safe(owner),
        is_safe(other_owner),
        bare_path(root, owner, name) == bare_path(root, other_owner, other_name),
    ensures
        owner == other_owner,
        name == other_name,
{
    let below = owner + "/"@ + name;
    let other_below = other_owner + "/"@ + other_name;
    let front = root + "/"@;
    assert(bare_path(root, owner, name) =~= front + below + ".git"@);
    assert(bare_path(root, other_owner, other_name) =~= front + other_below + ".git"@);
    lemma_same_between(front, below, other_below, ".git"@);
    lemma_same_segment(owner, other_owner, name, other_name);
}

/// No two repositories share their metadata.
pub proof fn each_repository_has_its_own_metadata(
    root: Seq<char>,
    owner: Seq<char>,
    name: Seq<char>,
    other_owner: Seq<char>,
    other_name: Seq<char>,
)
    requires
        is_safe(owner),
        is_safe(other_owner),
        sidecar_path(root, owner, name) == sidecar_path(root, other_owner, other_name),
    ensures
        owner == other_owner,
        name == other_name,
{
    let below = owner + "/"@ + name;
    let other_below = other_owner + "/"@ + other_name;
    let front = root + "/"@;
    assert(sidecar_path(root, owner, name) =~= front + below + ".meta.json"@);
    assert(sidecar_path(root, other_owner, other_name) =~= front + other_below + ".meta.json"@);
    lemma_same_between(front, below, other_below, ".meta.json"@);
    lemma_same_segment(owner, other_owner, name, other_name);
}

/// The owner that a repository's directory names is the one it was made from,
/// so the metadata that is shown and changed is that of the repository that was
/// found.
pub proof fn a_directory_names_its_owner(
    root: Seq<char>,
    canonical: Seq<char>,
    name: Seq<char>,
    owner: Seq<char>,
)
    requires
        !canonical.contains('/'),
    ensures
        owner_in(root, bare_path(root, canonical, name), owner) == canonical,
{
    reveal_strlit("/");
    let dir = bare_path(root, canonical, name);
    let base = root + "/"@;
    let below = canonical + "/"@ + name + ".git"@;
    assert(dir =~= base + below);
    assert(dir.take(base.len() as int) =~= base);
    assert(dir.skip(base.len() as int) =~= below);
    assert(below[canonical.len() as int] == '/');
    assert forall|j: int| 0 <= j < canonical.len() implies below[j] != '/' by {
        assert(canonical[j] == below[j]);
    }
    lemma_index_is(below, '/', canonical.len() as int);
    assert(below.take(canonical.len() as int) =~= canonical);
}

/// To be alike but for case is the same both ways and carries over.
pub proof fn alike_is_an_equivalence(a: Seq<char>, b: Seq<char>, c: Seq<char>)
    ensures
        alike(a, a),
        alike(a, b) == alike(b, a),
        alike(a, b) && alike(b, c) ==> alike(a, c),
{
}

/// The directory that stands for an owner is of that name but for case, and
/// where it is not the owner's very name, it is a directory of the root.
pub proof fn the_resolved_owner_is_alike(entries: Seq<DirEntry>, owner: Seq<char>)
    ensures
        alike(matching_name(entries, owner), owner),
        matching_name(entries, owner) == owner || exists|i: int|
            0 <= i < entries.len() && (#[trigger] entries[i]).is_dir && entries[i].name@
                == matching_name(entries, owner),
    decreases entries.len(),
{
    if entries.len() > 0 && !(entries[0].is_dir && alike(entries[0].name@, owner)) {
        let rest = entries.drop_first();
        the_resolved_owner_is_alike(rest, owner);
        if matching_name(entries, owner) != owner {
            let i = choose|i: int|
                0 <= i < rest.len() && (#[trigger] rest[i]).is_dir && rest[i].name@
                    == matching_name(rest, owner);
            assert(entries[i + 1] == rest[i]);
        }
    }
}

/// A caller reaches their repositories by id and by name, in any case, alike:
/// the storage path is that of the id, nothing needs to be looked up for it,
/// and what is granted and refused does not depend on the name that is used.
pub proof fn names_of_the_caller_are_one(
    ctx: Context,
    owner: Seq<char>,
    other: Seq<char>,
    repo: Seq<char>,
    replies: Seq<Reply>,
    at: int,
)
    requires
        ctx.claims is Some,
        is_owner(owner, ctx.claims->0),
        is_owner(other, ctx.claims->0),
        is_safe(owner),
        is_safe(other),
    ensures
        canonical_part(ctx, owner, replies, at) == PartView::Have(ctx.claims->0.sub@, at),
        read_part(ctx, owner, repo, replies, at) == read_part(ctx, other, repo, replies, at),
        owner_refusal(ctx.claims, owner, repo) == owner_refusal(ctx.claims, other, repo),
{
}

/// A public repository can be read by everyone, with and without a token.
pub proof fn public_repositories_are_open(
    claims: Option<Claims>,
    owner: Seq<char>,
    canonical: Seq<char>,
    meta: MetaView,
)
    requires
        meta.visibility == "public"@,
    ensures
        read_refusal(claims, owner, canonical, meta, true) is None,
{
}

/// A repository that is not public can be read by its owner and its
/// collaborators, and by nobody else: they are told that it is forbidden.
pub proof fn private_repositories_are_for_members(
    claims: Option<Claims>,
    owner: Seq<char>,
    canonical: Seq<char>,
    meta: MetaView,
)
    requires
        meta.visibility != "public"@,
    ensures
        read_refusal(claims, owner, canonical, meta, true) == if claims is Some && is_member(
            claims->0,
            owner,
            canonical,
            meta,
        ) {
            None
        } else {
            Some(not_allowed())
        },
{
}

/// A repository that is not there cannot be read. Without a token the answer is
/// that one is needed, and only its owner and collaborators learn that it is
/// not there.
pub proof fn missing_repositories_are_refused(
    claims: Option<Claims>,
    owner: Seq<char>,
    canonical: Seq<char>,
    meta: MetaView,
)
    ensures
        read_refusal(claims, owner, canonical, meta, false) == if claims is None {
            Some(no_caller())
        } else if is_member(claims->0, owner, canonical, meta) {
            Some(plain(404, "repository not found"@))
        } else {
            Some(not_allowed())
        },
{
}

/// A repository without stored metadata, and so one that was just made, is
/// public: everyone can read it.
pub proof fn new_repositories_are_public(
    claims: Option<Claims>,
    owner: Seq<char>,
    canonical: Seq<char>,
    now: Seq<char>,
)
    ensures
        read_refusal(claims, owner, canonical, fresh_meta(now), true) is None,
{
}

/// The name of a git command that changes nothing.
pub open spec fn is_looking(name: Seq<char>) -> bool {
    ||| name == "branch"@
    ||| name == "symbolic-ref"@
    ||| name == "rev-parse"@
    ||| name == "log"@
    ||| name == "ls-tree"@
    ||| name == "show"@
    ||| name == "diff-tree"@
}

/// A git command that changes nothing in its repository.
pub open spec fn only_looks(c: CommandView) -> bool {
    &&& c.input is None
    &&& c.env.len() == 0
    &&& c.scratch is None
    &&& c.args.len() > 0
    &&& is_looking(c.args[0])
}

/// What a read may ask for: to look around on the disk, and, once the read is
/// allowed, a git command in that repository that changes nothing.
pub open spec fn is_reading(
    ctx: Context,
    owner: Seq<char>,
    repo: Seq<char>,
    replies: Seq<Reply>,
    work: WorkView,
) -> bool {
    match work {
        WorkView::IsDir { .. } => true,
        WorkView::ListDir { .. } => true,
        WorkView::ReadMeta { .. } => true,
        WorkView::Git(c) => only_looks(c) && match read_part(ctx, owner, repo, replies, 0) {
            PartView::Have(dir, _) => c.dir == Some(dir),
            _ => false,
        },
        _ => false,
    }
}

/// What a step asks for is a read.
pub open spec fn asks_to_read<T>(
    ctx: Context,
    owner: Seq<char>,
    repo: Seq<char>,
    replies: Seq<Reply>,
    step: StepView<T>,
) -> bool {
    match step {
        StepView::Ask(work) => is_reading(ctx, owner, repo, replies, work),
        _ => true,
    }
}

proof fn lemma_branches_look(
    ctx: Context,
    owner: Seq<char>,
    repo: Seq<char>,
    replies: Seq<Reply>,
)
    ensures
        asks_to_read(ctx, owner, repo, replies, branches_step(ctx, owner, repo, replies)),
{
}

proof fn lemma_commits_look(
    ctx: Context,
    owner: Seq<char>,
    repo: Seq<char>,
    commits: CommitsQuery,
    replies: Seq<Reply>,
)
    ensures
        asks_to_read(ctx, owner, repo, replies, commits_step(ctx, owner, repo, commits, replies)),
{
}

proof fn lemma_tree_look(
    ctx: Context,
    owner: Seq<char>,
    repo: Seq<char>,
    tree: TreeQuery,
    replies: Seq<Reply>,
)
    ensures
        asks_to_read(ctx, owner, repo, replies, tree_step(ctx, owner, repo, tree, replies)),
{
}

proof fn lemma_blob_look(
    ctx: Context,
    owner: Seq<char>,
    repo: Seq<char>,
    blob: BlobQuery,
    replies: Seq<Reply>,
)
    ensures
        asks_to_read(ctx, owner, repo, replies, blob_step(ctx, owner, repo, blob, replies)),
{
}

proof fn lemma_diff_look(
    ctx: Context,
    owner: Seq<char>,
    repo: Seq<char>,
    sha: Seq<char>,
    replies: Seq<Reply>,
)
    ensures
        asks_to_read(ctx, owner, repo, replies, diff_step(ctx, owner, repo, sha, replies)),
{
}

proof fn lemma_preview_look(
    ctx: Context,
    owner: Seq<char>,
    repo: Seq<char>,
    sha: Seq<char>,
    replies: Seq<Reply>,
)
    ensures
        asks_to_read(ctx, owner, repo, replies, preview_step(ctx, owner, repo, sha, replies)),
{
}

proof fn lemma_summary_look(
    ctx: Context,
    owner: Seq<char>,
    repo: Seq<char>,
    replies: Seq<Reply>,
)
    ensures
        asks_to_read(ctx, owner, repo, replies, summary_step(ctx, owner, repo, replies)),
{
}

/// Reads change nothing, and no git command runs for a read that is refused.
pub proof fn reads_only_look(
    ctx: Context,
    owner: Seq<char>,
    repo: Seq<char>,
    sha: Seq<char>,
    commits: CommitsQuery,
    tree: TreeQuery,
    blob: BlobQuery,
    replies: Seq<Reply>,
)
    ensures
        asks_to_read(ctx, owner, repo, replies, branches_step(ctx, owner, repo, replies)),
        asks_to_read(ctx, owner, repo, replies, commits_step(ctx, owner, repo, commits, replies)),
        asks_to_read(ctx, owner, repo, replies, tree_step(ctx, owner, repo, tree, replies)),
        asks_to_read(ctx, owner, repo, replies, blob_step(ctx, owner, repo, blob, replies)),
        asks_to_read(ctx, owner, repo, replies, diff_step(ctx, owner, repo, sha, replies)),
        asks_to_read(ctx, owner, repo, replies, preview_step(ctx, owner, repo, sha, replies)),
        asks_to_read(ctx, owner, repo, replies, summary_step(ctx, owner, repo, replies)),
{
    lemma_branches_look(ctx, owner, repo, replies);
    lemma_commits_look(ctx, owner, repo, commits, replies);
    lemma_tree_look(ctx, owner, repo, tree, replies);
    lemma_blob_look(ctx, owner, repo, blob, replies);
    lemma_diff_look(ctx, owner, repo, sha, replies);
    lemma_preview_look(ctx, owner, repo, sha, replies);
    lemma_summary_look(ctx, owner, repo, replies);
}

/// A step that ends with this error.
pub open spec fn refuses<T>(step: StepView<T>, e: ErrorView) -> bool {
    step == StepView::<T>::Refuse(e)
}

/// A read that is refused is refused by every operation in the same way.
pub proof fn refused_reads_are_refused_alike(
    ctx: Context,
    owner: Seq<char>,
    repo: Seq<char>,
    sha: Seq<char>,
    commits: CommitsQuery,
    tree: TreeQuery,
    blob: BlobQuery,
    replies: Seq<Reply>,
    e: ErrorView,
)
    requires
        read_part(ctx, owner, repo, replies, 0) == PartView::<Seq<char>>::Fail(e),
    ensures
        refuses(branches_step(ctx, owner, repo, replies), e),
        refuses(commits_step(ctx, owner, repo, commits, replies), e),
        refuses(tree_step(ctx, owner, repo, tree, replies), e),
        refuses(blob_step(ctx, owner, repo, blob, replies), e),
        refuses(diff_step(ctx, owner, repo, sha, replies), e),
        refuses(preview_step(ctx, owner, repo, sha, replies), e),
        refuses(summary_step(ctx, owner, repo, replies), e),
{
}

/// Every read of a repository answers a caller whom it refuses with the reason
/// for it: a repository that is not there, or is not public, is answered alike
/// whatever of it is asked for.
pub proof fn reads_answer_with_the_reason(
    ctx: Context,
    owner: Seq<char>,
    repo: Seq<char>,
    sha: Seq<char>,
    commits: CommitsQuery,
    tree: TreeQuery,
    blob: BlobQuery,
    replies: Seq<Reply>,
    canonical: Seq<char>,
    at: int,
    e: ErrorView,
)
    requires
        is_safe(owner),
        is_safe(repo),
        canonical_part(ctx, owner, replies, 0) == PartView::Have(canonical, at),
        replies.len() >= at + 2,
        read_refusal(
            ctx.claims,
            owner,
            canonical,
            meta_or_fresh(meta_in(replies[at]), ctx.now@),
            flag_in(replies[at + 1]),
        ) == Some(e),
    ensures
        refuses(branches_step(ctx, owner, repo, replies), e),
        refuses(commits_step(ctx, owner, repo, commits, replies), e),
        refuses(tree_step(ctx, owner, repo, tree, replies), e),
        refuses(blob_step(ctx, owner, repo, blob, replies), e),
        refuses(diff_step(ctx, owner, repo, sha, replies), e),
        refuses(preview_step(ctx, owner, repo, sha, replies), e),
        refuses(summary_step(ctx, owner, repo, replies), e),
{
    refused_reads_are_refused_alike(ctx, owner, repo, sha, commits, tree, blob, replies, e);
}

/// What changes a repository is for its owner alone. Whoever else calls is
/// refused at once, whatever the replies: without a token as unauthenticated,
/// and with another's token as forbidden. Nothing is asked for.
pub proof fn changes_are_for_the_owner(
    ctx: Context,
    owner: Seq<char>,
    repo: Seq<char>,
    put: WriteFileBody,
    drop: DeleteFileBody,
    settings: UpdateSettingsBody,
    user: Seq<char>,
    joins: bool,
    scratch: Seq<char>,
    replies: Seq<Reply>,
)
    requires
        ctx.claims is None || !is_owner(owner, ctx.claims->0) || !is_safe(owner) || !is_safe(repo),
    ensures
        ({
            let e = if ctx.claims is None {
                no_caller()
            } else if !is_safe(owner) || !is_safe(repo) {
                unsafe_segment()
            } else {
                not_allowed()
            };
            &&& refuses(create_step(ctx, owner, repo, put, scratch, replies), e)
            &&& refuses(update_step(ctx, owner, repo, put, scratch, replies), e)
            &&& refuses(delete_step(ctx, owner, repo, drop, scratch, replies), e)
            &&& refuses(settings_step(ctx, owner, repo, settings, replies), e)
            &&& refuses(collaborators_step(ctx, owner, repo, user, joins, replies), e)
            &&& refuses(remove_step(ctx, owner, repo, replies), e)
        }),
{
}

/// A branch that is not there has no commits and an empty tree: that is an
/// answer, not an error.
pub proof fn unknown_branches_are_empty(
    ctx: Context,
    owner: Seq<char>,
    repo: Seq<char>,
    commits: CommitsQuery,
    tree: TreeQuery,
    replies: Seq<Reply>,
    dir: Seq<char>,
    at: int,
)
    requires
        read_part(ctx, owner, repo, replies, 0) == PartView::Have(dir, at),
        at < replies.len(),
        !succeeded(git_in(replies[at])),
    ensures
        commits_step(ctx, owner, repo, commits, replies) == StepView::Answer(
            200,
            Seq::<CommitView>::empty(),
        ),
        tree_ref(tree) != "HEAD"@ ==> tree_step(ctx, owner, repo, tree, replies)
            == StepView::Answer(
            200,
            TreeView { git_ref: tree_ref(tree), path: tree_path(tree), entries: seq![] },
        ),
{
}

/// `HEAD` is no branch, not even as `origin/HEAD`.
proof fn lemma_head_is_no_branch(line: Seq<char>)
    ensures
        branch_of(line) != Some("HEAD"@),
{
    if branch_of(line) == Some("HEAD"@) {
        reveal_strlit("HEAD");
        reveal_strlit("/HEAD");
        reveal_strlit("origin/");
        let name = trimmed(line);
        assert(starts(name, "origin/"@));
        assert(name.skip(7) =~= "HEAD"@);
        assert(name.len() == 11);
        assert(name[6] == "origin/"@[6]);
        assert(name[7] == name.skip(7)[0]);
        assert(name[8] == name.skip(7)[1]);
        assert(name[9] == name.skip(7)[2]);
        assert(name[10] == name.skip(7)[3]);
        assert(name.subrange(6, 11) =~= "/HEAD"@);
    }
}

/// The list of branches holds each branch that git named, once, and nothing
/// else; `HEAD` is not among them.
pub proof fn branches_are_distinct(list: Seq<Seq<char>>)
    ensures
        branches_in(list).no_duplicates(),
        !branches_in(list).contains("HEAD"@),
        forall|i: int|
            0 <= i < list.len() && branch_of(#[trigger] list[i]) is Some ==> branches_in(
                list,
            ).contains(branch_of(list[i])->0),
        forall|j: int|
            0 <= j < branches_in(list).len() ==> exists|i: int|
                0 <= i < list.len() && branch_of(#[trigger] list[i]) == Some(
                    #[trigger] branches_in(list)[j],
                ),
    decreases list.len(),
{
    if list.len() > 0 {
        let rest = list.drop_last();
        branches_are_distinct(rest);
        lemma_head_is_no_branch(list.last());
        let before = branches_in(rest);
        let all = branches_in(list);
        assert forall|x: Seq<char>| before.contains(x) implies #[trigger] all.contains(x) by {
            let j = before.index_of(x);
            assert(all[j] == x);
        }
        assert forall|i: int| 0 <= i < list.len() && branch_of(#[trigger] list[i]) is Some implies
            all.contains(branch_of(list[i])->0) by {
            if i < rest.len() {
                assert(rest[i] == list[i]);
                assert(before.contains(branch_of(rest[i])->0));
            } else if !before.contains(branch_of(list[i])->0) {
                assert(all.last() == branch_of(list[i])->0);
            }
        }
        assert forall|j: int| 0 <= j < all.len() implies exists|i: int|
            0 <= i < list.len() && branch_of(#[trigger] list[i]) == Some(#[trigger] all[j]) by {
            if j < before.len() {
                assert(before[j] == all[j]);
                let i = choose|i: int|
                    0 <= i < rest.len() && branch_of(#[trigger] rest[i]) == Some(before[j]);
                assert(list[i] == rest[i]);
            } else {
                assert(branch_of(list[list.len() - 1]) == Some(all[j]));
            }
        }
        if all.contains("HEAD"@) {
            let j = all.index_of("HEAD"@);
            if j < before.len() {
                assert(before[j] == "HEAD"@);
            }
        }
    }
}

/// Pages of commits follow one another without gap or overlap: the first skips
/// nothing, and each skips a page more than the one before it. A page holds
/// from 1 to 100 commits.
pub proof fn pages_follow_one_another(query: CommitsQuery, next: CommitsQuery)
    requires
        next.limit == query.limit,
        page_number(next) == page_number(query) + 1,
    ensures
        1 <= page_size(query) <= 100,
        page_number(query) == 1 ==> skipped(query) == 0,
        skipped(next) == skipped(query) + page_size(query),
{
    let size = page_size(query);
    let before = page_number(query) - 1;
    assert((before + 1) * size == before * size + size) by (nonlinear_arith);
    assert(0 * size == 0);
}

/// A write takes the lock of its repository before anything else, and all that
/// it does after that are git commands in that repository.
pub proof fn writes_lock_their_repository(w: WriteView, replies: Seq<Reply>, at: int)
    requires
        0 <= at,
    ensures
        match write_part(w, replies, at) {
            PartView::Ask(WorkView::Lock { repo }) => replies.len() <= at && repo == w.dir,
            PartView::Ask(WorkView::Git(c)) => replies.len() > at && c.dir == Some(w.dir),
            PartView::Ask(_) => false,
            _ => replies.len() > at,
        },
{
}

/// A write that is done has stored its content and entered it under its path,
/// or taken its path out; it has committed the result on top of the commit that
/// the branch was at, or as a first commit where the branch was not there; and
/// last, it has moved the branch to that commit, which is the one it gives.
pub proof fn writes_move_their_branch(
    w: WriteView,
    replies: Seq<Reply>,
    at: int,
    sha: Seq<char>,
    used: int,
)
    requires
        0 <= at,
        write_part(w, replies, at) == PartView::Have(sha, used),
    ensures
        at + 7 <= used <= replies.len(),
        match w.update {
            UpdateView::Add { path, content } => {
                &&& write_part(w, replies.take(at + 3), at) == PartView::<Seq<char>>::Ask(
                    WorkView::Git(hash_command(w.dir, content)),
                )
                &&& write_part(w, replies.take(at + 4), at) == PartView::<Seq<char>>::Ask(
                    WorkView::Git(
                        enter_command(w.dir, printed_name(git_in(replies[at + 3])), path),
                    ),
                )
            },
            UpdateView::Remove { path } => write_part(w, replies.take(at + 3), at) == PartView::<
                Seq<char>,
            >::Ask(WorkView::Git(take_out_command(w.dir, path, w.scratch))),
        },
        write_part(w, replies.take(used - 2), at) == PartView::<Seq<char>>::Ask(
            WorkView::Git(
                commit_command(
                    w.dir,
                    w.message,
                    author_env(w.author_name, w.author_email),
                    printed_name(git_in(replies[used - 3])),
                    parent_of(git_in(replies[at + 1])),
                ),
            ),
        ),
        sha == printed_name(git_in(replies[used - 2])),
        write_part(w, replies.take(used - 1), at) == PartView::<Seq<char>>::Ask(
            WorkView::Git(move_command(w, sha)),
        ),
        succeeded(git_in(replies[used - 1])),
{
}

/// A write that fails leaves its branch where it was: if it came to ask for the
/// branch to be moved, it was that which failed.
pub proof fn failed_writes_leave_their_branch(
    w: WriteView,
    replies: Seq<Reply>,
    at: int,
    n: int,
    commit: Seq<char>,
)
    requires
        0 <= at <= n < replies.len(),
        write_part(w, replies, at) is Fail,
        write_part(w, replies.take(n), at) == PartView::<Seq<char>>::Ask(
            WorkView::Git(move_command(w, commit)),
        ),
    ensures
        !succeeded(git_in(replies[n])),
{
    reveal_strlit("rev-parse");
    reveal_strlit("update-ref");
    let short = replies.take(n);
    let moves = move_command(w, commit);
    assert(moves.args.len() == 3 && moves.args[0] == "update-ref"@);
    let looks_up = git_command(w.dir, seq!["rev-parse"@, "--verify"@, branch_ref(w.branch)]);
    assert(looks_up.args[0].len() != moves.args[0].len());
    if n > at + 1 {
        let parent = parent_of(git_in(replies[at + 1]));
        assert(read_tree_command(w.dir, parent).args.len() == 2);
        if n > at + 2 {
            match w.update {
                UpdateView::Add { path, content } => {
                    assert(hash_command(w.dir, content).input is Some);
                    if n > at + 3 {
                        assert(enter_command(
                            w.dir,
                            printed_name(git_in(replies[at + 3])),
                            path,
                        ).args.len() == 4);
                    }
                },
                UpdateView::Remove { path } => {
                    assert(take_out_command(w.dir, path, w.scratch).args.len() == 5);
                },
            }
            assert(stage_part(w, short, at + 3) is Have);
            let at1 = stage_part(w, short, at + 3)->Have_1;
            assert(git_command(w.dir, seq!["write-tree"@]).args.len() == 1);
            assert(n > at1);
            let tree = printed_name(git_in(replies[at1]));
            let commits = commit_command(
                w.dir,
                w.message,
                author_env(w.author_name, w.author_email),
                tree,
                parent,
            );
            assert(commits.args.len() == 4 || commits.args.len() == 6);
            assert(n == at1 + 2);
            assert(stage_part(w, replies, at + 3) == stage_part(w, short, at + 3));
        }
    }
}

/// What is stored for a file is what is shown of it: if git gives back the
/// bytes that it was given, the content that is read is the content that was
/// written, letter for letter, and its size is the number of those bytes. That
/// a write hands the bytes of its content to git, and in no other way, is the
/// contract of [`create_blob`](crate::files::create_blob) and
/// [`update_blob`](crate::files::update_blob).
pub proof fn written_files_read_back<T>(
    ctx: Context,
    owner: Seq<char>,
    repo: Seq<char>,
    query: BlobQuery,
    replies: Seq<Reply>,
    written: StepView<T>,
    text: Seq<char>,
    command: CommandView,
    shown: BlobView,
)
    requires
        stores_only(written, text),
        written == StepView::<T>::Ask(WorkView::Git(command)),
        command.input is Some,
        blob_step(ctx, owner, repo, query, replies) == StepView::Answer(200, shown),
        shown_bytes(ctx, owner, repo, replies) == command.input->0,
    ensures
        shown.content == text,
        shown.size == command.input->0.len(),
{
}

/// A file that is there is never made anew: that is a conflict, and the write
/// is not begun.
pub proof fn existing_files_are_not_made_anew(
    ctx: Context,
    owner: Seq<char>,
    repo: Seq<char>,
    body: WriteFileBody,
    scratch: Seq<char>,
    replies: Seq<Reply>,
)
    requires
        owner_refusal(ctx.claims, owner, repo) is None,
        trimmed(body.path@).len() > 0,
        replies.len() > 0,
        succeeded(git_in(replies[0])),
    ensures
        refuses(
            create_step(ctx, owner, repo, body, scratch, replies),
            plain(409, "file already exists"@),
        ),
{
}

/// A file that is not there can be neither changed nor taken away.
pub proof fn missing_files_are_not_found(
    ctx: Context,
    owner: Seq<char>,
    repo: Seq<char>,
    put: WriteFileBody,
    drop: DeleteFileBody,
    scratch: Seq<char>,
    replies: Seq<Reply>,
)
    requires
        owner_refusal(ctx.claims, owner, repo) is None,
        replies.len() > 0,
        !succeeded(git_in(replies[0])),
    ensures
        refuses(
            update_step(ctx, owner, repo, put, scratch, replies),
            plain(404, "file not found"@),
        ),
        refuses(
            delete_step(ctx, owner, repo, drop, scratch, replies),
            plain(404, "file not found"@),
        ),
{
}

/// What holds of the metadata of every repository that was made and changed
/// here: its visibility is one that there is, nobody has two stars on it, and
/// nobody is a collaborator twice.
pub open spec fn is_sound(meta: MetaView) -> bool {
    &&& is_visibility(meta.visibility)
    &&& meta.stars.no_duplicates()
    &&& meta.collaborators.no_duplicates()
}

/// A list without an item has what the list had else, in its order.
proof fn lemma_without_stays_distinct(list: Seq<Seq<char>>, item: Seq<char>)
    requires
        list.no_duplicates(),
    ensures
        without(list, item).no_duplicates(),
    decreases list.len(),
{
    if list.len() > 0 {
        let rest = list.drop_last();
        lemma_without_stays_distinct(rest, item);
        lemma_without(rest, item);
        if list.last() != item && without(rest, item).contains(list.last()) {
            assert(rest.contains(list.last()));
            let i = rest.index_of(list.last());
            assert(rest[i] == list[i]);
            assert(list[i] == list[list.len() - 1]);
        }
    }
}

/// Every change keeps metadata sound, and new metadata is.
pub proof fn metadata_stays_sound(
    meta: MetaView,
    user: Seq<char>,
    body: UpdateSettingsBody,
    now: Seq<char>,
)
    requires
        is_sound(meta),
    ensures
        is_sound(fresh_meta(now)),
        is_sound(after_star(meta, user, now)),
        is_sound(after_unstar(meta, user, now)),
        after_join(meta, user, now) matches Ok(m) ==> is_sound(m),
        after_leave(meta, user, now) matches Ok(m) ==> is_sound(m),
        after_settings(meta, body, now) matches Ok(m) ==> is_sound(m),
{
    lemma_without_stays_distinct(meta.stars, user);
    lemma_without_stays_distinct(meta.collaborators, user);
}

/// Starring a repository counts once: a second star changes nothing, and others
/// keep theirs.
pub proof fn stars_count_once(meta: MetaView, user: Seq<char>, now: Seq<char>, later: Seq<char>)
    ensures
        after_star(meta, user, now).stars.contains(user),
        after_star(after_star(meta, user, now), user, later) == after_star(meta, user, now),
        after_star(meta, user, now).stars.len() == meta.stars.len() + if meta.stars.contains(
            user,
        ) {
            0int
        } else {
            1
        },
        forall|other: Seq<char>|
            other != user ==> (meta.stars.contains(other) <==> #[trigger] after_star(
                meta,
                user,
                now,
            ).stars.contains(other)),
{
    let after = after_star(meta, user, now).stars;
    if !meta.stars.contains(user) {
        assert(after.last() == user);
        assert forall|other: Seq<char>| other != user implies (meta.stars.contains(other)
            <==> #[trigger] after.contains(other)) by {
            if meta.stars.contains(other) {
                let i = meta.stars.index_of(other);
                assert(after[i] == other);
            }
            if after.contains(other) {
                let i = after.index_of(other);
                assert(meta.stars[i] == other);
            }
        }
    }
}

/// Taking a star back undoes giving it: the stars are what they were before,
/// for one who had given none. Afterwards the user has no star, and others keep
/// theirs.
pub proof fn unstarring_undoes_starring(
    meta: MetaView,
    user: Seq<char>,
    now: Seq<char>,
    later: Seq<char>,
)
    ensures
        !after_unstar(meta, user, now).stars.contains(user),
        !meta.stars.contains(user) ==> after_unstar(
            after_star(meta, user, now),
            user,
            later,
        ).stars == meta.stars,
        after_unstar(after_unstar(meta, user, now), user, later) == after_unstar(meta, user, now),
        forall|other: Seq<char>|
            other != user ==> (meta.stars.contains(other) <==> #[trigger] after_unstar(
                meta,
                user,
                now,
            ).stars.contains(other)),
{
    lemma_without(meta.stars, user);
    let more = meta.stars.push(user);
    assert(more.drop_last() =~= meta.stars);
    assert(more.contains(user)) by {
        assert(more.last() == user);
    }
}

/// A caller sees at once that they starred a repository, and that they took
/// their star back.
pub proof fn stars_are_shown(meta: MetaView, claims: Claims, now: Seq<char>)
    ensures
        summary_of(after_star(meta, claims.sub@, now), Some(claims)).starred_by_me,
        !summary_of(after_unstar(meta, claims.sub@, now), Some(claims)).starred_by_me,
{
    stars_count_once(meta, claims.sub@, now, now);
    unstarring_undoes_starring(meta, claims.sub@, now, now);
}

/// Leaving undoes joining: the collaborators are what they were before. Nobody
/// joins twice, and nobody leaves who is not a collaborator.
pub proof fn leaving_undoes_joining(
    meta: MetaView,
    user: Seq<char>,
    now: Seq<char>,
    later: Seq<char>,
)
    ensures
        meta.collaborators.contains(user) <==> after_join(meta, user, now) is Err,
        meta.collaborators.contains(user) <==> after_leave(meta, user, now) is Ok,
        after_join(meta, user, now) matches Ok(m) ==> {
            &&& m.collaborators.contains(user)
            &&& after_join(m, user, later) is Err
            &&& after_leave(m, user, later) is Ok
            &&& (after_leave(m, user, later)->Ok_0).collaborators == meta.collaborators
        },
        after_leave(meta, user, now) matches Ok(m) ==> {
            &&& !m.collaborators.contains(user)
            &&& after_leave(m, user, later) is Err
            &&& after_join(m, user, later) is Ok
        },
{
    lemma_without(meta.collaborators, user);
    let more = meta.collaborators.push(user);
    assert(more.drop_last() =~= meta.collaborators);
    assert(more.contains(user)) by {
        assert(more.last() == user);
    }
}

/// A collaborator can read a private repository from the moment they join until
/// they leave, and then no longer, unless it is their own.
pub proof fn collaborators_may_read(
    meta: MetaView,
    claims: Claims,
    owner: Seq<char>,
    canonical: Seq<char>,
    now: Seq<char>,
)
    requires
        meta.visibility != "public"@,
        claims.sub@ != canonical,
        !alike(claims.username@, owner),
    ensures
        after_join(meta, claims.sub@, now) matches Ok(m) ==> read_refusal(
            Some(claims),
            owner,
            canonical,
            m,
            true,
        ) is None,
        after_leave(meta, claims.sub@, now) matches Ok(m) ==> read_refusal(
            Some(claims),
            owner,
            canonical,
            m,
            true,
        ) == Some(not_allowed()),
{
    leaving_undoes_joining(meta, claims.sub@, now, now);
}

/// A change of settings changes what the request names and the time of the
/// change, and nothing else.
pub proof fn settings_keep_the_rest(meta: MetaView, body: UpdateSettingsBody, now: Seq<char>)
    ensures
        after_settings(meta, body, now) matches Ok(m) ==> {
            &&& m.visibility == (if body.visibility is Some {
                body.visibility->0@
            } else {
                meta.visibility
            })
            &&& m.description == (if body.description is Some {
                body.description->0@
            } else {
                meta.description
            })
            &&& m.stars == meta.stars
            &&& m.collaborators == meta.collaborators
            &&& m.created_at == meta.created_at
            &&& m.updated_at == now
        },
{
}

/// Whether a change of settings is accepted depends on the visibility alone: it
/// is refused exactly if it names one that there is not.
pub proof fn only_visibilities_are_settings(
    meta: MetaView,
    body: UpdateSettingsBody,
    now: Seq<char>,
)
    ensures
        after_settings(meta, body, now) is Err <==> body.visibility is Some && body.visibility->0@
            != "public"@ && body.visibility->0@ != "private"@,
{
}

/// Where a repository is placed in a sorted list: what comes before is not
/// older, what comes after is.
proof fn lemma_place(list: Seq<ProfileView>, r: ProfileView)
    requires
        forall|i: int, j: int|
            0 <= i < j < list.len() ==> commit_time(list[i]) >= commit_time(list[j]),
    ensures
        place_in(list, r) <= list.len(),
        forall|i: int| 0 <= i < place_in(list, r) ==> commit_time(list[i]) >= commit_time(r),
        forall|i: int|
            place_in(list, r) <= i < list.len() ==> commit_time(list[i]) < commit_time(r),
    decreases list.len(),
{
    if list.len() > 0 && commit_time(list.last()) < commit_time(r) {
        let rest = list.drop_last();
        lemma_place(rest, r);
        assert forall|i: int| 0 <= i < place_in(list, r) implies commit_time(list[i])
            >= commit_time(r) by {
            assert(rest[i] == list[i]);
        }
        assert forall|i: int| place_in(list, r) <= i < list.len() implies commit_time(list[i])
            < commit_time(r) by {
            if i < rest.len() {
                assert(rest[i] == list[i]);
            }
        }
    }
}

/// A profile is sorted by the latest commit, the latest first; a repository
/// without commits stands where one of time zero would.
pub proof fn profiles_are_sorted(list: Seq<ProfileView>)
    ensures
        forall|i: int, j: int|
            0 <= i < j < latest_first(list).len() ==> commit_time(#[trigger] latest_first(list)[i])
                >= commit_time(#[trigger] latest_first(list)[j]),
    decreases list.len(),
{
    if list.len() > 0 {
        profiles_are_sorted(list.drop_last());
        lemma_place(latest_first(list.drop_last()), list.last());
    }
}

/// Sorting a profile neither loses nor adds a repository.
pub proof fn profiles_are_complete(list: Seq<ProfileView>)
    ensures
        latest_first(list).to_multiset() == list.to_multiset(),
    decreases list.len(),
{
    broadcast use vstd::seq_lib::group_to_multiset_ensures;

    if list.len() > 0 {
        let rest = list.drop_last();
        let before = latest_first(rest);
        profiles_are_complete(rest);
        profiles_are_sorted(rest);
        lemma_place(before, list.last());
        assert(rest.push(list.last()) =~= list);
        vstd::seq_lib::to_multiset_build(rest, list.last());
        vstd::seq_lib::to_multiset_insert(
            before,
            place_in(before, list.last()) as int,
            list.last(),
        );
    }
}

/// Repositories whose latest commits are equally old keep the order of the
/// directory.
pub proof fn profiles_keep_their_order(list: Seq<ProfileView>, time: i64)
    ensures
        latest_first(list).filter(|r: ProfileView| commit_time(r) == time) == list.filter(
            |r: ProfileView| commit_time(r) == time,
        ),
    decreases list.len(),
{
    let same = |r: ProfileView| commit_time(r) == time;
    if list.len() > 0 {
        let rest = list.drop_last();
        let before = latest_first(rest);
        let x = list.last();
        let k = place_in(before, x) as int;
        profiles_keep_their_order(rest, time);
        profiles_are_sorted(rest);
        lemma_place(before, x);
        let front = before.take(k);
        let back = before.skip(k);
        let one = seq![x];
        assert(before =~= front + back);
        assert(latest_first(list) =~= front + one + back);
        assert(list =~= rest + one);
        Seq::filter_distributes_over_add(front, back, same);
        Seq::filter_distributes_over_add(front + one, back, same);
        Seq::filter_distributes_over_add(front, one, same);
        Seq::filter_distributes_over_add(rest, one, same);
        if commit_time(x) == time {
            if back.filter(same).len() > 0 {
                lemma_filtered_is_there(back, same, 0);
            }
            assert(back.filter(same) =~= seq![]);
        } else {
            if one.filter(same).len() > 0 {
                lemma_filtered_is_there(one, same, 0);
            }
            assert(one.filter(same) =~= seq![]);
        }
        assert(latest_first(list).filter(same) =~= list.filter(same));
    }
}

/// What passes a filter was in the list.
proof fn lemma_filtered_is_there(
    list: Seq<ProfileView>,
    pred: spec_fn(ProfileView) -> bool,
    i: int,
)
    requires
        0 <= i < list.filter(pred).len(),
    ensures
        pred(list.filter(pred)[i]),
        list.contains(list.filter(pred)[i]),
    decreases list.len(),
{
    reveal(Seq::filter);
    if list.len() > 0 {
        let rest = list.drop_last();
        if i < rest.filter(pred).len() {
            lemma_filtered_is_there(rest, pred, i);
            let j = rest.index_of(rest.filter(pred)[i]);
            assert(list[j] == rest[j]);
        } else {
            assert(list[list.len() - 1] == list.last());
        }
    }
}

/// Every repository that a profile shows is public, or the caller's own.
proof fn lemma_shown_is_open(
    found: Seq<FoundView>,
    metas: Reply,
    is_self: bool,
    now: Seq<char>,
    n: int,
    i: int,
)
    requires
        0 <= i < shown_in(found, metas, is_self, now, n).len(),
    ensures
        shown_in(found, metas, is_self, now, n)[i].meta.visibility == "public"@ || is_self,
    decreases n,
{
    if n > 0 && i < shown_in(found, metas, is_self, now, n - 1).len() {
        lemma_shown_is_open(found, metas, is_self, now, n - 1, i);
    }
}

/// The profile of another user shows nothing that is not public.
pub proof fn profiles_hide_private(
    ctx: Context,
    owner: Seq<char>,
    replies: Seq<Reply>,
    list: Seq<ProfileView>,
)
    requires
        !looks_at_self(ctx, owner),
        profile_step(ctx, owner, replies) == StepView::Answer(200, list),
    ensures
        forall|i: int| 0 <= i < list.len() ==> (#[trigger] list[i]).visibility == "public"@,
{
    broadcast use vstd::seq_lib::group_to_multiset_ensures;

    match canonical_part(ctx, owner, replies, 0) {
        PartView::Have(canonical, at) => match entries_in(replies[at]) {
            Some(entries) => {
                let found = bare_in(entries@);
                let shown = shown_in(
                    found,
                    replies[at + 1],
                    false,
                    ctx.now@,
                    found.len() as int,
                );
                let rows = profile_rows(owner, shown, replies[at + 2]);
                profiles_are_complete(rows);
                assert forall|i: int| 0 <= i < list.len() implies (#[trigger] list[i]).visibility
                    == "public"@ by {
                    assert(list.contains(list[i]));
                    assert(list.to_multiset().count(list[i]) > 0);
                    assert(rows.contains(list[i]));
                    let j = rows.index_of(list[i]);
                    lemma_shown_is_open(
                        found,
                        replies[at + 1],
                        false,
                        ctx.now@,
                        found.len() as int,
                        j,
                    );
                }
            },
            None => {},
        },
        _ => {},
    }
}

/// To its owner a profile shows every repository in the directory.
pub proof fn profiles_show_all_to_the_owner(
    found: Seq<FoundView>,
    metas: Reply,
    now: Seq<char>,
    n: int,
)
    requires
        0 <= n <= found.len(),
    ensures
        shown_in(found, metas, true, now, n).len() == n,
        forall|i: int|
            0 <= i < n ==> (#[trigger] shown_in(found, metas, true, now, n)[i]).name
                == found[i].name,
    decreases n,
{
    if n > 0 {
        profiles_show_all_to_the_owner(found, metas, now, n - 1);
    }
}

proof fn lemma_previews_end(
    ctx: Context,
    owner: Seq<char>,
    repo: Seq<char>,
    sha: Seq<char>,
    replies: Seq<Reply>,
)
    requires
        replies.len() >= 9,
    ensures
        preview_step(ctx, owner, repo, sha, replies) !is Ask,
{
}

/// Every read ends after nine replies at most.
pub proof fn reads_end(
    ctx: Context,
    owner: Seq<char>,
    repo: Seq<char>,
    sha: Seq<char>,
    commits: CommitsQuery,
    tree: TreeQuery,
    blob: BlobQuery,
    replies: Seq<Reply>,
)
    requires
        replies.len() >= 9,
    ensures
        branches_step(ctx, owner, repo, replies) !is Ask,
        commits_step(ctx, owner, repo, commits, replies) !is Ask,
        tree_step(ctx, owner, repo, tree, replies) !is Ask,
        blob_step(ctx, owner, repo, blob, replies) !is Ask,
        diff_step(ctx, owner, repo, sha, replies) !is Ask,
        preview_step(ctx, owner, repo, sha, replies) !is Ask,
        summary_step(ctx, owner, repo, replies) !is Ask,
        list_step(ctx, replies) !is Ask,
        profile_step(ctx, owner, replies) !is Ask,
{
    lemma_previews_end(ctx, owner, repo, sha, replies);
}

proof fn lemma_writes_end(w: WriteView, replies: Seq<Reply>, at: int)
    requires
        0 <= at,
        replies.len() >= at + 8,
    ensures
        write_part(w, replies, at) !is Ask,
{
}

/// Every change ends after nine replies at most.
pub proof fn changes_end(
    ctx: Context,
    owner: Seq<char>,
    repo: Seq<char>,
    make: CreateRepoRequest,
    put: WriteFileBody,
    drop: DeleteFileBody,
    settings: UpdateSettingsBody,
    user: Seq<char>,
    joins: bool,
    scratch: Seq<char>,
    replies: Seq<Reply>,
)
    requires
        replies.len() >= 9,
    ensures
        make_step(ctx, make, replies) !is Ask,
        remove_step(ctx, owner, repo, replies) !is Ask,
        create_step(ctx, owner, repo, put, scratch, replies) !is Ask,
        update_step(ctx, owner, repo, put, scratch, replies) !is Ask,
        delete_step(ctx, owner, repo, drop, scratch, replies) !is Ask,
        settings_step(ctx, owner, repo, settings, replies) !is Ask,
        star_step(ctx, owner, repo, replies) !is Ask,
        unstar_step(ctx, owner, repo, replies) !is Ask,
        collaborators_step(ctx, owner, repo, user, joins, replies) !is Ask,
{
    let dir = own_dir(ctx, repo);
    lemma_writes_end(drop_view(dir, drop, scratch), replies, 1);
    if let Some(content) = base64_bytes(put.content@) {
        lemma_writes_end(put_view(dir, put, content, scratch), replies, 1);
    }
}

/// What a search finds can be read by the caller who finds it.
pub proof fn found_repositories_can_be_read(
    w: Wanted,
    claims: Option<Claims>,
    uid: Seq<char>,
    meta: MetaView,
)
    requires
        claims is Some == w.caller is Some,
        w.caller is Some ==> w.caller->0@ == claims->0.sub@,
        sees(w, uid, meta),
    ensures
        read_refusal(claims, uid, uid, meta, true) is None,
{
}

/// What a profile shows can be read by the caller to whom it is shown.
pub proof fn shown_repositories_can_be_read(
    ctx: Context,
    owner: Seq<char>,
    replies: Seq<Reply>,
    canonical: Seq<char>,
    at: int,
    meta: MetaView,
)
    requires
        canonical_part(ctx, owner, replies, 0) == PartView::Have(canonical, at),
        meta.visibility == "public"@ || looks_at_self(ctx, owner),
    ensures
        read_refusal(ctx.claims, owner, canonical, meta, true) is None,
{
}

/// A listed repository is this entry of the directory.
pub open spec fn names_entry(found: FoundView, entry: DirEntry) -> bool {
    found.name + ".git"@ == entry.name@ && found.path == entry.path@
}

/// Every bare repository in a directory is listed, under the name that its
/// directory has but for `.git`.
pub proof fn bare_repositories_are_listed(entries: Seq<DirEntry>, i: int)
    requires
        0 <= i < entries.len(),
        is_bare(entries[i]),
    ensures
        exists|j: int|
            0 <= j < bare_in(entries).len() && names_entry(
                #[trigger] bare_in(entries)[j],
                entries[i],
            ),
    decreases entries.len(),
{
    let rest = entries.drop_last();
    let all = bare_in(entries);
    if i < rest.len() {
        bare_repositories_are_listed(rest, i);
        let j = choose|j: int|
            0 <= j < bare_in(rest).len() && names_entry(#[trigger] bare_in(rest)[j], rest[i]);
        assert(all[j] == bare_in(rest)[j]);
    } else {
        lemma_suffix_leads_back(entries[i].name@);
        assert(names_entry(all[all.len() - 1], entries[i]));
    }
}

/// Every listed repository is a bare repository in the directory.
pub proof fn listed_repositories_are_bare(entries: Seq<DirEntry>, j: int)
    requires
        0 <= j < bare_in(entries).len(),
    ensures
        exists|i: int|
            0 <= i < entries.len() && is_bare(#[trigger] entries[i]) && names_entry(
                bare_in(entries)[j],
                entries[i],
            ),
    decreases entries.len(),
{
    let rest = entries.drop_last();
    if j < bare_in(rest).len() {
        listed_repositories_are_bare(rest, j);
        let i = choose|i: int|
            0 <= i < rest.len() && is_bare(#[trigger] rest[i]) && names_entry(
                bare_in(rest)[j],
                rest[i],
            );
        assert(entries[i] == rest[i]);
    } else {
        let last = entries[entries.len() - 1];
        lemma_suffix_leads_back(last.name@);
        assert(is_bare(last) && names_entry(bare_in(entries)[j], last));
    }
}

proof fn lemma_suffix_leads_back(name: Seq<char>)
    requires
        ends(name, ".git"@),
    ensures
        without_suffix(name, ".git"@) + ".git"@ == name,
{
    let n = name.len() - ".git"@.len();
    assert(name.subrange(n, name.len() as int) == ".git"@);
    assert(name.take(n) + name.subrange(n, name.len() as int) =~= name);
}

} // verus!
