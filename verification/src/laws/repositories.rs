//! Listing, making and removing repositories, and profiles: what is asked and
//! answered, from the directories, the metadata and the request.

use vstd::prelude::*;

use super::access::{home_of, is_own, is_refused};
use super::{profiles_are_complete, profiles_are_sorted};
use crate::authz::{canonical_part, Context};
use crate::errors::ErrorView;
use crate::metadata::{meta_or_fresh, MetaView, RepoMeta};
use crate::pathing::is_safe;
use crate::printing::{
    git_is_fine, git_is_lost, git_prints, lemma_signed_is_word, numbers_read_back,
    prints_are_read, signed, trimming_empties_white_space, trimming_takes_white_space,
};
use crate::repositories::{
    bare_in, commit_time, latest_first, latest_of, list_step, make_step, profile_rows,
    profile_step, remove_step, shown_in, without_id, FoundView, ShownView,
};
use crate::search::dirs_in;
use crate::text::{alike, ends, lossy_text, trimmed, without_suffix};
use crate::types::{CreateRepoRequest, ProfileView, RepositoryView};
use crate::work::{
    meta_nth, CommandView, DirEntry, GitReply, PartView, Removal, Reply, StepView, WorkView,
};

verus! {

/// The directories in a directory, and the bare repositories in it: those of the
/// entries that are directories, and of these the ones whose names end in
/// `.git`, by their names without that, in the order of the entries.
pub proof fn repositories_are_directories_with_a_suffix(
    entries: Seq<DirEntry>,
    dir: spec_fn(DirEntry) -> bool,
    bare: spec_fn(DirEntry) -> bool,
    as_dir: spec_fn(DirEntry) -> FoundView,
    as_bare: spec_fn(DirEntry) -> FoundView,
)
    requires
        forall|e: DirEntry| #[trigger] dir(e) == e.is_dir,
        forall|e: DirEntry| #[trigger]
            bare(e) == (e.is_dir && e.name@.len() >= 4 && e.name@.skip(e.name@.len() - 4)
                == ".git"@),
        forall|e: DirEntry| #[trigger]
            as_dir(e) == (FoundView { name: e.name@, path: e.path@ }),
        forall|e: DirEntry| #[trigger]
            as_bare(e) == (FoundView { name: e.name@.take(e.name@.len() - 4), path: e.path@ }),
    ensures
        dirs_in(entries) == entries.filter(dir).map_values(as_dir),
        bare_in(entries) == entries.filter(bare).map_values(as_bare),
    decreases entries.len(),
{
    reveal(Seq::filter);
    if entries.len() == 0 {
        assert(dirs_in(entries) =~= entries.filter(dir).map_values(as_dir));
        assert(bare_in(entries) =~= entries.filter(bare).map_values(as_bare));
    } else {
        let rest = entries.drop_last();
        let e = entries.last();
        repositories_are_directories_with_a_suffix(rest, dir, bare, as_dir, as_bare);
        assert(rest.filter(dir).push(e).map_values(as_dir) =~= rest.filter(dir).map_values(
            as_dir,
        ).push(as_dir(e)));
        assert(rest.filter(bare).push(e).map_values(as_bare) =~= rest.filter(bare).map_values(
            as_bare,
        ).push(as_bare(e)));
        reveal_strlit(".git");
        let name = e.name@;
        if name.len() >= 4 {
            assert(name.skip(name.len() - 4) =~= name.subrange(name.len() - 4, name.len() as int));
            assert(without_suffix(name, ".git"@) =~= if ends(name, ".git"@) {
                name.take(name.len() - 4)
            } else {
                name
            });
        }
    }
}

/// A repository without its id is that repository in all else.
pub proof fn only_the_id_is_left_open(r: RepositoryView, s: RepositoryView)
    ensures
        without_id(r) == without_id(s) <==> (r.name == s.name && r.owner == s.owner && r.path
            == s.path && r.created_at == s.created_at && r.visibility == s.visibility
            && r.description == s.description && r.star_count == s.star_count && r.updated_at
            == s.updated_at),
{
}

/// A repository shows what its metadata say; where there are none it is public,
/// made now, and otherwise empty.
pub open spec fn tells(r: RepositoryView, stored: Option<RepoMeta>, now: Seq<char>) -> bool {
    match stored {
        Some(meta) => {
            &&& r.created_at == meta.created_at@
            &&& r.visibility == meta.visibility@
            &&& r.description == meta.description@
            &&& r.star_count == meta.stars@.len()
            &&& r.updated_at == meta.updated_at@
        },
        None => {
            &&& r.created_at == now
            &&& r.visibility == "public"@
            &&& r.description.len() == 0
            &&& r.star_count == 0
            &&& r.updated_at == now
        },
    }
}

/// A caller's repositories are listed: all that stand in the caller's directory,
/// in their order, each under the name that the caller goes by and with its own
/// metadata.
pub proof fn own_repositories_are_listed(
    ctx: Context,
    replies: Seq<Reply>,
    entries: Vec<DirEntry>,
    metas: Vec<Option<RepoMeta>>,
)
    ensures
        ctx.claims is None ==> is_refused(
            list_step(ctx, replies),
            401,
            "authentication required"@,
        ),
        ctx.claims matches Some(c) ==> {
            let step = list_step(ctx, replies);
            let found = bare_in(entries@);
            let label = if c.username@.len() > 0 {
                c.username@
            } else {
                c.sub@
            };
            &&& replies.len() == 0 ==> step == StepView::<Seq<RepositoryView>>::Ask(
                WorkView::ListDir { path: ctx.root@ + "/"@ + c.sub@ },
            )
            &&& replies.len() > 0 && replies[0] == Reply::Entries(None) ==> step == StepView::<
                Seq<RepositoryView>,
            >::Answer(200, seq![])
            &&& replies.len() == 1 && replies[0] == Reply::Entries(Some(entries)) ==> (
            step matches StepView::Ask(WorkView::ReadMetas { paths }) && paths.len() == found.len()
                && forall|i: int|
                0 <= i < found.len() ==> #[trigger] paths[i] == ctx.root@ + "/"@ + c.sub@ + "/"@
                    + found[i].name + ".meta.json"@)
            &&& replies.len() > 1 && replies[0] == Reply::Entries(Some(entries)) && replies[1]
                == Reply::Metas(metas) && metas@.len() == found.len() ==> (
            step matches StepView::Answer(status, list) && status == 200 && list.len()
                == found.len() && forall|i: int|
                0 <= i < found.len() ==> (#[trigger] list[i]).name == found[i].name
                    && list[i].owner == label && list[i].path == found[i].path && tells(
                    list[i],
                    metas@[i],
                    ctx.now@,
                ))
        },
{
}

/// A request for a new repository that can be met.
pub open spec fn may_make(ctx: Context, body: CreateRepoRequest) -> bool {
    &&& ctx.claims is Some
    &&& is_safe(trimmed(body.name@))
    &&& body.user_id@ == ctx.claims->0.sub@
}

/// A repository is made in the caller's directory, by the name of the request
/// without the white space around it. Its metadata are stored beside it: public,
/// made now, and otherwise empty. The answer tells all that.
pub proof fn repositories_are_made_step_by_step(
    ctx: Context,
    body: CreateRepoRequest,
    replies: Seq<Reply>,
)
    requires
        may_make(ctx, body),
    ensures
        ({
            let step = make_step(ctx, body, replies);
            let sub = ctx.claims->0.sub@;
            let username = ctx.claims->0.username@;
            let name = trimmed(body.name@);
            let fresh = MetaView {
                visibility: "public"@,
                description: seq![],
                stars: seq![],
                collaborators: seq![],
                created_at: ctx.now@,
                updated_at: ctx.now@,
            };
            let made = replies.len() > 0 && replies[0] == Reply::Flag(true);
            &&& replies.len() == 0 ==> step == StepView::<RepositoryView>::Ask(
                WorkView::MakeDir { path: ctx.root@ + "/"@ + sub },
            )
            &&& replies.len() > 0 && replies[0] == Reply::Flag(false) ==> is_refused(
                step,
                500,
                "Failed to create repository directory"@,
            )
            &&& made && replies.len() == 1 ==> step == StepView::<RepositoryView>::Ask(
                WorkView::Git(
                    CommandView {
                        dir: None,
                        args: seq!["init"@, "--bare"@, home_of(ctx.root@, sub, name)],
                        env: seq![],
                        input: None,
                        scratch: None,
                    },
                ),
            )
            &&& made && replies.len() > 1 && git_is_lost(replies[1]) ==> is_refused(
                step,
                500,
                "Failed to run git command"@,
            )
            &&& made && replies.len() > 1 ==> (replies[1] matches Reply::Git(
                GitReply::Ended { success: false, stderr, .. },
            ) ==> step == StepView::<RepositoryView>::Refuse(
                ErrorView {
                    status: 500,
                    error: "git init failed"@,
                    detail: Some(trimmed(lossy_text(stderr@))),
                },
            ))
            &&& made && replies.len() == 2 && git_is_fine(replies[1]) ==> step == StepView::<
                RepositoryView,
            >::Ask(
                WorkView::WriteMeta {
                    path: ctx.root@ + "/"@ + sub + "/"@ + name + ".meta.json"@,
                    meta: fresh,
                },
            )
            &&& made && replies.len() > 2 && git_is_fine(replies[1]) ==> step == StepView::Answer(
                201,
                RepositoryView {
                    id: seq![],
                    name,
                    owner: if username.len() > 0 {
                        username
                    } else {
                        sub
                    },
                    path: home_of(ctx.root@, sub, name),
                    created_at: ctx.now@,
                    visibility: "public"@,
                    description: seq![],
                    star_count: 0,
                    updated_at: ctx.now@,
                },
            )
        }),
{
}

/// What stands in the way of a new repository: nobody calls, it has no name or
/// one that is not safe, or it is for another than the caller.
pub proof fn new_repositories_are_refused_for_a_reason(
    ctx: Context,
    body: CreateRepoRequest,
    replies: Seq<Reply>,
)
    ensures
        ({
            let step = make_step(ctx, body, replies);
            let name = trimmed(body.name@);
            let calls = ctx.claims is Some;
            &&& !calls ==> is_refused(step, 401, "authentication required"@)
            &&& calls && name.len() == 0 ==> is_refused(step, 400, "name is required"@)
            &&& calls && name.len() > 0 && !is_safe(name) ==> is_refused(
                step,
                400,
                "name may only contain letters, numbers, dashes, dots, and underscores"@,
            )
            &&& calls && is_safe(name) && body.user_id@ != ctx.claims->0.sub@ ==> is_refused(
                step,
                403,
                "user_id in body does not match the authenticated user"@,
            )
        }),
{
}

/// A repository is removed: its directory, and then the metadata beside it. It
/// must be the caller's, and it must be there.
pub proof fn repositories_are_removed_step_by_step(
    ctx: Context,
    owner: Seq<char>,
    repo: Seq<char>,
    replies: Seq<Reply>,
)
    ensures
        ({
            let step = remove_step(ctx, owner, repo, replies);
            let safe = is_safe(owner) && is_safe(repo);
            let own = is_own(ctx, owner, repo);
            let sub = ctx.claims->0.sub@;
            &&& ctx.claims is None ==> is_refused(step, 401, "authentication required"@)
            &&& ctx.claims is Some && !safe ==> is_refused(step, 400, "invalid path segment"@)
            &&& ctx.claims is Some && safe && !own ==> is_refused(step, 403, "forbidden"@)
            &&& own && replies.len() == 0 ==> step == StepView::<()>::Ask(
                WorkView::RemoveDir { path: home_of(ctx.root@, sub, repo) },
            )
            &&& own && replies.len() > 0 && replies[0] == Reply::Removed(Removal::Missing)
                ==> is_refused(step, 404, "repository not found"@)
            &&& own && replies.len() > 0 && replies[0] == Reply::Removed(Removal::Failed)
                ==> is_refused(step, 500, "failed to remove repository"@)
            &&& own && replies.len() == 1 && replies[0] == Reply::Removed(Removal::Removed)
                ==> step == StepView::<()>::Ask(
                WorkView::RemoveFile {
                    path: ctx.root@ + "/"@ + sub + "/"@ + repo + ".meta.json"@,
                },
            )
            &&& own && replies.len() > 1 && replies[0] == Reply::Removed(Removal::Removed)
                ==> step == StepView::<()>::Answer(204, ())
        }),
{
}

/// The latest commit of a repository is as old as git says; there is none where
/// git prints nothing or fails.
pub proof fn latest_commits_are_told(g: GitReply, time: i64)
    ensures
        git_prints(Reply::Git(g), signed(time as int) + seq!['\n']) ==> latest_of(
            g,
        ) == Some(time),
        git_prints(Reply::Git(g), seq![]) ==> latest_of(g) is None,
        !git_is_fine(Reply::Git(g)) ==> latest_of(g) is None,
{
    let reply = Reply::Git(g);
    let none: Seq<char> = seq![];
    let text = signed(time as int);
    if git_prints(reply, text + seq!['\n']) {
        prints_are_read(reply, text + seq!['\n']);
        lemma_signed_is_word(time as int);
        trimming_takes_white_space(none, text, seq!['\n']);
        assert(none + text + seq!['\n'] =~= text + seq!['\n']);
        numbers_read_back(time, 0, 0);
    }
    if git_prints(reply, none) {
        prints_are_read(reply, none);
        trimming_empties_white_space(none);
        numbers_read_back(time, 0, 0);
        assert(none =~= seq![]);
    }
}

proof fn lemma_shown_place(
    found: Seq<FoundView>,
    metas: Reply,
    is_self: bool,
    now: Seq<char>,
    n: int,
    i: int,
) -> (k: int)
    requires
        0 <= i < n <= found.len(),
        is_self || meta_or_fresh(meta_nth(metas, i), now).visibility == "public"@,
    ensures
        0 <= k < shown_in(found, metas, is_self, now, n).len(),
        shown_in(found, metas, is_self, now, n)[k] == (ShownView {
            name: found[i].name,
            meta: meta_or_fresh(meta_nth(metas, i), now),
        }),
    decreases n,
{
    if i == n - 1 {
        shown_in(found, metas, is_self, now, n).len() - 1
    } else {
        lemma_shown_place(found, metas, is_self, now, n - 1, i)
    }
}

proof fn lemma_shown_from(
    found: Seq<FoundView>,
    metas: Reply,
    is_self: bool,
    now: Seq<char>,
    n: int,
    k: int,
) -> (i: int)
    requires
        n <= found.len(),
        0 <= k < shown_in(found, metas, is_self, now, n).len(),
    ensures
        0 <= i < n,
        is_self || meta_or_fresh(meta_nth(metas, i), now).visibility == "public"@,
        shown_in(found, metas, is_self, now, n)[k] == (ShownView {
            name: found[i].name,
            meta: meta_or_fresh(meta_nth(metas, i), now),
        }),
    decreases n,
{
    if k < shown_in(found, metas, is_self, now, n - 1).len() {
        lemma_shown_from(found, metas, is_self, now, n - 1, k)
    } else {
        n - 1
    }
}

/// The caller looks at their own profile.
pub open spec fn is_own_profile(ctx: Context, owner: Seq<char>) -> bool {
    match ctx.claims {
        Some(c) => owner == c.sub@ || alike(owner, c.username@),
        None => false,
    }
}

/// A profile may show a repository: it is public, or the caller's own. One
/// without metadata is public.
pub open spec fn may_show(ctx: Context, owner: Seq<char>, stored: Option<RepoMeta>) -> bool {
    is_own_profile(ctx, owner) || match stored {
        Some(meta) => meta.visibility@ == "public"@,
        None => true,
    }
}

/// What a profile says of a repository.
pub open spec fn is_row(
    r: ProfileView,
    owner: Seq<char>,
    name: Seq<char>,
    stored: Option<RepoMeta>,
    now: Seq<char>,
    latest: Option<i64>,
) -> bool {
    &&& r.name == name
    &&& r.owner == owner
    &&& r.last_commit_timestamp == latest
    &&& match stored {
        Some(meta) => {
            &&& r.visibility == meta.visibility@
            &&& r.description == meta.description@
            &&& r.star_count == meta.stars@.len()
            &&& r.created_at == meta.created_at@
            &&& r.updated_at == meta.updated_at@
        },
        None => {
            &&& r.visibility == "public"@
            &&& r.description.len() == 0
            &&& r.star_count == 0
            &&& r.created_at == now
            &&& r.updated_at == now
        },
    }
}

/// A profile reads the user's directory, the metadata beside each repository in
/// it, and how old the latest commit of each repository that it shows is.
pub proof fn profiles_ask_for_what_they_show(
    ctx: Context,
    owner: Seq<char>,
    replies: Seq<Reply>,
    id: Seq<char>,
    at: int,
    entries: Vec<DirEntry>,
)
    requires
        is_safe(owner),
        canonical_part(ctx, owner, replies, 0) == PartView::Have(id, at),
    ensures
        ({
            let step = profile_step(ctx, owner, replies);
            let found = bare_in(entries@);
            &&& replies.len() <= at ==> step == StepView::<Seq<ProfileView>>::Ask(
                WorkView::ListDir { path: ctx.root@ + "/"@ + id },
            )
            &&& replies.len() > at && replies[at] == Reply::Entries(None) ==> step == StepView::<
                Seq<ProfileView>,
            >::Answer(200, seq![])
            &&& replies.len() == at + 1 && replies[at] == Reply::Entries(Some(entries)) ==> (
            step matches StepView::Ask(WorkView::ReadMetas { paths }) && paths.len() == found.len()
                && forall|i: int|
                0 <= i < found.len() ==> #[trigger] paths[i] == ctx.root@ + "/"@ + id + "/"@
                    + found[i].name + ".meta.json"@)
        }),
{
}

/// An owner that names no safe path has no profile.
pub proof fn unsafe_owners_have_no_profile(ctx: Context, owner: Seq<char>, replies: Seq<Reply>)
    requires
        !is_safe(owner),
    ensures
        is_refused(profile_step(ctx, owner, replies), 400, "invalid owner"@),
{
}

/// The replies of a profile are all there: the directory, the metadata of each
/// repository in it, and the logs that were asked for.
pub open spec fn profile_is_read(
    ctx: Context,
    owner: Seq<char>,
    replies: Seq<Reply>,
    id: Seq<char>,
    at: int,
    entries: Vec<DirEntry>,
    metas: Vec<Option<RepoMeta>>,
    logs: Vec<GitReply>,
    commands: Seq<CommandView>,
) -> bool {
    &&& is_safe(owner)
    &&& 0 <= at
    &&& canonical_part(ctx, owner, replies, 0) == PartView::Have(id, at)
    &&& canonical_part(ctx, owner, replies.take(at + 2), 0) == PartView::Have(id, at)
    &&& replies.len() == at + 3
    &&& replies[at] == Reply::Entries(Some(entries))
    &&& replies[at + 1] == Reply::Metas(metas)
    &&& replies[at + 2] == Reply::GitAll(logs)
    &&& metas@.len() == bare_in(entries@).len()
    &&& profile_step(ctx, owner, replies.take(at + 2)) == StepView::<Seq<ProfileView>>::Ask(
        WorkView::GitAll(commands),
    )
    &&& logs@.len() == commands.len()
}

/// A profile shows every repository that it may show, with its own metadata and
/// the time of its own latest commit: the command at place `k` asks for it, and
/// the row at place `m` tells it.
pub proof fn profiles_show_each_open_repository(
    ctx: Context,
    owner: Seq<char>,
    replies: Seq<Reply>,
    id: Seq<char>,
    at: int,
    entries: Vec<DirEntry>,
    metas: Vec<Option<RepoMeta>>,
    logs: Vec<GitReply>,
    commands: Seq<CommandView>,
    list: Seq<ProfileView>,
    i: int,
) -> (places: (int, int))
    requires
        profile_is_read(ctx, owner, replies, id, at, entries, metas, logs, commands),
        profile_step(ctx, owner, replies) == StepView::Answer(200, list),
        0 <= i < bare_in(entries@).len(),
        may_show(ctx, owner, metas@[i]),
    ensures
        ({
            let (k, m) = places;
            let name = bare_in(entries@)[i].name;
            &&& 0 <= k < commands.len()
            &&& commands[k] == (CommandView {
                dir: Some(home_of(ctx.root@, id, name)),
                args: seq!["log"@, "-1"@, "--format=%at"@, "--all"@],
                env: seq![],
                input: None,
                scratch: None,
            })
            &&& 0 <= m < list.len()
            &&& is_row(list[m], owner, name, metas@[i], ctx.now@, latest_of(logs@[k]))
        }),
{
    broadcast use vstd::seq_lib::group_to_multiset_ensures;

    let found = bare_in(entries@);
    let own = is_own_profile(ctx, owner);
    let shown = shown_in(found, replies[at + 1], own, ctx.now@, found.len() as int);
    let short = replies.take(at + 2);
    assert(short[at] == replies[at] && short[at + 1] == replies[at + 1]);
    let k = lemma_shown_place(
        found,
        replies[at + 1],
        own,
        ctx.now@,
        found.len() as int,
        i,
    );
    let rows = profile_rows(owner, shown, replies[at + 2]);
    profiles_are_complete(rows);
    assert(list == latest_first(rows));
    assert(rows.contains(rows[k]));
    assert(rows.to_multiset().count(rows[k]) > 0);
    assert(list.contains(rows[k]));
    (k, list.index_of(rows[k]))
}

/// A profile shows nothing else: the row at place `m` is of the repository at
/// place `i`, which it may show.
pub proof fn profiles_show_nothing_else(
    ctx: Context,
    owner: Seq<char>,
    replies: Seq<Reply>,
    id: Seq<char>,
    at: int,
    entries: Vec<DirEntry>,
    metas: Vec<Option<RepoMeta>>,
    logs: Vec<GitReply>,
    commands: Seq<CommandView>,
    list: Seq<ProfileView>,
    m: int,
) -> (places: (int, int))
    requires
        profile_is_read(ctx, owner, replies, id, at, entries, metas, logs, commands),
        profile_step(ctx, owner, replies) == StepView::Answer(200, list),
        0 <= m < list.len(),
    ensures
        ({
            let (i, k) = places;
            &&& 0 <= i < bare_in(entries@).len()
            &&& 0 <= k < logs@.len()
            &&& may_show(ctx, owner, metas@[i])
            &&& is_row(
                list[m],
                owner,
                bare_in(entries@)[i].name,
                metas@[i],
                ctx.now@,
                latest_of(logs@[k]),
            )
        }),
{
    broadcast use vstd::seq_lib::group_to_multiset_ensures;

    let found = bare_in(entries@);
    let own = is_own_profile(ctx, owner);
    let shown = shown_in(found, replies[at + 1], own, ctx.now@, found.len() as int);
    let short = replies.take(at + 2);
    assert(short[at] == replies[at] && short[at + 1] == replies[at + 1]);
    let rows = profile_rows(owner, shown, replies[at + 2]);
    profiles_are_complete(rows);
    assert(list == latest_first(rows));
    assert(list.contains(list[m]));
    assert(list.to_multiset().count(list[m]) > 0);
    assert(rows.contains(list[m]));
    let k = rows.index_of(list[m]);
    let i = lemma_shown_from(
        found,
        replies[at + 1],
        own,
        ctx.now@,
        found.len() as int,
        k,
    );
    (i, k)
}

/// A profile holds as many rows as there are logs that it asks for, and stands
/// in the order of the latest commits, the latest first. One without commits
/// counts as one of time zero.
pub proof fn profiles_are_in_order(
    ctx: Context,
    owner: Seq<char>,
    replies: Seq<Reply>,
    id: Seq<char>,
    at: int,
    entries: Vec<DirEntry>,
    metas: Vec<Option<RepoMeta>>,
    logs: Vec<GitReply>,
    commands: Seq<CommandView>,
    list: Seq<ProfileView>,
    m: int,
    n: int,
)
    requires
        profile_is_read(ctx, owner, replies, id, at, entries, metas, logs, commands),
        profile_step(ctx, owner, replies) == StepView::Answer(200, list),
        0 <= m < n < list.len(),
    ensures
        list.len() == commands.len(),
        match (list[m].last_commit_timestamp, list[n].last_commit_timestamp) {
            (Some(a), Some(b)) => a >= b,
            (Some(a), None) => a >= 0,
            (None, Some(b)) => b <= 0,
            (None, None) => true,
        },
{
    broadcast use vstd::seq_lib::group_to_multiset_ensures;

    let found = bare_in(entries@);
    let own = is_own_profile(ctx, owner);
    let shown = shown_in(found, replies[at + 1], own, ctx.now@, found.len() as int);
    let short = replies.take(at + 2);
    assert(short[at] == replies[at] && short[at + 1] == replies[at + 1]);
    let rows = profile_rows(owner, shown, replies[at + 2]);
    profiles_are_complete(rows);
    profiles_are_sorted(rows);
    assert(list == latest_first(rows));
    assert(list.to_multiset().len() == list.len());
    assert(rows.to_multiset().len() == rows.len());
    assert(commit_time(list[m]) >= commit_time(list[n]));
}

/// A profile is answered as soon as all replies are there.
pub proof fn profiles_are_answered(
    ctx: Context,
    owner: Seq<char>,
    replies: Seq<Reply>,
    id: Seq<char>,
    at: int,
    entries: Vec<DirEntry>,
)
    requires
        is_safe(owner),
        canonical_part(ctx, owner, replies, 0) == PartView::Have(id, at),
        0 <= at,
        replies.len() >= at + 2,
        replies[at] == Reply::Entries(Some(entries)),
    ensures
        replies.len() == at + 2 ==> (profile_step(ctx, owner, replies) matches StepView::Ask(
            WorkView::GitAll(_),
        )),
        replies.len() > at + 2 ==> (profile_step(ctx, owner, replies) matches StepView::Answer(
            status,
            _,
        ) && status == 200),
{
}

} // verus!
