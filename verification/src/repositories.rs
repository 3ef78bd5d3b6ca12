//! Listing, making and removing repositories, and the profile of a user.

use vstd::prelude::*;

use crate::authz::{
    canonical_part, find_canonical, is_owner, no_caller, owner_refusal, owns, require_auth,
    require_owner, Claims, Context,
};
use crate::errors::{
    bad_request, forbidden_msg, internal, not_found, plain, tool_failure, ErrorView,
};
use crate::git::{
    ended, git_command, git_in_dir, printed_name, slices, stderr_of, strings, succeeded,
};
use crate::metadata::{
    fresh_meta, meta_or_fresh, meta_path, read_meta, sidecar_path, write_meta, MetaView, RepoMeta,
};
use crate::output::{maybe_seconds, parse_seconds};
use crate::outside::{draw_uuid, is_uuid};
use crate::pathing::{bare_path, is_safe, is_safe_segment, repo_path, user_dir, user_path};
use crate::text::{
    add_text, ends, ends_with, lossy_text, same, strip_suffix, texts, trim, trimmed, without_suffix,
};
use crate::types::{
    profile_views, repository_views, CreateRepoRequest, ProfileList, ProfileRepo, ProfileView,
    Repository, RepositoryList, RepositoryView,
};
use crate::work::{
    commands, entries_in, flag_in, git_in, git_nth, meta_nth, removal_in, Answer, CommandView,
    DirEntry, GitCommand, GitReply, Part, PartView, Removal, Reply, Step, StepView, Work, WorkView,
};

verus! {

/// A bare repository found in a user's directory.
#[derive(Debug)]
pub struct Found {
    /// Its name.
    pub name: String,
    /// The path of its directory.
    pub path: String,
}

/// What a [`Found`] holds.
#[verifier::ext_equal]
pub struct FoundView {
    /// Its name.
    pub name: Seq<char>,
    /// The path of its directory.
    pub path: Seq<char>,
}

impl View for Found {
    type V = FoundView;

    open spec fn view(&self) -> FoundView {
        FoundView { name: self.name@, path: self.path@ }
    }
}

/// The views of a list of found repositories.
pub open spec fn found_views(list: Seq<Found>) -> Seq<FoundView> {
    list.map_values(|f: Found| f@)
}

/// An entry that is a bare repository.
pub open spec fn is_bare(entry: DirEntry) -> bool {
    entry.is_dir && ends(entry.name@, ".git"@)
}

/// The bare repositories among the entries of a directory, in their order.
pub open spec fn bare_in(entries: Seq<DirEntry>) -> Seq<FoundView>
    decreases entries.len(),
{
    if entries.len() == 0 {
        seq![]
    } else {
        let before = bare_in(entries.drop_last());
        let entry = entries.last();
        if is_bare(entry) {
            before.push(
                FoundView { name: without_suffix(entry.name@, ".git"@), path: entry.path@ },
            )
        } else {
            before
        }
    }
}

/// The sidecars of found repositories.
pub open spec fn sidecars(root: Seq<char>, owner: Seq<char>, found: Seq<FoundView>) -> Seq<
    Seq<char>,
> {
    found.map_values(|f: FoundView| sidecar_path(root, owner, f.name))
}

/// Finds the bare repositories among the entries of a directory.
pub fn find_bare(entries: &Vec<DirEntry>) -> (found: Vec<Found>)
    ensures
        found_views(found@) == bare_in(entries@),
{
    let mut found: Vec<Found> = Vec::new();
    assert(found_views(found@) =~= bare_in(entries@.take(0)));
    for i in 0..entries.len()
        invariant
            found_views(found@) == bare_in(entries@.take(i as int)),
    {
        assert(entries@.take(i + 1).drop_last() =~= entries@.take(i as int));
        if entries[i].is_dir && ends_with(entries[i].name.as_str(), ".git") {
            let ghost before = found@;
            let one = Found {
                name: strip_suffix(entries[i].name.as_str(), ".git"),
                path: entries[i].path.clone(),
            };
            found.push(one);
            assert(found_views(found@) =~= found_views(before).push(one@));
        }
    }
    assert(entries@.take(entries@.len() as int) =~= entries@);
    found
}

/// The sidecars of found repositories.
pub fn sidecars_of(root: &str, owner: &str, found: &Vec<Found>) -> (paths: Vec<String>)
    ensures
        texts(paths@) == sidecars(root@, owner@, found_views(found@)),
{
    let ghost all = sidecars(root@, owner@, found_views(found@));
    let mut paths: Vec<String> = Vec::new();
    for i in 0..found.len()
        invariant
            all == sidecars(root@, owner@, found_views(found@)),
            texts(paths@) =~= all.take(i as int),
    {
        let path = meta_path(root, owner, found[i].name.as_str());
        add_text(&mut paths, path.as_str());
        assert(all.take(i + 1) =~= all.take(i as int).push(all[i as int]));
    }
    assert(all.take(found@.len() as int) =~= all);
    paths
}

/// The name that a user goes by: their username, or their id if that is empty.
pub open spec fn label_of(claims: Claims) -> Seq<char> {
    if claims.username@.len() == 0 {
        claims.sub@
    } else {
        claims.username@
    }
}

/// A repository of these metadata, without an id.
pub open spec fn listed(
    label: Seq<char>,
    name: Seq<char>,
    path: Seq<char>,
    meta: MetaView,
) -> RepositoryView {
    RepositoryView {
        id: seq![],
        name,
        owner: label,
        path,
        created_at: meta.created_at,
        visibility: meta.visibility,
        description: meta.description,
        star_count: meta.stars.len(),
        updated_at: meta.updated_at,
    }
}

/// The found repositories as lists show them, without ids.
pub open spec fn listing(
    label: Seq<char>,
    found: Seq<FoundView>,
    metas: Reply,
    now: Seq<char>,
) -> Seq<RepositoryView> {
    Seq::new(
        found.len(),
        |i: int|
            listed(label, found[i].name, found[i].path, meta_or_fresh(meta_nth(metas, i), now)),
    )
}

/// Listing the caller's repositories, but for the ids.
pub open spec fn list_step(ctx: Context, replies: Seq<Reply>) -> StepView<Seq<RepositoryView>> {
    match ctx.claims {
        None => StepView::Refuse(no_caller()),
        Some(c) => if replies.len() == 0 {
            StepView::Ask(WorkView::ListDir { path: user_path(ctx.root@, c.sub@) })
        } else {
            match entries_in(replies[0]) {
                None => StepView::Answer(200, seq![]),
                Some(entries) => {
                    let found = bare_in(entries@);
                    if replies.len() == 1 {
                        StepView::Ask(
                            WorkView::ReadMetas { paths: sidecars(ctx.root@, c.sub@, found) },
                        )
                    } else {
                        StepView::Answer(200, listing(label_of(c), found, replies[1], ctx.now@))
                    }
                },
            }
        },
    }
}

/// A repository without its id.
pub open spec fn without_id(r: RepositoryView) -> RepositoryView {
    RepositoryView { id: seq![], ..r }
}

/// A list of repositories without their ids.
pub open spec fn without_ids(step: StepView<Seq<RepositoryView>>) -> StepView<
    Seq<RepositoryView>,
> {
    match step {
        StepView::Answer(status, list) => StepView::Answer(
            status,
            list.map_values(|r: RepositoryView| without_id(r)),
        ),
        other => other,
    }
}

/// The name that a user goes by.
fn owner_label(claims: &Claims) -> (label: String)
    ensures
        label@ == label_of(*claims),
{
    if claims.username.as_str().is_empty() {
        claims.sub.clone()
    } else {
        claims.username.clone()
    }
}

/// A repository of this id and these metadata.
pub fn describe(id: String, label: &str, name: &str, path: &str, meta: &RepoMeta) -> (r: Repository)
    ensures
        r@ == (RepositoryView { id: id@, ..listed(label@, name@, path@, meta@) }),
{
    Repository {
        id,
        name: name.to_owned(),
        owner: label.to_owned(),
        path: path.to_owned(),
        created_at: meta.created_at.clone(),
        visibility: meta.visibility.clone(),
        description: meta.description.clone(),
        star_count: meta.stars.len(),
        updated_at: meta.updated_at.clone(),
    }
}

/// `GET /repositories`: the bare repositories of the caller, each with an id
/// that is new in every answer.
pub fn list_repositories(ctx: &Context, replies: &[Reply]) -> (step: Step<RepositoryList>)
    ensures
        without_ids(step@) == list_step(*ctx, replies@),
        match step@ {
            StepView::Answer(_, list) => forall|i: int|
                0 <= i < list.len() ==> is_uuid((#[trigger] list[i]).id),
            _ => true,
        },
{
    let claims = match require_auth(&ctx.claims) {
        Ok(c) => c,
        Err(e) => return Step::Done(Err(e)),
    };
    if replies.len() == 0 {
        return Step::Ask(
            Work::ListDir { path: user_dir(ctx.root.as_str(), claims.sub.as_str()) },
        );
    }
    let mut repositories: Vec<Repository> = Vec::new();
    let entries = match replies[0].entries() {
        Some(entries) => entries,
        None => {
            let body = RepositoryList { repositories };
            assert(body@ =~= seq![]);
            assert(body@.map_values(|r: RepositoryView| without_id(r)) =~= seq![]);
            return Step::Done(Ok(Answer { status: 200, body }));
        },
    };
    let found = find_bare(entries);
    if replies.len() == 1 {
        return Step::Ask(
            Work::ReadMetas {
                paths: sidecars_of(ctx.root.as_str(), claims.sub.as_str(), &found),
            },
        );
    }
    let label = owner_label(claims);
    let ghost all = listing(label@, found_views(found@), replies@[1], ctx.now@);
    let ghost strip = |r: RepositoryView| without_id(r);
    for i in 0..found.len()
        invariant
            replies@.len() >= 2,
            all == listing(label@, found_views(found@), replies@[1], ctx.now@),
            strip == (|r: RepositoryView| without_id(r)),
            repositories@.len() == i,
            repository_views(repositories@).map_values(strip) =~= all.take(i as int),
            forall|j: int| 0 <= j < i ==> is_uuid((#[trigger] repositories@[j])@.id),
    {
        let meta = read_meta(replies[1].nth_meta(i), ctx.now.as_str());
        let one = describe(
            draw_uuid(),
            label.as_str(),
            found[i].name.as_str(),
            found[i].path.as_str(),
            &meta,
        );
        let ghost before = repositories@;
        repositories.push(one);
        proof {
            assert(found_views(found@)[i as int] == found@[i as int]@);
            assert(all[i as int] == strip(one@));
            assert(repository_views(repositories@) =~= repository_views(before).push(one@));
            assert(repository_views(repositories@).map_values(strip) =~= repository_views(
                before,
            ).map_values(strip).push(strip(one@)));
            assert(all.take(i + 1) =~= all.take(i as int).push(all[i as int]));
        }
    }
    assert(all.take(found@.len() as int) =~= all);
    let body = RepositoryList { repositories };
    assert forall|i: int| 0 <= i < body@.len() implies is_uuid((#[trigger] body@[i]).id) by {
        assert(body@[i] == body.repositories@[i]@);
    }
    Step::Done(Ok(Answer { status: 200, body }))
}

/// Why a request for a new repository is refused, if it is.
pub open spec fn create_refusal(claims: Option<Claims>, body: CreateRepoRequest) -> Option<
    ErrorView,
> {
    match claims {
        None => Some(no_caller()),
        Some(c) => if trimmed(body.name@).len() == 0 {
            Some(plain(400, "name is required"@))
        } else if !is_safe(trimmed(body.name@)) {
            Some(
                plain(
                    400,
                    "name may only contain letters, numbers, dashes, dots, and underscores"@,
                ),
            )
        } else if body.user_id@ != c.sub@ {
            Some(plain(403, "user_id in body does not match the authenticated user"@))
        } else {
            None
        },
    }
}

/// `git init --bare` of a path.
pub open spec fn init_command(path: Seq<char>) -> CommandView {
    CommandView {
        dir: None,
        args: seq!["init"@, "--bare"@, path],
        env: seq![],
        input: None,
        scratch: None,
    }
}

/// Making a repository for the caller, but for its id.
pub open spec fn make_step(
    ctx: Context,
    body: CreateRepoRequest,
    replies: Seq<Reply>,
) -> StepView<RepositoryView> {
    match create_refusal(ctx.claims, body) {
        Some(e) => StepView::Refuse(e),
        None => {
            let c = ctx.claims->0;
            let name = trimmed(body.name@);
            let path = bare_path(ctx.root@, c.sub@, name);
            if replies.len() == 0 {
                StepView::Ask(WorkView::MakeDir { path: user_path(ctx.root@, c.sub@) })
            } else if !flag_in(replies[0]) {
                StepView::Refuse(plain(500, "Failed to create repository directory"@))
            } else if replies.len() == 1 {
                StepView::Ask(WorkView::Git(init_command(path)))
            } else {
                let g = git_in(replies[1]);
                if !ended(g) {
                    StepView::Refuse(plain(500, "Failed to run git command"@))
                } else if !succeeded(g) {
                    StepView::Refuse(
                        ErrorView {
                            status: 500,
                            error: "git init failed"@,
                            detail: Some(trimmed(lossy_text(stderr_of(g)))),
                        },
                    )
                } else if replies.len() == 2 {
                    StepView::Ask(
                        WorkView::WriteMeta {
                            path: sidecar_path(ctx.root@, c.sub@, name),
                            meta: fresh_meta(ctx.now@),
                        },
                    )
                } else {
                    StepView::Answer(201, listed(label_of(c), name, path, fresh_meta(ctx.now@)))
                }
            }
        },
    }
}

/// A new repository without its id.
pub open spec fn without_new_id(step: StepView<RepositoryView>) -> StepView<RepositoryView> {
    match step {
        StepView::Answer(status, r) => StepView::Answer(status, without_id(r)),
        other => other,
    }
}

/// `POST /repositories`: makes a bare repository for the caller. That its
/// metadata could not be stored is no failure.
pub fn create_repository(
    ctx: &Context,
    body: &CreateRepoRequest,
    replies: &[Reply],
) -> (step: Step<Repository>)
    ensures
        without_new_id(step@) == make_step(*ctx, *body, replies@),
        match step@ {
            StepView::Answer(_, r) => is_uuid(r.id),
            _ => true,
        },
{
    let claims = match require_auth(&ctx.claims) {
        Ok(c) => c,
        Err(e) => return Step::Done(Err(e)),
    };
    let name = trim(body.name.as_str());
    if name.as_str().is_empty() {
        return Step::Done(Err(bad_request("name is required")));
    }
    if !is_safe_segment(name.as_str()) {
        return Step::Done(
            Err(
                bad_request(
                    "name may only contain letters, numbers, dashes, dots, and underscores",
                ),
            ),
        );
    }
    if !same(body.user_id.as_str(), claims.sub.as_str()) {
        return Step::Done(
            Err(forbidden_msg("user_id in body does not match the authenticated user")),
        );
    }
    let root: &str = ctx.root.as_str();
    let sub: &str = claims.sub.as_str();
    if replies.len() == 0 {
        return Step::Ask(Work::MakeDir { path: user_dir(root, sub) });
    }
    if !replies[0].flag() {
        return Step::Done(Err(internal("Failed to create repository directory")));
    }
    let path = repo_path(root, sub, name.as_str());
    if replies.len() == 1 {
        let args: [&str; 3] = ["init", "--bare", path.as_str()];
        assert(slices(args@) =~= seq!["init"@, "--bare"@, path@]);
        let command = GitCommand {
            dir: None,
            args: strings(&args),
            env: Vec::new(),
            input: None,
            scratch: None,
        };
        assert(command@ =~= init_command(path@));
        return Step::Ask(Work::Git(command));
    }
    let g = replies[1].git();
    if !g.ended() {
        return Step::Done(Err(internal("Failed to run git command")));
    }
    if !g.success() {
        let complaint = g.complaint();
        return Step::Done(Err(tool_failure("git init failed", trim(complaint.as_str()))));
    }
    let meta = RepoMeta::fresh(ctx.now.as_str());
    if replies.len() == 2 {
        return Step::Ask(write_meta(root, sub, name.as_str(), meta));
    }
    let label = owner_label(claims);
    Step::Done(
        Ok(
            Answer {
                status: 201,
                body: describe(draw_uuid(), label.as_str(), name.as_str(), path.as_str(), &meta),
            },
        ),
    )
}

/// Removing the caller's repository.
pub open spec fn remove_step(
    ctx: Context,
    owner: Seq<char>,
    repo: Seq<char>,
    replies: Seq<Reply>,
) -> StepView<()> {
    match owner_refusal(ctx.claims, owner, repo) {
        Some(e) => StepView::Refuse(e),
        None => {
            let sub = ctx.claims->0.sub@;
            if replies.len() == 0 {
                StepView::Ask(WorkView::RemoveDir { path: bare_path(ctx.root@, sub, repo) })
            } else {
                match removal_in(replies[0]) {
                    Removal::Missing => StepView::Refuse(plain(404, "repository not found"@)),
                    Removal::Failed => StepView::Refuse(
                        plain(500, "failed to remove repository"@),
                    ),
                    Removal::Removed => if replies.len() == 1 {
                        StepView::Ask(
                            WorkView::RemoveFile { path: sidecar_path(ctx.root@, sub, repo) },
                        )
                    } else {
                        StepView::Answer(204, ())
                    },
                }
            }
        },
    }
}

/// `DELETE /repositories/{owner}/{repo}`: removes a repository for good. That
/// its metadata could not be removed is no failure.
pub fn delete_repository(
    ctx: &Context,
    owner: &str,
    repo: &str,
    replies: &[Reply],
) -> (step: Step<()>)
    ensures
        step@ == remove_step(*ctx, owner@, repo@, replies@),
{
    let dir = match require_owner(ctx, owner, repo) {
        Ok(dir) => dir,
        Err(e) => return Step::Done(Err(e)),
    };
    if replies.len() == 0 {
        return Step::Ask(Work::RemoveDir { path: dir });
    }
    match replies[0].removal() {
        Removal::Missing => {
            return Step::Done(Err(not_found("repository not found")));
        },
        Removal::Failed => {
            return Step::Done(Err(internal("failed to remove repository")));
        },
        Removal::Removed => {},
    }
    if replies.len() == 1 {
        let sub: &str = match &ctx.claims {
            Some(c) => c.sub.as_str(),
            None => "",
        };
        return Step::Ask(Work::RemoveFile { path: meta_path(ctx.root.as_str(), sub, repo) });
    }
    Step::Done(Ok(Answer { status: 204, body: () }))
}

/// A repository that a profile shows.
#[derive(Debug)]
pub struct Shown {
    /// Its name.
    pub name: String,
    /// Its metadata.
    pub meta: RepoMeta,
}

/// What a [`Shown`] holds.
#[verifier::ext_equal]
pub struct ShownView {
    /// Its name.
    pub name: Seq<char>,
    /// Its metadata.
    pub meta: MetaView,
}

impl View for Shown {
    type V = ShownView;

    open spec fn view(&self) -> ShownView {
        ShownView { name: self.name@, meta: self.meta@ }
    }
}

/// The views of a list of shown repositories.
pub open spec fn shown_views(list: Seq<Shown>) -> Seq<ShownView> {
    list.map_values(|s: Shown| s@)
}

/// The first `n` found repositories that a profile shows: the public ones, and
/// to their owner all.
pub open spec fn shown_in(
    found: Seq<FoundView>,
    metas: Reply,
    is_self: bool,
    now: Seq<char>,
    n: int,
) -> Seq<ShownView>
    decreases n,
{
    if n <= 0 {
        seq![]
    } else {
        let before = shown_in(found, metas, is_self, now, n - 1);
        let meta = meta_or_fresh(meta_nth(metas, n - 1), now);
        if meta.visibility == "public"@ || is_self {
            before.push(ShownView { name: found[n - 1].name, meta })
        } else {
            before
        }
    }
}

/// The command that tells when the latest commit was written.
pub open spec fn latest_command(dir: Seq<char>) -> CommandView {
    git_command(dir, seq!["log"@, "-1"@, "--format=%at"@, "--all"@])
}

/// When the latest commit was written, if there is one.
pub open spec fn latest_of(g: GitReply) -> Option<i64> {
    if succeeded(g) {
        maybe_seconds(printed_name(g))
    } else {
        None
    }
}

/// A repository in a profile.
pub open spec fn profile_row(owner: Seq<char>, shown: ShownView, g: GitReply) -> ProfileView {
    ProfileView {
        name: shown.name,
        owner,
        visibility: shown.meta.visibility,
        description: shown.meta.description,
        star_count: shown.meta.stars.len(),
        created_at: shown.meta.created_at,
        updated_at: shown.meta.updated_at,
        last_commit_timestamp: latest_of(g),
    }
}

/// The repositories in a profile, in the order of the directory.
pub open spec fn profile_rows(
    owner: Seq<char>,
    shown: Seq<ShownView>,
    logs: Reply,
) -> Seq<ProfileView> {
    Seq::new(shown.len(), |i: int| profile_row(owner, shown[i], git_nth(logs, i)))
}

/// By what profiles are sorted: the latest commit, or zero.
pub open spec fn commit_time(r: ProfileView) -> i64 {
    match r.last_commit_timestamp {
        Some(t) => t,
        None => 0,
    }
}

/// The place for a repository in a sorted list: behind all that are not older.
pub open spec fn place_in(list: Seq<ProfileView>, r: ProfileView) -> nat
    decreases list.len(),
{
    if list.len() == 0 || commit_time(list.last()) >= commit_time(r) {
        list.len()
    } else {
        place_in(list.drop_last(), r)
    }
}

/// The repositories sorted by their latest commit, the latest first; what is
/// equally old keeps its order.
pub open spec fn latest_first(list: Seq<ProfileView>) -> Seq<ProfileView>
    decreases list.len(),
{
    if list.len() == 0 {
        seq![]
    } else {
        let before = latest_first(list.drop_last());
        before.insert(place_in(before, list.last()) as int, list.last())
    }
}

/// The caller looks at their own profile.
pub open spec fn looks_at_self(ctx: Context, owner: Seq<char>) -> bool {
    ctx.claims is Some && is_owner(owner, ctx.claims->0)
}

/// Showing the profile of a user.
pub open spec fn profile_step(
    ctx: Context,
    owner: Seq<char>,
    replies: Seq<Reply>,
) -> StepView<Seq<ProfileView>> {
    if !is_safe(owner) {
        StepView::Refuse(plain(400, "invalid owner"@))
    } else {
        match canonical_part(ctx, owner, replies, 0) {
            PartView::Ask(work) => StepView::Ask(work),
            PartView::Fail(e) => StepView::Refuse(e),
            PartView::Have(canonical, at) => if replies.len() <= at {
                StepView::Ask(WorkView::ListDir { path: user_path(ctx.root@, canonical) })
            } else {
                match entries_in(replies[at]) {
                    None => StepView::Answer(200, seq![]),
                    Some(entries) => {
                        let found = bare_in(entries@);
                        if replies.len() <= at + 1 {
                            StepView::Ask(
                                WorkView::ReadMetas {
                                    paths: sidecars(ctx.root@, canonical, found),
                                },
                            )
                        } else {
                            let shown = shown_in(
                                found,
                                replies[at + 1],
                                looks_at_self(ctx, owner),
                                ctx.now@,
                                found.len() as int,
                            );
                            if replies.len() <= at + 2 {
                                StepView::Ask(
                                    WorkView::GitAll(
                                        shown.map_values(
                                            |s: ShownView|
                                                latest_command(
                                                    bare_path(ctx.root@, canonical, s.name),
                                                ),
                                        ),
                                    ),
                                )
                            } else {
                                StepView::Answer(
                                    200,
                                    latest_first(profile_rows(owner, shown, replies[at + 2])),
                                )
                            }
                        }
                    },
                }
            },
        }
    }
}

/// The found repositories that a profile shows.
fn pick_shown(
    found: &Vec<Found>,
    metas: &Reply,
    is_self: bool,
    now: &str,
) -> (shown: Vec<Shown>)
    ensures
        shown_views(shown@) == shown_in(
            found_views(found@),
            *metas,
            is_self,
            now@,
            found@.len() as int,
        ),
{
    let ghost views = found_views(found@);
    let mut shown: Vec<Shown> = Vec::new();
    assert(shown_views(shown@) =~= seq![]);
    for i in 0..found.len()
        invariant
            views == found_views(found@),
            shown_views(shown@) == shown_in(views, *metas, is_self, now@, i as int),
    {
        let meta = read_meta(metas.nth_meta(i), now);
        if same(meta.visibility.as_str(), "public") || is_self {
            let ghost before = shown@;
            let one = Shown { name: found[i].name.clone(), meta };
            shown.push(one);
            assert(shown_views(shown@) =~= shown_views(before).push(one@));
        }
    }
    shown
}

/// The commands that tell when the latest commits were written.
fn latest_commands(root: &str, canonical: &str, shown: &Vec<Shown>) -> (list: Vec<GitCommand>)
    ensures
        commands(list@) == shown_views(shown@).map_values(
            |s: ShownView| latest_command(bare_path(root@, canonical@, s.name)),
        ),
{
    let ghost all = shown_views(shown@).map_values(
        |s: ShownView| latest_command(bare_path(root@, canonical@, s.name)),
    );
    let mut list: Vec<GitCommand> = Vec::new();
    for i in 0..shown.len()
        invariant
            all == shown_views(shown@).map_values(
                |s: ShownView| latest_command(bare_path(root@, canonical@, s.name)),
            ),
            commands(list@) =~= all.take(i as int),
    {
        let dir = repo_path(root, canonical, shown[i].name.as_str());
        let args: [&str; 4] = ["log", "-1", "--format=%at", "--all"];
        assert(slices(args@) =~= seq!["log"@, "-1"@, "--format=%at"@, "--all"@]);
        let command = git_in_dir(dir.as_str(), &args);
        let ghost before = list@;
        list.push(command);
        proof {
            assert(shown_views(shown@)[i as int] == shown@[i as int]@);
            assert(all[i as int] == command@);
            assert(commands(list@) =~= commands(before).push(command@));
            assert(all.take(i + 1) =~= all.take(i as int).push(all[i as int]));
        }
    }
    assert(all.take(shown@.len() as int) =~= all);
    list
}

/// When the latest commit was written, if there is one.
pub fn latest_commit_timestamp(g: &GitReply) -> (time: Option<i64>)
    ensures
        time == latest_of(*g),
{
    if !g.success() {
        return None;
    }
    let text = g.printed_name();
    parse_seconds(text.as_str())
}

fn time_of(r: &ProfileRepo) -> (t: i64)
    ensures
        t == commit_time(r@),
{
    match r.last_commit_timestamp {
        Some(t) => t,
        None => 0,
    }
}

/// Puts a repository into a sorted list, behind all that are not older.
fn place(list: &mut Vec<ProfileRepo>, r: ProfileRepo)
    ensures
        profile_views(final(list)@) == profile_views(old(list)@).insert(
            place_in(profile_views(old(list)@), r@) as int,
            r@,
        ),
{
    let ghost views = profile_views(list@);
    let mut i: usize = list.len();
    assert(views.take(i as int) =~= views);
    while i > 0 && time_of(&list[i - 1]) < time_of(&r)
        invariant
            i <= list@.len(),
            views == profile_views(list@),
            place_in(views, r@) == place_in(views.take(i as int), r@),
        decreases i,
    {
        assert(views.take(i as int).drop_last() =~= views.take(i - 1));
        assert(views.take(i as int).last() == list@[i - 1]@);
        i = i - 1;
    }
    assert(i > 0 ==> views.take(i as int).last() == list@[i - 1]@);
    assert(place_in(views.take(i as int), r@) == i);
    let ghost before = list@;
    list.insert(i, r);
    assert(profile_views(list@) =~= views.insert(i as int, r@));
}

/// The repositories of a profile, sorted.
fn sorted_rows(owner: &str, shown: &Vec<Shown>, logs: &Reply) -> (list: Vec<ProfileRepo>)
    ensures
        profile_views(list@) == latest_first(profile_rows(owner@, shown_views(shown@), *logs)),
{
    let ghost rows = profile_rows(owner@, shown_views(shown@), *logs);
    let mut list: Vec<ProfileRepo> = Vec::new();
    assert(profile_views(list@) =~= latest_first(rows.take(0)));
    for i in 0..shown.len()
        invariant
            rows == profile_rows(owner@, shown_views(shown@), *logs),
            profile_views(list@) == latest_first(rows.take(i as int)),
    {
        let meta = &shown[i].meta;
        let row = ProfileRepo {
            name: shown[i].name.clone(),
            owner: owner.to_owned(),
            visibility: meta.visibility.clone(),
            description: meta.description.clone(),
            star_count: meta.stars.len(),
            created_at: meta.created_at.clone(),
            updated_at: meta.updated_at.clone(),
            last_commit_timestamp: latest_commit_timestamp(logs.nth_git(i)),
        };
        proof {
            assert(shown_views(shown@)[i as int] == shown@[i as int]@);
            assert(row@ =~= rows[i as int]);
            assert(rows.take(i + 1).drop_last() =~= rows.take(i as int));
            assert(rows.take(i + 1).last() == row@);
        }
        place(&mut list, row);
    }
    assert(rows.take(shown@.len() as int) =~= rows);
    list
}

/// `GET /repositories/profile/{owner}`: the repositories of a user that the
/// caller may see, those with the latest commit first.
pub fn profile_repos(ctx: &Context, owner: &str, replies: &[Reply]) -> (step: Step<ProfileList>)
    ensures
        step@ == profile_step(*ctx, owner@, replies@),
{
    if !is_safe_segment(owner) {
        return Step::Done(Err(bad_request("invalid owner")));
    }
    let is_self = match &ctx.claims {
        Some(c) => owns(owner, c),
        None => false,
    };
    let (canonical, at) = match find_canonical(ctx, owner, replies, 0) {
        Part::Ask(work) => return Step::Ask(work),
        Part::Fail(e) => return Step::Done(Err(e)),
        Part::Have { value, used } => (value, used),
    };
    let root: &str = ctx.root.as_str();
    if replies.len() <= at {
        return Step::Ask(Work::ListDir { path: user_dir(root, canonical.as_str()) });
    }
    let entries = match replies[at].entries() {
        Some(entries) => entries,
        None => {
            let body = ProfileList { repositories: Vec::new() };
            assert(body@ =~= seq![]);
            return Step::Done(Ok(Answer { status: 200, body }));
        },
    };
    let found = find_bare(entries);
    assert(found_views(found@).len() == found@.len());
    if replies.len() <= at + 1 {
        return Step::Ask(
            Work::ReadMetas { paths: sidecars_of(root, canonical.as_str(), &found) },
        );
    }
    let shown = pick_shown(&found, &replies[at + 1], is_self, ctx.now.as_str());
    if replies.len() <= at + 2 {
        return Step::Ask(Work::GitAll(latest_commands(root, canonical.as_str(), &shown)));
    }
    Step::Done(
        Ok(
            Answer {
                status: 200,
                body: ProfileList { repositories: sorted_rows(owner, &shown, &replies[at + 2]) },
            },
        ),
    )
}

} // verus!
