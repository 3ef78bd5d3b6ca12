//! Settings, stars and collaborators: what is read, stored and answered, from
//! the metadata and the request.

use vstd::prelude::*;

use super::access::{directories_name_their_owner, home_of, is_own, is_refused};
use crate::authz::{member_part, read_part, Context};
use crate::metadata::{MetaView, RepoMeta};
use crate::pathing::is_safe;
use crate::settings::{
    collaborators_step, settings_step, star_step, summary_step, unstar_step, without,
};
use crate::text::texts;
use crate::types::{SettingsView, StarredView, SummaryView, UpdateSettingsBody};
use crate::work::{PartView, Reply, StepView, WorkView};

verus! {

/// Where the metadata of a repository stand.
pub open spec fn beside(root: Seq<char>, id: Seq<char>, repo: Seq<char>) -> Seq<char> {
    root + "/"@ + id + "/"@ + repo + ".meta.json"@
}

/// The metadata that are in force: those that are stored, or public, made now
/// and otherwise empty.
pub open spec fn in_force(stored: Option<RepoMeta>, now: Seq<char>) -> MetaView {
    match stored {
        Some(meta) => MetaView {
            visibility: meta.visibility@,
            description: meta.description@,
            stars: texts(meta.stars@),
            collaborators: texts(meta.collaborators@),
            created_at: meta.created_at@,
            updated_at: meta.updated_at@,
        },
        None => MetaView {
            visibility: "public"@,
            description: seq![],
            stars: seq![],
            collaborators: seq![],
            created_at: now,
            updated_at: now,
        },
    }
}

/// A repository's metadata are shown as they are stored, with the number of its
/// stars and whether one is the caller's.
pub proof fn metadata_are_shown(
    ctx: Context,
    owner: Seq<char>,
    repo: Seq<char>,
    replies: Seq<Reply>,
    id: Seq<char>,
    at: int,
    stored: Option<RepoMeta>,
)
    requires
        !id.contains('/'),
        read_part(ctx, owner, repo, replies, 0) == PartView::Have(
            home_of(ctx.root@, id, repo),
            at,
        ),
    ensures
        ({
            let step = summary_step(ctx, owner, repo, replies);
            let meta = in_force(stored, ctx.now@);
            &&& replies.len() <= at ==> step == StepView::<SummaryView>::Ask(
                WorkView::ReadMeta { path: beside(ctx.root@, id, repo) },
            )
            &&& replies.len() > at && replies[at] == Reply::Meta(stored) ==> step
                == StepView::Answer(
                200,
                SummaryView {
                    visibility: meta.visibility,
                    description: meta.description,
                    star_count: meta.stars.len(),
                    starred_by_me: match ctx.claims {
                        Some(c) => meta.stars.contains(c.sub@),
                        None => false,
                    },
                    collaborators: meta.collaborators,
                    created_at: meta.created_at,
                    updated_at: meta.updated_at,
                },
            )
        }),
{
    directories_name_their_owner(ctx.root@, id, repo, owner);
}

/// Settings change as the request says: the visibility and the description that
/// it names take the place of the old ones, what it leaves out stays, and the
/// time of the change is now. That is stored where it was read, and answered.
pub proof fn settings_change_as_asked(
    ctx: Context,
    owner: Seq<char>,
    repo: Seq<char>,
    body: UpdateSettingsBody,
    replies: Seq<Reply>,
    stored: Option<RepoMeta>,
)
    ensures
        ({
            let step = settings_step(ctx, owner, repo, body, replies);
            let safe = is_safe(owner) && is_safe(repo);
            let own = is_own(ctx, owner, repo);
            let path = beside(ctx.root@, ctx.claims->0.sub@, repo);
            let before = in_force(stored, ctx.now@);
            let read = own && replies.len() > 0 && replies[0] == Reply::Meta(stored);
            let wrong = body.visibility is Some && body.visibility->0@ != "public"@
                && body.visibility->0@ != "private"@;
            let visibility = match body.visibility {
                Some(v) => v@,
                None => before.visibility,
            };
            let description = match body.description {
                Some(d) => d@,
                None => before.description,
            };
            &&& ctx.claims is None ==> is_refused(step, 401, "authentication required"@)
            &&& ctx.claims is Some && !safe ==> is_refused(step, 400, "invalid path segment"@)
            &&& ctx.claims is Some && safe && !own ==> is_refused(step, 403, "forbidden"@)
            &&& own && replies.len() == 0 ==> step == StepView::<SettingsView>::Ask(
                WorkView::ReadMeta { path },
            )
            &&& read && wrong ==> is_refused(step, 400, "visibility must be 'public' or 'private'"@)
            &&& read && !wrong && replies.len() == 1 ==> step == StepView::<SettingsView>::Ask(
                WorkView::WriteMeta {
                    path,
                    meta: MetaView {
                        visibility,
                        description,
                        stars: before.stars,
                        collaborators: before.collaborators,
                        created_at: before.created_at,
                        updated_at: ctx.now@,
                    },
                },
            )
            &&& read && !wrong && replies.len() > 1 && replies[1] == Reply::Flag(true) ==> step
                == StepView::Answer(200, SettingsView { visibility, description })
            &&& read && !wrong && replies.len() > 1 && replies[1] == Reply::Flag(false)
                ==> is_refused(step, 500, "failed to save settings"@)
        }),
{
}

/// Starring adds the caller behind the stars that there are, and stores that; a
/// second star stores nothing. Either way the answer counts the stars.
pub proof fn stars_are_given(
    ctx: Context,
    owner: Seq<char>,
    repo: Seq<char>,
    replies: Seq<Reply>,
    id: Seq<char>,
    at: int,
    stored: Option<RepoMeta>,
)
    requires
        !id.contains('/'),
        ctx.claims is Some,
        member_part(ctx, owner, repo, replies, 0) == PartView::Have(
            home_of(ctx.root@, id, repo),
            at,
        ),
    ensures
        ({
            let step = star_step(ctx, owner, repo, replies);
            let path = beside(ctx.root@, id, repo);
            let user = ctx.claims->0.sub@;
            let before = in_force(stored, ctx.now@);
            let read = replies.len() > at && replies[at] == Reply::Meta(stored);
            let held = before.stars.contains(user);
            &&& replies.len() <= at ==> step == StepView::<StarredView>::Ask(
                WorkView::ReadMeta { path },
            )
            &&& read && held ==> step == StepView::Answer(
                200,
                StarredView { starred: true, star_count: before.stars.len() },
            )
            &&& read && !held && replies.len() == at + 1 ==> step == StepView::<StarredView>::Ask(
                WorkView::WriteMeta {
                    path,
                    meta: MetaView {
                        visibility: before.visibility,
                        description: before.description,
                        stars: before.stars.push(user),
                        collaborators: before.collaborators,
                        created_at: before.created_at,
                        updated_at: ctx.now@,
                    },
                },
            )
            &&& read && !held && replies.len() > at + 1 && replies[at + 1] == Reply::Flag(true)
                ==> step == StepView::Answer(
                200,
                StarredView { starred: true, star_count: before.stars.len() + 1 },
            )
            &&& read && !held && replies.len() > at + 1 && replies[at + 1] == Reply::Flag(false)
                ==> is_refused(step, 500, "failed to save star"@)
        }),
{
    directories_name_their_owner(ctx.root@, id, repo, owner);
}

/// Taking a star back takes the caller out of the stars, leaves the others in
/// their order, and stores that; one who gave no star stores nothing.
pub proof fn stars_are_taken_back(
    ctx: Context,
    owner: Seq<char>,
    repo: Seq<char>,
    replies: Seq<Reply>,
    id: Seq<char>,
    at: int,
    stored: Option<RepoMeta>,
    others: spec_fn(Seq<char>) -> bool,
)
    requires
        !id.contains('/'),
        ctx.claims is Some,
        member_part(ctx, owner, repo, replies, 0) == PartView::Have(
            home_of(ctx.root@, id, repo),
            at,
        ),
        forall|user: Seq<char>| #[trigger] others(user) == (user != ctx.claims->0.sub@),
    ensures
        ({
            let step = unstar_step(ctx, owner, repo, replies);
            let path = beside(ctx.root@, id, repo);
            let user = ctx.claims->0.sub@;
            let before = in_force(stored, ctx.now@);
            let left = before.stars.filter(others);
            let read = replies.len() > at && replies[at] == Reply::Meta(stored);
            let held = before.stars.contains(user);
            &&& replies.len() <= at ==> step == StepView::<StarredView>::Ask(
                WorkView::ReadMeta { path },
            )
            &&& read && !held ==> step == StepView::Answer(
                200,
                StarredView { starred: false, star_count: before.stars.len() },
            )
            &&& read && held && replies.len() == at + 1 ==> step == StepView::<StarredView>::Ask(
                WorkView::WriteMeta {
                    path,
                    meta: MetaView {
                        visibility: before.visibility,
                        description: before.description,
                        stars: left,
                        collaborators: before.collaborators,
                        created_at: before.created_at,
                        updated_at: ctx.now@,
                    },
                },
            )
            &&& read && held && replies.len() > at + 1 && replies[at + 1] == Reply::Flag(true)
                ==> step == StepView::Answer(
                200,
                StarredView { starred: false, star_count: left.len() },
            )
            &&& read && held && replies.len() > at + 1 && replies[at + 1] == Reply::Flag(false)
                ==> is_refused(step, 500, "failed to save star"@)
        }),
{
    directories_name_their_owner(ctx.root@, id, repo, owner);
    lemma_without_filters(in_force(stored, ctx.now@).stars, ctx.claims->0.sub@, others);
}

proof fn lemma_without_filters(
    list: Seq<Seq<char>>,
    item: Seq<char>,
    others: spec_fn(Seq<char>) -> bool,
)
    requires
        forall|x: Seq<char>| #[trigger] others(x) == (x != item),
    ensures
        without(list, item) == list.filter(others),
    decreases list.len(),
{
    reveal(Seq::filter);
    if list.len() > 0 {
        lemma_without_filters(list.drop_last(), item, others);
    }
}

/// A collaborator joins behind those that there are, or leaves them in their
/// order; that is stored where it was read, and the answer names all that are
/// collaborators now. Nobody joins twice, and nobody leaves who is none.
pub proof fn collaborators_come_and_go(
    ctx: Context,
    owner: Seq<char>,
    repo: Seq<char>,
    user: Seq<char>,
    joins: bool,
    replies: Seq<Reply>,
    stored: Option<RepoMeta>,
    others: spec_fn(Seq<char>) -> bool,
)
    requires
        forall|x: Seq<char>| #[trigger] others(x) == (x != user),
    ensures
        ({
            let step = collaborators_step(ctx, owner, repo, user, joins, replies);
            let safe = is_safe(owner) && is_safe(repo);
            let own = is_own(ctx, owner, repo);
            let path = beside(ctx.root@, ctx.claims->0.sub@, repo);
            let before = in_force(stored, ctx.now@);
            let read = own && replies.len() > 0 && replies[0] == Reply::Meta(stored);
            let held = before.collaborators.contains(user);
            let now = if joins {
                before.collaborators.push(user)
            } else {
                before.collaborators.filter(others)
            };
            &&& ctx.claims is None ==> is_refused(step, 401, "authentication required"@)
            &&& ctx.claims is Some && !safe ==> is_refused(step, 400, "invalid path segment"@)
            &&& ctx.claims is Some && safe && !own ==> is_refused(step, 403, "forbidden"@)
            &&& own && replies.len() == 0 ==> step == StepView::<Seq<Seq<char>>>::Ask(
                WorkView::ReadMeta { path },
            )
            &&& read && joins && held ==> is_refused(step, 409, "user is already a collaborator"@)
            &&& read && !joins && !held ==> is_refused(step, 404, "user is not a collaborator"@)
            &&& read && joins != held && replies.len() == 1 ==> step == StepView::<
                Seq<Seq<char>>,
            >::Ask(
                WorkView::WriteMeta {
                    path,
                    meta: MetaView {
                        visibility: before.visibility,
                        description: before.description,
                        stars: before.stars,
                        collaborators: now,
                        created_at: before.created_at,
                        updated_at: ctx.now@,
                    },
                },
            )
            &&& read && joins != held && replies.len() > 1 && replies[1] == Reply::Flag(true)
                ==> step == StepView::Answer(200, now)
            &&& read && joins && !held && replies.len() > 1 && replies[1] == Reply::Flag(false)
                ==> is_refused(step, 500, "failed to add collaborator"@)
            &&& read && !joins && held && replies.len() > 1 && replies[1] == Reply::Flag(false)
                ==> is_refused(step, 500, "failed to remove collaborator"@)
        }),
{
    lemma_without_filters(in_force(stored, ctx.now@).collaborators, user, others);
}

} // verus!
