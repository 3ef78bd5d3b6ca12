//! The settings of a repository, its stars and its collaborators.

use vstd::prelude::*;

use crate::authz::{
    member_part, owner_in, owner_of_dir, owner_refusal, read_part, require_authenticated_access,
    require_owner_id, require_read_access, Claims, Context,
};
use crate::errors::{bad_request, conflict, internal, not_found, plain, ApiError, ErrorView};
use crate::metadata::{
    meta_or_fresh, meta_path, read_meta, sidecar_path, write_meta, MetaView, RepoMeta,
};
use crate::text::{add_text, copy_texts, holds_text, same, texts};
use crate::types::{
    CollaboratorBody, Collaborators, MetaSummary, Settings, SettingsView, Starred, StarredView,
    SummaryView, UpdateSettingsBody,
};
use crate::work::{
    flag_in, meta_in, Answer, Part, PartView, Reply, Step, StepView, Work, WorkView,
};

verus! {

/// A list without an item.
pub open spec fn without(list: Seq<Seq<char>>, item: Seq<char>) -> Seq<Seq<char>>
    decreases list.len(),
{
    if list.len() == 0 {
        seq![]
    } else {
        let before = without(list.drop_last(), item);
        if list.last() == item {
            before
        } else {
            before.push(list.last())
        }
    }
}

/// The metadata after a user starred the repository: nothing changes for one
/// who had.
pub open spec fn after_star(meta: MetaView, user: Seq<char>, now: Seq<char>) -> MetaView {
    if meta.stars.contains(user) {
        meta
    } else {
        MetaView { stars: meta.stars.push(user), updated_at: now, ..meta }
    }
}

/// The metadata after a user took their star back: nothing changes for one who
/// had given none.
pub open spec fn after_unstar(meta: MetaView, user: Seq<char>, now: Seq<char>) -> MetaView {
    if meta.stars.contains(user) {
        MetaView { stars: without(meta.stars, user), updated_at: now, ..meta }
    } else {
        meta
    }
}

/// The metadata after a collaborator joined, or the error of one who had.
pub open spec fn after_join(
    meta: MetaView,
    user: Seq<char>,
    now: Seq<char>,
) -> Result<MetaView, ErrorView> {
    if meta.collaborators.contains(user) {
        Err(plain(409, "user is already a collaborator"@))
    } else {
        Ok(MetaView { collaborators: meta.collaborators.push(user), updated_at: now, ..meta })
    }
}

/// The metadata after a collaborator left, or the error of one who is none.
pub open spec fn after_leave(
    meta: MetaView,
    user: Seq<char>,
    now: Seq<char>,
) -> Result<MetaView, ErrorView> {
    if meta.collaborators.contains(user) {
        Ok(MetaView { collaborators: without(meta.collaborators, user), updated_at: now, ..meta })
    } else {
        Err(plain(404, "user is not a collaborator"@))
    }
}

/// A visibility that a repository may have.
pub open spec fn is_visibility(s: Seq<char>) -> bool {
    s == "public"@ || s == "private"@
}

/// The metadata after settings changed, or the error of a visibility that there
/// is not. What the request leaves out stays.
pub open spec fn after_settings(
    meta: MetaView,
    body: UpdateSettingsBody,
    now: Seq<char>,
) -> Result<MetaView, ErrorView> {
    if body.visibility is Some && !is_visibility(body.visibility->0@) {
        Err(plain(400, "visibility must be 'public' or 'private'"@))
    } else {
        Ok(
            MetaView {
                visibility: match body.visibility {
                    Some(v) => v@,
                    None => meta.visibility,
                },
                description: match body.description {
                    Some(d) => d@,
                    None => meta.description,
                },
                updated_at: now,
                ..meta
            },
        )
    }
}

/// The metadata, as a caller sees it.
pub open spec fn summary_of(meta: MetaView, claims: Option<Claims>) -> SummaryView {
    SummaryView {
        visibility: meta.visibility,
        description: meta.description,
        star_count: meta.stars.len(),
        starred_by_me: claims is Some && meta.stars.contains(claims->0.sub@),
        collaborators: meta.collaborators,
        created_at: meta.created_at,
        updated_at: meta.updated_at,
    }
}

/// Showing the metadata of a repository.
pub open spec fn summary_step(
    ctx: Context,
    owner: Seq<char>,
    repo: Seq<char>,
    replies: Seq<Reply>,
) -> StepView<SummaryView> {
    match read_part(ctx, owner, repo, replies, 0) {
        PartView::Ask(work) => StepView::Ask(work),
        PartView::Fail(e) => StepView::Refuse(e),
        PartView::Have(dir, at) => {
            let canonical = owner_in(ctx.root@, dir, owner);
            if replies.len() <= at {
                StepView::Ask(
                    WorkView::ReadMeta { path: sidecar_path(ctx.root@, canonical, repo) },
                )
            } else {
                StepView::Answer(
                    200,
                    summary_of(meta_or_fresh(meta_in(replies[at]), ctx.now@), ctx.claims),
                )
            }
        },
    }
}

/// Storing changed metadata, and the answer once it is stored.
pub open spec fn store_step<T>(
    path: Seq<char>,
    meta: MetaView,
    failure: Seq<char>,
    answer: T,
    replies: Seq<Reply>,
    at: int,
) -> StepView<T> {
    if replies.len() <= at {
        StepView::Ask(WorkView::WriteMeta { path, meta })
    } else if flag_in(replies[at]) {
        StepView::Answer(200, answer)
    } else {
        StepView::Refuse(plain(500, failure))
    }
}

/// Changing the settings of the caller's repository.
pub open spec fn settings_step(
    ctx: Context,
    owner: Seq<char>,
    repo: Seq<char>,
    body: UpdateSettingsBody,
    replies: Seq<Reply>,
) -> StepView<SettingsView> {
    match owner_refusal(ctx.claims, owner, repo) {
        Some(e) => StepView::Refuse(e),
        None => {
            let path = sidecar_path(ctx.root@, ctx.claims->0.sub@, repo);
            if replies.len() == 0 {
                StepView::Ask(WorkView::ReadMeta { path })
            } else {
                match after_settings(
                    meta_or_fresh(meta_in(replies[0]), ctx.now@),
                    body,
                    ctx.now@,
                ) {
                    Err(e) => StepView::Refuse(e),
                    Ok(meta) => store_step(
                        path,
                        meta,
                        "failed to save settings"@,
                        SettingsView {
                            visibility: meta.visibility,
                            description: meta.description,
                        },
                        replies,
                        1,
                    ),
                }
            }
        },
    }
}

/// Starring a repository. Metadata that does not change is not stored.
pub open spec fn star_step(
    ctx: Context,
    owner: Seq<char>,
    repo: Seq<char>,
    replies: Seq<Reply>,
) -> StepView<StarredView> {
    match member_part(ctx, owner, repo, replies, 0) {
        PartView::Ask(work) => StepView::Ask(work),
        PartView::Fail(e) => StepView::Refuse(e),
        PartView::Have(dir, at) => {
            let path = sidecar_path(ctx.root@, owner_in(ctx.root@, dir, owner), repo);
            if replies.len() <= at {
                StepView::Ask(WorkView::ReadMeta { path })
            } else {
                let user = ctx.claims->0.sub@;
                let meta = meta_or_fresh(meta_in(replies[at]), ctx.now@);
                let after = after_star(meta, user, ctx.now@);
                let answer = StarredView { starred: true, star_count: after.stars.len() };
                if meta.stars.contains(user) {
                    StepView::Answer(200, answer)
                } else {
                    store_step(path, after, "failed to save star"@, answer, replies, at + 1)
                }
            }
        },
    }
}

/// Taking a star back. Metadata that does not change is not stored.
pub open spec fn unstar_step(
    ctx: Context,
    owner: Seq<char>,
    repo: Seq<char>,
    replies: Seq<Reply>,
) -> StepView<StarredView> {
    match member_part(ctx, owner, repo, replies, 0) {
        PartView::Ask(work) => StepView::Ask(work),
        PartView::Fail(e) => StepView::Refuse(e),
        PartView::Have(dir, at) => {
            let path = sidecar_path(ctx.root@, owner_in(ctx.root@, dir, owner), repo);
            if replies.len() <= at {
                StepView::Ask(WorkView::ReadMeta { path })
            } else {
                let user = ctx.claims->0.sub@;
                let meta = meta_or_fresh(meta_in(replies[at]), ctx.now@);
                let after = after_unstar(meta, user, ctx.now@);
                let answer = StarredView { starred: false, star_count: after.stars.len() };
                if meta.stars.contains(user) {
                    store_step(path, after, "failed to save star"@, answer, replies, at + 1)
                } else {
                    StepView::Answer(200, answer)
                }
            }
        },
    }
}

/// A collaborator joining or leaving the caller's repository.
pub open spec fn collaborators_step(
    ctx: Context,
    owner: Seq<char>,
    repo: Seq<char>,
    user: Seq<char>,
    joins: bool,
    replies: Seq<Reply>,
) -> StepView<Seq<Seq<char>>> {
    match owner_refusal(ctx.claims, owner, repo) {
        Some(e) => StepView::Refuse(e),
        None => {
            let path = sidecar_path(ctx.root@, ctx.claims->0.sub@, repo);
            if replies.len() == 0 {
                StepView::Ask(WorkView::ReadMeta { path })
            } else {
                let meta = meta_or_fresh(meta_in(replies[0]), ctx.now@);
                let after = if joins {
                    after_join(meta, user, ctx.now@)
                } else {
                    after_leave(meta, user, ctx.now@)
                };
                let failure = if joins {
                    "failed to add collaborator"@
                } else {
                    "failed to remove collaborator"@
                };
                match after {
                    Err(e) => StepView::Refuse(e),
                    Ok(m) => store_step(path, m, failure, m.collaborators, replies, 1),
                }
            }
        },
    }
}

/// An item that is not in a list leaves it as it is; one that is shortens it.
pub proof fn lemma_without(list: Seq<Seq<char>>, item: Seq<char>)
    ensures
        !list.contains(item) ==> without(list, item) == list,
        list.contains(item) ==> without(list, item).len() < list.len(),
        without(list, item).len() <= list.len(),
        !without(list, item).contains(item),
        forall|x: Seq<char>| x != item ==> (list.contains(x) <==> without(list, item).contains(x)),
    decreases list.len(),
{
    if list.len() > 0 {
        let rest = list.drop_last();
        lemma_without(rest, item);
        assert(list =~= rest.push(list.last()));
        let out = without(list, item);
        assert(list.contains(item) <==> rest.contains(item) || list.last() == item) by {
            assert(list.last() == list[list.len() - 1]);
            if rest.contains(item) {
                let i = rest.index_of(item);
                assert(list[i] == item);
            }
        }
        assert forall|x: Seq<char>| x != item implies (list.contains(x) <==> out.contains(x)) by {
            let before = without(rest, item);
            if list.contains(x) {
                let i = list.index_of(x);
                if i < rest.len() {
                    assert(rest[i] == x);
                    assert(rest.contains(x));
                    assert(before.contains(x));
                    let j = before.index_of(x);
                    assert(out[j] == x);
                } else {
                    assert(out.last() == x);
                }
            }
            if out.contains(x) {
                let i = out.index_of(x);
                if i < before.len() {
                    assert(before[i] == x);
                    assert(before.contains(x));
                    assert(rest.contains(x));
                    let j = rest.index_of(x);
                    assert(list[j] == x);
                } else {
                    assert(list.last() == x);
                    assert(list[list.len() - 1] == x);
                }
            }
        }
        if out.contains(item) {
            let i = out.index_of(item);
            if i < without(rest, item).len() {
                assert(without(rest, item)[i] == item);
            }
        }
    }
}

/// A list without an item.
fn drop_text(list: &Vec<String>, item: &str) -> (rest: Vec<String>)
    ensures
        texts(rest@) == without(texts(list@), item@),
{
    let ghost all = texts(list@);
    let mut rest: Vec<String> = Vec::new();
    assert(texts(rest@) =~= without(all.take(0), item@));
    for i in 0..list.len()
        invariant
            all == texts(list@),
            texts(rest@) == without(all.take(i as int), item@),
    {
        assert(all.take(i + 1).drop_last() =~= all.take(i as int));
        assert(all.take(i + 1).last() == list@[i as int]@);
        if !same(list[i].as_str(), item) {
            add_text(&mut rest, list[i].as_str());
        }
    }
    assert(all.take(list@.len() as int) =~= all);
    rest
}

/// Gives the repository a user's star, if it lacks it. Tells whether it did.
pub fn give_star(meta: &mut RepoMeta, user: &str, now: &str) -> (changed: bool)
    ensures
        final(meta)@ == after_star(old(meta)@, user@, now@),
        changed == !old(meta)@.stars.contains(user@),
{
    if holds_text(&meta.stars, user) {
        return false;
    }
    add_text(&mut meta.stars, user);
    meta.updated_at = now.to_owned();
    true
}

/// Takes a user's star from the repository, if it has it. Tells whether it did.
pub fn take_star(meta: &mut RepoMeta, user: &str, now: &str) -> (changed: bool)
    ensures
        final(meta)@ == after_unstar(old(meta)@, user@, now@),
        changed == old(meta)@.stars.contains(user@),
{
    if !holds_text(&meta.stars, user) {
        return false;
    }
    meta.stars = drop_text(&meta.stars, user);
    meta.updated_at = now.to_owned();
    true
}

/// Lets a collaborator join.
pub fn join(meta: &mut RepoMeta, user: &str, now: &str) -> (done: Result<(), ApiError>)
    ensures
        match done {
            Ok(_) => after_join(old(meta)@, user@, now@) == Ok::<MetaView, ErrorView>(
                final(meta)@,
            ),
            Err(e) => after_join(old(meta)@, user@, now@) == Err::<MetaView, ErrorView>(e@)
                && *final(meta) == *old(meta),
        },
{
    if holds_text(&meta.collaborators, user) {
        return Err(conflict("user is already a collaborator"));
    }
    add_text(&mut meta.collaborators, user);
    meta.updated_at = now.to_owned();
    Ok(())
}

/// Lets a collaborator leave.
pub fn leave(meta: &mut RepoMeta, user: &str, now: &str) -> (done: Result<(), ApiError>)
    ensures
        match done {
            Ok(_) => after_leave(old(meta)@, user@, now@) == Ok::<MetaView, ErrorView>(
                final(meta)@,
            ),
            Err(e) => after_leave(old(meta)@, user@, now@) == Err::<MetaView, ErrorView>(e@)
                && *final(meta) == *old(meta),
        },
{
    if !holds_text(&meta.collaborators, user) {
        return Err(not_found("user is not a collaborator"));
    }
    meta.collaborators = drop_text(&meta.collaborators, user);
    meta.updated_at = now.to_owned();
    Ok(())
}

/// Applies changed settings.
pub fn apply_settings(
    meta: &mut RepoMeta,
    body: &UpdateSettingsBody,
    now: &str,
) -> (done: Result<(), ApiError>)
    ensures
        match done {
            Ok(_) => after_settings(old(meta)@, *body, now@) == Ok::<MetaView, ErrorView>(
                final(meta)@,
            ),
            Err(e) => after_settings(old(meta)@, *body, now@) == Err::<MetaView, ErrorView>(e@)
                && *final(meta) == *old(meta),
        },
{
    if let Some(v) = &body.visibility {
        if !same(v.as_str(), "public") && !same(v.as_str(), "private") {
            return Err(bad_request("visibility must be 'public' or 'private'"));
        }
        meta.visibility = v.clone();
    }
    if let Some(d) = &body.description {
        meta.description = d.clone();
    }
    meta.updated_at = now.to_owned();
    Ok(())
}

/// The metadata, as a caller sees it.
pub fn summarise(meta: &RepoMeta, claims: &Option<Claims>) -> (summary: MetaSummary)
    ensures
        summary@ == summary_of(meta@, *claims),
{
    let starred_by_me = match claims {
        Some(c) => holds_text(&meta.stars, c.sub.as_str()),
        None => false,
    };
    MetaSummary {
        visibility: meta.visibility.clone(),
        description: meta.description.clone(),
        star_count: meta.stars.len(),
        starred_by_me,
        collaborators: copy_texts(&meta.collaborators),
        created_at: meta.created_at.clone(),
        updated_at: meta.updated_at.clone(),
    }
}

/// `GET /repositories/{owner}/{repo}/meta`
pub fn get_repo_meta(
    ctx: &Context,
    owner: &str,
    repo: &str,
    replies: &[Reply],
) -> (step: Step<MetaSummary>)
    ensures
        step@ == summary_step(*ctx, owner@, repo@, replies@),
{
    let (dir, at) = match require_read_access(ctx, owner, repo, replies, 0) {
        Part::Ask(work) => return Step::Ask(work),
        Part::Fail(e) => return Step::Done(Err(e)),
        Part::Have { value, used } => (value, used),
    };
    let canonical = owner_of_dir(ctx.root.as_str(), dir.as_str(), owner);
    if replies.len() <= at {
        return Step::Ask(
            Work::ReadMeta { path: meta_path(ctx.root.as_str(), canonical.as_str(), repo) },
        );
    }
    let meta = read_meta(replies[at].meta(), ctx.now.as_str());
    Step::Done(Ok(Answer { status: 200, body: summarise(&meta, &ctx.claims) }))
}

/// `PUT /repositories/{owner}/{repo}/settings`
pub fn update_settings(
    ctx: &Context,
    owner: &str,
    repo: &str,
    body: &UpdateSettingsBody,
    replies: &[Reply],
) -> (step: Step<Settings>)
    ensures
        step@ == settings_step(*ctx, owner@, repo@, *body, replies@),
{
    let canonical = match require_owner_id(ctx, owner, repo) {
        Ok(id) => id,
        Err(e) => return Step::Done(Err(e)),
    };
    if replies.len() == 0 {
        return Step::Ask(
            Work::ReadMeta { path: meta_path(ctx.root.as_str(), canonical.as_str(), repo) },
        );
    }
    let mut meta = read_meta(replies[0].meta(), ctx.now.as_str());
    match apply_settings(&mut meta, body, ctx.now.as_str()) {
        Ok(_) => {},
        Err(e) => return Step::Done(Err(e)),
    }
    let settings = Settings {
        visibility: meta.visibility.clone(),
        description: meta.description.clone(),
    };
    if replies.len() <= 1 {
        return Step::Ask(write_meta(ctx.root.as_str(), canonical.as_str(), repo, meta));
    }
    if !replies[1].flag() {
        return Step::Done(Err(internal("failed to save settings")));
    }
    Step::Done(Ok(Answer { status: 200, body: settings }))
}

/// `POST /repositories/{owner}/{repo}/star`
pub fn star_repo(
    ctx: &Context,
    owner: &str,
    repo: &str,
    replies: &[Reply],
) -> (step: Step<Starred>)
    ensures
        step@ == star_step(*ctx, owner@, repo@, replies@),
{
    let (dir, at) = match require_authenticated_access(ctx, owner, repo, replies, 0) {
        Part::Ask(work) => return Step::Ask(work),
        Part::Fail(e) => return Step::Done(Err(e)),
        Part::Have { value, used } => (value, used),
    };
    let canonical = owner_of_dir(ctx.root.as_str(), dir.as_str(), owner);
    if replies.len() <= at {
        return Step::Ask(
            Work::ReadMeta { path: meta_path(ctx.root.as_str(), canonical.as_str(), repo) },
        );
    }
    let user: &str = match &ctx.claims {
        Some(c) => c.sub.as_str(),
        None => "",
    };
    let mut meta = read_meta(replies[at].meta(), ctx.now.as_str());
    let changed = give_star(&mut meta, user, ctx.now.as_str());
    let body = Starred { starred: true, star_count: meta.stars.len() };
    if changed {
        if replies.len() <= at + 1 {
            return Step::Ask(write_meta(ctx.root.as_str(), canonical.as_str(), repo, meta));
        }
        if !replies[at + 1].flag() {
            return Step::Done(Err(internal("failed to save star")));
        }
    }
    Step::Done(Ok(Answer { status: 200, body }))
}

/// `DELETE /repositories/{owner}/{repo}/star`
pub fn unstar_repo(
    ctx: &Context,
    owner: &str,
    repo: &str,
    replies: &[Reply],
) -> (step: Step<Starred>)
    ensures
        step@ == unstar_step(*ctx, owner@, repo@, replies@),
{
    let (dir, at) = match require_authenticated_access(ctx, owner, repo, replies, 0) {
        Part::Ask(work) => return Step::Ask(work),
        Part::Fail(e) => return Step::Done(Err(e)),
        Part::Have { value, used } => (value, used),
    };
    let canonical = owner_of_dir(ctx.root.as_str(), dir.as_str(), owner);
    if replies.len() <= at {
        return Step::Ask(
            Work::ReadMeta { path: meta_path(ctx.root.as_str(), canonical.as_str(), repo) },
        );
    }
    let user: &str = match &ctx.claims {
        Some(c) => c.sub.as_str(),
        None => "",
    };
    let mut meta = read_meta(replies[at].meta(), ctx.now.as_str());
    let changed = take_star(&mut meta, user, ctx.now.as_str());
    let body = Starred { starred: false, star_count: meta.stars.len() };
    if changed {
        if replies.len() <= at + 1 {
            return Step::Ask(write_meta(ctx.root.as_str(), canonical.as_str(), repo, meta));
        }
        if !replies[at + 1].flag() {
            return Step::Done(Err(internal("failed to save star")));
        }
    }
    Step::Done(Ok(Answer { status: 200, body }))
}

/// `POST /repositories/{owner}/{repo}/collaborators`
pub fn add_collaborator(
    ctx: &Context,
    owner: &str,
    repo: &str,
    body: &CollaboratorBody,
    replies: &[Reply],
) -> (step: Step<Collaborators>)
    ensures
        step@ == collaborators_step(*ctx, owner@, repo@, body.user_id@, true, replies@),
{
    let canonical = match require_owner_id(ctx, owner, repo) {
        Ok(id) => id,
        Err(e) => return Step::Done(Err(e)),
    };
    if replies.len() == 0 {
        return Step::Ask(
            Work::ReadMeta { path: meta_path(ctx.root.as_str(), canonical.as_str(), repo) },
        );
    }
    let mut meta = read_meta(replies[0].meta(), ctx.now.as_str());
    match join(&mut meta, body.user_id.as_str(), ctx.now.as_str()) {
        Ok(_) => {},
        Err(e) => return Step::Done(Err(e)),
    }
    let answer = Collaborators { collaborators: copy_texts(&meta.collaborators) };
    if replies.len() <= 1 {
        return Step::Ask(write_meta(ctx.root.as_str(), canonical.as_str(), repo, meta));
    }
    if !replies[1].flag() {
        return Step::Done(Err(internal("failed to add collaborator")));
    }
    Step::Done(Ok(Answer { status: 200, body: answer }))
}

/// `DELETE /repositories/{owner}/{repo}/collaborators/{user_id}`
pub fn remove_collaborator(
    ctx: &Context,
    owner: &str,
    repo: &str,
    user_id: &str,
    replies: &[Reply],
) -> (step: Step<Collaborators>)
    ensures
        step@ == collaborators_step(*ctx, owner@, repo@, user_id@, false, replies@),
{
    let canonical = match require_owner_id(ctx, owner, repo) {
        Ok(id) => id,
        Err(e) => return Step::Done(Err(e)),
    };
    if replies.len() == 0 {
        return Step::Ask(
            Work::ReadMeta { path: meta_path(ctx.root.as_str(), canonical.as_str(), repo) },
        );
    }
    let mut meta = read_meta(replies[0].meta(), ctx.now.as_str());
    match leave(&mut meta, user_id, ctx.now.as_str()) {
        Ok(_) => {},
        Err(e) => return Step::Done(Err(e)),
    }
    let answer = Collaborators { collaborators: copy_texts(&meta.collaborators) };
    if replies.len() <= 1 {
        return Step::Ask(write_meta(ctx.root.as_str(), canonical.as_str(), repo, meta));
    }
    if !replies[1].flag() {
        return Step::Done(Err(internal("failed to remove collaborator")));
    }
    Step::Done(Ok(Answer { status: 200, body: answer }))
}

} // verus!
