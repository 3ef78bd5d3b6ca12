//! Writing files: each write is a commit of its own.

use vstd::prelude::*;

use crate::authz::{owner_refusal, require_owner, Context};
use crate::errors::{bad_request, conflict, not_found, plain, ApiError};
use crate::git::{
    path_exists, path_part, run_write_sequence, write_part, UpdateView, WriteUpdate, WriteView,
};
use crate::outside::{
    base64_bytes, base64_text, decode_base64, draw_simple_uuid, is_simple_uuid,
};
use crate::pathing::bare_path;
use crate::text::{join2, trim, trimmed};
use crate::types::{DeleteFileBody, WriteFileBody, Written, WrittenView};
use crate::work::{Answer, Part, PartView, Reply, Step, StepView, WorkView};

verus! {

/// The directory of the caller's repository of that name.
pub open spec fn own_dir(ctx: Context, repo: Seq<char>) -> Seq<char> {
    bare_path(ctx.root@, ctx.claims->0.sub@, repo)
}

/// The write that puts content into a file.
pub open spec fn put_view(
    dir: Seq<char>,
    body: WriteFileBody,
    content: Seq<u8>,
    scratch: Seq<char>,
) -> WriteView {
    WriteView {
        dir,
        branch: body.branch@,
        message: body.message@,
        author_name: body.author_name@,
        author_email: body.author_email@,
        update: UpdateView::Add { path: body.path@, content },
        scratch,
    }
}

/// The write that takes a file away.
pub open spec fn drop_view(
    dir: Seq<char>,
    body: DeleteFileBody,
    scratch: Seq<char>,
) -> WriteView {
    WriteView {
        dir,
        branch: body.branch@,
        message: body.message@,
        author_name: body.author_name@,
        author_email: body.author_email@,
        update: UpdateView::Remove { path: body.path@ },
        scratch,
    }
}

/// Committing a change and answering with that status.
pub open spec fn commit_step(
    w: WriteView,
    path: Seq<char>,
    status: u16,
    replies: Seq<Reply>,
    at: int,
) -> StepView<WrittenView> {
    match write_part(w, replies, at) {
        PartView::Ask(work) => StepView::Ask(work),
        PartView::Fail(e) => StepView::Refuse(e),
        PartView::Have(sha, _) => StepView::Answer(
            status,
            WrittenView { sha, path, branch: w.branch },
        ),
    }
}

/// Committing content that came as base64 text, if it is that.
pub open spec fn put_step(
    dir: Seq<char>,
    body: WriteFileBody,
    status: u16,
    scratch: Seq<char>,
    replies: Seq<Reply>,
    at: int,
) -> StepView<WrittenView> {
    match base64_bytes(body.content@) {
        None => StepView::Refuse(plain(400, "content is not valid base64"@)),
        Some(content) => commit_step(
            put_view(dir, body, content, scratch),
            body.path@,
            status,
            replies,
            at,
        ),
    }
}

/// Making a file that is not there yet.
pub open spec fn create_step(
    ctx: Context,
    owner: Seq<char>,
    repo: Seq<char>,
    body: WriteFileBody,
    scratch: Seq<char>,
    replies: Seq<Reply>,
) -> StepView<WrittenView> {
    match owner_refusal(ctx.claims, owner, repo) {
        Some(e) => StepView::Refuse(e),
        None => {
            let dir = own_dir(ctx, repo);
            if trimmed(body.path@).len() == 0 {
                StepView::Refuse(plain(400, "path is required"@))
            } else {
                match path_part(dir, body.branch@, body.path@, replies, 0) {
                    PartView::Ask(work) => StepView::Ask(work),
                    PartView::Fail(e) => StepView::Refuse(e),
                    PartView::Have(there, at) => if there {
                        StepView::Refuse(plain(409, "file already exists"@))
                    } else {
                        put_step(dir, body, 201, scratch, replies, at)
                    },
                }
            }
        },
    }
}

/// Changing a file that is there.
pub open spec fn update_step(
    ctx: Context,
    owner: Seq<char>,
    repo: Seq<char>,
    body: WriteFileBody,
    scratch: Seq<char>,
    replies: Seq<Reply>,
) -> StepView<WrittenView> {
    match owner_refusal(ctx.claims, owner, repo) {
        Some(e) => StepView::Refuse(e),
        None => {
            let dir = own_dir(ctx, repo);
            match path_part(dir, body.branch@, body.path@, replies, 0) {
                PartView::Ask(work) => StepView::Ask(work),
                PartView::Fail(e) => StepView::Refuse(e),
                PartView::Have(there, at) => if !there {
                    StepView::Refuse(plain(404, "file not found"@))
                } else {
                    put_step(dir, body, 200, scratch, replies, at)
                },
            }
        },
    }
}

/// Taking away a file that is there.
pub open spec fn delete_step(
    ctx: Context,
    owner: Seq<char>,
    repo: Seq<char>,
    body: DeleteFileBody,
    scratch: Seq<char>,
    replies: Seq<Reply>,
) -> StepView<WrittenView> {
    match owner_refusal(ctx.claims, owner, repo) {
        Some(e) => StepView::Refuse(e),
        None => {
            let dir = own_dir(ctx, repo);
            match path_part(dir, body.branch@, body.path@, replies, 0) {
                PartView::Ask(work) => StepView::Ask(work),
                PartView::Fail(e) => StepView::Refuse(e),
                PartView::Have(there, at) => if !there {
                    StepView::Refuse(plain(404, "file not found"@))
                } else {
                    commit_step(
                        drop_view(dir, body, scratch),
                        body.path@,
                        200,
                        replies,
                        at,
                    )
                },
            }
        },
    }
}

/// What a step hands to git to store is what this base64 text stands for.
pub open spec fn stores_only<T>(step: StepView<T>, text: Seq<char>) -> bool {
    match step {
        StepView::Ask(WorkView::Git(c)) => c.input is Some ==> base64_bytes(text) == c.input
            && base64_text(c.input->0) == text,
        _ => true,
    }
}

/// The name of a temporary work tree of this id.
pub open spec fn scratch_of(id: Seq<char>) -> Seq<char> {
    "git-agent-wt-"@ + id
}

/// The name of a temporary work tree, made from an id.
pub fn scratch_from(id: &str) -> (name: String)
    ensures
        name@ == scratch_of(id@),
{
    join2("git-agent-wt-", id)
}

/// Draws a name for a temporary work tree: `git-agent-wt-` and a random UUID.
pub fn scratch_name() -> (name: String)
    ensures
        exists|id: Seq<char>| is_simple_uuid(id) && name@ == #[trigger] scratch_of(id),
{
    let id = draw_simple_uuid();
    scratch_from(id.as_str())
}

/// The bytes of a base64 text.
fn decode_b64(s: &str) -> (bytes: Result<Vec<u8>, ApiError>)
    ensures
        match bytes {
            Ok(b) => base64_bytes(s@) == Some(b@) && base64_text(b@) == s@,
            Err(e) => base64_bytes(s@) is None && e@ == plain(400, "content is not valid base64"@),
        },
{
    match decode_base64(s) {
        Ok(bytes) => Ok(bytes),
        Err(_) => Err(bad_request("content is not valid base64")),
    }
}

/// The answer to a write.
fn write_response(status: u16, sha: String, path: &str, branch: &str) -> (answer: Answer<Written>)
    ensures
        answer.status == status,
        answer.body@ == (WrittenView { sha: sha@, path: path@, branch: branch@ }),
{
    Answer { status, body: Written { sha, path: path.to_owned(), branch: branch.to_owned() } }
}

/// Commits content to a file and answers with that status.
pub fn put_content(
    dir: &str,
    body: &WriteFileBody,
    content: Vec<u8>,
    status: u16,
    scratch: &str,
    replies: &[Reply],
    at: usize,
) -> (step: Step<Written>)
    ensures
        step@ == commit_step(
            put_view(dir@, *body, content@, scratch@),
            body.path@,
            status,
            replies@,
            at as int,
        ),
{
    let update = WriteUpdate::Add { path: body.path.clone(), content };
    match run_write_sequence(
        dir,
        body.branch.as_str(),
        body.message.as_str(),
        body.author_name.as_str(),
        body.author_email.as_str(),
        &update,
        scratch,
        replies,
        at,
    ) {
        Part::Ask(work) => Step::Ask(work),
        Part::Fail(e) => Step::Done(Err(e)),
        Part::Have { value, .. } => Step::Done(
            Ok(write_response(status, value, body.path.as_str(), body.branch.as_str())),
        ),
    }
}

/// `POST /repositories/{owner}/{repo}/blob`: makes a file. 409 if it is there.
pub fn create_blob(
    ctx: &Context,
    owner: &str,
    repo: &str,
    body: &WriteFileBody,
    scratch: &str,
    replies: &[Reply],
) -> (step: Step<Written>)
    ensures
        step@ == create_step(*ctx, owner@, repo@, *body, scratch@, replies@),
        stores_only(step@, body.content@),
{
    let dir = match require_owner(ctx, owner, repo) {
        Ok(dir) => dir,
        Err(e) => return Step::Done(Err(e)),
    };
    let bare = trim(body.path.as_str());
    if bare.as_str().is_empty() {
        return Step::Done(Err(bad_request("path is required")));
    }
    let (there, at) = match path_exists(
        dir.as_str(),
        body.branch.as_str(),
        body.path.as_str(),
        replies,
        0,
    ) {
        Part::Ask(work) => return Step::Ask(work),
        Part::Fail(e) => return Step::Done(Err(e)),
        Part::Have { value, used } => (value, used),
    };
    if there {
        return Step::Done(Err(conflict("file already exists")));
    }
    match decode_b64(body.content.as_str()) {
        Ok(content) => put_content(dir.as_str(), body, content, 201, scratch, replies, at),
        Err(e) => Step::Done(Err(e)),
    }
}

/// `PUT /repositories/{owner}/{repo}/blob`: changes a file. 404 if it is not
/// there.
pub fn update_blob(
    ctx: &Context,
    owner: &str,
    repo: &str,
    body: &WriteFileBody,
    scratch: &str,
    replies: &[Reply],
) -> (step: Step<Written>)
    ensures
        step@ == update_step(*ctx, owner@, repo@, *body, scratch@, replies@),
        stores_only(step@, body.content@),
{
    let dir = match require_owner(ctx, owner, repo) {
        Ok(dir) => dir,
        Err(e) => return Step::Done(Err(e)),
    };
    let (there, at) = match path_exists(
        dir.as_str(),
        body.branch.as_str(),
        body.path.as_str(),
        replies,
        0,
    ) {
        Part::Ask(work) => return Step::Ask(work),
        Part::Fail(e) => return Step::Done(Err(e)),
        Part::Have { value, used } => (value, used),
    };
    if !there {
        return Step::Done(Err(not_found("file not found")));
    }
    match decode_b64(body.content.as_str()) {
        Ok(content) => put_content(dir.as_str(), body, content, 200, scratch, replies, at),
        Err(e) => Step::Done(Err(e)),
    }
}

/// `DELETE /repositories/{owner}/{repo}/blob`: takes a file away. 404 if it is
/// not there.
pub fn delete_blob(
    ctx: &Context,
    owner: &str,
    repo: &str,
    body: &DeleteFileBody,
    scratch: &str,
    replies: &[Reply],
) -> (step: Step<Written>)
    ensures
        step@ == delete_step(*ctx, owner@, repo@, *body, scratch@, replies@),
{
    let dir = match require_owner(ctx, owner, repo) {
        Ok(dir) => dir,
        Err(e) => return Step::Done(Err(e)),
    };
    let (there, at) = match path_exists(
        dir.as_str(),
        body.branch.as_str(),
        body.path.as_str(),
        replies,
        0,
    ) {
        Part::Ask(work) => return Step::Ask(work),
        Part::Fail(e) => return Step::Done(Err(e)),
        Part::Have { value, used } => (value, used),
    };
    if !there {
        return Step::Done(Err(not_found("file not found")));
    }
    let update = WriteUpdate::Remove { path: body.path.clone() };
    match run_write_sequence(
        dir.as_str(),
        body.branch.as_str(),
        body.message.as_str(),
        body.author_name.as_str(),
        body.author_email.as_str(),
        &update,
        scratch,
        replies,
        at,
    ) {
        Part::Ask(work) => Step::Ask(work),
        Part::Fail(e) => Step::Done(Err(e)),
        Part::Have { value, .. } => Step::Done(
            Ok(write_response(200, value, body.path.as_str(), body.branch.as_str())),
        ),
    }
}

} // verus!
