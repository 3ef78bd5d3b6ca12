//! Who may do what to a repository.

use vstd::prelude::*;

use crate::errors::{
    bad_request, forbidden, not_found, plain, unauthorized, ApiError, ErrorView,
};
use crate::metadata::{meta_or_fresh, meta_path, read_meta, sidecar_path, MetaView, RepoMeta};
use crate::pathing::{
    bare_path, is_safe, is_safe_segment, matching_name, pick_owner, repo_path, user_dir, user_path,
};
use crate::split::{index_of, lemma_index_of, pieces, split};
use crate::text::{
    alike, eq_ignore_ascii_case, holds_text, join2, same, starts, starts_with, strip_prefix, texts,
};
use crate::work::{
    entries_in, flag_in, meta_in, Part, PartView, Reply, Work, WorkView,
};

verus! {

/// What a valid token says of its bearer.
#[derive(Debug)]
pub struct Claims {
    /// The canonical user id.
    pub sub: String,
    /// The e-mail address.
    pub email: String,
    /// The name that stands for the user in addresses.
    pub username: String,
    /// When the token was issued.
    pub iat: Option<u64>,
    /// When the token expires.
    pub exp: Option<u64>,
}

/// What every request brings along.
#[derive(Debug)]
pub struct Context {
    /// The root of the repositories.
    pub root: String,
    /// The time of the request.
    pub now: String,
    /// The caller, if a valid token came with the request.
    pub claims: Option<Claims>,
}

/// The owner in an address is this caller: by id, or by name but for case.
pub open spec fn is_owner(owner: Seq<char>, claims: Claims) -> bool {
    owner == claims.sub@ || alike(owner, claims.username@)
}

/// The caller owns the repository or is one of its collaborators.
pub open spec fn is_member(
    claims: Claims,
    owner: Seq<char>,
    canonical: Seq<char>,
    meta: MetaView,
) -> bool {
    ||| claims.sub@ == canonical
    ||| alike(claims.username@, owner)
    ||| meta.collaborators.contains(claims.sub@)
}

/// The error of a request that needs a caller and has none.
pub open spec fn no_caller() -> ErrorView {
    plain(401, "authentication required"@)
}

/// The error of an address that names no safe path.
pub open spec fn unsafe_segment() -> ErrorView {
    plain(400, "invalid path segment"@)
}

/// The error of a caller who may not do this.
pub open spec fn not_allowed() -> ErrorView {
    plain(403, "forbidden"@)
}

/// Why an owner's request is refused, if it is: nobody calls, the address is
/// not safe, or the caller is another.
pub open spec fn owner_refusal(
    claims: Option<Claims>,
    owner: Seq<char>,
    repo: Seq<char>,
) -> Option<ErrorView> {
    match claims {
        None => Some(no_caller()),
        Some(c) => if !is_safe(owner) || !is_safe(repo) {
            Some(unsafe_segment())
        } else if !is_owner(owner, c) {
            Some(not_allowed())
        } else {
            None
        },
    }
}

/// Why a read is refused, if it is. A public repository is open to all, a
/// private one to its members. A repository that is not there is denied to
/// those who could not read it if it were private; only a member learns that it
/// is not there.
pub open spec fn read_refusal(
    claims: Option<Claims>,
    owner: Seq<char>,
    canonical: Seq<char>,
    meta: MetaView,
    there: bool,
) -> Option<ErrorView> {
    let member = match claims {
        Some(c) => is_member(c, owner, canonical, meta),
        None => false,
    };
    if there && (meta.visibility == "public"@ || member) {
        None
    } else if there {
        Some(not_allowed())
    } else if claims is None {
        Some(no_caller())
    } else if member {
        Some(plain(404, "repository not found"@))
    } else {
        Some(not_allowed())
    }
}

/// The user directory that an address's owner stands for: the one of that very
/// name, or the first that is alike but for case, or the name as it is.
pub open spec fn resolve_part(
    root: Seq<char>,
    owner: Seq<char>,
    replies: Seq<Reply>,
    at: int,
) -> PartView<Seq<char>> {
    if replies.len() <= at {
        PartView::Ask(WorkView::IsDir { path: user_path(root, owner) })
    } else if flag_in(replies[at]) {
        PartView::Have(owner, at + 1)
    } else if replies.len() <= at + 1 {
        PartView::Ask(WorkView::ListDir { path: root })
    } else {
        PartView::Have(
            match entries_in(replies[at + 1]) {
                Some(entries) => matching_name(entries@, owner),
                None => owner,
            },
            at + 2,
        )
    }
}

/// The canonical owner of an address: the caller's id where the caller is
/// meant, and otherwise what the root's directories say.
pub open spec fn canonical_part(
    ctx: Context,
    owner: Seq<char>,
    replies: Seq<Reply>,
    at: int,
) -> PartView<Seq<char>> {
    match ctx.claims {
        Some(c) if is_owner(owner, c) => PartView::Have(c.sub@, at),
        _ => resolve_part(ctx.root@, owner, replies, at),
    }
}

/// Access to read a repository; its value is the repository's directory.
pub open spec fn read_part(
    ctx: Context,
    owner: Seq<char>,
    repo: Seq<char>,
    replies: Seq<Reply>,
    at: int,
) -> PartView<Seq<char>> {
    if !is_safe(owner) || !is_safe(repo) {
        PartView::Fail(unsafe_segment())
    } else {
        match canonical_part(ctx, owner, replies, at) {
            PartView::Ask(work) => PartView::Ask(work),
            PartView::Fail(e) => PartView::Fail(e),
            PartView::Have(canonical, at1) => {
                let dir = bare_path(ctx.root@, canonical, repo);
                if replies.len() <= at1 {
                    PartView::Ask(
                        WorkView::ReadMeta { path: sidecar_path(ctx.root@, canonical, repo) },
                    )
                } else if replies.len() <= at1 + 1 {
                    PartView::Ask(WorkView::IsDir { path: dir })
                } else {
                    match read_refusal(
                        ctx.claims,
                        owner,
                        canonical,
                        meta_or_fresh(meta_in(replies[at1]), ctx.now@),
                        flag_in(replies[at1 + 1]),
                    ) {
                        Some(e) => PartView::Fail(e),
                        None => PartView::Have(dir, at1 + 2),
                    }
                }
            },
        }
    }
}

/// Access of a member to a repository; its value is the repository's
/// directory.
pub open spec fn member_part(
    ctx: Context,
    owner: Seq<char>,
    repo: Seq<char>,
    replies: Seq<Reply>,
    at: int,
) -> PartView<Seq<char>> {
    match ctx.claims {
        None => PartView::Fail(no_caller()),
        Some(c) => if !is_safe(owner) || !is_safe(repo) {
            PartView::Fail(unsafe_segment())
        } else {
            match canonical_part(ctx, owner, replies, at) {
                PartView::Ask(work) => PartView::Ask(work),
                PartView::Fail(e) => PartView::Fail(e),
                PartView::Have(canonical, at1) => if replies.len() <= at1 {
                    PartView::Ask(
                        WorkView::ReadMeta { path: sidecar_path(ctx.root@, canonical, repo) },
                    )
                } else if is_member(
                    c,
                    owner,
                    canonical,
                    meta_or_fresh(meta_in(replies[at1]), ctx.now@),
                ) {
                    PartView::Have(bare_path(ctx.root@, canonical, repo), at1 + 1)
                } else {
                    PartView::Fail(not_allowed())
                },
            }
        },
    }
}

/// The owner that a repository's directory names: the first segment below the
/// root.
pub open spec fn owner_in(root: Seq<char>, dir: Seq<char>, owner: Seq<char>) -> Seq<char> {
    let base = root + "/"@;
    if starts(dir, base) {
        let below = dir.skip(base.len() as int);
        below.take(index_of(below, '/') as int)
    } else {
        owner
    }
}

/// The caller; an error where there is none.
pub fn require_auth(claims: &Option<Claims>) -> (caller: Result<&Claims, ApiError>)
    ensures
        match caller {
            Ok(c) => *claims == Some(*c),
            Err(e) => *claims is None && e@ == no_caller(),
        },
{
    match claims {
        Some(c) => Ok(c),
        None => Err(unauthorized("authentication required")),
    }
}

/// Whether the owner in an address is this caller.
pub fn owns(owner: &str, claims: &Claims) -> (r: bool)
    ensures
        r == is_owner(owner@, *claims),
{
    same(owner, claims.sub.as_str()) || eq_ignore_ascii_case(owner, claims.username.as_str())
}

/// Whether the caller owns the repository or is one of its collaborators.
pub fn belongs(claims: &Claims, owner: &str, canonical: &str, meta: &RepoMeta) -> (r: bool)
    ensures
        r == is_member(*claims, owner@, canonical@, meta@),
{
    same(claims.sub.as_str(), canonical) || eq_ignore_ascii_case(claims.username.as_str(), owner)
        || holds_text(&meta.collaborators, claims.sub.as_str())
}

/// Checks that the owner in an address is the caller, by id or by name but for
/// case. Yields the owner used for storage, which is always the caller's id.
pub fn ensure_owner(owner: &str, claims: &Claims) -> (canonical: Result<String, ApiError>)
    ensures
        match canonical {
            Ok(c) => is_owner(owner@, *claims) && c@ == claims.sub@,
            Err(e) => !is_owner(owner@, *claims) && e@ == not_allowed(),
        },
{
    if owns(owner, claims) {
        Ok(claims.sub.clone())
    } else {
        Err(forbidden())
    }
}

/// The preamble of what only an owner may do: the canonical owner, who is the
/// caller.
pub fn require_owner_id(ctx: &Context, owner: &str, repo: &str) -> (id: Result<String, ApiError>)
    ensures
        match id {
            Ok(c) => owner_refusal(ctx.claims, owner@, repo@) is None && ctx.claims is Some && c@
                == ctx.claims->0.sub@,
            Err(e) => owner_refusal(ctx.claims, owner@, repo@) == Some(e@),
        },
{
    let claims = match require_auth(&ctx.claims) {
        Ok(c) => c,
        Err(e) => return Err(e),
    };
    if !is_safe_segment(owner) || !is_safe_segment(repo) {
        return Err(bad_request("invalid path segment"));
    }
    ensure_owner(owner, claims)
}

/// The preamble of what only an owner may do: the repository's directory.
pub fn require_owner(ctx: &Context, owner: &str, repo: &str) -> (dir: Result<String, ApiError>)
    ensures
        match dir {
            Ok(d) => owner_refusal(ctx.claims, owner@, repo@) is None && ctx.claims is Some && d@
                == bare_path(ctx.root@, ctx.claims->0.sub@, repo@),
            Err(e) => owner_refusal(ctx.claims, owner@, repo@) == Some(e@),
        },
{
    match require_owner_id(ctx, owner, repo) {
        Ok(canonical) => Ok(repo_path(ctx.root.as_str(), canonical.as_str(), repo)),
        Err(e) => Err(e),
    }
}

/// Finds the user directory that an address's owner stands for.
pub fn resolve_canonical_owner(
    root: &str,
    owner: &str,
    replies: &[Reply],
    at: usize,
) -> (part: Part<String>)
    ensures
        part@ == resolve_part(root@, owner@, replies@, at as int),
{
    if replies.len() <= at {
        return Part::Ask(Work::IsDir { path: user_dir(root, owner) });
    }
    if replies[at].flag() {
        return Part::Have { value: owner.to_owned(), used: at + 1 };
    }
    if replies.len() <= at + 1 {
        return Part::Ask(Work::ListDir { path: root.to_owned() });
    }
    let value = match replies[at + 1].entries() {
        Some(entries) => pick_owner(entries, owner),
        None => owner.to_owned(),
    };
    Part::Have { value, used: at + 2 }
}

/// Finds the canonical owner of an address.
pub fn find_canonical(
    ctx: &Context,
    owner: &str,
    replies: &[Reply],
    at: usize,
) -> (part: Part<String>)
    ensures
        part@ == canonical_part(*ctx, owner@, replies@, at as int),
{
    if let Some(c) = &ctx.claims {
        if owns(owner, c) {
            return Part::Have { value: c.sub.clone(), used: at };
        }
    }
    resolve_canonical_owner(ctx.root.as_str(), owner, replies, at)
}

/// Decides a read: the error with which it is refused, or none.
pub fn judge_read(
    claims: &Option<Claims>,
    owner: &str,
    canonical: &str,
    meta: &RepoMeta,
    there: bool,
) -> (refusal: Option<ApiError>)
    ensures
        match refusal {
            Some(e) => read_refusal(*claims, owner@, canonical@, meta@, there) == Some(e@),
            None => read_refusal(*claims, owner@, canonical@, meta@, there) is None,
        },
{
    let member = match claims {
        Some(c) => belongs(c, owner, canonical, meta),
        None => false,
    };
    if there {
        if same(meta.visibility.as_str(), "public") || member {
            None
        } else {
            Some(forbidden())
        }
    } else if claims.is_none() {
        Some(unauthorized("authentication required"))
    } else if member {
        Some(not_found("repository not found"))
    } else {
        Some(forbidden())
    }
}

/// Access to read a repository. A public repository needs no caller; a private
/// one needs its owner or a collaborator. Yields the repository's directory.
pub fn require_read_access(
    ctx: &Context,
    owner: &str,
    repo: &str,
    replies: &[Reply],
    at: usize,
) -> (part: Part<String>)
    ensures
        part@ == read_part(*ctx, owner@, repo@, replies@, at as int),
{
    if !is_safe_segment(owner) || !is_safe_segment(repo) {
        return Part::Fail(bad_request("invalid path segment"));
    }
    let (canonical, at1) = match find_canonical(ctx, owner, replies, at) {
        Part::Ask(work) => return Part::Ask(work),
        Part::Fail(e) => return Part::Fail(e),
        Part::Have { value, used } => (value, used),
    };
    let dir = repo_path(ctx.root.as_str(), canonical.as_str(), repo);
    if replies.len() <= at1 {
        return Part::Ask(
            Work::ReadMeta { path: meta_path(ctx.root.as_str(), canonical.as_str(), repo) },
        );
    }
    if replies.len() <= at1 + 1 {
        return Part::Ask(Work::IsDir { path: dir });
    }
    let meta = read_meta(replies[at1].meta(), ctx.now.as_str());
    match judge_read(&ctx.claims, owner, canonical.as_str(), &meta, replies[at1 + 1].flag()) {
        Some(e) => Part::Fail(e),
        None => Part::Have { value: dir, used: at1 + 2 },
    }
}

/// Access for what is not an owner's alone: the caller owns the repository or
/// is one of its collaborators. Yields the repository's directory.
pub fn require_authenticated_access(
    ctx: &Context,
    owner: &str,
    repo: &str,
    replies: &[Reply],
    at: usize,
) -> (part: Part<String>)
    ensures
        part@ == member_part(*ctx, owner@, repo@, replies@, at as int),
{
    let claims = match require_auth(&ctx.claims) {
        Ok(c) => c,
        Err(e) => return Part::Fail(e),
    };
    if !is_safe_segment(owner) || !is_safe_segment(repo) {
        return Part::Fail(bad_request("invalid path segment"));
    }
    let (canonical, at1) = match find_canonical(ctx, owner, replies, at) {
        Part::Ask(work) => return Part::Ask(work),
        Part::Fail(e) => return Part::Fail(e),
        Part::Have { value, used } => (value, used),
    };
    if replies.len() <= at1 {
        return Part::Ask(
            Work::ReadMeta { path: meta_path(ctx.root.as_str(), canonical.as_str(), repo) },
        );
    }
    let meta = read_meta(replies[at1].meta(), ctx.now.as_str());
    if belongs(claims, owner, canonical.as_str(), &meta) {
        Part::Have { value: repo_path(ctx.root.as_str(), canonical.as_str(), repo), used: at1 + 1 }
    } else {
        Part::Fail(forbidden())
    }
}

/// The owner that a repository's directory names.
pub fn owner_of_dir(root: &str, dir: &str, owner: &str) -> (name: String)
    ensures
        name@ == owner_in(root@, dir@, owner@),
{
    let base = join2(root, "/");
    if !starts_with(dir, base.as_str()) {
        return owner.to_owned();
    }
    let below = strip_prefix(dir, base.as_str());
    let parts = split(below.as_str(), '/');
    proof {
        lemma_index_of(below@, '/');
        assert(pieces(below@, '/').len() > 0);
        assert(texts(parts@).len() == parts@.len());
        assert(texts(parts@)[0] == parts@[0]@);
        assert(pieces(below@, '/')[0] =~= below@.take(index_of(below@, '/') as int));
    }
    parts[0].as_str().to_owned()
}

} // verus!
