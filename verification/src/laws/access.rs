//! Who may read and change what, and in which directory it is looked for.

use vstd::prelude::*;

use crate::authz::{canonical_part, is_member, member_part, owner_in, read_part, Context};
use crate::errors::ErrorView;
use crate::metadata::{meta_or_fresh, RepoMeta};
use crate::pathing::{is_safe, is_safe_char, matching_name};
use crate::split::lemma_index_is;
use crate::text::{alike, is_letter_or_number, is_narrow, is_space, lowercase, narrow_lower};
use crate::work::{DirEntry, PartView, Reply, StepView, WorkView};

verus! {

/// The directory of the caller's repository of that name.
pub open spec fn home_of(root: Seq<char>, id: Seq<char>, repo: Seq<char>) -> Seq<char> {
    root + "/"@ + id + "/"@ + repo + ".git"@
}

/// The caller is the owner that an address names, and the address is sound.
pub open spec fn is_own(ctx: Context, owner: Seq<char>, repo: Seq<char>) -> bool {
    &&& is_safe(owner)
    &&& is_safe(repo)
    &&& match ctx.claims {
        Some(c) => owner == c.sub@ || alike(owner, c.username@),
        None => false,
    }
}

/// A request that is refused with a status and a message.
pub open spec fn is_refused<T>(step: StepView<T>, status: u16, message: Seq<char>) -> bool {
    step == StepView::<T>::Refuse(ErrorView { status, error: message, detail: None })
}

/// Access that was granted does not depend on replies that came later.
pub proof fn access_is_settled_early(
    ctx: Context,
    owner: Seq<char>,
    repo: Seq<char>,
    replies: Seq<Reply>,
    at: int,
    n: int,
)
    requires
        read_part(ctx, owner, repo, replies, 0) is Have,
        read_part(ctx, owner, repo, replies, 0)->Have_1 == at,
        at <= n <= replies.len(),
    ensures
        0 <= at <= replies.len(),
        read_part(ctx, owner, repo, replies.take(n), 0) == read_part(ctx, owner, repo, replies, 0),
{
}

/// A path segment is safe if it is not empty and holds nothing but letters,
/// numbers, dashes, underscores and dots. Of the ASCII characters, letters and
/// numbers are those from `a` to `z`, from `A` to `Z` and from `0` to `9`.
pub proof fn safe_segments_are_of_these(s: Seq<char>)
    ensures
        is_safe(s) <==> s.len() > 0 && (forall|i: int|
            0 <= i < s.len() ==> is_letter_or_number(#[trigger] s[i]) || s[i] == '-' || s[i] == '_'
                || s[i] == '.'),
        forall|c: char|
            (c as u32) < 128 ==> (#[trigger] is_letter_or_number(c) <==> ('a' <= c <= 'z' || 'A'
                <= c <= 'Z' || '0' <= c <= '9')),
{
    if s.len() > 0 && forall|i: int|
        0 <= i < s.len() ==> is_letter_or_number(#[trigger] s[i]) || s[i] == '-' || s[i] == '_'
            || s[i] == '.' {
        assert forall|i: int| 0 <= i < s.len() implies is_safe_char(#[trigger] s[i]) by {}
    }
    if is_safe(s) {
        assert forall|i: int| 0 <= i < s.len() implies is_letter_or_number(#[trigger] s[i])
            || s[i] == '-' || s[i] == '_' || s[i] == '.' by {
            assert(is_safe_char(s[i]));
        }
    }
}

/// Two characters are one but for the case of an ASCII letter.
pub open spec fn is_same_letter(a: char, b: char) -> bool {
    ||| a == b
    ||| 'A' <= a <= 'Z' && b as u32 == a as u32 + 32
    ||| 'A' <= b <= 'Z' && a as u32 == b as u32 + 32
}

/// Names are alike if they are equal but for the case of ASCII letters.
pub proof fn alike_names_differ_in_case_alone(a: Seq<char>, b: Seq<char>)
    ensures
        alike(a, b) <==> a.len() == b.len() && (forall|i: int|
            0 <= i < a.len() ==> is_same_letter(#[trigger] a[i], b[i])),
{
    if alike(a, b) {
        assert forall|i: int| 0 <= i < a.len() implies is_same_letter(#[trigger] a[i], b[i]) by {
            assert(narrow_lower(a[i]) == narrow_lower(b[i]));
        }
    }
    if a.len() == b.len() && forall|i: int|
        0 <= i < a.len() ==> is_same_letter(#[trigger] a[i], b[i]) {
        assert forall|i: int| 0 <= i < a.len() implies narrow_lower(#[trigger] a[i])
            == narrow_lower(b[i]) by {
            assert(is_same_letter(a[i], b[i]));
        }
    }
}

/// The lower case of an ASCII text: each letter from `A` to `Z` becomes the one
/// from `a` to `z`, and all else stays.
pub proof fn lower_case_changes_letters_alone(s: Seq<char>, i: int)
    requires
        0 <= i < s.len(),
        forall|j: int| 0 <= j < s.len() ==> (#[trigger] s[j]) as u32 <= 127,
    ensures
        lowercase(s).len() == s.len(),
        'A' <= s[i] <= 'Z' ==> lowercase(s)[i] as u32 == s[i] as u32 + 32,
        !('A' <= s[i] <= 'Z') ==> lowercase(s)[i] == s[i],
{
    assert forall|j: int| 0 <= j < s.len() implies is_narrow(#[trigger] s[j]) by {}
}

/// White space of the ASCII range is the space, the tab, the line feed, the
/// vertical tab, the form feed and the carriage return.
pub proof fn white_space_is_this(c: char)
    requires
        (c as u32) < 128,
    ensures
        is_space(c) <==> c as u32 == 32 || c as u32 == 9 || c as u32 == 10 || c as u32 == 11
            || c as u32 == 12 || c as u32 == 13,
{
}

/// Whose repositories an address means: the caller's, by id or by name, and
/// nothing need be looked up. Or else those of the user with a directory of
/// that very name; or of the first user whose directory is alike; or of nobody
/// that is known, and the name stays as it is.
pub proof fn owners_are_resolved(
    ctx: Context,
    owner: Seq<char>,
    replies: Seq<Reply>,
    at: int,
    entries: Vec<DirEntry>,
    i: int,
)
    requires
        0 <= at,
    ensures
        ({
            let part = canonical_part(ctx, owner, replies, at);
            let own = match ctx.claims {
                Some(c) => owner == c.sub@ || alike(owner, c.username@),
                None => false,
            };
            let absent = !own && replies.len() > at && replies[at] == Reply::Flag(false);
            &&& own ==> part == PartView::Have(ctx.claims->0.sub@, at)
            &&& !own && replies.len() <= at ==> part == PartView::<Seq<char>>::Ask(
                WorkView::IsDir { path: ctx.root@ + "/"@ + owner },
            )
            &&& !own && replies.len() > at && replies[at] == Reply::Flag(true) ==> part
                == PartView::Have(owner, at + 1)
            &&& absent && replies.len() == at + 1 ==> part == PartView::<Seq<char>>::Ask(
                WorkView::ListDir { path: ctx.root@ },
            )
            &&& absent && replies.len() > at + 1 && replies[at + 1] == Reply::Entries(None)
                ==> part == PartView::Have(owner, at + 2)
            &&& absent && replies.len() > at + 1 && replies[at + 1] == Reply::Entries(
                Some(entries),
            ) && 0 <= i < entries@.len() && entries@[i].is_dir && alike(entries@[i].name@, owner)
                && (forall|j: int|
                0 <= j < i ==> !((#[trigger] entries@[j]).is_dir && alike(
                    entries@[j].name@,
                    owner,
                ))) ==> part == PartView::Have(entries@[i].name@, at + 2)
            &&& absent && replies.len() > at + 1 && replies[at + 1] == Reply::Entries(
                Some(entries),
            ) && (forall|j: int|
                0 <= j < entries@.len() ==> !((#[trigger] entries@[j]).is_dir && alike(
                    entries@[j].name@,
                    owner,
                ))) ==> part == PartView::Have(owner, at + 2)
        }),
{
    lemma_first_alike(entries@, owner, i);
    lemma_none_alike(entries@, owner);
}

proof fn lemma_first_alike(entries: Seq<DirEntry>, owner: Seq<char>, i: int)
    ensures
        0 <= i < entries.len() && entries[i].is_dir && alike(entries[i].name@, owner) && (forall|
            j: int,
        |
            0 <= j < i ==> !((#[trigger] entries[j]).is_dir && alike(entries[j].name@, owner)))
            ==> matching_name(entries, owner) == entries[i].name@,
    decreases entries.len(),
{
    if 0 < i < entries.len() && forall|j: int|
        0 <= j < i ==> !((#[trigger] entries[j]).is_dir && alike(entries[j].name@, owner)) {
        let rest = entries.drop_first();
        assert forall|j: int| 0 <= j < i - 1 implies !((#[trigger] rest[j]).is_dir && alike(
            rest[j].name@,
            owner,
        )) by {
            assert(rest[j] == entries[j + 1]);
        }
        assert(!(entries[0].is_dir && alike(entries[0].name@, owner)));
        lemma_first_alike(rest, owner, i - 1);
        assert(rest[i - 1] == entries[i]);
    }
}

proof fn lemma_none_alike(entries: Seq<DirEntry>, owner: Seq<char>)
    ensures
        (forall|j: int|
            0 <= j < entries.len() ==> !((#[trigger] entries[j]).is_dir && alike(
                entries[j].name@,
                owner,
            ))) ==> matching_name(entries, owner) == owner,
    decreases entries.len(),
{
    if entries.len() > 0 && forall|j: int|
        0 <= j < entries.len() ==> !((#[trigger] entries[j]).is_dir && alike(
            entries[j].name@,
            owner,
        )) {
        let rest = entries.drop_first();
        assert forall|j: int| 0 <= j < rest.len() implies !((#[trigger] rest[j]).is_dir && alike(
            rest[j].name@,
            owner,
        )) by {
            assert(rest[j] == entries[j + 1]);
        }
        assert(!(entries[0].is_dir && alike(entries[0].name@, owner)));
        lemma_none_alike(rest, owner);
    }
}

/// A caller belongs to a repository: it is theirs, by id or by name, or they are
/// one of its collaborators.
pub open spec fn is_of(
    ctx: Context,
    owner: Seq<char>,
    id: Seq<char>,
    stored: Option<RepoMeta>,
) -> bool {
    match ctx.claims {
        Some(c) => {
            ||| c.sub@ == id
            ||| alike(c.username@, owner)
            ||| match stored {
                Some(meta) => exists|i: int|
                    0 <= i < meta.collaborators@.len() && #[trigger] meta.collaborators@[i]@
                        == c.sub@,
                None => false,
            }
        },
        None => false,
    }
}

proof fn lemma_is_of(ctx: Context, owner: Seq<char>, id: Seq<char>, stored: Option<RepoMeta>)
    ensures
        ctx.claims matches Some(c) ==> is_member(
            c,
            owner,
            id,
            meta_or_fresh(stored, ctx.now@),
        ) == is_of(ctx, owner, id, stored),
{
    if let (Some(c), Some(meta)) = (ctx.claims, stored) {
        let sub = c.sub@;
        if meta@.collaborators.contains(sub) {
            let k = meta@.collaborators.index_of(sub);
            assert(meta.collaborators@[k]@ == sub);
        }
        assert forall|k: int|
            0 <= k < meta.collaborators@.len() && #[trigger] meta.collaborators@[k]@
                == sub implies meta@.collaborators.contains(sub) by {
            assert(meta@.collaborators[k] == sub);
        }
    }
}

/// Who may read a repository: everybody if it is public, and otherwise those who
/// belong to it. Its metadata and its directory are looked for below the root,
/// under the id of its owner and its own name. That a repository is not there is
/// told to those who belong to it alone.
pub proof fn reading_is_for_those_who_may(
    ctx: Context,
    owner: Seq<char>,
    repo: Seq<char>,
    replies: Seq<Reply>,
    id: Seq<char>,
    at: int,
    stored: Option<RepoMeta>,
)
    ensures
        ({
            let part = read_part(ctx, owner, repo, replies, 0);
            let safe = is_safe(owner) && is_safe(repo);
            let known = safe && canonical_part(ctx, owner, replies, 0) == PartView::Have(id, at);
            let told = known && replies.len() > at + 1 && replies[at] == Reply::Meta(stored);
            let there = told && replies[at + 1] == Reply::Flag(true);
            let absent = told && replies[at + 1] == Reply::Flag(false);
            let public = match stored {
                Some(meta) => meta.visibility@ == "public"@,
                None => true,
            };
            let of = is_of(ctx, owner, id, stored);
            &&& !safe ==> fails(part, 400, "invalid path segment"@)
            &&& known && replies.len() <= at ==> part == PartView::<Seq<char>>::Ask(
                WorkView::ReadMeta {
                    path: ctx.root@ + "/"@ + id + "/"@ + repo + ".meta.json"@,
                },
            )
            &&& known && replies.len() == at + 1 ==> part == PartView::<Seq<char>>::Ask(
                WorkView::IsDir { path: home_of(ctx.root@, id, repo) },
            )
            &&& there && (public || of) ==> part == PartView::Have(
                home_of(ctx.root@, id, repo),
                at + 2,
            )
            &&& there && !public && !of ==> fails(part, 403, "forbidden"@)
            &&& absent && of ==> fails(part, 404, "repository not found"@)
            &&& absent && ctx.claims is None ==> fails(part, 401, "authentication required"@)
            &&& absent && ctx.claims is Some && !of ==> fails(part, 403, "forbidden"@)
        }),
{
    lemma_is_of(ctx, owner, id, stored);
}

/// A part of an operation that fails with a status and a message.
pub open spec fn fails<T>(part: PartView<T>, status: u16, message: Seq<char>) -> bool {
    part == PartView::<T>::Fail(ErrorView { status, error: message, detail: None })
}

/// What is for those who belong to a repository alone, public or not.
pub proof fn membership_is_for_those_who_belong(
    ctx: Context,
    owner: Seq<char>,
    repo: Seq<char>,
    replies: Seq<Reply>,
    id: Seq<char>,
    at: int,
    stored: Option<RepoMeta>,
)
    ensures
        ({
            let part = member_part(ctx, owner, repo, replies, 0);
            let calls = ctx.claims is Some;
            let safe = is_safe(owner) && is_safe(repo);
            let known = calls && safe && canonical_part(ctx, owner, replies, 0) == PartView::Have(
                id,
                at,
            );
            let told = known && replies.len() > at && replies[at] == Reply::Meta(stored);
            let of = is_of(ctx, owner, id, stored);
            &&& !calls ==> fails(part, 401, "authentication required"@)
            &&& calls && !safe ==> fails(part, 400, "invalid path segment"@)
            &&& known && replies.len() <= at ==> part == PartView::<Seq<char>>::Ask(
                WorkView::ReadMeta {
                    path: ctx.root@ + "/"@ + id + "/"@ + repo + ".meta.json"@,
                },
            )
            &&& told && of ==> part == PartView::Have(home_of(ctx.root@, id, repo), at + 1)
            &&& told && !of ==> fails(part, 403, "forbidden"@)
        }),
{
    lemma_is_of(ctx, owner, id, stored);
}

/// The owner that the directory of a repository names is the one it was made
/// from.
pub proof fn directories_name_their_owner(
    root: Seq<char>,
    id: Seq<char>,
    repo: Seq<char>,
    owner: Seq<char>,
)
    requires
        !id.contains('/'),
    ensures
        owner_in(root, home_of(root, id, repo), owner) == id,
{
    reveal_strlit("/");
    let base = root + "/"@;
    let rest = repo + ".git"@;
    let dir = home_of(root, id, repo);
    let below = id + seq!['/'] + rest;
    assert("/"@ =~= seq!['/']);
    assert(dir =~= base + below);
    assert(dir.subrange(0, 0int + base.len()) =~= base);
    assert(dir.skip(base.len() as int) =~= below);
    assert forall|j: int| 0 <= j < id.len() implies below[j] != '/' by {
        assert(below[j] == id[j]);
    }
    lemma_index_is(below, '/', id.len() as int);
    assert(below.take(id.len() as int) =~= id);
}

} // verus!
