//! Searching: what is found, and that nothing that should be found is missed.
//!
//! The statements speak of the query's own text, of the entries of directories,
//! of metadata and of the lines of logs.

use vstd::prelude::*;

use crate::authz::Context;
use crate::git::printed;
use crate::metadata::{meta_or_fresh, RepoMeta};
use crate::printing::{
    git_is_fine, git_is_not_fine, git_prints, git_runs, holding_is_standing_between, holds,
    is_line, lines_read_back, lines_text, pieces_follow_separators, prints_are_read,
};
use crate::repositories::{bare_in, FoundView};
use crate::search::{
    after_reply, asked, commit_hit, commit_hits, dirs_in, finds_in_repo, finds_in_repos,
    finds_in_users, hits_wanted, log_hits, needle_of, repo_hits, search_finds_the_first,
    search_run, search_start, sees, Phase, SearchView, Wanted,
};
use crate::split::{first_pieces, lines_of};
use crate::text::{ends, lowercase, starts, trimmed, without_suffix};
use crate::types::{HitView, SearchQuery};
use crate::work::{entries_in, git_in, meta_in, DirEntry, Reply, WorkView};

verus! {

/// A search is for the query in lower case without the white space around it,
/// and for 20 hits unless the query says how many, but for one at least and for
/// 50 at most.
pub proof fn searches_are_for_the_query(query: SearchQuery)
    ensures
        needle_of(query) == lowercase(trimmed(query.q@)),
        query.limit is None ==> hits_wanted(query) == 20,
        query.limit is Some && 1 <= query.limit->0 <= 50 ==> hits_wanted(query) == query.limit->0,
        query.limit == Some(0u32) ==> hits_wanted(query) == 1,
        query.limit is Some && query.limit->0 > 50 ==> hits_wanted(query) == 50,
{
}

/// This is the search that a caller's query begins.
pub open spec fn is_search(ctx: Context, query: SearchQuery, w: Wanted) -> bool {
    &&& w.root@ == ctx.root@
    &&& w.now@ == ctx.now@
    &&& match ctx.claims {
        Some(c) => w.caller is Some && w.caller->0@ == c.sub@,
        None => w.caller is None,
    }
    &&& w.needle@ == lowercase(trimmed(query.q@))
    &&& w.kind@ == match query.kind {
        Some(kind) => kind@,
        None => seq![],
    }
    &&& w.limit == hits_wanted(query)
}

/// A caller may see a repository: it is public, or their own, or they are a
/// collaborator.
pub open spec fn may_look(ctx: Context, owner: Seq<char>, meta: RepoMeta) -> bool {
    ||| meta.visibility@ == "public"@
    ||| match ctx.claims {
        Some(c) => c.sub@ == owner || exists|i: int|
            0 <= i < meta.collaborators@.len() && #[trigger] meta.collaborators@[i]@ == c.sub@,
        None => false,
    }
}

/// A repository is there: its owner's directory stands in the root, its own in
/// its owner's, and its metadata beside it, if it has any.
pub open spec fn is_there(
    world: spec_fn(WorkView) -> Reply,
    root: Seq<char>,
    users: Vec<DirEntry>,
    i: int,
    repos: Vec<DirEntry>,
    j: int,
    name: Seq<char>,
    stored: Option<RepoMeta>,
) -> bool {
    &&& world(WorkView::ListDir { path: root }) == Reply::Entries(Some(users))
    &&& 0 <= i < users@.len() && users@[i].is_dir
    &&& world(WorkView::ListDir { path: users@[i].path@ }) == Reply::Entries(Some(repos))
    &&& 0 <= j < repos@.len() && repos@[j].is_dir && repos@[j].name@ == name + ".git"@
    &&& world(
        WorkView::ReadMeta { path: root + "/"@ + users@[i].name@ + "/"@ + name + ".meta.json"@ },
    ) == Reply::Meta(stored)
}

proof fn lemma_dirs(entries: Seq<DirEntry>, i: int)
    requires
        0 <= i < entries.len(),
        entries[i].is_dir,
    ensures
        dirs_in(entries).contains(FoundView { name: entries[i].name@, path: entries[i].path@ }),
    decreases entries.len(),
{
    let rest = entries.drop_last();
    let one = FoundView { name: entries[i].name@, path: entries[i].path@ };
    let all = dirs_in(entries);
    if i < rest.len() {
        lemma_dirs(rest, i);
        let k = dirs_in(rest).index_of(one);
        assert(all[k] == one);
    } else {
        assert(all[all.len() - 1] == one);
    }
}

proof fn lemma_bare(entries: Seq<DirEntry>, i: int, name: Seq<char>)
    requires
        0 <= i < entries.len(),
        entries[i].is_dir,
        entries[i].name@ == name + ".git"@,
    ensures
        bare_in(entries).contains(FoundView { name, path: entries[i].path@ }),
    decreases entries.len(),
{
    let rest = entries.drop_last();
    let one = FoundView { name, path: entries[i].path@ };
    let all = bare_in(entries);
    if i < rest.len() {
        lemma_bare(rest, i, name);
        let k = bare_in(rest).index_of(one);
        assert(all[k] == one);
    } else {
        let full = name + ".git"@;
        assert(full.subrange(full.len() - ".git"@.len(), full.len() as int) =~= ".git"@);
        assert(ends(full, ".git"@));
        assert(without_suffix(full, ".git"@) =~= name);
        assert(all[all.len() - 1] == one);
    }
}

proof fn lemma_in_repos(
    w: Wanted,
    world: spec_fn(WorkView) -> Reply,
    uid: Seq<char>,
    repos: Seq<FoundView>,
    j: int,
    hit: HitView,
)
    requires
        0 <= j < repos.len(),
        finds_in_repo(w, world, uid, repos[j].name).contains(hit),
    ensures
        finds_in_repos(w, world, uid, repos).contains(hit),
    decreases repos.len(),
{
    let first = finds_in_repo(w, world, uid, repos[0].name);
    let rest = finds_in_repos(w, world, uid, repos.drop_first());
    let all = finds_in_repos(w, world, uid, repos);
    if j == 0 {
        assert(all[first.index_of(hit)] == hit);
    } else {
        lemma_in_repos(w, world, uid, repos.drop_first(), j - 1, hit);
        assert(all[first.len() + rest.index_of(hit)] == hit);
    }
}

proof fn lemma_in_users(
    w: Wanted,
    world: spec_fn(WorkView) -> Reply,
    users: Seq<FoundView>,
    i: int,
    repos: Vec<DirEntry>,
    hit: HitView,
)
    requires
        0 <= i < users.len(),
        world(WorkView::ListDir { path: users[i].path }) == Reply::Entries(Some(repos)),
        finds_in_repos(w, world, users[i].name, bare_in(repos@)).contains(hit),
    ensures
        finds_in_users(w, world, users).contains(hit),
    decreases users.len(),
{
    let firsts = match entries_in(world(WorkView::ListDir { path: users[0].path })) {
        Some(entries) => bare_in(entries@),
        None => seq![],
    };
    let first = finds_in_repos(w, world, users[0].name, firsts);
    let rest = finds_in_users(w, world, users.drop_first());
    let all = finds_in_users(w, world, users);
    if i == 0 {
        assert(all[first.index_of(hit)] == hit);
    } else {
        lemma_in_users(w, world, users.drop_first(), i - 1, repos, hit);
        assert(all[first.len() + rest.index_of(hit)] == hit);
    }
}

/// What a repository that is there holds for a search is found, unless there
/// were enough hits before.
proof fn lemma_found(
    w: Wanted,
    world: spec_fn(WorkView) -> Reply,
    users: Vec<DirEntry>,
    i: int,
    repos: Vec<DirEntry>,
    j: int,
    name: Seq<char>,
    stored: Option<RepoMeta>,
    hit: HitView,
)
    requires
        w.limit > 0,
        is_there(world, w.root@, users, i, repos, j, name, stored),
        finds_in_repo(w, world, users@[i].name@, name).contains(hit),
    ensures
        ({
            let hits = search_run(w, world, search_start()).hits;
            hits.len() <= w.limit && (hits.contains(hit) || hits.len() == w.limit)
        }),
{
    let uid = users@[i].name@;
    search_finds_the_first(w, world);
    lemma_dirs(users@, i);
    lemma_bare(repos@, j, name);
    let user = FoundView { name: uid, path: users@[i].path@ };
    let one = FoundView { name, path: repos@[j].path@ };
    let n = dirs_in(users@).index_of(user);
    let m = bare_in(repos@).index_of(one);
    lemma_in_repos(w, world, uid, bare_in(repos@), m, hit);
    lemma_in_users(w, world, dirs_in(users@), n, repos, hit);
}

/// A search finds every repository that it should: one that the caller may see,
/// and whose name or description, in lower case, holds the query, in lower case
/// and without the white space around it. Only where there are as many hits as
/// were wanted may one be missing.
pub proof fn matching_repositories_are_found(
    ctx: Context,
    query: SearchQuery,
    w: Wanted,
    world: spec_fn(WorkView) -> Reply,
    users: Vec<DirEntry>,
    i: int,
    repos: Vec<DirEntry>,
    j: int,
    name: Seq<char>,
    meta: RepoMeta,
)
    requires
        is_search(ctx, query, w),
        is_there(world, ctx.root@, users, i, repos, j, name, Some(meta)),
        may_look(ctx, users@[i].name@, meta),
        match query.kind {
            Some(kind) => kind@.len() == 0 || kind@ == "repo"@,
            None => true,
        },
        holds(lowercase(name), lowercase(trimmed(query.q@))) || holds(
            lowercase(meta.description@),
            lowercase(trimmed(query.q@)),
        ),
    ensures
        ({
            let hits = search_run(w, world, search_start()).hits;
            &&& hits.len() <= hits_wanted(query)
            &&& hits.len() < hits_wanted(query) ==> hits.contains(
                HitView::Repo {
                    owner: users@[i].name@,
                    name,
                    description: meta.description@,
                    visibility: meta.visibility@,
                    star_count: meta.stars@.len(),
                },
            )
        }),
{
    let uid = users@[i].name@;
    let needle = w.needle@;
    let hit = HitView::Repo {
        owner: uid,
        name,
        description: meta.description@,
        visibility: meta.visibility@,
        star_count: meta.stars@.len(),
    };
    holding_is_standing_between(lowercase(name), needle);
    holding_is_standing_between(lowercase(meta.description@), needle);
    lemma_looks(ctx, w, uid, meta);
    let found = finds_in_repo(w, world, uid, name);
    assert(found[0] == hit);
    assert(found.contains(hit));
    lemma_found(w, world, users, i, repos, j, name, Some(meta), hit);
}

/// Who may see a repository, as a search tells it.
proof fn lemma_looks(ctx: Context, w: Wanted, uid: Seq<char>, meta: RepoMeta)
    requires
        match ctx.claims {
            Some(c) => w.caller is Some && w.caller->0@ == c.sub@,
            None => w.caller is None,
        },
    ensures
        sees(w, uid, meta@) == may_look(ctx, uid, meta),
{
    if let Some(c) = ctx.claims {
        let sub = c.sub@;
        if meta@.collaborators.contains(sub) {
            let k = meta@.collaborators.index_of(sub);
            assert(meta.collaborators@[k]@ == sub);
        }
        assert forall|k: int|
            0 <= k < meta.collaborators@.len() && #[trigger] meta.collaborators@[k]@
                == sub implies meta@.collaborators.contains(sub) by {
            assert(meta@.collaborators[k] == sub);
        }
    }
}

/// A commit as the log of a search prints it.
pub open spec fn log_line(sha: Seq<char>, author: Seq<char>, message: Seq<char>) -> Seq<char> {
    sha + seq!['\0'] + (author + seq!['\0'] + message)
}

proof fn lemma_log_fields(sha: Seq<char>, author: Seq<char>, message: Seq<char>)
    requires
        !sha.contains('\0'),
        !author.contains('\0'),
    ensures
        first_pieces(log_line(sha, author, message), 3, '\0') == seq![sha, author, message],
{
    pieces_follow_separators(sha, '\0', author + seq!['\0'] + message, 3);
    pieces_follow_separators(author, '\0', message, 2);
    assert(first_pieces(log_line(sha, author, message), 3, '\0') =~= seq![sha, author, message]);
}

proof fn lemma_log_hit(
    w: Wanted,
    uid: Seq<char>,
    name: Seq<char>,
    list: Seq<Seq<char>>,
    k: int,
    hit: HitView,
)
    requires
        0 <= k < list.len(),
        commit_hit(w, uid, name, list[k]) == Some(hit),
    ensures
        commit_hits(w, uid, name, list).contains(hit),
    decreases list.len(),
{
    let rest = list.drop_last();
    let all = commit_hits(w, uid, name, list);
    if k < rest.len() {
        lemma_log_hit(w, uid, name, rest, k, hit);
        let n = commit_hits(w, uid, name, rest).index_of(hit);
        assert(all[n] == hit);
    } else {
        assert(all[all.len() - 1] == hit);
    }
}

/// A search finds every commit that it should: one that git lists for a
/// repository that the caller may see, and whose name starts with the query, or
/// whose author or message holds it, all in lower case. Only where there are as
/// many hits as were wanted may one be missing.
pub proof fn matching_commits_are_found(
    ctx: Context,
    query: SearchQuery,
    w: Wanted,
    world: spec_fn(WorkView) -> Reply,
    users: Vec<DirEntry>,
    i: int,
    repos: Vec<DirEntry>,
    j: int,
    name: Seq<char>,
    meta: RepoMeta,
    list: Seq<Seq<char>>,
    k: int,
    sha: Seq<char>,
    author: Seq<char>,
    message: Seq<char>,
)
    requires
        is_search(ctx, query, w),
        is_there(world, ctx.root@, users, i, repos, j, name, Some(meta)),
        may_look(ctx, users@[i].name@, meta),
        match query.kind {
            Some(kind) => kind@.len() == 0 || kind@ == "commit"@,
            None => true,
        },
        git_prints(
            world(
                git_runs(
                    ctx.root@ + "/"@ + users@[i].name@ + "/"@ + name + ".git"@,
                    seq!["log"@, "--all"@, "--format=%H%x00%an%x00%s"@, "-n100"@],
                ),
            ),
            lines_text(list),
        ),
        forall|n: int| 0 <= n < list.len() ==> is_line(#[trigger] list[n]),
        0 <= k < list.len(),
        list[k] == log_line(sha, author, message),
        !sha.contains('\0'),
        !author.contains('\0'),
        ({
            let needle = lowercase(trimmed(query.q@));
            ||| exists|b: Seq<char>| lowercase(sha) == #[trigger] (needle + b)
            ||| holds(lowercase(author), needle)
            ||| holds(lowercase(message), needle)
        }),
    ensures
        ({
            let hits = search_run(w, world, search_start()).hits;
            &&& hits.len() <= hits_wanted(query)
            &&& hits.len() < hits_wanted(query) ==> hits.contains(
                HitView::Commit { owner: users@[i].name@, repo: name, sha, author, message },
            )
        }),
{
    let uid = users@[i].name@;
    let needle = w.needle@;
    let hit = HitView::Commit { owner: uid, repo: name, sha, author, message };
    holding_is_standing_between(lowercase(sha), needle);
    holding_is_standing_between(lowercase(author), needle);
    holding_is_standing_between(lowercase(message), needle);
    lemma_looks(ctx, w, uid, meta);
    lemma_log_fields(sha, author, message);
    lemma_log_hit(w, uid, name, list, k, hit);
    let logs = git_runs(
        ctx.root@ + "/"@ + uid + "/"@ + name + ".git"@,
        seq!["log"@, "--all"@, "--format=%H%x00%an%x00%s"@, "-n100"@],
    );
    prints_are_read(world(logs), lines_text(list));
    lines_read_back(list);
    let more = log_hits(w, uid, name, git_in(world(logs)));
    let found = finds_in_repo(w, world, uid, name);
    let n = more.index_of(hit);
    assert(found[found.len() - more.len() + n] == hit);
    assert(found.contains(hit));
    lemma_found(w, world, users, i, repos, j, name, Some(meta), hit);
}

/// A repository without metadata counts as public, without description or
/// stars, and is found by its name.
pub proof fn plain_repositories_are_found(
    ctx: Context,
    query: SearchQuery,
    w: Wanted,
    world: spec_fn(WorkView) -> Reply,
    users: Vec<DirEntry>,
    i: int,
    repos: Vec<DirEntry>,
    j: int,
    name: Seq<char>,
)
    requires
        is_search(ctx, query, w),
        is_there(world, ctx.root@, users, i, repos, j, name, None),
        match query.kind {
            Some(kind) => kind@.len() == 0 || kind@ == "repo"@,
            None => true,
        },
        holds(lowercase(name), lowercase(trimmed(query.q@))),
    ensures
        ({
            let hits = search_run(w, world, search_start()).hits;
            hits.len() < hits_wanted(query) ==> hits.contains(
                HitView::Repo {
                    owner: users@[i].name@,
                    name,
                    description: seq![],
                    visibility: "public"@,
                    star_count: 0,
                },
            )
        }),
{
    let uid = users@[i].name@;
    let hit = HitView::Repo {
        owner: uid,
        name,
        description: seq![],
        visibility: "public"@,
        star_count: 0,
    };
    holding_is_standing_between(lowercase(name), w.needle@);
    let found = finds_in_repo(w, world, uid, name);
    assert(found[0] == hit);
    assert(found.contains(hit));
    lemma_found(w, world, users, i, repos, j, name, None, hit);
}

/// What a search waits for: the users in the root, the repositories of a user,
/// the metadata of a repository, and its last 100 commits of all branches.
pub proof fn searches_ask_for_what_comes_next(w: Wanted, s: SearchView)
    ensures
        s.phase == Phase::Root ==> asked(w, s) == Some(WorkView::ListDir { path: w.root@ }),
        s.phase == Phase::User ==> asked(w, s) == Some(WorkView::ListDir { path: s.users[0].path }),
        s.phase == Phase::Meta ==> asked(w, s) == Some(
            WorkView::ReadMeta {
                path: w.root@ + "/"@ + s.uid + "/"@ + s.repos[0].name + ".meta.json"@,
            },
        ),
        s.phase == Phase::Log ==> asked(w, s) == Some(
            git_runs(
                w.root@ + "/"@ + s.uid + "/"@ + s.repos[0].name + ".git"@,
                seq!["log"@, "--all"@, "--format=%H%x00%an%x00%s"@, "-n100"@],
            ),
        ),
        s.phase == Phase::Over ==> asked(w, s) is None,
{
}

/// What the metadata of a repository adds to the hits: nothing, or that
/// repository behind all that was found before. A repository that the caller
/// may not see adds nothing, and neither do its commits.
pub proof fn metadata_adds_its_repository(ctx: Context, w: Wanted, s: SearchView, meta: RepoMeta)
    requires
        match ctx.claims {
            Some(c) => w.caller is Some && w.caller->0@ == c.sub@,
            None => w.caller is None,
        },
        s.phase == Phase::Meta,
        s.repos.len() > 0,
    ensures
        ({
            let next = after_reply(w, s, Reply::Meta(Some(meta)));
            let name = s.repos[0].name;
            let hit = HitView::Repo {
                owner: s.uid,
                name,
                description: meta.description@,
                visibility: meta.visibility@,
                star_count: meta.stars@.len(),
            };
            let looks = may_look(ctx, s.uid, meta);
            let repo = w.kind@.len() == 0 || w.kind@ == "repo"@;
            let commit = w.kind@.len() == 0 || w.kind@ == "commit"@;
            let fits = holds(lowercase(name), w.needle@) || holds(
                lowercase(meta.description@),
                w.needle@,
            );
            &&& next.hits == if looks && repo && fits {
                s.hits.push(hit)
            } else {
                s.hits
            }
            &&& next.users == s.users && next.uid == s.uid
            &&& if looks && commit && next.hits.len() < w.limit {
                next.phase == Phase::Log && next.repos == s.repos
            } else {
                next.phase != Phase::Log && next.repos == s.repos.drop_first()
            }
        }),
{
    let name = s.repos[0].name;
    holding_is_standing_between(lowercase(name), w.needle@);
    holding_is_standing_between(lowercase(meta.description@), w.needle@);
    lemma_looks(ctx, w, s.uid, meta);
    let next = after_reply(w, s, Reply::Meta(Some(meta)));
    let hit = HitView::Repo {
        owner: s.uid,
        name,
        description: meta.description@,
        visibility: meta.visibility@,
        star_count: meta.stars@.len(),
    };
    assert(s.hits + seq![hit] =~= s.hits.push(hit));
    assert(s.hits + Seq::<HitView>::empty() =~= s.hits);
}

/// A search reads the directory of its root for users, and that of a user for
/// repositories: those of the entries that are directories, and of the latter
/// those whose names end in `.git`, in the order of the entries.
pub proof fn searches_walk_the_directories(
    w: Wanted,
    s: SearchView,
    entries: Vec<DirEntry>,
    n: int,
    entry: DirEntry,
)
    requires
        0 <= n < entries@.len(),
        entry == entries@[n],
    ensures
        s.phase == Phase::Root && s.hits.len() < w.limit && entry.is_dir ==> after_reply(
            w,
            s,
            Reply::Entries(Some(entries)),
        ).users.contains(FoundView { name: entry.name@, path: entry.path@ }),
        s.phase == Phase::User && entry.is_dir ==> forall|name: Seq<char>|
            entry.name@ == #[trigger] (name + ".git"@) ==> after_reply(
                w,
                s,
                Reply::Entries(Some(entries)),
            ).repos.contains(FoundView { name, path: entry.path@ }),
        s.phase == Phase::User && s.users.len() > 0 ==> {
            let next = after_reply(w, s, Reply::Entries(Some(entries)));
            next.uid == s.users[0].name && next.users == s.users.drop_first() && next.hits == s.hits
        },
{
    if entry.is_dir {
        lemma_dirs(entries@, n);
        assert forall|name: Seq<char>| entry.name@ == #[trigger] (name + ".git"@) implies bare_in(
            entries@,
        ).contains(FoundView { name, path: entry.path@ }) by {
            lemma_bare(entries@, n, name);
        }
    }
}

/// Every hit among the lines of a log is the hit that one of the lines is.
proof fn lemma_log_sound(
    w: Wanted,
    uid: Seq<char>,
    name: Seq<char>,
    list: Seq<Seq<char>>,
    n: int,
)
    requires
        0 <= n < commit_hits(w, uid, name, list).len(),
    ensures
        exists|k: int|
            0 <= k < list.len() && commit_hit(w, uid, name, #[trigger] list[k]) == Some(
                commit_hits(w, uid, name, list)[n],
            ),
    decreases list.len(),
{
    let rest = list.drop_last();
    let before = commit_hits(w, uid, name, rest);
    if n < before.len() {
        lemma_log_sound(w, uid, name, rest, n);
        let k = choose|k: int|
            0 <= k < rest.len() && commit_hit(w, uid, name, #[trigger] rest[k]) == Some(before[n]);
        assert(list[k] == rest[k]);
    } else {
        assert(commit_hit(w, uid, name, list[list.len() - 1]) == Some(
            commit_hits(w, uid, name, list)[n],
        ));
    }
}

/// One of these lines stands for a commit.
pub open spec fn has_line(
    list: Seq<Seq<char>>,
    sha: Seq<char>,
    author: Seq<char>,
    message: Seq<char>,
) -> bool {
    exists|k: int|
        0 <= k < list.len() && first_pieces(#[trigger] list[k], 3, '\0') == seq![
            sha,
            author,
            message,
        ]
}

/// A hit is right: it is of the kind that the query asks for, the caller may see
/// its repository, and the query is where it should be. What the hit says of a
/// repository is what its metadata say, and a commit is one that its log lists.
pub open spec fn is_right(
    ctx: Context,
    query: SearchQuery,
    world: spec_fn(WorkView) -> Reply,
    hit: HitView,
) -> bool {
    let needle = lowercase(trimmed(query.q@));
    let kind = match query.kind {
        Some(kind) => kind@,
        None => seq![],
    };
    let (owner, name) = match hit {
        HitView::Repo { owner, name, .. } => (owner, name),
        HitView::Commit { owner, repo, .. } => (owner, repo),
    };
    let home = ctx.root@ + "/"@ + owner + "/"@ + name;
    let stored = match world(WorkView::ReadMeta { path: home + ".meta.json"@ }) {
        Reply::Meta(stored) => stored,
        _ => None,
    };
    &&& stored matches Some(meta) ==> may_look(ctx, owner, meta)
    &&& match hit {
        HitView::Repo { description, visibility, star_count, .. } => {
            &&& kind.len() == 0 || kind == "repo"@
            &&& holds(lowercase(name), needle) || holds(lowercase(description), needle)
            &&& match stored {
                Some(meta) => description == meta.description@ && visibility == meta.visibility@
                    && star_count == meta.stars@.len(),
                None => description.len() == 0 && visibility == "public"@ && star_count == 0,
            }
        },
        HitView::Commit { sha, author, message, .. } => {
            let log = world(
                git_runs(
                    home + ".git"@,
                    seq!["log"@, "--all"@, "--format=%H%x00%an%x00%s"@, "-n100"@],
                ),
            );
            &&& kind.len() == 0 || kind == "commit"@
            &&& starts(lowercase(sha), needle) || holds(lowercase(author), needle) || holds(
                lowercase(message),
                needle,
            )
            &&& git_is_fine(log)
            &&& has_line(lines_of(printed(git_in(log))), sha, author, message)
        },
    }
}

proof fn lemma_right_in_repo(
    ctx: Context,
    query: SearchQuery,
    w: Wanted,
    world: spec_fn(WorkView) -> Reply,
    uid: Seq<char>,
    name: Seq<char>,
    n: int,
)
    requires
        is_search(ctx, query, w),
        0 <= n < finds_in_repo(w, world, uid, name).len(),
    ensures
        is_right(ctx, query, world, finds_in_repo(w, world, uid, name)[n]),
{
    let found = finds_in_repo(w, world, uid, name);
    let hit = found[n];
    let home = ctx.root@ + "/"@ + uid + "/"@ + name;
    let read = world(WorkView::ReadMeta { path: home + ".meta.json"@ });
    let stored = meta_in(read);
    if let Some(meta) = stored {
        lemma_looks(ctx, w, uid, meta);
    }
    let meta = meta_or_fresh(stored, w.now@);
    let first = repo_hits(w, uid, name, meta);
    if n < first.len() {
        holding_is_standing_between(lowercase(name), w.needle@);
        holding_is_standing_between(lowercase(meta.description), w.needle@);
    } else {
        let log = world(
            git_runs(
                home + ".git"@,
                seq!["log"@, "--all"@, "--format=%H%x00%an%x00%s"@, "-n100"@],
            ),
        );
        let list = lines_of(printed(git_in(log)));
        lemma_log_sound(w, uid, name, list, n - first.len());
        let k = choose|k: int|
            0 <= k < list.len() && commit_hit(w, uid, name, #[trigger] list[k]) == Some(hit);
        let fields = first_pieces(list[k], 3, '\0');
        assert(fields =~= seq![fields[0], fields[1], fields[2]]);
        assert(has_line(list, fields[0], fields[1], fields[2]));
        holding_is_standing_between(lowercase(fields[1]), w.needle@);
        holding_is_standing_between(lowercase(fields[2]), w.needle@);
    }
}

proof fn lemma_right_in_repos(
    ctx: Context,
    query: SearchQuery,
    w: Wanted,
    world: spec_fn(WorkView) -> Reply,
    uid: Seq<char>,
    repos: Seq<FoundView>,
    n: int,
)
    requires
        is_search(ctx, query, w),
        0 <= n < finds_in_repos(w, world, uid, repos).len(),
    ensures
        is_right(ctx, query, world, finds_in_repos(w, world, uid, repos)[n]),
    decreases repos.len(),
{
    let first = finds_in_repo(w, world, uid, repos[0].name);
    if n < first.len() {
        lemma_right_in_repo(ctx, query, w, world, uid, repos[0].name, n);
    } else {
        lemma_right_in_repos(ctx, query, w, world, uid, repos.drop_first(), n - first.len());
    }
}

proof fn lemma_right_in_users(
    ctx: Context,
    query: SearchQuery,
    w: Wanted,
    world: spec_fn(WorkView) -> Reply,
    users: Seq<FoundView>,
    n: int,
)
    requires
        is_search(ctx, query, w),
        0 <= n < finds_in_users(w, world, users).len(),
    ensures
        is_right(ctx, query, world, finds_in_users(w, world, users)[n]),
    decreases users.len(),
{
    let repos = match entries_in(world(WorkView::ListDir { path: users[0].path })) {
        Some(entries) => bare_in(entries@),
        None => seq![],
    };
    let first = finds_in_repos(w, world, users[0].name, repos);
    if n < first.len() {
        lemma_right_in_repos(ctx, query, w, world, users[0].name, repos, n);
    } else {
        lemma_right_in_users(ctx, query, w, world, users.drop_first(), n - first.len());
    }
}

/// All that a search finds is right.
pub proof fn hits_are_right(
    ctx: Context,
    query: SearchQuery,
    w: Wanted,
    world: spec_fn(WorkView) -> Reply,
    n: int,
)
    requires
        is_search(ctx, query, w),
        0 <= n < search_run(w, world, search_start()).hits.len(),
    ensures
        is_right(ctx, query, world, search_run(w, world, search_start()).hits[n]),
{
    search_finds_the_first(w, world);
    if let Some(entries) = entries_in(world(WorkView::ListDir { path: w.root@ })) {
        lemma_right_in_users(ctx, query, w, world, dirs_in(entries@), n);
    }
}

/// A commit of a log: its name, its author and its message.
pub type LogEntry = (Seq<char>, Seq<char>, Seq<char>);

/// The query is the start of a commit's name, or in its author or message.
pub open spec fn fits_query(needle: Seq<char>, c: LogEntry) -> bool {
    starts(lowercase(c.0), needle) || holds(lowercase(c.1), needle) || holds(
        lowercase(c.2),
        needle,
    )
}

proof fn lemma_log_order(
    w: Wanted,
    uid: Seq<char>,
    name: Seq<char>,
    commits: Seq<LogEntry>,
    lines: Seq<Seq<char>>,
    fits: spec_fn(LogEntry) -> bool,
    shown: spec_fn(LogEntry) -> HitView,
)
    requires
        lines.len() == commits.len(),
        forall|k: int|
            #![trigger commits[k]]
            0 <= k < commits.len() ==> !commits[k].0.contains('\0') && !commits[k].1.contains('\0')
                && lines[k] == log_line(commits[k].0, commits[k].1, commits[k].2),
        forall|c: LogEntry| #[trigger] fits(c) == fits_query(w.needle@, c),
        forall|c: LogEntry| #[trigger]
            shown(c) == (HitView::Commit {
                owner: uid,
                repo: name,
                sha: c.0,
                author: c.1,
                message: c.2,
            }),
    ensures
        commit_hits(w, uid, name, lines) == commits.filter(fits).map_values(shown),
    decreases commits.len(),
{
    if commits.len() == 0 {
        assert(commit_hits(w, uid, name, lines) =~= commits.filter(fits).map_values(shown));
    } else {
        let rest = commits.drop_last();
        let c = commits.last();
        assert(c == commits[commits.len() - 1]);
        assert forall|k: int|
            #![trigger rest[k]]
            0 <= k < rest.len() implies !rest[k].0.contains('\0') && !rest[k].1.contains('\0')
            && lines.drop_last()[k] == log_line(rest[k].0, rest[k].1, rest[k].2) by {
            assert(rest[k] == commits[k]);
        }
        lemma_log_order(w, uid, name, rest, lines.drop_last(), fits, shown);
        lemma_log_fields(c.0, c.1, c.2);
        holding_is_standing_between(lowercase(c.1), w.needle@);
        holding_is_standing_between(lowercase(c.2), w.needle@);
        assert(commits.filter(fits) == if fits(c) {
            rest.filter(fits).push(c)
        } else {
            rest.filter(fits)
        }) by {
            reveal(Seq::filter);
        }
        assert(rest.filter(fits).push(c).map_values(shown) =~= rest.filter(fits).map_values(
            shown,
        ).push(shown(c)));
    }
}

/// What the log of a repository adds to the hits: its commits that fit the
/// query, in the order of the log, behind all that was found before, as far as
/// the limit allows.
pub proof fn logs_add_their_commits_in_order(
    w: Wanted,
    s: SearchView,
    reply: Reply,
    commits: Seq<LogEntry>,
    lines: Seq<Seq<char>>,
    fits: spec_fn(LogEntry) -> bool,
    shown: spec_fn(LogEntry) -> HitView,
)
    requires
        s.phase == Phase::Log,
        s.repos.len() > 0,
        git_prints(reply, lines_text(lines)),
        lines.len() == commits.len(),
        forall|k: int|
            #![trigger commits[k]]
            0 <= k < commits.len() ==> !commits[k].0.contains('\0') && !commits[k].1.contains('\0')
                && is_line(lines[k]) && lines[k] == log_line(
                commits[k].0,
                commits[k].1,
                commits[k].2,
            ),
        forall|c: LogEntry| #[trigger] fits(c) == fits_query(w.needle@, c),
        forall|c: LogEntry| #[trigger]
            shown(c) == (HitView::Commit {
                owner: s.uid,
                repo: s.repos[0].name,
                sha: c.0,
                author: c.1,
                message: c.2,
            }),
    ensures
        ({
            let next = after_reply(w, s, reply);
            let all = s.hits + commits.filter(fits).map_values(shown);
            &&& next.hits == if all.len() <= w.limit {
                all
            } else {
                all.take(w.limit as int)
            }
            &&& next.repos == s.repos.drop_first()
            &&& next.users == s.users
            &&& next.uid == s.uid
        }),
{
    assert forall|k: int| 0 <= k < lines.len() implies is_line(#[trigger] lines[k]) by {
        assert(commits[k] == commits[k]);
    }
    prints_are_read(reply, lines_text(lines));
    lines_read_back(lines);
    lemma_log_order(w, s.uid, s.repos[0].name, commits, lines, fits, shown);
}

/// A search goes on as long as there are fewer hits than wanted and something is
/// left to look at, and not longer. What cannot be read counts as empty.
pub proof fn searches_go_on_while_they_should(w: Wanted, s: SearchView, reply: Reply)
    requires
        s.phase != Phase::Over,
        s.phase == Phase::Meta || s.phase == Phase::Log ==> s.repos.len() > 0,
        s.phase == Phase::User ==> s.users.len() > 0 && s.repos.len() == 0,
        s.phase == Phase::Root ==> s.users.len() == 0 && s.repos.len() == 0,
    ensures
        ({
            let next = after_reply(w, s, reply);
            &&& next.hits.len() >= w.limit ==> next.phase == Phase::Over
            &&& next.hits.len() < w.limit && next.repos.len() > 0 ==> next.phase == Phase::Meta
                || next.phase == Phase::Log
            &&& next.hits.len() < w.limit && next.repos.len() == 0 && next.users.len() > 0
                ==> next.phase == Phase::User
            &&& next.repos.len() == 0 && next.users.len() == 0 ==> next.phase == Phase::Over
            &&& s.phase == Phase::Root && reply == Reply::Entries(None) ==> next.phase
                == Phase::Over && next.hits == s.hits
            &&& s.phase == Phase::User && reply == Reply::Entries(None) ==> next.repos.len() == 0
            &&& s.phase == Phase::Log && git_is_not_fine(reply) && s.hits.len() < w.limit
                ==> next.hits == s.hits
        }),
{
    assert(s.hits + Seq::<HitView>::empty() =~= s.hits);
}

} // verus!
