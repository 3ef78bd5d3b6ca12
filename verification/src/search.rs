//! Searching repositories and commits.
//!
//! A search walks over the users, over the repositories of each, and over the
//! commits of each repository, and stops as soon as it has enough. It is a
//! machine: [`Search::work`] says what it needs next, and [`Search::next`]
//! takes the reply.

use vstd::prelude::*;

use crate::authz::Context;
use crate::errors::{bad_request, plain, ApiError};
use crate::git::{git_command, git_in_dir, printed, slices, succeeded};
use crate::metadata::{
    meta_or_fresh, meta_path, read_meta, sidecar_path, MetaView, RepoMeta,
};
use crate::pathing::{bare_path, repo_path};
use crate::repositories::{bare_in, find_bare, found_views, Found, FoundView};
use crate::split::{first_pieces, lines, lines_of, splitn};
use crate::text::{
    contains, holds_text, lowercase, occurs, same, starts, starts_with, texts, trim, trimmed,
};
use crate::types::{hit_views, HitView, SearchHit, SearchQuery, SearchResults};
use crate::work::{
    entries_in, git_in, meta_in, Answer, DirEntry, GitReply, Reply, Work, WorkView,
};

verus! {

/// What a search looks for, where, and for whom.
#[derive(Debug)]
pub struct Wanted {
    /// The root of the repositories.
    pub root: String,
    /// The time of the request.
    pub now: String,
    /// The id of the caller, if there is one.
    pub caller: Option<String>,
    /// What to search for, in lower case.
    pub needle: String,
    /// `repo`, `commit`, or empty for both.
    pub kind: String,
    /// How many hits at most.
    pub limit: usize,
}

/// What a search waits for.
#[derive(Debug, Clone, Copy, PartialEq, Eq, Structural)]
pub enum Phase {
    /// The list of the users.
    Root,
    /// The list of the next user's repositories.
    User,
    /// The metadata of the next repository.
    Meta,
    /// The commits of the next repository.
    Log,
    /// Nothing: it is over.
    Over,
}

/// A search under way.
#[derive(Debug)]
pub struct Search {
    /// What it looks for.
    pub wanted: Wanted,
    /// What it waits for.
    pub phase: Phase,
    /// The users.
    pub users: Vec<Found>,
    /// The place of the next user.
    pub user_at: usize,
    /// The user whose repositories are being looked at.
    pub uid: String,
    /// That user's repositories.
    pub repos: Vec<Found>,
    /// The place of the next repository.
    pub repo_at: usize,
    /// What was found so far.
    pub hits: Vec<SearchHit>,
}

/// What is left of a [`Search`], and what it found.
#[verifier::ext_equal]
pub struct SearchView {
    /// What it waits for.
    pub phase: Phase,
    /// The users still to come.
    pub users: Seq<FoundView>,
    /// The user whose repositories are being looked at.
    pub uid: Seq<char>,
    /// Those of that user's repositories that are still to come.
    pub repos: Seq<FoundView>,
    /// What was found so far.
    pub hits: Seq<HitView>,
}

impl View for Search {
    type V = SearchView;

    open spec fn view(&self) -> SearchView {
        SearchView {
            phase: self.phase,
            users: found_views(self.users@).skip(self.user_at as int),
            uid: self.uid@,
            repos: found_views(self.repos@).skip(self.repo_at as int),
            hits: hit_views(self.hits@),
        }
    }
}

/// The search is for repositories too.
pub open spec fn wants_repos(w: Wanted) -> bool {
    w.kind@.len() == 0 || w.kind@ == "repo"@
}

/// The search is for commits too.
pub open spec fn wants_commits(w: Wanted) -> bool {
    w.kind@.len() == 0 || w.kind@ == "commit"@
}

/// The caller may see a repository: it is public, or it is theirs, or they are
/// a collaborator.
pub open spec fn sees(w: Wanted, uid: Seq<char>, meta: MetaView) -> bool {
    ||| meta.visibility == "public"@
    ||| w.caller is Some && (w.caller->0@ == uid || meta.collaborators.contains(w.caller->0@))
}

/// The hit that a repository is by its name or description, if it is one.
pub open spec fn repo_hits(w: Wanted, uid: Seq<char>, name: Seq<char>, meta: MetaView) -> Seq<
    HitView,
> {
    if wants_repos(w) && (occurs(lowercase(name), w.needle@) || occurs(
        lowercase(meta.description),
        w.needle@,
    )) {
        seq![
            HitView::Repo {
                owner: uid,
                name,
                description: meta.description,
                visibility: meta.visibility,
                star_count: meta.stars.len(),
            },
        ]
    } else {
        seq![]
    }
}

/// The hit that a line of the log is, if it is one: by the start of the
/// commit's name, or by its author or message.
pub open spec fn commit_hit(w: Wanted, uid: Seq<char>, name: Seq<char>, line: Seq<char>) -> Option<
    HitView,
> {
    let fields = first_pieces(line, 3, '\0');
    if fields.len() == 3 && (starts(lowercase(fields[0]), w.needle@) || occurs(
        lowercase(fields[2]),
        w.needle@,
    ) || occurs(lowercase(fields[1]), w.needle@)) {
        Some(
            HitView::Commit {
                owner: uid,
                repo: name,
                sha: fields[0],
                author: fields[1],
                message: fields[2],
            },
        )
    } else {
        None
    }
}

/// The hits among the lines of a log.
pub open spec fn commit_hits(
    w: Wanted,
    uid: Seq<char>,
    name: Seq<char>,
    list: Seq<Seq<char>>,
) -> Seq<HitView>
    decreases list.len(),
{
    if list.len() == 0 {
        seq![]
    } else {
        let before = commit_hits(w, uid, name, list.drop_last());
        match commit_hit(w, uid, name, list.last()) {
            Some(hit) => before.push(hit),
            None => before,
        }
    }
}

/// The hits among the commits of a repository; there are none where git fails.
pub open spec fn log_hits(w: Wanted, uid: Seq<char>, name: Seq<char>, g: GitReply) -> Seq<HitView> {
    if succeeded(g) {
        commit_hits(w, uid, name, lines_of(printed(g)))
    } else {
        seq![]
    }
}

/// The first `n` items, or all if there are fewer.
pub open spec fn at_most<T>(list: Seq<T>, n: int) -> Seq<T> {
    if list.len() <= n {
        list
    } else {
        list.take(n)
    }
}

/// The directories among the entries of a directory, in their order.
pub open spec fn dirs_in(entries: Seq<DirEntry>) -> Seq<FoundView>
    decreases entries.len(),
{
    if entries.len() == 0 {
        seq![]
    } else {
        let before = dirs_in(entries.drop_last());
        let entry = entries.last();
        if entry.is_dir {
            before.push(FoundView { name: entry.name@, path: entry.path@ })
        } else {
            before
        }
    }
}

/// A search goes on while it has less than it may find and something is left.
pub open spec fn settled(w: Wanted, s: SearchView) -> SearchView {
    SearchView {
        phase: if s.hits.len() >= w.limit {
            Phase::Over
        } else if s.repos.len() > 0 {
            Phase::Meta
        } else if s.users.len() > 0 {
            Phase::User
        } else {
            Phase::Over
        },
        ..s
    }
}

/// The arguments of the log that a search reads.
pub open spec fn search_log_args() -> Seq<Seq<char>> {
    seq!["log"@, "--all"@, "--format=%H%x00%an%x00%s"@, "-n100"@]
}

/// What a search waits for.
pub open spec fn asked(w: Wanted, s: SearchView) -> Option<WorkView> {
    match s.phase {
        Phase::Root => Some(WorkView::ListDir { path: w.root@ }),
        Phase::User => Some(WorkView::ListDir { path: s.users[0].path }),
        Phase::Meta => Some(
            WorkView::ReadMeta { path: sidecar_path(w.root@, s.uid, s.repos[0].name) },
        ),
        Phase::Log => Some(
            WorkView::Git(
                git_command(bare_path(w.root@, s.uid, s.repos[0].name), search_log_args()),
            ),
        ),
        Phase::Over => None,
    }
}

/// A search before its first reply.
pub open spec fn search_start() -> SearchView {
    SearchView { phase: Phase::Root, users: seq![], uid: seq![], repos: seq![], hits: seq![] }
}

/// A search after the metadata of the next repository.
pub open spec fn after_meta(w: Wanted, s: SearchView, meta: MetaView) -> SearchView {
    let passed = SearchView { repos: s.repos.drop_first(), ..s };
    if !sees(w, s.uid, meta) {
        settled(w, passed)
    } else {
        let hits = s.hits + repo_hits(w, s.uid, s.repos[0].name, meta);
        if wants_commits(w) && hits.len() < w.limit {
            SearchView { phase: Phase::Log, hits, ..s }
        } else {
            settled(w, SearchView { hits, ..passed })
        }
    }
}

/// A search after a reply.
pub open spec fn after_reply(w: Wanted, s: SearchView, reply: Reply) -> SearchView {
    match s.phase {
        Phase::Root => match entries_in(reply) {
            Some(entries) => settled(w, SearchView { users: dirs_in(entries@), ..s }),
            None => SearchView { phase: Phase::Over, ..s },
        },
        Phase::User => settled(
            w,
            SearchView {
                users: s.users.drop_first(),
                uid: s.users[0].name,
                repos: match entries_in(reply) {
                    Some(entries) => bare_in(entries@),
                    None => seq![],
                },
                ..s
            },
        ),
        Phase::Meta => after_meta(w, s, meta_or_fresh(meta_in(reply), w.now@)),
        Phase::Log => settled(
            w,
            SearchView {
                repos: s.repos.drop_first(),
                hits: at_most(
                    s.hits + log_hits(w, s.uid, s.repos[0].name, git_in(reply)),
                    w.limit as int,
                ),
                ..s
            },
        ),
        Phase::Over => s,
    }
}

/// What the query is for, in lower case and without the white space around it.
pub open spec fn needle_of(query: SearchQuery) -> Seq<char> {
    lowercase(trimmed(query.q@))
}

/// How many hits a query may have: 20 unless it says otherwise, and from 1 to
/// 50.
pub open spec fn hits_wanted(query: SearchQuery) -> int {
    match query.limit {
        None => 20,
        Some(n) => if n < 1 {
            1
        } else if n > 50 {
            50
        } else {
            n as int
        },
    }
}

impl Search {
    /// The places are in bounds, and there is something to wait for unless the
    /// search is over.
    pub open spec fn wf(&self) -> bool {
        &&& self.user_at <= self.users@.len()
        &&& self.repo_at <= self.repos@.len()
        &&& self.hits@.len() <= self.wanted.limit
        &&& self.phase != Phase::Over ==> self.hits@.len() < self.wanted.limit
        &&& self.phase == Phase::Root ==> self@ == search_start()
        &&& self.phase == Phase::User ==> self.user_at < self.users@.len() && self.repo_at
            == self.repos@.len()
        &&& self.phase == Phase::Meta || self.phase == Phase::Log ==> self.repo_at
            < self.repos@.len()
    }

    /// What the search needs next; nothing if it is over.
    pub fn work(&self) -> (work: Option<Work>)
        requires
            self.wf(),
        ensures
            match work {
                Some(work) => asked(self.wanted, self@) == Some(work@),
                None => self.phase == Phase::Over,
            },
    {
        let root: &str = self.wanted.root.as_str();
        match self.phase {
            Phase::Root => Some(Work::ListDir { path: root.to_owned() }),
            Phase::User => {
                assert(self@.users[0] == self.users@[self.user_at as int]@);
                Some(Work::ListDir { path: self.users[self.user_at].path.clone() })
            },
            Phase::Meta => {
                assert(self@.repos[0] == self.repos@[self.repo_at as int]@);
                let name: &str = self.repos[self.repo_at].name.as_str();
                Some(Work::ReadMeta { path: meta_path(root, self.uid.as_str(), name) })
            },
            Phase::Log => {
                assert(self@.repos[0] == self.repos@[self.repo_at as int]@);
                let name: &str = self.repos[self.repo_at].name.as_str();
                let dir = repo_path(root, self.uid.as_str(), name);
                let args: [&str; 4] = ["log", "--all", "--format=%H%x00%an%x00%s", "-n100"];
                assert(slices(args@) =~= search_log_args());
                Some(Work::Git(git_in_dir(dir.as_str(), &args)))
            },
            Phase::Over => None,
        }
    }

    /// Settles what to wait for.
    fn settle(self) -> (next: Search)
        requires
            self.user_at <= self.users@.len(),
            self.repo_at <= self.repos@.len(),
            self.hits@.len() <= self.wanted.limit,
        ensures
            next.wf(),
            next.wanted == self.wanted,
            next@ == settled(self.wanted, self@),
    {
        let mut next = self;
        next.phase =
        if next.hits.len() >= next.wanted.limit {
            Phase::Over
        } else if next.repo_at < next.repos.len() {
            Phase::Meta
        } else if next.user_at < next.users.len() {
            Phase::User
        } else {
            Phase::Over
        };
        next
    }

    /// The search after the metadata of the next repository.
    fn take_meta(self, meta: &RepoMeta) -> (next: Search)
        requires
            self.wf(),
            self.phase == Phase::Meta,
        ensures
            next.wf(),
            next.wanted == self.wanted,
            next@ == after_meta(self.wanted, self@, meta@),
    {
        let mut next = self;
        let at: usize = next.repo_at;
        let count: usize = next.repos.len();
        proof {
            assert(at < count);
            assert(self@.repos[0] == self.repos@[at as int]@);
            assert(self@.repos.drop_first() =~= found_views(self.repos@).skip(at + 1));
        }
        if !may_see(&next.wanted, next.uid.as_str(), meta) {
            next.repo_at = at + 1;
            return next.settle();
        }
        if let Some(hit) = find_repo(
            &next.wanted,
            next.uid.as_str(),
            next.repos[at].name.as_str(),
            meta,
        ) {
            next.hits.push(hit);
        }
        let ghost hits = self@.hits + repo_hits(
            self.wanted,
            self.uid@,
            self.repos@[at as int].name@,
            meta@,
        );
        assert(hit_views(next.hits@) =~= hits);
        assert(hits.len() == next.hits@.len());
        if asks_commits(&next.wanted) && next.hits.len() < next.wanted.limit {
            next.phase = Phase::Log;
            return next;
        }
        next.repo_at = at + 1;
        next.settle()
    }

    /// The search after a reply to what it needed.
    pub fn next(self, reply: &Reply) -> (next: Search)
        requires
            self.wf(),
        ensures
            next.wf(),
            next.wanted == self.wanted,
            next@ == after_reply(self.wanted, self@, *reply),
    {
        let mut next = self;
        match next.phase {
            Phase::Root => match reply.entries() {
                Some(entries) => {
                    next.users = find_dirs(entries);
                    next.user_at = 0;
                    assert(next@.users =~= dirs_in(entries@));
                    next.settle()
                },
                None => {
                    next.phase = Phase::Over;
                    next
                },
            },
            Phase::User => {
                let at: usize = next.user_at;
                let count: usize = next.users.len();
                proof {
                    assert(at < count);
                    assert(self@.users[0] == self.users@[at as int]@);
                    assert(self@.users.drop_first() =~= found_views(self.users@).skip(at + 1));
                }
                next.uid = next.users[at].name.clone();
                next.user_at = at + 1;
                next.repos =
                match reply.entries() {
                    Some(entries) => find_bare(entries),
                    None => Vec::new(),
                };
                next.repo_at = 0;
                assert(next@.repos =~= match entries_in(*reply) {
                    Some(entries) => bare_in(entries@),
                    None => seq![],
                });
                next.settle()
            },
            Phase::Meta => {
                let meta = read_meta(reply.meta(), next.wanted.now.as_str());
                next.take_meta(&meta)
            },
            Phase::Log => {
                let at: usize = next.repo_at;
                let count: usize = next.repos.len();
                proof {
                    assert(at < count);
                    assert(self@.repos[0] == self.repos@[at as int]@);
                    assert(self@.repos.drop_first() =~= found_views(self.repos@).skip(at + 1));
                }
                add_commits(
                    &next.wanted,
                    next.uid.as_str(),
                    next.repos[at].name.as_str(),
                    reply.git(),
                    &mut next.hits,
                );
                next.repo_at = at + 1;
                next.settle()
            },
            Phase::Over => next,
        }
    }

    /// The answer of a search that is over.
    pub fn finish(self) -> (answer: Answer<SearchResults>)
        requires
            self.wf(),
            self.phase == Phase::Over,
        ensures
            answer.status == 200,
            answer.body@ == self@.hits,
            answer.body@.len() <= self.wanted.limit,
    {
        Answer { status: 200, body: SearchResults { results: self.hits } }
    }
}

/// Whether the search is for repositories too.
fn asks_repos(w: &Wanted) -> (r: bool)
    ensures
        r == wants_repos(*w),
{
    w.kind.as_str().is_empty() || same(w.kind.as_str(), "repo")
}

/// Whether the search is for commits too.
fn asks_commits(w: &Wanted) -> (r: bool)
    ensures
        r == wants_commits(*w),
{
    w.kind.as_str().is_empty() || same(w.kind.as_str(), "commit")
}

/// Whether the caller may see a repository.
fn may_see(w: &Wanted, uid: &str, meta: &RepoMeta) -> (r: bool)
    ensures
        r == sees(*w, uid@, meta@),
{
    if same(meta.visibility.as_str(), "public") {
        return true;
    }
    match &w.caller {
        Some(sub) => same(sub.as_str(), uid) || holds_text(&meta.collaborators, sub.as_str()),
        None => false,
    }
}

/// The hit that a repository is, if it is one.
fn find_repo(w: &Wanted, uid: &str, name: &str, meta: &RepoMeta) -> (hit: Option<SearchHit>)
    ensures
        repo_hits(*w, uid@, name@, meta@) == match hit {
            Some(h) => seq![h@],
            None => seq![],
        },
{
    if !asks_repos(w) {
        return None;
    }
    let needle: &str = w.needle.as_str();
    let lower_name = name.to_lowercase();
    let lower_text = meta.description.as_str().to_lowercase();
    if contains(lower_name.as_str(), needle) || contains(lower_text.as_str(), needle) {
        Some(
            SearchHit::Repo {
                owner: uid.to_owned(),
                name: name.to_owned(),
                description: meta.description.clone(),
                visibility: meta.visibility.clone(),
                star_count: meta.stars.len(),
            },
        )
    } else {
        None
    }
}

/// The hit that a line of the log is, if it is one.
fn find_commit(w: &Wanted, uid: &str, name: &str, line: &str) -> (hit: Option<SearchHit>)
    ensures
        commit_hit(*w, uid@, name@, line@) == match hit {
            Some(h) => Some(h@),
            None => None,
        },
{
    let fields = splitn(line, 3, '\0');
    assert(texts(fields@).len() == fields@.len());
    if fields.len() != 3 {
        return None;
    }
    proof {
        assert(texts(fields@)[0] == fields@[0]@);
        assert(texts(fields@)[1] == fields@[1]@);
        assert(texts(fields@)[2] == fields@[2]@);
    }
    let needle: &str = w.needle.as_str();
    let sha = fields[0].as_str().to_lowercase();
    let author = fields[1].as_str().to_lowercase();
    let message = fields[2].as_str().to_lowercase();
    if starts_with(sha.as_str(), needle) || contains(message.as_str(), needle) || contains(
        author.as_str(),
        needle,
    ) {
        Some(
            SearchHit::Commit {
                owner: uid.to_owned(),
                repo: name.to_owned(),
                sha: fields[0].clone(),
                author: fields[1].clone(),
                message: fields[2].clone(),
            },
        )
    } else {
        None
    }
}

/// What one more line of a log adds to the hits within the limit.
proof fn lemma_one_more_line(
    w: Wanted,
    uid: Seq<char>,
    name: Seq<char>,
    all: Seq<Seq<char>>,
    i: int,
    start: Seq<HitView>,
)
    requires
        0 <= i < all.len(),
    ensures
        ({
            let before = at_most(start + commit_hits(w, uid, name, all.take(i)), w.limit as int);
            let after = at_most(start + commit_hits(w, uid, name, all.take(i + 1)), w.limit as int);
            after == match commit_hit(w, uid, name, all[i]) {
                Some(hit) if before.len() < w.limit => before.push(hit),
                _ => before,
            }
        }),
{
    let found = commit_hits(w, uid, name, all.take(i));
    let more = commit_hits(w, uid, name, all.take(i + 1));
    assert(all.take(i + 1).drop_last() =~= all.take(i));
    assert(all.take(i + 1).last() == all[i]);
    if let Some(hit) = commit_hit(w, uid, name, all[i]) {
        assert(more == found.push(hit));
        assert(start + more =~= (start + found).push(hit));
        if (start + found).len() >= w.limit {
            assert(at_most(start + more, w.limit as int) =~= at_most(
                start + found,
                w.limit as int,
            ));
        }
    } else {
        assert(more == found);
    }
}

/// Adds the hits among the commits of a repository, up to the limit.
fn add_commits(w: &Wanted, uid: &str, name: &str, g: &GitReply, hits: &mut Vec<SearchHit>)
    requires
        old(hits)@.len() <= w.limit,
    ensures
        hit_views(final(hits)@) == at_most(
            hit_views(old(hits)@) + log_hits(*w, uid@, name@, *g),
            w.limit as int,
        ),
        final(hits)@.len() <= w.limit,
{
    let ghost start = hit_views(hits@);
    if !g.success() {
        assert(start + log_hits(*w, uid@, name@, *g) =~= start);
        return;
    }
    let log = g.printed();
    let list = lines(log.as_str());
    let ghost all = lines_of(log@);
    assert(start + commit_hits(*w, uid@, name@, all.take(0)) =~= start);
    for i in 0..list.len()
        invariant
            texts(list@) == all,
            hits@.len() <= w.limit,
            hit_views(hits@) == at_most(
                start + commit_hits(*w, uid@, name@, all.take(i as int)),
                w.limit as int,
            ),
    {
        assert(all[i as int] == list@[i as int]@);
        proof {
            lemma_one_more_line(*w, uid@, name@, all, i as int, start);
        }
        if hits.len() < w.limit {
            if let Some(hit) = find_commit(w, uid, name, list[i].as_str()) {
                let ghost before = hits@;
                hits.push(hit);
                assert(hit_views(hits@) =~= hit_views(before).push(hit@));
            }
        }
    }
    assert(all.take(list@.len() as int) =~= all);
}

/// The directories among the entries of a directory.
fn find_dirs(entries: &Vec<DirEntry>) -> (dirs: Vec<Found>)
    ensures
        found_views(dirs@) == dirs_in(entries@),
{
    let mut dirs: Vec<Found> = Vec::new();
    assert(found_views(dirs@) =~= dirs_in(entries@.take(0)));
    for i in 0..entries.len()
        invariant
            found_views(dirs@) == dirs_in(entries@.take(i as int)),
    {
        assert(entries@.take(i + 1).drop_last() =~= entries@.take(i as int));
        if entries[i].is_dir {
            let ghost before = dirs@;
            let one = Found { name: entries[i].name.clone(), path: entries[i].path.clone() };
            dirs.push(one);
            assert(found_views(dirs@) =~= found_views(before).push(one@));
        }
    }
    assert(entries@.take(entries@.len() as int) =~= entries@);
    dirs
}

/// `GET /search`: begins a search over all repositories that the caller may
/// see.
pub fn search(ctx: &Context, query: &SearchQuery) -> (begun: Result<Search, ApiError>)
    ensures
        match begun {
            Ok(s) => {
                &&& needle_of(*query).len() > 0
                &&& s.wf()
                &&& s@ == search_start()
                &&& s.wanted.root@ == ctx.root@
                &&& s.wanted.now@ == ctx.now@
                &&& s.wanted.caller is Some == ctx.claims is Some
                &&& s.wanted.caller is Some ==> s.wanted.caller->0@ == ctx.claims->0.sub@
                &&& s.wanted.needle@ == needle_of(*query)
                &&& s.wanted.kind@ == match query.kind {
                    Some(kind) => kind@,
                    None => seq![],
                }
                &&& s.wanted.limit == hits_wanted(*query)
            },
            Err(e) => needle_of(*query).len() == 0 && e@ == plain(400, "query is required"@),
        },
{
    let bare = trim(query.q.as_str());
    let needle = bare.as_str().to_lowercase();
    if needle.as_str().is_empty() {
        return Err(bad_request("query is required"));
    }
    let limit: usize = match query.limit {
        None => 20,
        Some(n) => if n < 1 {
            1
        } else if n > 50 {
            50
        } else {
            n as usize
        },
    };
    let wanted = Wanted {
        root: ctx.root.clone(),
        now: ctx.now.clone(),
        caller: match &ctx.claims {
            Some(c) => Some(c.sub.clone()),
            None => None,
        },
        needle,
        kind: match &query.kind {
            Some(kind) => kind.clone(),
            None => String::new(),
        },
        limit,
    };
    let begun = Search {
        wanted,
        phase: Phase::Root,
        users: Vec::new(),
        user_at: 0,
        uid: String::new(),
        repos: Vec::new(),
        repo_at: 0,
        hits: Vec::new(),
    };
    assert(begun@ =~= search_start());
    Ok(begun)
}

/// What a repository holds for a search, in a world that answers all work.
pub open spec fn finds_in_repo(
    w: Wanted,
    world: spec_fn(WorkView) -> Reply,
    uid: Seq<char>,
    name: Seq<char>,
) -> Seq<HitView> {
    let meta = meta_or_fresh(
        meta_in(world(WorkView::ReadMeta { path: sidecar_path(w.root@, uid, name) })),
        w.now@,
    );
    if !sees(w, uid, meta) {
        seq![]
    } else if wants_commits(w) {
        repo_hits(w, uid, name, meta) + log_hits(
            w,
            uid,
            name,
            git_in(
                world(WorkView::Git(git_command(bare_path(w.root@, uid, name), search_log_args()))),
            ),
        )
    } else {
        repo_hits(w, uid, name, meta)
    }
}

/// What repositories hold for a search, one after another.
pub open spec fn finds_in_repos(
    w: Wanted,
    world: spec_fn(WorkView) -> Reply,
    uid: Seq<char>,
    repos: Seq<FoundView>,
) -> Seq<HitView>
    decreases repos.len(),
{
    if repos.len() == 0 {
        seq![]
    } else {
        finds_in_repo(w, world, uid, repos[0].name) + finds_in_repos(
            w,
            world,
            uid,
            repos.drop_first(),
        )
    }
}

/// What the repositories of users hold for a search, one user after another.
pub open spec fn finds_in_users(
    w: Wanted,
    world: spec_fn(WorkView) -> Reply,
    users: Seq<FoundView>,
) -> Seq<HitView>
    decreases users.len(),
{
    if users.len() == 0 {
        seq![]
    } else {
        let repos = match entries_in(world(WorkView::ListDir { path: users[0].path })) {
            Some(entries) => bare_in(entries@),
            None => seq![],
        };
        finds_in_repos(w, world, users[0].name, repos) + finds_in_users(
            w,
            world,
            users.drop_first(),
        )
    }
}

/// All that there is to find.
pub open spec fn finds(w: Wanted, world: spec_fn(WorkView) -> Reply) -> Seq<HitView> {
    match entries_in(world(WorkView::ListDir { path: w.root@ })) {
        Some(entries) => finds_in_users(w, world, dirs_in(entries@)),
        None => seq![],
    }
}

/// A search that waits for something that is there.
pub open spec fn is_ready(s: SearchView) -> bool {
    &&& s.phase == Phase::User ==> s.users.len() > 0 && s.repos.len() == 0
    &&& s.phase == Phase::Meta || s.phase == Phase::Log ==> s.repos.len() > 0
}

/// How a phase counts for what is left of a search, before and after the users
/// and repositories that are left.
pub open spec fn phase_rank(phase: Phase) -> (nat, nat) {
    match phase {
        Phase::Root => (1, 0),
        Phase::Meta => (0, 1),
        _ => (0, 0),
    }
}

/// A search run to its end in a world that answers all work.
pub open spec fn search_run(
    w: Wanted,
    world: spec_fn(WorkView) -> Reply,
    s: SearchView,
) -> SearchView
    decreases
            phase_rank(s.phase).0,
            s.users.len(),
            s.repos.len(),
            phase_rank(s.phase).1,
{
    match asked(w, s) {
        Some(work) => if is_ready(s) {
            search_run(w, world, after_reply(w, s, world(work)))
        } else {
            s
        },
        None => s,
    }
}

/// What a search still has to find.
spec fn still_to_find(w: Wanted, world: spec_fn(WorkView) -> Reply, s: SearchView) -> Seq<HitView> {
    match s.phase {
        Phase::Root => finds(w, world),
        Phase::User => finds_in_users(w, world, s.users),
        Phase::Meta => finds_in_repos(w, world, s.uid, s.repos) + finds_in_users(w, world, s.users),
        Phase::Log => log_hits(
            w,
            s.uid,
            s.repos[0].name,
            git_in(world(asked(w, s)->0)),
        ) + finds_in_repos(w, world, s.uid, s.repos.drop_first()) + finds_in_users(
            w,
            world,
            s.users,
        ),
        Phase::Over => seq![],
    }
}

/// Settling loses nothing that is still within the limit.
proof fn lemma_settled(w: Wanted, world: spec_fn(WorkView) -> Reply, s: SearchView)
    requires
        s.hits.len() <= w.limit,
    ensures
        is_ready(settled(w, s)),
        settled(w, s).hits == s.hits,
        at_most(
            s.hits + still_to_find(w, world, settled(w, s)),
            w.limit as int,
        ) == at_most(
            s.hits + (finds_in_repos(w, world, s.uid, s.repos) + finds_in_users(w, world, s.users)),
            w.limit as int,
        ),
{
    let left = finds_in_repos(w, world, s.uid, s.repos) + finds_in_users(w, world, s.users);
    let t = settled(w, s);
    if t.phase == Phase::Over {
        assert(s.hits + still_to_find(w, world, t) =~= s.hits);
        if s.hits.len() >= w.limit {
            assert(at_most(s.hits + left, w.limit as int) =~= s.hits);
        } else {
            assert(left =~= seq![]);
        }
    } else if t.phase == Phase::User {
        assert(left =~= finds_in_users(w, world, s.users));
    }
}

/// A reply keeps what a search has found and is still to find, within the
/// limit.
proof fn lemma_reply_keeps(w: Wanted, world: spec_fn(WorkView) -> Reply, s: SearchView)
    requires
        is_ready(s),
        s.phase != Phase::Over ==> s.hits.len() < w.limit,
        s.phase == Phase::Root ==> s == search_start(),
        asked(w, s) is Some,
    ensures
        ({
            let t = after_reply(w, s, world(asked(w, s)->0));
            &&& is_ready(t)
            &&& t.hits.len() <= w.limit
            &&& t.phase != Phase::Over ==> t.hits.len() < w.limit
            &&& t.phase != Phase::Root
            &&& at_most(s.hits + still_to_find(w, world, s), w.limit as int) == at_most(
                t.hits + still_to_find(w, world, t),
                w.limit as int,
            )
        }),
{
    let reply = world(asked(w, s)->0);
    match s.phase {
        Phase::Root => match entries_in(reply) {
            Some(entries) => {
                let u = SearchView { users: dirs_in(entries@), ..s };
                lemma_settled(w, world, u);
                assert(finds_in_repos(w, world, u.uid, u.repos) + finds_in_users(w, world, u.users)
                    =~= finds(w, world));
            },
            None => {},
        },
        Phase::User => {
            let u = SearchView {
                users: s.users.drop_first(),
                uid: s.users[0].name,
                repos: match entries_in(reply) {
                    Some(entries) => bare_in(entries@),
                    None => seq![],
                },
                ..s
            };
            lemma_settled(w, world, u);
        },
        Phase::Meta => {
            let meta = meta_or_fresh(meta_in(reply), w.now@);
            let passed = SearchView { repos: s.repos.drop_first(), ..s };
            let now = repo_hits(w, s.uid, s.repos[0].name, meta);
            let rest = finds_in_repos(w, world, s.uid, passed.repos) + finds_in_users(
                w,
                world,
                s.users,
            );
            let t = after_reply(w, s, reply);
            if !sees(w, s.uid, meta) {
                lemma_settled(w, world, passed);
                assert(still_to_find(w, world, s) =~= rest);
            } else if t.phase == Phase::Log {
                assert(s.hits + still_to_find(w, world, s) =~= t.hits + still_to_find(w, world, t));
            } else {
                let u = SearchView { hits: s.hits + now, ..passed };
                lemma_settled(w, world, u);
                if wants_commits(w) {
                    assert(u.hits.len() == w.limit);
                    assert(at_most(s.hits + still_to_find(w, world, s), w.limit as int) =~= u.hits);
                    assert(at_most(u.hits + rest, w.limit as int) =~= u.hits);
                } else {
                    assert(s.hits + still_to_find(w, world, s) =~= u.hits + rest);
                }
            }
        },
        Phase::Log => {
            let more = log_hits(w, s.uid, s.repos[0].name, git_in(reply));
            let u = SearchView {
                repos: s.repos.drop_first(),
                hits: at_most(s.hits + more, w.limit as int),
                ..s
            };
            let rest = finds_in_repos(w, world, s.uid, u.repos) + finds_in_users(w, world, s.users);
            lemma_settled(w, world, u);
            assert(s.hits + still_to_find(w, world, s) =~= (s.hits + more) + rest);
            assert(at_most((s.hits + more) + rest, w.limit as int) =~= at_most(
                u.hits + rest,
                w.limit as int,
            ));
        },
        Phase::Over => {},
    }
}

/// A search under way ends with what it has found and is still to find, within
/// the limit.
proof fn lemma_search_run(w: Wanted, world: spec_fn(WorkView) -> Reply, s: SearchView)
    requires
        is_ready(s),
        s.hits.len() <= w.limit,
        s.phase != Phase::Over ==> s.hits.len() < w.limit,
        s.phase == Phase::Root ==> s == search_start(),
    ensures
        search_run(w, world, s).phase == Phase::Over,
        search_run(w, world, s).hits == at_most(
            s.hits + still_to_find(w, world, s),
            w.limit as int,
        ),
    decreases
            phase_rank(s.phase).0,
            s.users.len(),
            s.repos.len(),
            phase_rank(s.phase).1,
{
    match asked(w, s) {
        Some(work) => {
            lemma_reply_keeps(w, world, s);
            lemma_search_run(w, world, after_reply(w, s, world(work)));
        },
        None => {
            assert(s.hits + still_to_find(w, world, s) =~= s.hits);
        },
    }
}

/// A search comes to its end, and finds the first hits of all that there is to
/// find, as many as were wanted: repositories and commits of user after user,
/// in the order in which the directories list them.
pub proof fn search_finds_the_first(w: Wanted, world: spec_fn(WorkView) -> Reply)
    requires
        w.limit > 0,
    ensures
        search_run(w, world, search_start()).phase == Phase::Over,
        search_run(w, world, search_start()).hits == at_most(finds(w, world), w.limit as int),
{
    lemma_search_run(w, world, search_start());
    assert(search_start().hits + finds(w, world) =~= finds(w, world));
}

/// The owner of the repository that a hit is in.
pub open spec fn hit_owner(hit: HitView) -> Seq<char> {
    match hit {
        HitView::Repo { owner, .. } => owner,
        HitView::Commit { owner, .. } => owner,
    }
}

/// The name of the repository that a hit is in.
pub open spec fn hit_repo(hit: HitView) -> Seq<char> {
    match hit {
        HitView::Repo { name, .. } => name,
        HitView::Commit { repo, .. } => repo,
    }
}

/// A hit in a repository that the caller may see.
pub open spec fn is_open_hit(w: Wanted, world: spec_fn(WorkView) -> Reply, hit: HitView) -> bool {
    sees(
        w,
        hit_owner(hit),
        meta_or_fresh(
            meta_in(
                world(
                    WorkView::ReadMeta { path: sidecar_path(w.root@, hit_owner(hit), hit_repo(hit)) },
                ),
            ),
            w.now@,
        ),
    )
}

proof fn lemma_commit_hits(
    w: Wanted,
    uid: Seq<char>,
    name: Seq<char>,
    list: Seq<Seq<char>>,
    i: int,
)
    requires
        0 <= i < commit_hits(w, uid, name, list).len(),
    ensures
        hit_owner(commit_hits(w, uid, name, list)[i]) == uid,
        hit_repo(commit_hits(w, uid, name, list)[i]) == name,
    decreases list.len(),
{
    if list.len() > 0 && i < commit_hits(w, uid, name, list.drop_last()).len() {
        lemma_commit_hits(w, uid, name, list.drop_last(), i);
    }
}

proof fn lemma_finds_in_repos(
    w: Wanted,
    world: spec_fn(WorkView) -> Reply,
    uid: Seq<char>,
    repos: Seq<FoundView>,
    i: int,
)
    requires
        0 <= i < finds_in_repos(w, world, uid, repos).len(),
    ensures
        is_open_hit(w, world, finds_in_repos(w, world, uid, repos)[i]),
    decreases repos.len(),
{
    let name = repos[0].name;
    let first = finds_in_repo(w, world, uid, name);
    if i < first.len() {
        let meta = meta_or_fresh(
            meta_in(world(WorkView::ReadMeta { path: sidecar_path(w.root@, uid, name) })),
            w.now@,
        );
        let n = repo_hits(w, uid, name, meta).len() as int;
        if i >= n {
            let g = git_in(
                world(WorkView::Git(git_command(bare_path(w.root@, uid, name), search_log_args()))),
            );
            lemma_commit_hits(w, uid, name, lines_of(printed(g)), i - n);
        }
    } else {
        lemma_finds_in_repos(w, world, uid, repos.drop_first(), i - first.len());
    }
}

proof fn lemma_finds_in_users(
    w: Wanted,
    world: spec_fn(WorkView) -> Reply,
    users: Seq<FoundView>,
    i: int,
)
    requires
        0 <= i < finds_in_users(w, world, users).len(),
    ensures
        is_open_hit(w, world, finds_in_users(w, world, users)[i]),
    decreases users.len(),
{
    let repos = match entries_in(world(WorkView::ListDir { path: users[0].path })) {
        Some(entries) => bare_in(entries@),
        None => seq![],
    };
    let first = finds_in_repos(w, world, users[0].name, repos);
    if i < first.len() {
        lemma_finds_in_repos(w, world, users[0].name, repos, i);
    } else {
        lemma_finds_in_users(w, world, users.drop_first(), i - first.len());
    }
}

/// A search gives nothing away: all it finds is in repositories that are
/// public, or the caller's own, or have the caller as a collaborator.
pub proof fn search_hides_private(w: Wanted, world: spec_fn(WorkView) -> Reply)
    requires
        w.limit > 0,
    ensures
        forall|i: int|
            0 <= i < search_run(w, world, search_start()).hits.len() ==> is_open_hit(
                w,
                world,
                #[trigger] search_run(w, world, search_start()).hits[i],
            ),
{
    search_finds_the_first(w, world);
    let found = search_run(w, world, search_start()).hits;
    assert forall|i: int| 0 <= i < found.len() implies is_open_hit(
        w,
        world,
        #[trigger] found[i],
    ) by {
        if let Some(entries) = entries_in(world(WorkView::ListDir { path: w.root@ })) {
            lemma_finds_in_users(w, world, dirs_in(entries@), i);
        }
    }
}

} // verus!
