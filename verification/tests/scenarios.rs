//! Requests against a small model of git and of the disk.

use std::collections::BTreeMap;

use base64::engine::general_purpose::STANDARD;
use base64::Engine;
use git_agent::authz::{Claims, Context};
use git_agent::browse::{
    commit_preview, get_blob, get_diff, get_tree, list_branches, list_commits_checked,
};
use git_agent::errors::ApiError;
use git_agent::files::{create_blob, delete_blob, scratch_name, update_blob};
use git_agent::metadata::RepoMeta;
use git_agent::repositories::{
    create_repository, delete_repository, list_repositories, profile_repos,
};
use git_agent::search::search;
use git_agent::server::bearer_token;
use git_agent::settings::{
    add_collaborator, get_repo_meta, remove_collaborator, star_repo, unstar_repo, update_settings,
};
use git_agent::types::{
    BlobQuery, CollaboratorBody, CommitsQuery, CreateRepoRequest, DeleteFileBody, PreviewQuery,
    SearchHit, SearchQuery, TreeQuery, UpdateSettingsBody, WriteFileBody,
};
use git_agent::work::{
    Answer, DirEntry, GitCommand, GitReply, Removal, Reply, Step, Work,
};

const ROOT: &str = "/srv/repos";
const NOW: &str = "2024-05-06T07:08:09.123456789+00:00";
const SECRET: &[u8] = b"test-secret-32-chars-long-enough!!";

// ── A model of git ──────────────────────────────────────────────────────────

struct ModelCommit {
    tree: String,
    parent: Option<String>,
    name: String,
    email: String,
    time: i64,
    message: String,
}

#[derive(Default)]
struct ModelGit {
    blobs: BTreeMap<String, Vec<u8>>,
    trees: BTreeMap<String, BTreeMap<String, String>>,
    commits: BTreeMap<String, ModelCommit>,
    refs: BTreeMap<String, String>,
    index: BTreeMap<String, String>,
    made: u64,
}

fn ended(success: bool, stdout: Vec<u8>) -> GitReply {
    GitReply::Ended { success, stdout, stderr: b"fatal: no".to_vec() }
}

fn printed(text: String) -> GitReply {
    ended(true, text.into_bytes())
}

fn failed() -> GitReply {
    ended(false, Vec::new())
}

impl ModelGit {
    fn name(&mut self) -> String {
        self.made += 1;
        format!("{:040x}", 0xabc000 + self.made)
    }

    fn commit_of(&self, name: &str) -> Option<String> {
        let name = if name == "HEAD" { "main" } else { name };
        if let Some(sha) = self.refs.get(&format!("refs/heads/{name}")) {
            return Some(sha.clone());
        }
        if let Some(sha) = self.refs.get(name) {
            return Some(sha.clone());
        }
        self.commits.keys().find(|k| k.as_str() == name).cloned()
    }

    fn tree_of(&self, name: &str) -> Option<&BTreeMap<String, String>> {
        let commit = self.commits.get(&self.commit_of(name)?)?;
        self.trees.get(&commit.tree)
    }

    fn history(&self, from: &str) -> Vec<String> {
        let mut list = Vec::new();
        let mut next = self.commit_of(from);
        while let Some(sha) = next {
            next = self.commits[&sha].parent.clone();
            list.push(sha);
        }
        list
    }

    fn all_commits(&self) -> Vec<String> {
        let mut list: Vec<String> = Vec::new();
        for full in self.refs.keys() {
            for sha in self.history(full) {
                if !list.contains(&sha) {
                    list.push(sha);
                }
            }
        }
        list.sort_by_key(|sha| -self.commits[sha].time);
        list
    }

    fn fields(&self, sha: &str, end: &str) -> String {
        let c = &self.commits[sha];
        format!("{sha}\0{}\0{}\0{}\0{}{end}", c.name, c.email, c.time, c.message)
    }

    fn run(&mut self, command: &GitCommand) -> GitReply {
        let args: Vec<&str> = command.args.iter().map(|a| a.as_str()).collect();
        match args.as_slice() {
            ["rev-parse", "--verify", full] => match self.refs.get(*full) {
                Some(sha) => printed(format!("{sha}\n")),
                None => failed(),
            },
            ["cat-file", "-e", object] => {
                let (branch, path) = object.split_once(':').unwrap();
                match self.tree_of(branch) {
                    Some(tree) if tree.contains_key(path) => printed(String::new()),
                    _ => failed(),
                }
            }
            ["read-tree", "--empty"] => {
                self.index.clear();
                printed(String::new())
            }
            ["read-tree", commit] => {
                self.index = self.tree_of(commit).unwrap().clone();
                printed(String::new())
            }
            ["hash-object", "-w", "--stdin"] => {
                let sha = self.name();
                self.blobs.insert(sha.clone(), command.input.clone().unwrap());
                printed(format!("{sha}\n"))
            }
            ["update-index", "--add", "--cacheinfo", info] => {
                let mut parts = info.splitn(3, ',');
                assert_eq!(parts.next(), Some("100644"));
                let blob = parts.next().unwrap().to_string();
                let path = parts.next().unwrap().to_string();
                assert!(self.blobs.contains_key(&blob));
                self.index.insert(path, blob);
                printed(String::new())
            }
            ["-c", "core.bare=false", "update-index", "--force-remove", path] => {
                assert!(command.scratch.as_ref().unwrap().starts_with("git-agent-wt-"));
                self.index.remove(*path);
                printed(String::new())
            }
            ["write-tree"] => {
                let sha = self.name();
                self.trees.insert(sha.clone(), self.index.clone());
                printed(format!("{sha}\n"))
            }
            ["commit-tree", tree, rest @ ..] => {
                let (parent, message) = match rest {
                    ["-p", p, "-m", m] => (Some(p.to_string()), m.to_string()),
                    ["-m", m] => (None, m.to_string()),
                    _ => return failed(),
                };
                let env: BTreeMap<&str, &str> =
                    command.env.iter().map(|(k, v)| (k.as_str(), v.as_str())).collect();
                assert_eq!(env["GIT_AUTHOR_NAME"], env["GIT_COMMITTER_NAME"]);
                assert_eq!(env["GIT_AUTHOR_EMAIL"], env["GIT_COMMITTER_EMAIL"]);
                let sha = self.name();
                let time = 1_700_000_000 + self.made as i64;
                self.commits.insert(
                    sha.clone(),
                    ModelCommit {
                        tree: tree.to_string(),
                        parent,
                        name: env["GIT_AUTHOR_NAME"].to_string(),
                        email: env["GIT_AUTHOR_EMAIL"].to_string(),
                        time,
                        message,
                    },
                );
                printed(format!("{sha}\n"))
            }
            ["update-ref", full, sha] => {
                assert!(self.commits.contains_key(*sha));
                self.refs.insert(full.to_string(), sha.to_string());
                printed(String::new())
            }
            ["branch", "-a", "--format=%(refname:short)"] => {
                let names: Vec<String> = self
                    .refs
                    .keys()
                    .map(|k| format!("{}\n", k.trim_start_matches("refs/heads/")))
                    .collect();
                printed(names.concat())
            }
            ["branch", "--contains", sha, "--format=%(refname:short)"] => {
                let mut out = String::new();
                for full in self.refs.keys() {
                    if self.history(full).iter().any(|s| s == sha) {
                        out.push_str(&format!("{}\n", full.trim_start_matches("refs/heads/")));
                    }
                }
                printed(out)
            }
            ["symbolic-ref", "--short", "HEAD"] => printed("main\n".to_string()),
            ["log", "-1", "--format=%at", "--all"] => match self.all_commits().first() {
                Some(sha) => printed(format!("{}\n", self.commits[sha].time)),
                None => printed(String::new()),
            },
            ["log", "--all", "--format=%H%x00%an%x00%s", "-n100"] => {
                let lines: Vec<String> = self
                    .all_commits()
                    .iter()
                    .map(|sha| {
                        let c = &self.commits[sha];
                        format!("{sha}\0{}\0{}\n", c.name, c.message)
                    })
                    .collect();
                printed(lines.concat())
            }
            ["log", branch, "--format=%H%x00%an%x00%ae%x00%at%x00%s", n, skip] => {
                let n: usize = n.trim_start_matches("-n").parse().unwrap();
                let skip: usize = skip.trim_start_matches("--skip=").parse().unwrap();
                let lines: Vec<String> = self
                    .history(branch)
                    .iter()
                    .skip(skip)
                    .take(n)
                    .map(|sha| self.fields(sha, "\n"))
                    .collect();
                printed(lines.concat())
            }
            ["ls-tree", "--long", object] => {
                let (name, path) = object.split_once(':').unwrap();
                let tree = match self.tree_of(name) {
                    Some(tree) => tree,
                    None => return failed(),
                };
                let mut lines = String::new();
                for (full, blob) in tree {
                    if let Some(rest) = full.strip_prefix(path) {
                        if !rest.contains('/') {
                            let size = self.blobs[blob].len();
                            lines.push_str(&format!("100644 blob {blob} {size:>7}\t{rest}\n"));
                        }
                    }
                }
                printed(lines)
            }
            ["show", "--format=%H%x00%an%x00%ae%x00%at%x00%s", "-s", sha] => {
                match self.commit_of(sha) {
                    Some(sha) => printed(self.fields(&sha, "\n")),
                    None => failed(),
                }
            }
            ["show", "--format=%H%x00%an%x00%ae%x00%at%x00%s%x00", "--stat", "-p", sha] => {
                match self.commit_of(sha) {
                    Some(sha) => printed(format!(
                        "{}\n README.md | 1 +\n 1 file changed, 1 insertion(+)\n\n\
                         diff --git a/README.md b/README.md\n+# Hello\n",
                        self.fields(&sha, "\0")
                    )),
                    None => failed(),
                }
            }
            ["show", object] => {
                let (name, path) = object.split_once(':').unwrap();
                match self.tree_of(name).and_then(|tree| tree.get(path)) {
                    Some(blob) => ended(true, self.blobs[blob].clone()),
                    None => failed(),
                }
            }
            ["diff-tree", "--stat", ..] => {
                printed(" README.md | 1 +\n 1 file changed, 1 insertion(+)\n".to_string())
            }
            ["diff-tree", "-p", ..] => {
                printed("diff --git a/README.md b/README.md\n".to_string())
            }
            _ => GitReply::NotStarted,
        }
    }
}

// ── A model of the disk ─────────────────────────────────────────────────────

#[derive(Default)]
struct World {
    repos: BTreeMap<String, ModelGit>,
    metas: BTreeMap<String, RepoMeta>,
    users: Vec<String>,
    locked: Vec<String>,
    asked: Vec<String>,
}

impl World {
    fn is_dir(&self, path: &str) -> bool {
        path == ROOT || self.users.iter().any(|u| u == path) || self.repos.contains_key(path)
    }

    fn list(&self, path: &str) -> Option<Vec<DirEntry>> {
        if !self.is_dir(path) {
            return None;
        }
        let prefix = format!("{path}/");
        let entry = |full: &String, is_dir: bool| {
            let name = full.strip_prefix(&prefix)?;
            if name.contains('/') {
                return None;
            }
            Some(DirEntry { name: name.to_string(), path: full.clone(), is_dir })
        };
        let mut list: Vec<DirEntry> = Vec::new();
        list.extend(self.users.iter().filter_map(|u| entry(u, true)));
        list.extend(self.repos.keys().filter_map(|r| entry(r, true)));
        list.extend(self.metas.keys().filter_map(|m| entry(m, false)));
        Some(list)
    }

    fn git(&mut self, command: &GitCommand) -> GitReply {
        self.asked.push(command.args[0].clone());
        match &command.dir {
            Some(dir) => match self.repos.get_mut(dir) {
                Some(repo) => repo.run(command),
                None => failed(),
            },
            None => match command.args.as_slice() {
                [init, bare, path] if init == "init" && bare == "--bare" => {
                    self.repos.entry(path.clone()).or_default();
                    printed(format!("Initialized empty Git repository in {path}/\n"))
                }
                _ => GitReply::NotStarted,
            },
        }
    }

    fn perform(&mut self, work: Work) -> Reply {
        match work {
            Work::Git(command) => Reply::Git(self.git(&command)),
            Work::GitAll(list) => Reply::GitAll(list.iter().map(|c| self.git(c)).collect()),
            Work::Lock { repo } => {
                self.locked.push(repo);
                Reply::Done
            }
            Work::ReadMeta { path } => Reply::Meta(self.metas.get(&path).cloned()),
            Work::ReadMetas { paths } => {
                Reply::Metas(paths.iter().map(|p| self.metas.get(p).cloned()).collect())
            }
            Work::WriteMeta { path, meta } => {
                self.metas.insert(path, meta);
                Reply::Flag(true)
            }
            Work::IsDir { path } => Reply::Flag(self.is_dir(&path)),
            Work::ListDir { path } => Reply::Entries(self.list(&path)),
            Work::MakeDir { path } => {
                if !self.users.contains(&path) {
                    self.users.push(path);
                }
                Reply::Flag(true)
            }
            Work::RemoveDir { path } => match self.repos.remove(&path) {
                Some(_) => Reply::Removed(Removal::Removed),
                None => Reply::Removed(Removal::Missing),
            },
            Work::RemoveFile { path } => {
                self.metas.remove(&path);
                Reply::Done
            }
        }
    }

    fn run<T>(&mut self, op: impl Fn(&[Reply]) -> Step<T>) -> Result<Answer<T>, ApiError> {
        let mut replies: Vec<Reply> = Vec::new();
        loop {
            match op(&replies) {
                Step::Ask(work) => {
                    let reply = self.perform(work);
                    replies.push(reply);
                }
                Step::Done(result) => return result,
            }
        }
    }

    /// A world with a bare repository that holds nothing.
    fn seed_empty(owner: &str, repo: &str) -> World {
        let mut world = World::default();
        world.users.push(format!("{ROOT}/{owner}"));
        world.repos.insert(format!("{ROOT}/{owner}/{repo}.git"), ModelGit::default());
        world
    }

    /// A world with a bare repository with one commit on `main` that holds a
    /// `README.md`.
    fn seed(owner: &str, repo: &str) -> World {
        let mut world = World::seed_empty(owner, repo);
        let git = world.repos.get_mut(&format!("{ROOT}/{owner}/{repo}.git")).unwrap();
        let blob = git.name();
        git.blobs.insert(blob.clone(), b"# Hello\n".to_vec());
        let tree = git.name();
        git.trees.insert(tree.clone(), BTreeMap::from([("README.md".to_string(), blob)]));
        let commit = git.name();
        git.commits.insert(
            commit.clone(),
            ModelCommit {
                tree,
                parent: None,
                name: "Test".to_string(),
                email: "t@example.com".to_string(),
                time: 1_700_000_000,
                message: "init".to_string(),
            },
        );
        git.refs.insert("refs/heads/main".to_string(), commit);
        world
    }
}

// ── Tokens and requests ─────────────────────────────────────────────────────

fn make_token_with_username(sub: &str, username: &str) -> String {
    let mut claims = serde_json::Map::new();
    claims.insert("sub".to_string(), serde_json::Value::from(sub));
    claims.insert("email".to_string(), serde_json::Value::from("u@example.com"));
    claims.insert("username".to_string(), serde_json::Value::from(username));
    claims.insert("exp".to_string(), serde_json::Value::from(9_999_999_999u64));
    jsonwebtoken::encode(
        &jsonwebtoken::Header::default(),
        &serde_json::Value::Object(claims),
        &jsonwebtoken::EncodingKey::from_secret(SECRET),
    )
    .unwrap()
}

fn make_token(sub: &str) -> String {
    make_token_with_username(sub, sub)
}

fn claims_in(header: Option<&str>) -> Option<Claims> {
    let token = bearer_token(header?)?;
    let data = jsonwebtoken::decode::<serde_json::Value>(
        &token,
        &jsonwebtoken::DecodingKey::from_secret(SECRET),
        &jsonwebtoken::Validation::default(),
    )
    .ok()?;
    let field = |name: &str| data.claims[name].as_str().map(|s| s.to_string());
    Some(Claims {
        sub: field("sub")?,
        email: field("email")?,
        username: field("username")?,
        iat: data.claims["iat"].as_u64(),
        exp: data.claims["exp"].as_u64(),
    })
}

fn context(header: Option<&str>) -> Context {
    Context { root: ROOT.to_string(), now: NOW.to_string(), claims: claims_in(header) }
}

fn as_user(token: &str) -> Context {
    context(Some(&format!("Bearer {token}")))
}

fn nobody() -> Context {
    context(None)
}

fn status<T>(result: &Result<Answer<T>, ApiError>) -> u16 {
    match result {
        Ok(answer) => answer.status,
        Err(e) => e.status_code(),
    }
}

fn error<T>(result: Result<Answer<T>, ApiError>) -> String {
    match result {
        Ok(_) => panic!("expected an error"),
        Err(e) => e.body.error,
    }
}

fn encode(bytes: &[u8]) -> String {
    STANDARD.encode(bytes)
}

fn decode(text: &str) -> Vec<u8> {
    STANDARD.decode(text).unwrap()
}

fn put(path: &str, content: &str, message: &str, branch: &str) -> WriteFileBody {
    WriteFileBody {
        path: path.to_string(),
        content: content.to_string(),
        message: message.to_string(),
        branch: branch.to_string(),
        author_name: "Test".to_string(),
        author_email: "t@example.com".to_string(),
    }
}

fn take_away(path: &str, message: &str, branch: &str) -> DeleteFileBody {
    DeleteFileBody {
        path: path.to_string(),
        message: message.to_string(),
        branch: branch.to_string(),
        author_name: "Test".to_string(),
        author_email: "t@example.com".to_string(),
    }
}

fn repo_request(name: &str, user_id: &str) -> CreateRepoRequest {
    CreateRepoRequest { name: name.to_string(), user_id: user_id.to_string() }
}

fn commits_on(branch: &str) -> CommitsQuery {
    CommitsQuery { branch: Some(branch.to_string()), limit: None, page: None }
}

fn tree_at(git_ref: &str) -> TreeQuery {
    TreeQuery { git_ref: Some(git_ref.to_string()), path: None }
}

fn blob_at(git_ref: &str, path: &str) -> BlobQuery {
    BlobQuery { git_ref: Some(git_ref.to_string()), path: path.to_string() }
}

fn branches(
    world: &mut World,
    ctx: &Context,
    owner: &str,
    repo: &str,
) -> Result<Answer<git_agent::types::BranchList>, ApiError> {
    world.run(|replies| list_branches(ctx, owner, repo, replies))
}

fn commits(
    world: &mut World,
    ctx: &Context,
    owner: &str,
    repo: &str,
    query: &CommitsQuery,
) -> Result<Answer<git_agent::types::CommitList>, ApiError> {
    world.run(|replies| list_commits_checked(ctx, owner, repo, query, replies).unwrap())
}

fn make(
    world: &mut World,
    ctx: &Context,
    owner: &str,
    repo: &str,
    body: &WriteFileBody,
) -> Result<Answer<git_agent::types::Written>, ApiError> {
    let scratch = scratch_name();
    world.run(|replies| create_blob(ctx, owner, repo, body, &scratch, replies))
}

fn change(
    world: &mut World,
    ctx: &Context,
    owner: &str,
    repo: &str,
    body: &WriteFileBody,
) -> Result<Answer<git_agent::types::Written>, ApiError> {
    let scratch = scratch_name();
    world.run(|replies| update_blob(ctx, owner, repo, body, &scratch, replies))
}

fn remove(
    world: &mut World,
    ctx: &Context,
    owner: &str,
    repo: &str,
    body: &DeleteFileBody,
) -> Result<Answer<git_agent::types::Written>, ApiError> {
    let scratch = scratch_name();
    world.run(|replies| delete_blob(ctx, owner, repo, body, &scratch, replies))
}

// ── Making repositories ─────────────────────────────────────────────────────

#[test]
fn test_create_repo_requires_auth() {
    let ctx = nobody();
    let body = repo_request("test-repo", "123");
    let result = World::default().run(|r| create_repository(&ctx, &body, r));
    assert_eq!(status(&result), 401);
}

#[test]
fn test_create_repo_rejects_invalid_jwt() {
    let ctx = context(Some("Bearer bad.token.here"));
    let body = repo_request("test-repo", "123");
    let result = World::default().run(|r| create_repository(&ctx, &body, r));
    assert_eq!(status(&result), 401);
}

#[test]
fn test_create_repo_rejects_empty_name() {
    let ctx = as_user(&make_token("user123"));
    let body = repo_request("", "user123");
    let result = World::default().run(|r| create_repository(&ctx, &body, r));
    assert_eq!(status(&result), 400);
}

#[test]
fn test_create_repo_rejects_mismatched_user_id() {
    let ctx = as_user(&make_token("user123"));
    let body = repo_request("myrepo", "attacker");
    let result = World::default().run(|r| create_repository(&ctx, &body, r));
    assert_eq!(status(&result), 403);
}

#[test]
fn test_create_blob_initializes_missing_branch() {
    let mut world = World::seed_empty("user1", "repo1");
    let ctx = as_user(&make_token("user1"));
    let body = put("README.md", &encode(b"hello"), "feat: initial commit", "main");
    let made = make(&mut world, &ctx, "user1", "repo1", &body);
    assert_eq!(status(&made), 201);
    assert_eq!(world.locked, vec![format!("{ROOT}/user1/repo1.git")]);

    let listed = branches(&mut world, &ctx, "user1", "repo1");
    assert_eq!(status(&listed), 200);
    assert!(listed.unwrap().body.branches.iter().any(|b| b == "main"));
}

// ── Without a token ─────────────────────────────────────────────────────────

#[test]
fn test_list_branches_requires_auth() {
    let result = branches(&mut World::default(), &nobody(), "u", "r");
    assert_eq!(status(&result), 401);
}

#[test]
fn test_list_commits_requires_auth() {
    let query = CommitsQuery { branch: None, limit: None, page: None };
    let result = commits(&mut World::default(), &nobody(), "u", "r", &query);
    assert_eq!(status(&result), 401);
}

#[test]
fn test_get_diff_requires_auth() {
    let ctx = nobody();
    let result = World::default().run(|r| get_diff(&ctx, "u", "r", "abc", r));
    assert_eq!(status(&result), 401);
}

#[test]
fn test_get_tree_requires_auth() {
    let ctx = nobody();
    let query = TreeQuery { git_ref: None, path: None };
    let result = World::default().run(|r| get_tree(&ctx, "u", "r", &query, r));
    assert_eq!(status(&result), 401);
}

#[test]
fn test_get_blob_requires_auth() {
    let ctx = nobody();
    let query = BlobQuery { git_ref: None, path: "README.md".to_string() };
    let result = World::default().run(|r| get_blob(&ctx, "u", "r", &query, r));
    assert_eq!(status(&result), 401);
}

fn small_put() -> WriteFileBody {
    WriteFileBody {
        path: "f".to_string(),
        content: String::new(),
        message: "m".to_string(),
        branch: "main".to_string(),
        author_name: "a".to_string(),
        author_email: "a@a".to_string(),
    }
}

#[test]
fn test_create_blob_requires_auth() {
    let mut world = World::default();
    let result = make(&mut world, &nobody(), "u", "r", &small_put());
    assert_eq!(status(&result), 401);
    assert!(world.asked.is_empty());
}

#[test]
fn test_update_blob_requires_auth() {
    let mut world = World::default();
    let result = change(&mut world, &nobody(), "u", "r", &small_put());
    assert_eq!(status(&result), 401);
    assert!(world.asked.is_empty());
}

#[test]
fn test_delete_blob_requires_auth() {
    let mut world = World::default();
    let body = DeleteFileBody {
        path: "f".to_string(),
        message: "m".to_string(),
        branch: "main".to_string(),
        author_name: "a".to_string(),
        author_email: "a@a".to_string(),
    };
    let result = remove(&mut world, &nobody(), "u", "r", &body);
    assert_eq!(status(&result), 401);
    assert!(world.asked.is_empty());
}

// ── Reading a repository with one commit ────────────────────────────────────

#[test]
fn test_list_branches_returns_main() {
    let mut world = World::seed("user1", "repo1");
    let ctx = as_user(&make_token("user1"));
    let result = branches(&mut world, &ctx, "user1", "repo1");
    assert_eq!(status(&result), 200);
    assert!(result.unwrap().body.branches.iter().any(|b| b == "main"));
}

#[test]
fn test_owner_routes_allow_username_alias() {
    let mut world = World::seed("user1", "repo1");
    let ctx = as_user(&make_token_with_username("user1", "display-user"));
    let result = branches(&mut world, &ctx, "display-user", "repo1");
    assert_eq!(status(&result), 200);
}

#[test]
fn test_owner_routes_allow_username_alias_case_insensitive() {
    let mut world = World::seed("user1", "repo1");
    let ctx = as_user(&make_token_with_username("user1", "Display-User"));
    let result = branches(&mut world, &ctx, "display-user", "repo1");
    assert_eq!(status(&result), 200);
}

#[test]
fn test_owner_routes_reject_unrelated_owner() {
    let mut world = World::seed("user1", "repo1");
    let ctx = as_user(&make_token_with_username("user1", "display-user"));
    let result = branches(&mut world, &ctx, "another-user", "repo1");
    assert_eq!(status(&result), 403);
}

#[test]
fn test_canonical_storage_path_uses_sub_not_username() {
    let mut world = World::seed("user1", "repo1");
    let ctx = as_user(&make_token_with_username("user1", "human-name"));
    let result = commits(&mut world, &ctx, "human-name", "repo1", &commits_on("main"));
    assert_eq!(status(&result), 200);
    assert_eq!(result.unwrap().body.commits.len(), 1);
}

#[test]
fn test_list_commits_returns_seed_commit() {
    let mut world = World::seed("user1", "repo1");
    let ctx = as_user(&make_token("user1"));
    let result = commits(&mut world, &ctx, "user1", "repo1", &commits_on("main"));
    assert_eq!(status(&result), 200);
    let list = result.unwrap().body.commits;
    assert_eq!(list.len(), 1);
    assert_eq!(list[0].message, "init");
    assert_eq!(list[0].author_name, "Test");
    assert_eq!(list[0].author_email, "t@example.com");
    assert_eq!(list[0].timestamp, 1_700_000_000);
}

#[test]
fn test_get_tree_returns_readme() {
    let mut world = World::seed("user1", "repo1");
    let ctx = as_user(&make_token("user1"));
    let query = tree_at("main");
    let result = world.run(|r| get_tree(&ctx, "user1", "repo1", &query, r));
    assert_eq!(status(&result), 200);
    let entries = result.unwrap().body.entries;
    assert!(entries.iter().any(|e| e.name == "README.md"));
    assert_eq!(entries[0].size, Some(8));
    assert_eq!(entries[0].kind, "blob");
}

#[test]
fn test_get_blob_returns_readme_content() {
    let mut world = World::seed("user1", "repo1");
    let ctx = as_user(&make_token("user1"));
    let query = blob_at("main", "README.md");
    let result = world.run(|r| get_blob(&ctx, "user1", "repo1", &query, r));
    assert_eq!(status(&result), 200);
    let blob = result.unwrap().body;
    assert!(!blob.is_binary);
    assert_eq!(decode(&blob.content), b"# Hello\n");
    assert_eq!(blob.size, 8);
}

#[test]
fn test_create_update_delete_blob_roundtrip() {
    let mut world = World::seed("user1", "repo1");
    let ctx = as_user(&make_token("user1"));

    let body = put("src/lib.rs", &encode(b"hello"), "feat: add lib", "main");
    assert_eq!(status(&make(&mut world, &ctx, "user1", "repo1", &body)), 201);

    // It is there now.
    assert_eq!(status(&make(&mut world, &ctx, "user1", "repo1", &body)), 409);

    let upd = put("src/lib.rs", &encode(b"world"), "chore: update lib", "main");
    assert_eq!(status(&change(&mut world, &ctx, "user1", "repo1", &upd)), 200);

    let del = take_away("src/lib.rs", "chore: rm lib", "main");
    assert_eq!(status(&remove(&mut world, &ctx, "user1", "repo1", &del)), 200);

    // It is gone.
    assert_eq!(status(&remove(&mut world, &ctx, "user1", "repo1", &del)), 404);
}

#[test]
fn test_list_branches_includes_head() {
    let mut world = World::seed("user1", "repo1");
    let ctx = as_user(&make_token("user1"));
    let result = branches(&mut world, &ctx, "user1", "repo1");
    assert_eq!(status(&result), 200);
    assert_eq!(result.unwrap().body.head, Some("main".to_string()));
}

#[test]
fn test_list_commits_unknown_branch_is_empty_not_500() {
    let mut world = World::seed_empty("user1", "repo1");
    let ctx = as_user(&make_token("user1"));
    let result = commits(&mut world, &ctx, "user1", "repo1", &commits_on("main"));
    assert_eq!(status(&result), 200);
    assert_eq!(result.unwrap().body.commits.len(), 0);
}

#[test]
fn test_get_tree_unknown_branch_is_empty_not_404() {
    let mut world = World::seed_empty("user1", "repo1");
    let ctx = as_user(&make_token("user1"));
    let query = tree_at("main");
    let result = world.run(|r| get_tree(&ctx, "user1", "repo1", &query, r));
    assert_eq!(status(&result), 200);
    assert_eq!(result.unwrap().body.entries.len(), 0);
}

#[test]
fn test_username_owner_route_for_commits_and_tree() {
    let mut world = World::seed("user1", "repo1");
    let ctx = as_user(&make_token_with_username("user1", "adamfoster_3888"));
    let result = commits(&mut world, &ctx, "adamfoster_3888", "repo1", &commits_on("main"));
    assert_eq!(status(&result), 200);
    let query = tree_at("main");
    let result = world.run(|r| get_tree(&ctx, "adamfoster_3888", "repo1", &query, r));
    assert_eq!(status(&result), 200);
}

#[test]
fn test_profile_repos_returns_public_repos_by_username() {
    let mut world = World::seed_empty("9000abc", "pubabc");
    world.metas.insert(
        format!("{ROOT}/9000abc/pubabc.meta.json"),
        RepoMeta {
            visibility: "public".to_string(),
            description: String::new(),
            stars: Vec::new(),
            collaborators: Vec::new(),
            created_at: "2024-01-01T00:00:00Z".to_string(),
            updated_at: "2024-01-01T00:00:00Z".to_string(),
        },
    );
    let ctx = as_user(&make_token_with_username("9000abc", "profileuserabc"));
    let result = world.run(|r| profile_repos(&ctx, "profileuserabc", r));
    assert_eq!(status(&result), 200);
    let repos = result.unwrap().body.repositories;
    assert!(repos.iter().any(|r| r.name == "pubabc"));
    assert_eq!(repos[0].owner, "profileuserabc");
    assert_eq!(repos[0].created_at, "2024-01-01T00:00:00Z");
    assert_eq!(repos[0].last_commit_timestamp, None);
}

#[test]
fn test_get_diff_returns_seed_commit_diff() {
    let mut world = World::seed("user1", "repo1");
    let ctx = as_user(&make_token("user1"));
    let list = commits(&mut world, &ctx, "user1", "repo1", &commits_on("main")).unwrap();
    let sha = list.body.commits[0].sha.clone();
    let result = world.run(|r| get_diff(&ctx, "user1", "repo1", &sha, r));
    assert_eq!(status(&result), 200);
    let diff = result.unwrap().body;
    assert_eq!(diff.commit.sha, sha);
    assert!(diff.diff.contains("README.md"));
    assert!(diff.diff.starts_with("diff --git"));
    assert_eq!(diff.stats.files_changed, 1);
    assert_eq!(diff.stats.insertions, 1);
    assert_eq!(diff.stats.deletions, 0);
}

// ── What a whole run gives ──────────────────────────────────────────────────

#[test]
fn written_files_read_back() {
    let mut world = World::seed("user1", "repo1");
    let ctx = as_user(&make_token("user1"));
    let bytes: Vec<u8> = (0..=255u8).collect();
    let body = put("data.bin", &encode(&bytes), "add data", "main");
    let made = make(&mut world, &ctx, "user1", "repo1", &body).unwrap();
    assert_eq!(made.body.path, "data.bin");
    assert_eq!(made.body.branch, "main");

    let query = blob_at("main", "data.bin");
    let shown = world.run(|r| get_blob(&ctx, "user1", "repo1", &query, r)).unwrap().body;
    assert_eq!(shown.content, body.content);
    assert_eq!(decode(&shown.content), bytes);
    assert_eq!(shown.size, 256);
    assert!(shown.is_binary);

    // The new commit stands on the old one, and the branch is at it.
    let list = commits(&mut world, &ctx, "user1", "repo1", &commits_on("main")).unwrap();
    let shas: Vec<&str> = list.body.commits.iter().map(|c| c.sha.as_str()).collect();
    assert_eq!(shas.len(), 2);
    assert_eq!(shas[0], made.body.sha);
    assert_eq!(list.body.commits[0].message, "add data");
    assert_eq!(list.body.commits[1].message, "init");
}

#[test]
fn empty_files_read_back() {
    let mut world = World::seed("user1", "repo1");
    let ctx = as_user(&make_token("user1"));
    for bytes in [b"".to_vec(), vec![0xff, 0xfe, 0x80], b"plain\n".to_vec()] {
        let body = put("file", &encode(&bytes), "put", "main");
        if status(&make(&mut world, &ctx, "user1", "repo1", &body)) == 409 {
            change(&mut world, &ctx, "user1", "repo1", &body).unwrap();
        }
        let query = blob_at("main", "file");
        let shown = world.run(|r| get_blob(&ctx, "user1", "repo1", &query, r)).unwrap().body;
        assert_eq!(decode(&shown.content), bytes);
        assert_eq!(shown.content, body.content);
        assert_eq!(shown.size, bytes.len());
    }
}

/// Runs two writers of one repository, whose turns come as `order` says. A
/// writer that would have to wait for the lock passes its turn.
fn run_two(world: &mut World, ctx: &Context, bodies: [&WriteFileBody; 2], order: u32) -> [String; 2] {
    let mut replies: [Vec<Reply>; 2] = [Vec::new(), Vec::new()];
    let mut done: [Option<String>; 2] = [None, None];
    let mut holder: Option<usize> = None;
    let mut turn = 0;
    while done.iter().any(|d| d.is_none()) {
        let who = (order >> (turn % 32) & 1) as usize;
        turn += 1;
        assert!(turn < 1000);
        let who = if done[who].is_some() { 1 - who } else { who };
        match create_blob(ctx, "user1", "repo1", bodies[who], "git-agent-wt-0", &replies[who]) {
            Step::Ask(Work::Lock { .. }) if holder.is_some() => {}
            Step::Ask(work) => {
                if matches!(work, Work::Lock { .. }) {
                    holder = Some(who);
                }
                let reply = world.perform(work);
                replies[who].push(reply);
            }
            Step::Done(result) => {
                done[who] = Some(result.unwrap().body.sha);
                holder = None;
            }
        }
    }
    done.map(|sha| sha.unwrap())
}

#[test]
fn no_update_is_lost() {
    let orders = [0xaaaa_aaaa, 0x5555_5555, 0xcccc_cccc, 0x0f0f_0f0f, 0xdead_beef, 0x1234_5678];
    for order in orders {
        let mut world = World::seed("user1", "repo1");
        let ctx = as_user(&make_token("user1"));
        let one = put("one", &encode(b"first"), "one", "main");
        let two = put("two", &encode(b"second"), "two", "main");
        let shas = run_two(&mut world, &ctx, [&one, &two], order);
        let list = commits(&mut world, &ctx, "user1", "repo1", &commits_on("main")).unwrap();
        let line: Vec<String> = list.body.commits.into_iter().map(|c| c.sha).collect();
        assert_eq!(line.len(), 3);
        assert!(
            line[..2] == [shas[1].clone(), shas[0].clone()]
                || line[..2] == [shas[0].clone(), shas[1].clone()]
        );
        for (path, bytes) in [("one", b"first".as_slice()), ("two", b"second".as_slice())] {
            let query = blob_at("main", path);
            let shown = world.run(|r| get_blob(&ctx, "user1", "repo1", &query, r)).unwrap().body;
            assert_eq!(decode(&shown.content), bytes);
        }
    }
}

#[test]
fn updates_change_only_their_file() {
    let mut world = World::seed("user1", "repo1");
    let ctx = as_user(&make_token("user1"));
    let body = put("notes", &encode(b"one"), "add", "main");
    make(&mut world, &ctx, "user1", "repo1", &body).unwrap();
    let body = put("notes", &encode(b"two"), "change", "main");
    change(&mut world, &ctx, "user1", "repo1", &body).unwrap();
    let query = blob_at("main", "notes");
    let shown = world.run(|r| get_blob(&ctx, "user1", "repo1", &query, r)).unwrap().body;
    assert_eq!(decode(&shown.content), b"two");
    let query = blob_at("main", "README.md");
    let shown = world.run(|r| get_blob(&ctx, "user1", "repo1", &query, r)).unwrap().body;
    assert_eq!(decode(&shown.content), b"# Hello\n");
    remove(&mut world, &ctx, "user1", "repo1", &take_away("notes", "rm", "main")).unwrap();
    let query = tree_at("main");
    let tree = world.run(|r| get_tree(&ctx, "user1", "repo1", &query, r)).unwrap().body;
    let names: Vec<&str> = tree.entries.iter().map(|e| e.name.as_str()).collect();
    assert_eq!(names, vec!["README.md"]);
}

#[test]
fn repositories_live_and_die() {
    let mut world = World::default();
    let ctx = as_user(&make_token_with_username("42", "ann"));
    let listed = world.run(|r| list_repositories(&ctx, r)).unwrap();
    assert_eq!(listed.status, 200);
    assert!(listed.body.repositories.is_empty());

    let body = repo_request("  tools ", "42");
    let made = world.run(|r| create_repository(&ctx, &body, r)).unwrap();
    assert_eq!(made.status, 201);
    assert_eq!(made.body.name, "tools");
    assert_eq!(made.body.owner, "ann");
    assert_eq!(made.body.path, format!("{ROOT}/42/tools.git"));
    assert_eq!(made.body.visibility, "public");
    assert_eq!(made.body.created_at, NOW);
    assert_eq!(made.body.updated_at, NOW);
    assert_eq!(made.body.star_count, 0);
    assert_eq!(made.body.id.len(), 36);
    assert_eq!(made.body.id.matches('-').count(), 4);

    let listed = world.run(|r| list_repositories(&ctx, r)).unwrap();
    assert_eq!(listed.body.repositories.len(), 1);
    assert_eq!(listed.body.repositories[0].name, "tools");
    assert_eq!(listed.body.repositories[0].owner, "ann");
    assert_ne!(listed.body.repositories[0].id, made.body.id);

    // Everyone can read it at once.
    assert_eq!(status(&branches(&mut world, &nobody(), "42", "tools")), 200);

    let gone = world.run(|r| delete_repository(&ctx, "Ann", "tools", r)).unwrap();
    assert_eq!(gone.status, 204);
    assert!(world.metas.is_empty());
    let again = world.run(|r| delete_repository(&ctx, "ann", "tools", r));
    assert_eq!(status(&again), 404);
    assert_eq!(error(again), "repository not found");
}

#[test]
fn private_repositories_are_for_members() {
    let mut world = World::seed("1", "secret");
    let owner = as_user(&make_token_with_username("1", "ann"));
    let friend = as_user(&make_token_with_username("2", "bob"));
    let hide = UpdateSettingsBody {
        visibility: Some("private".to_string()),
        description: Some("hidden".to_string()),
    };
    let set = world.run(|r| update_settings(&owner, "ann", "secret", &hide, r)).unwrap().body;
    assert_eq!(set.visibility, "private");
    assert_eq!(set.description, "hidden");

    assert_eq!(status(&branches(&mut world, &owner, "1", "secret")), 200);
    assert_eq!(status(&branches(&mut world, &friend, "1", "secret")), 403);
    assert_eq!(status(&branches(&mut world, &nobody(), "1", "secret")), 403);

    let who = CollaboratorBody { user_id: "2".to_string() };
    let joined = world.run(|r| add_collaborator(&owner, "1", "secret", &who, r)).unwrap().body;
    assert_eq!(joined.collaborators, vec!["2".to_string()]);
    assert_eq!(status(&branches(&mut world, &friend, "1", "secret")), 200);
    assert_eq!(status(&branches(&mut world, &nobody(), "1", "secret")), 403);

    let again = world.run(|r| add_collaborator(&owner, "1", "secret", &who, r));
    assert_eq!(status(&again), 409);
    assert_eq!(error(again), "user is already a collaborator");

    let left = world.run(|r| remove_collaborator(&owner, "1", "secret", "2", r)).unwrap().body;
    assert!(left.collaborators.is_empty());
    assert_eq!(status(&branches(&mut world, &friend, "1", "secret")), 403);
    let again = world.run(|r| remove_collaborator(&owner, "1", "secret", "2", r));
    assert_eq!(status(&again), 404);
    assert_eq!(error(again), "user is not a collaborator");
}

#[test]
fn a_friend_learns_that_a_repository_is_missing() {
    let mut world = World::seed("1", "there");
    let owner = as_user(&make_token("1"));
    let missing = branches(&mut world, &owner, "1", "gone");
    assert_eq!(status(&missing), 404);
    assert_eq!(error(missing), "repository not found");
    let stranger = as_user(&make_token("2"));
    assert_eq!(status(&branches(&mut world, &stranger, "1", "gone")), 403);
    assert_eq!(status(&branches(&mut world, &nobody(), "1", "gone")), 401);
    assert!(world.asked.is_empty());
}

#[test]
fn owners_are_found_without_regard_to_case() {
    let mut world = World::seed("Ann", "r");
    assert_eq!(status(&branches(&mut world, &nobody(), "ann", "r")), 200);
    assert_eq!(status(&branches(&mut world, &nobody(), "Ann", "r")), 200);
    assert_eq!(status(&branches(&mut world, &nobody(), "bob", "r")), 401);
}

#[test]
fn stars_are_given_and_taken_back() {
    let mut world = World::seed("1", "r");
    let owner = as_user(&make_token("1"));
    let given = world.run(|r| star_repo(&owner, "1", "r", r)).unwrap().body;
    assert!(given.starred);
    assert_eq!(given.star_count, 1);
    let again = world.run(|r| star_repo(&owner, "1", "r", r)).unwrap().body;
    assert_eq!(again.star_count, 1);

    let meta = world.run(|r| get_repo_meta(&owner, "1", "r", r)).unwrap().body;
    assert!(meta.starred_by_me);
    assert_eq!(meta.star_count, 1);
    let anyone = nobody();
    let meta = world.run(|r| get_repo_meta(&anyone, "1", "r", r)).unwrap().body;
    assert!(!meta.starred_by_me);
    assert_eq!(meta.star_count, 1);

    let taken = world.run(|r| unstar_repo(&owner, "1", "r", r)).unwrap().body;
    assert!(!taken.starred);
    assert_eq!(taken.star_count, 0);
    let meta = world.run(|r| get_repo_meta(&owner, "1", "r", r)).unwrap().body;
    assert!(!meta.starred_by_me);
}

#[test]
fn stars_are_for_members() {
    let mut world = World::seed("1", "r");
    let stranger = as_user(&make_token("2"));
    assert_eq!(status(&world.run(|r| star_repo(&stranger, "1", "r", r))), 403);
    let anyone = nobody();
    assert_eq!(status(&world.run(|r| star_repo(&anyone, "1", "r", r))), 401);
    let owner = as_user(&make_token("1"));
    let who = CollaboratorBody { user_id: "2".to_string() };
    world.run(|r| add_collaborator(&owner, "1", "r", &who, r)).unwrap();
    let given = world.run(|r| star_repo(&stranger, "1", "r", r)).unwrap().body;
    assert_eq!(given.star_count, 1);
}

#[test]
fn pages_follow_one_another() {
    let mut world = World::seed("1", "r");
    let ctx = as_user(&make_token("1"));
    for i in 0..6 {
        let body = put(&format!("f{i}"), &encode(b"x"), &format!("commit {i}"), "main");
        make(&mut world, &ctx, "1", "r", &body).unwrap();
    }
    let page = |world: &mut World, n: u32| -> Vec<String> {
        let query = CommitsQuery { branch: None, limit: Some(3), page: Some(n) };
        let list = commits(world, &ctx, "1", "r", &query).unwrap().body.commits;
        list.into_iter().map(|c| c.message).collect()
    };
    assert_eq!(page(&mut world, 1), vec!["commit 5", "commit 4", "commit 3"]);
    assert_eq!(page(&mut world, 0), vec!["commit 5", "commit 4", "commit 3"]);
    assert_eq!(page(&mut world, 2), vec!["commit 2", "commit 1", "commit 0"]);
    assert_eq!(page(&mut world, 3), vec!["init"]);
    assert!(page(&mut world, 4).is_empty());
}

#[test]
fn previews_show_a_commit() {
    let mut world = World::seed("1", "r");
    let ctx = nobody();
    let list = commits(&mut world, &ctx, "1", "r", &commits_on("main")).unwrap();
    let sha = list.body.commits[0].sha.clone();
    let query = PreviewQuery { branch: None };
    let shown = world.run(|r| commit_preview(&ctx, "1", "r", &sha, &query, r)).unwrap().body;
    assert_eq!(shown.commit.sha, sha);
    assert_eq!(shown.commit.message, "init");
    assert_eq!(shown.branches, vec!["main".to_string()]);
    assert_eq!(shown.diff_stat, "README.md | 1 +\n 1 file changed, 1 insertion(+)");
    assert_eq!(shown.diff, "diff --git a/README.md b/README.md\n");
    assert_eq!(shown.tree.len(), 1);
    assert_eq!(shown.tree[0].name, "README.md");

    let bad = world.run(|r| commit_preview(&ctx, "1", "r", "xyz", &query, r));
    assert_eq!(error(bad), "invalid sha");
    let unknown = world.run(|r| commit_preview(&ctx, "1", "r", "beef", &query, r));
    assert_eq!(status(&unknown), 404);
    assert_eq!(error(unknown), "commit not found");
}

fn find(
    world: &mut World,
    ctx: &Context,
    q: &str,
    kind: Option<&str>,
    limit: Option<u32>,
) -> Vec<SearchHit> {
    let query = SearchQuery { q: q.to_string(), kind: kind.map(|k| k.to_string()), limit };
    let mut state = search(ctx, &query).unwrap();
    while let Some(work) = state.work() {
        let reply = world.perform(work);
        state = state.next(&reply);
    }
    state.finish().body.results
}

fn label(hit: &SearchHit) -> String {
    match hit {
        SearchHit::Repo { owner, name, .. } => format!("repo {owner}/{name}"),
        SearchHit::Commit { owner, repo, message, .. } => {
            format!("commit {owner}/{repo}: {message}")
        }
    }
}

fn labels(hits: &[SearchHit]) -> Vec<String> {
    hits.iter().map(label).collect()
}

#[test]
fn searches_find_the_first() {
    let mut world = World::seed("1", "Initial");
    world.users.push(format!("{ROOT}/2"));
    world.repos.insert(format!("{ROOT}/2/other.git"), ModelGit::default());
    let ctx = nobody();
    let all = find(&mut world, &ctx, " INIT ", None, None);
    assert_eq!(labels(&all), vec!["repo 1/Initial", "commit 1/Initial: init"]);
    let one = find(&mut world, &ctx, "init", None, Some(1));
    assert_eq!(labels(&one), vec!["repo 1/Initial"]);
    let none = find(&mut world, &ctx, "init", None, Some(0));
    assert_eq!(labels(&none), vec!["repo 1/Initial"]);
    let repos = find(&mut world, &ctx, "i", Some("repo"), None);
    assert_eq!(labels(&repos), vec!["repo 1/Initial"]);
    let found = find(&mut world, &ctx, "test", Some("commit"), None);
    assert_eq!(labels(&found), vec!["commit 1/Initial: init"]);
    let by_name = find(&mut world, &ctx, "000000", Some("commit"), None);
    assert_eq!(labels(&by_name), vec!["commit 1/Initial: init"]);
    assert!(find(&mut world, &ctx, "init", Some("user"), None).is_empty());
    assert!(find(&mut world, &ctx, "nothing", None, None).is_empty());
}

#[test]
fn searches_hide_private_repositories() {
    let mut world = World::seed("1", "secret");
    let owner = as_user(&make_token("1"));
    let hide =
        UpdateSettingsBody { visibility: Some("private".to_string()), description: None };
    world.run(|r| update_settings(&owner, "1", "secret", &hide, r)).unwrap();
    world.asked.clear();
    assert!(find(&mut world, &nobody(), "secret", None, None).is_empty());
    assert!(world.asked.is_empty());
    assert_eq!(labels(&find(&mut world, &owner, "secret", None, None)), vec!["repo 1/secret"]);
    let friend = as_user(&make_token("2"));
    assert!(find(&mut world, &friend, "secret", None, None).is_empty());
    let who = CollaboratorBody { user_id: "2".to_string() };
    world.run(|r| add_collaborator(&owner, "1", "secret", &who, r)).unwrap();
    assert_eq!(labels(&find(&mut world, &friend, "secret", None, None)), vec!["repo 1/secret"]);
}

#[test]
fn searches_of_nothing_are_refused() {
    let query = SearchQuery { q: " \t ".to_string(), kind: None, limit: None };
    let e = search(&nobody(), &query).unwrap_err();
    assert_eq!(e.status_code(), 400);
    assert_eq!(e.body.error, "query is required");
}

#[test]
fn searches_stop_at_the_limit() {
    let mut world = World::default();
    for i in 0..60 {
        let user = format!("{ROOT}/u{i:02}");
        world.repos.insert(format!("{user}/tool.git"), ModelGit::default());
        world.users.push(user);
    }
    let hits = find(&mut world, &nobody(), "tool", None, Some(1000));
    assert_eq!(hits.len(), 50);
    assert_eq!(label(&hits[0]), "repo u00/tool");
    assert_eq!(label(&hits[49]), "repo u49/tool");
    assert_eq!(find(&mut world, &nobody(), "tool", None, None).len(), 20);
    // Without a root there is nothing to find.
    let ctx = Context { root: "/nowhere".to_string(), now: NOW.to_string(), claims: None };
    assert!(find(&mut world, &ctx, "tool", None, None).is_empty());
}

#[test]
fn profiles_are_sorted_and_hide_private() {
    let mut world = World::seed("1", "old");
    let ctx = as_user(&make_token_with_username("1", "ann"));
    for name in ["empty", "fresh", "hidden"] {
        let body = repo_request(name, "1");
        world.run(|r| create_repository(&ctx, &body, r)).unwrap();
    }
    let body = put("f", &encode(b"x"), "later", "main");
    make(&mut world, &ctx, "1", "fresh", &body).unwrap();
    let hide =
        UpdateSettingsBody { visibility: Some("private".to_string()), description: None };
    world.run(|r| update_settings(&ctx, "1", "hidden", &hide, r)).unwrap();

    let own = world.run(|r| profile_repos(&ctx, "ANN", r)).unwrap().body.repositories;
    let names: Vec<&str> = own.iter().map(|r| r.name.as_str()).collect();
    assert_eq!(names, vec!["fresh", "old", "empty", "hidden"]);
    assert_eq!(own[0].owner, "ANN");

    let anyone = nobody();
    let seen = world.run(|r| profile_repos(&anyone, "1", r)).unwrap().body.repositories;
    let names: Vec<&str> = seen.iter().map(|r| r.name.as_str()).collect();
    assert_eq!(names, vec!["fresh", "old", "empty"]);

    let unknown = world.run(|r| profile_repos(&anyone, "bob", r)).unwrap();
    assert_eq!(unknown.status, 200);
    assert!(unknown.body.repositories.is_empty());
    let bad = world.run(|r| profile_repos(&anyone, "a/b", r));
    assert_eq!(error(bad), "invalid owner");
}
