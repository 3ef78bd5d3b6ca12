//! Who may do what, and how each request fails.

use git_agent::authz::{
    ensure_owner, judge_read, owner_of_dir, require_auth, require_authenticated_access,
    require_owner, require_read_access, Claims, Context,
};
use git_agent::browse::{
    check_encodable, commit_preview, get_blob, get_diff, get_tree, list_branches, list_commits,
    list_commits_checked, page_fits,
};
use git_agent::errors::{
    bad_request, conflict, forbidden, forbidden_msg, internal, not_found, tool_failure,
    unauthorized, write_object, ApiError, ErrorBody,
};
use git_agent::files::{create_blob, delete_blob, scratch_from, scratch_name, update_blob};
use git_agent::git::{run_write_sequence, write_lock, LockTable, WriteUpdate};
use git_agent::metadata::{meta_path, read_meta, write_meta, RepoMeta};
use git_agent::pathing::{is_safe_segment, pick_owner, repo_path, repos_root, user_dir};
use git_agent::repositories::{
    create_repository, delete_repository, describe, latest_commit_timestamp, list_repositories,
    profile_repos,
};
use git_agent::server::{allowed_origins, bearer_token, health, now, port_of, Origins};
use git_agent::settings::{
    add_collaborator, apply_settings, get_repo_meta, give_star, join, leave, remove_collaborator,
    star_repo, take_star, unstar_repo, update_settings,
};
use git_agent::types::{
    BlobQuery, CollaboratorBody, CommitsQuery, CreateRepoRequest, DeleteFileBody, PreviewQuery,
    TreeQuery, UpdateSettingsBody, WriteFileBody,
};
use git_agent::work::{DirEntry, GitReply, Part, Removal, Reply, Step, Work};

const NOW: &str = "2024-05-06T07:08:09+00:00";

fn claims(sub: &str, username: &str) -> Claims {
    Claims {
        sub: sub.to_string(),
        email: "u@example.com".to_string(),
        username: username.to_string(),
        iat: None,
        exp: Some(9_999_999_999),
    }
}

fn context(caller: Option<Claims>) -> Context {
    Context { root: "./repos".to_string(), now: NOW.to_string(), claims: caller }
}

fn ann() -> Context {
    context(Some(claims("1", "Ann")))
}

fn meta(visibility: &str) -> RepoMeta {
    RepoMeta {
        visibility: visibility.to_string(),
        description: "about".to_string(),
        stars: vec!["5".to_string()],
        collaborators: vec!["6".to_string()],
        created_at: "then".to_string(),
        updated_at: "then".to_string(),
    }
}

fn good(stdout: &str) -> Reply {
    Reply::Git(GitReply::Ended {
        success: true,
        stdout: stdout.as_bytes().to_vec(),
        stderr: Vec::new(),
    })
}

fn bad(stderr: &str) -> Reply {
    Reply::Git(GitReply::Ended {
        success: false,
        stdout: Vec::new(),
        stderr: stderr.as_bytes().to_vec(),
    })
}

fn not_started() -> Reply {
    Reply::Git(GitReply::NotStarted)
}

fn refusal<T>(step: Step<T>) -> (u16, String) {
    match step {
        Step::Done(Err(e)) => (e.status, e.body.error),
        _ => panic!("not refused"),
    }
}

fn asked<T>(step: Step<T>) -> Work {
    match step {
        Step::Ask(work) => work,
        _ => panic!("nothing asked"),
    }
}

fn command<T>(step: Step<T>) -> Vec<String> {
    match asked(step) {
        Work::Git(c) => c.args,
        other => panic!("not a command: {other:?}"),
    }
}

// ── Errors ──────────────────────────────────────────────────────────────────

#[test]
fn errors_have_their_status() {
    let list = [
        (unauthorized("m"), 401),
        (bad_request("m"), 400),
        (forbidden_msg("m"), 403),
        (not_found("m"), 404),
        (conflict("m"), 409),
        (internal("m"), 500),
    ];
    for (e, code) in list {
        assert_eq!(e.status_code(), code);
        assert_eq!(e.body.error, "m");
        assert_eq!(e.body.detail, None);
        assert_eq!(e.to_json(), "{\"error\":\"m\"}");
        assert_eq!(e.clone().status, e.status);
    }
    assert_eq!(forbidden().status, 403);
    assert_eq!(forbidden().body.error, "forbidden");
}

#[test]
fn errors_are_written_as_json() {
    let e = tool_failure("git init failed", "a \"b\"\n\\".to_string());
    assert_eq!(e.status, 500);
    let text = e.to_json();
    assert_eq!(text, "{\"detail\":\"a \\\"b\\\"\\n\\\\\",\"error\":\"git init failed\"}");
    let value: serde_json::Value = serde_json::from_str(&text).unwrap();
    assert_eq!(value["detail"], "a \"b\"\n\\");
    let body = ErrorBody { error: "\u{1}".to_string(), detail: None };
    assert_eq!(ApiError::new(418, body).to_json(), "{\"error\":\"\\u0001\"}");
    let body = ErrorBody {
        error: "\u{8}\t\n\u{b}\u{c}\r\u{1f}/\u{7f}\u{e9}\u{2028}".to_string(),
        detail: None,
    };
    assert_eq!(
        ApiError::new(400, body).to_json(),
        "{\"error\":\"\\b\\t\\n\\u000b\\f\\r\\u001f/\u{7f}\u{e9}\u{2028}\"}"
    );
}

// ── Paths and metadata ──────────────────────────────────────────────────────

#[test]
fn paths_are_made() {
    assert_eq!(repos_root(None), "./repos");
    assert_eq!(repos_root(Some("/srv".to_string())), "/srv");
    assert_eq!(user_dir("/srv", "1"), "/srv/1");
    assert_eq!(repo_path("/srv", "1", "tool"), "/srv/1/tool.git");
    assert_eq!(meta_path("/srv", "1", "tool"), "/srv/1/tool.meta.json");
    assert_eq!(owner_of_dir("/srv", "/srv/1/tool.git", "x"), "1");
    assert_eq!(owner_of_dir("/srv", "/other/1/tool.git", "x"), "x");
}

#[test]
fn segments_are_checked() {
    for s in ["a", "A-1_b.c", "\u{e9}t\u{e9}", "7", "..", "\u{4e2d}"] {
        assert!(is_safe_segment(s), "{s}");
    }
    for s in ["", "a/b", "a b", "a\\b", "a:b", "a\0", "\u{2003}", "~"] {
        assert!(!is_safe_segment(s), "{s}");
    }
}

#[test]
fn owners_are_picked() {
    let entry = |name: &str, is_dir: bool| DirEntry {
        name: name.to_string(),
        path: format!("/srv/{name}"),
        is_dir,
    };
    let entries = vec![entry("bob", true), entry("ANN", true), entry("Ann", true)];
    assert_eq!(pick_owner(&entries, "ann"), "ANN");
    // A plain file is nobody's directory.
    let entries = vec![entry("ANN", false), entry("Ann", true), entry("EVE", false)];
    assert_eq!(pick_owner(&entries, "ann"), "Ann");
    assert_eq!(pick_owner(&entries, "eve"), "eve");
}

#[test]
fn metadata_has_defaults() {
    let fresh = RepoMeta::fresh(NOW);
    assert_eq!(fresh.visibility, "public");
    assert_eq!(fresh.description, "");
    assert!(fresh.stars.is_empty() && fresh.collaborators.is_empty());
    assert_eq!(fresh.created_at, NOW);
    assert_eq!(fresh.updated_at, NOW);
    let default = RepoMeta::default();
    assert_eq!(default.visibility, "public");
    assert_eq!(default.created_at, default.updated_at);
    assert!(default.created_at.ends_with("+00:00"));
    assert!(default.created_at.len() >= 25);
    assert_eq!(read_meta(&None, NOW).created_at, NOW);
    assert_eq!(read_meta(&Some(meta("private")), NOW).visibility, "private");
    match write_meta("/srv", "1", "tool", meta("public")) {
        Work::WriteMeta { path, meta } => {
            assert_eq!(path, "/srv/1/tool.meta.json");
            assert_eq!(meta.description, "about");
        }
        other => panic!("{other:?}"),
    }
}

// ── The server ──────────────────────────────────────────────────────────────

#[test]
fn the_server_is_set_up() {
    assert_eq!(port_of(&None), Some(6025));
    assert_eq!(port_of(&Some("80".to_string())), Some(80));
    assert_eq!(port_of(&Some("70000".to_string())), None);
    assert_eq!(port_of(&Some("http".to_string())), None);
    assert!(matches!(allowed_origins(&None), Origins::Any));
    assert!(matches!(allowed_origins(&Some("*".to_string())), Origins::Any));
    match allowed_origins(&Some("http://a, https://b ,*".to_string())) {
        Origins::Listed(list) => assert_eq!(list, vec!["http://a", "https://b", "*"]),
        other => panic!("{other:?}"),
    }
    let state = health();
    assert_eq!(state.status, "ok");
    assert!(state.timestamp.ends_with("+00:00"));
    let time = now();
    assert!(time >= state.timestamp);
    assert_eq!(&time[4..5], "-");
    assert_eq!(&time[7..8], "-");
    assert_eq!(&time[10..11], "T");
    assert_eq!(&time[13..14], ":");
    assert_eq!(&time[16..17], ":");
    assert!(time[..4].chars().all(|c| c.is_ascii_digit()));
    assert!([25, 29, 32, 35].contains(&time.len()));
}

#[test]
fn tokens_are_taken_from_headers() {
    assert_eq!(bearer_token("Bearer abc"), Some("abc".to_string()));
    assert_eq!(bearer_token("Bearer "), Some(String::new()));
    assert_eq!(bearer_token("bearer abc"), None);
    assert_eq!(bearer_token("Basic abc"), None);
}

// ── Who may do what ─────────────────────────────────────────────────────────

#[test]
fn owners_go_by_id_and_name() {
    let c = claims("1", "Ann");
    assert_eq!(ensure_owner("1", &c).unwrap(), "1");
    assert_eq!(ensure_owner("aNN", &c).unwrap(), "1");
    assert_eq!(ensure_owner("2", &c).unwrap_err().status, 403);
    assert_eq!(require_auth(&None).unwrap_err().status, 401);
    assert_eq!(require_auth(&Some(c)).unwrap().sub, "1");
    assert_eq!(require_owner(&ann(), "ann", "tool").unwrap(), "./repos/1/tool.git");
    assert_eq!(require_owner(&ann(), "ann", "a b").unwrap_err().body.error, "invalid path segment");
    assert_eq!(require_owner(&ann(), "bob", "tool").unwrap_err().body.error, "forbidden");
    let e = require_owner(&context(None), "ann", "a b").unwrap_err();
    assert_eq!(e.body.error, "authentication required");
}

#[test]
fn reads_are_judged() {
    let judge = |caller: Option<Claims>, visibility: &str, there: bool| {
        judge_read(&caller, "ann", "1", &meta(visibility), there).map(|e| e.status)
    };
    assert_eq!(judge(None, "public", true), None);
    assert_eq!(judge(Some(claims("9", "eve")), "public", true), None);
    assert_eq!(judge(None, "private", true), Some(403));
    assert_eq!(judge(Some(claims("9", "eve")), "private", true), Some(403));
    assert_eq!(judge(Some(claims("1", "")), "private", true), None);
    assert_eq!(judge(Some(claims("9", "ANN")), "private", true), None);
    assert_eq!(judge(Some(claims("6", "friend")), "private", true), None);
    assert_eq!(judge(None, "public", false), Some(401));
    assert_eq!(judge(Some(claims("9", "eve")), "public", false), Some(403));
    assert_eq!(judge(Some(claims("1", "")), "public", false), Some(404));
    assert_eq!(judge(Some(claims("6", "friend")), "public", false), Some(404));
}

#[test]
fn reads_look_up_the_owner() {
    let ctx = context(None);
    match require_read_access(&ctx, "bob", "tool", &[], 0) {
        Part::Ask(Work::IsDir { path }) => assert_eq!(path, "./repos/bob"),
        other => panic!("{other:?}"),
    }
    match require_read_access(&ctx, "bob", "tool", &[Reply::Flag(false)], 0) {
        Part::Ask(Work::ListDir { path }) => assert_eq!(path, "./repos"),
        other => panic!("{other:?}"),
    }
    let entry = DirEntry { name: "BOB".to_string(), path: "x".to_string(), is_dir: true };
    let replies = [Reply::Flag(false), Reply::Entries(Some(vec![entry]))];
    match require_read_access(&ctx, "bob", "tool", &replies, 0) {
        Part::Ask(Work::ReadMeta { path }) => assert_eq!(path, "./repos/BOB/tool.meta.json"),
        other => panic!("{other:?}"),
    }
    match require_read_access(&ctx, "a/b", "tool", &[], 0) {
        Part::Fail(e) => assert_eq!((e.status, e.body.error.as_str()), (400, "invalid path segment")),
        other => panic!("{other:?}"),
    }
    // Replies of the wrong kind count as failures.
    let replies = [Reply::Done, Reply::Done, Reply::Done, Reply::Done];
    match require_read_access(&ctx, "bob", "tool", &replies, 0) {
        Part::Fail(e) => assert_eq!(e.status, 401),
        other => panic!("{other:?}"),
    }
}

#[test]
fn members_only() {
    let replies = [Reply::Flag(true), Reply::Meta(Some(meta("public")))];
    let ctx = context(Some(claims("9", "eve")));
    match require_authenticated_access(&ctx, "1", "tool", &replies, 0) {
        Part::Fail(e) => assert_eq!(e.status, 403),
        other => panic!("{other:?}"),
    }
    let ctx = context(Some(claims("6", "friend")));
    match require_authenticated_access(&ctx, "1", "tool", &replies, 0) {
        Part::Have { value, used } => assert_eq!((value.as_str(), used), ("./repos/1/tool.git", 2)),
        other => panic!("{other:?}"),
    }
}

// ── How requests fail ───────────────────────────────────────────────────────

fn make_request(name: &str, user: &str) -> CreateRepoRequest {
    CreateRepoRequest { name: name.to_string(), user_id: user.to_string() }
}

#[test]
fn making_a_repository_fails() {
    let ctx = ann();
    let ok = make_request("tool", "1");
    assert_eq!(
        refusal(create_repository(&ctx, &make_request(" \n", "1"), &[])),
        (400, "name is required".to_string())
    );
    assert_eq!(
        refusal(create_repository(&ctx, &make_request("a/b", "1"), &[])),
        (
            400,
            "name may only contain letters, numbers, dashes, dots, and underscores".to_string()
        )
    );
    assert_eq!(
        refusal(create_repository(&ctx, &make_request("tool", "2"), &[])),
        (403, "user_id in body does not match the authenticated user".to_string())
    );
    assert_eq!(
        refusal(create_repository(&ctx, &ok, &[Reply::Flag(false)])),
        (500, "Failed to create repository directory".to_string())
    );
    assert_eq!(
        command(create_repository(&ctx, &ok, &[Reply::Flag(true)])),
        vec!["init", "--bare", "./repos/1/tool.git"]
    );
    assert_eq!(
        refusal(create_repository(&ctx, &ok, &[Reply::Flag(true), not_started()])),
        (500, "Failed to run git command".to_string())
    );
    match create_repository(&ctx, &ok, &[Reply::Flag(true), bad(" no space \n")]) {
        Step::Done(Err(e)) => {
            assert_eq!(e.status, 500);
            assert_eq!(e.body.error, "git init failed");
            assert_eq!(e.body.detail, Some("no space".to_string()));
        }
        other => panic!("{other:?}"),
    }
    // That the metadata could not be stored is no failure.
    let replies = [Reply::Flag(true), good(""), Reply::Flag(false)];
    match create_repository(&ctx, &ok, &replies) {
        Step::Done(Ok(answer)) => assert_eq!(answer.status, 201),
        other => panic!("{other:?}"),
    }
    let plain = context(Some(claims("1", "")));
    match create_repository(&plain, &ok, &replies) {
        Step::Done(Ok(answer)) => assert_eq!(answer.body.owner, "1"),
        other => panic!("{other:?}"),
    }
}

#[test]
fn listing_needs_a_caller() {
    assert_eq!(refusal(list_repositories(&context(None), &[])).0, 401);
    match list_repositories(&ann(), &[Reply::Entries(None)]) {
        Step::Done(Ok(answer)) => assert!(answer.body.repositories.is_empty()),
        other => panic!("{other:?}"),
    }
    let entry = |name: &str, is_dir: bool| DirEntry {
        name: name.to_string(),
        path: format!("./repos/1/{name}"),
        is_dir,
    };
    let entries = vec![
        entry("a.git", true),
        entry("a.meta.json", false),
        entry("b.git", false),
        entry("notes", true),
        entry("c.git", true),
    ];
    let first = Reply::Entries(Some(entries));
    let replies = [first, Reply::Metas(vec![Some(meta("private"))])];
    match asked(list_repositories(&ann(), &replies[..1])) {
        Work::ReadMetas { paths } => {
            assert_eq!(paths, vec!["./repos/1/a.meta.json", "./repos/1/c.meta.json"]);
        }
        other => panic!("{other:?}"),
    }
    match list_repositories(&ann(), &replies) {
        Step::Done(Ok(answer)) => {
            let list = answer.body.repositories;
            assert_eq!(list.len(), 2);
            assert_eq!(list[0].name, "a");
            assert_eq!(list[0].path, "./repos/1/a.git");
            assert_eq!(list[0].owner, "Ann");
            assert_eq!(list[0].visibility, "private");
            assert_eq!(list[0].description, "about");
            assert_eq!(list[0].star_count, 1);
            assert_eq!(list[0].created_at, "then");
            assert_eq!(list[1].name, "c");
            assert_eq!(list[1].created_at, NOW);
            assert_ne!(list[0].id, list[1].id);
        }
        other => panic!("{other:?}"),
    }
}

#[test]
fn removing_a_repository_fails() {
    let ctx = ann();
    assert_eq!(refusal(delete_repository(&ctx, "bob", "tool", &[])).0, 403);
    assert_eq!(
        refusal(delete_repository(&ctx, "ann", "tool", &[Reply::Removed(Removal::Missing)])),
        (404, "repository not found".to_string())
    );
    assert_eq!(
        refusal(delete_repository(&ctx, "ann", "tool", &[Reply::Removed(Removal::Failed)])),
        (500, "failed to remove repository".to_string())
    );
    match asked(delete_repository(&ctx, "ann", "tool", &[Reply::Removed(Removal::Removed)])) {
        Work::RemoveFile { path } => assert_eq!(path, "./repos/1/tool.meta.json"),
        other => panic!("{other:?}"),
    }
}

fn allowed(last: Vec<Reply>) -> Vec<Reply> {
    let mut replies = vec![Reply::Meta(None), Reply::Flag(true)];
    replies.extend(last);
    replies
}

#[test]
fn reading_fails() {
    let ctx = ann();
    let no_git = (500, "Failed to run git command".to_string());
    let fails = |last: Reply| refusal(list_branches(&ctx, "1", "t", &allowed(vec![last])));
    assert_eq!(fails(bad("")), (500, "git branch failed".to_string()));
    assert_eq!(fails(not_started()), no_git);

    let query = CommitsQuery { branch: None, limit: None, page: None };
    let replies = allowed(vec![good("sha"), bad("")]);
    assert_eq!(
        refusal(list_commits(&ctx, "1", "t", &query, &replies)),
        (500, "git log failed".to_string())
    );

    let query = TreeQuery { git_ref: None, path: Some("src//".to_string()) };
    assert_eq!(
        command(get_tree(&ctx, "1", "t", &query, &allowed(vec![]))),
        vec!["ls-tree", "--long", "HEAD:src/"]
    );
    assert_eq!(
        refusal(get_tree(&ctx, "1", "t", &query, &allowed(vec![bad("")]))),
        (404, "tree not found".to_string())
    );

    let query = BlobQuery { git_ref: None, path: "f".to_string() };
    let replies = allowed(vec![bad("")]);
    assert!(check_encodable(&replies));
    assert_eq!(
        refusal(get_blob(&ctx, "1", "t", &query, &replies)),
        (404, "file not found".to_string())
    );

    assert_eq!(
        refusal(get_diff(&ctx, "1", "t", "zz", &allowed(vec![]))),
        (400, "invalid sha".to_string())
    );
    assert_eq!(
        refusal(get_diff(&ctx, "1", "t", "ab", &allowed(vec![bad("")]))),
        (404, "commit not found".to_string())
    );
}

#[test]
fn a_detached_head_is_none() {
    let ctx = ann();
    let replies = allowed(vec![good("main\n"), bad("")]);
    match list_branches(&ctx, "1", "t", &replies) {
        Step::Done(Ok(answer)) => assert_eq!(answer.body.head, None),
        other => panic!("{other:?}"),
    }
    let replies = allowed(vec![good("main\n"), good(" \n")]);
    match list_branches(&ctx, "1", "t", &replies) {
        Step::Done(Ok(answer)) => assert_eq!(answer.body.head, None),
        other => panic!("{other:?}"),
    }
}

#[test]
fn pages_are_asked_for() {
    let ctx = ann();
    let asked_for = |limit: Option<u32>, page: Option<u32>| {
        let query = CommitsQuery { branch: Some("dev".to_string()), limit, page };
        assert!(page_fits(&query));
        command(list_commits(&ctx, "1", "t", &query, &allowed(vec![good("sha")])))
    };
    let format = "--format=%H%x00%an%x00%ae%x00%at%x00%s";
    assert_eq!(asked_for(None, None), vec!["log", "dev", format, "-n30", "--skip=0"]);
    assert_eq!(asked_for(Some(0), Some(3)), vec!["log", "dev", format, "-n1", "--skip=2"]);
    assert_eq!(asked_for(Some(500), Some(2)), vec!["log", "dev", format, "-n100", "--skip=100"]);
    assert_eq!(
        asked_for(Some(1), Some(u32::MAX)),
        vec!["log", "dev", format, "-n1", "--skip=4294967294"]
    );
    let far = CommitsQuery { branch: None, limit: Some(100), page: Some(u32::MAX) };
    assert!(!page_fits(&far));
    assert!(list_commits_checked(&ctx, "1", "t", &far, &allowed(vec![])).is_none());
    assert!(list_commits_checked(&ctx, "a b", "t", &far, &[]).is_some());
}

fn put_body(content: &str) -> WriteFileBody {
    WriteFileBody {
        path: "f".to_string(),
        content: content.to_string(),
        message: "m".to_string(),
        branch: "main".to_string(),
        author_name: "A".to_string(),
        author_email: "a@a".to_string(),
    }
}

#[test]
fn writing_fails() {
    let ctx = ann();
    let body = put_body("aGVsbG8=");
    let put = |last: Vec<Reply>| {
        let mut replies = vec![bad("")];
        replies.extend(last);
        refusal(create_blob(&ctx, "ann", "t", &body, "wt", &replies))
    };
    let lock = || Reply::Done;
    let label = |text: &str| (500, text.to_string());
    assert_eq!(put(vec![lock(), not_started()]), label("rev-parse failed"));
    assert_eq!(put(vec![lock(), bad(""), bad("")]), label("read-tree failed"));
    let primed = || vec![lock(), bad(""), good("")];
    let with = |last: Vec<Reply>| {
        let mut replies = primed();
        replies.extend(last);
        put(replies)
    };
    assert_eq!(with(vec![not_started()]), label("hash-object failed"));
    assert_eq!(with(vec![bad("")]), label("hash-object failed"));
    assert_eq!(with(vec![Reply::Git(GitReply::InputLost)]), label("hash-object write failed"));
    assert_eq!(with(vec![Reply::Git(GitReply::EndLost)]), label("hash-object wait failed"));
    assert_eq!(with(vec![good("b"), bad("")]), label("update-index failed"));
    assert_eq!(with(vec![good("b"), good(""), bad("")]), label("write-tree failed"));
    assert_eq!(
        with(vec![good("b"), good(""), good("t"), not_started()]),
        label("commit-tree failed")
    );
    assert_eq!(
        with(vec![good("b"), good(""), good("t"), good("c"), bad("")]),
        label("update-ref failed")
    );
}

#[test]
fn writing_asks_step_by_step() {
    let ctx = ann();
    let body = put_body("aGVsbG8=");
    let mut replies = vec![];
    let next = |replies: &[Reply]| asked(update_blob(&ctx, "ann", "t", &body, "wt", replies));
    let git = |work: Work| match work {
        Work::Git(c) => {
            assert_eq!(c.dir, Some("./repos/1/t.git".to_string()));
            c
        }
        other => panic!("{other:?}"),
    };
    assert_eq!(git(next(&replies)).args, vec!["cat-file", "-e", "main:f"]);
    replies.push(good(""));
    assert!(matches!(next(&replies), Work::Lock { repo } if repo == "./repos/1/t.git"));
    replies.push(Reply::Done);
    assert_eq!(git(next(&replies)).args, vec!["rev-parse", "--verify", "refs/heads/main"]);
    replies.push(good("old\n"));
    assert_eq!(git(next(&replies)).args, vec!["read-tree", "old"]);
    replies.push(good(""));
    let store = git(next(&replies));
    assert_eq!(store.args, vec!["hash-object", "-w", "--stdin"]);
    assert_eq!(store.input, Some(b"hello".to_vec()));
    replies.push(good("blob\n"));
    assert_eq!(
        git(next(&replies)).args,
        vec!["update-index", "--add", "--cacheinfo", "100644,blob,f"]
    );
    replies.push(good(""));
    assert_eq!(git(next(&replies)).args, vec!["write-tree"]);
    replies.push(good("tree\n"));
    let commit = git(next(&replies));
    assert_eq!(commit.args, vec!["commit-tree", "tree", "-p", "old", "-m", "m"]);
    assert_eq!(commit.env[0], ("GIT_AUTHOR_NAME".to_string(), "A".to_string()));
    assert_eq!(commit.env[3], ("GIT_COMMITTER_EMAIL".to_string(), "a@a".to_string()));
    replies.push(good("new\n"));
    assert_eq!(git(next(&replies)).args, vec!["update-ref", "refs/heads/main", "new"]);
    replies.push(good(""));
    match update_blob(&ctx, "ann", "t", &body, "wt", &replies) {
        Step::Done(Ok(answer)) => {
            assert_eq!(answer.status, 200);
            assert_eq!(answer.body.sha, "new");
        }
        other => panic!("{other:?}"),
    }
}

#[test]
fn new_branches_have_no_parent() {
    let update = WriteUpdate::Add { path: "f".to_string(), content: b"x".to_vec() };
    let replies =
        [Reply::Done, bad("fatal"), good(""), good("blob"), good(""), good("tree")];
    match run_write_sequence("d", "b", "msg", "A", "a@a", &update, "wt", &replies, 0) {
        Part::Ask(Work::Git(c)) => assert_eq!(c.args, vec!["commit-tree", "tree", "-m", "msg"]),
        other => panic!("{other:?}"),
    }
    match run_write_sequence("d", "b", "msg", "A", "a@a", &update, "wt", &replies[..2], 0) {
        Part::Ask(Work::Git(c)) => assert_eq!(c.args, vec!["read-tree", "--empty"]),
        other => panic!("{other:?}"),
    }
}

#[test]
fn files_are_refused() {
    let ctx = ann();
    let mut body = put_body("aGVsbG8=");
    body.path = " ".to_string();
    assert_eq!(
        refusal(create_blob(&ctx, "ann", "t", &body, "wt", &[])),
        (400, "path is required".to_string())
    );
    let body = put_body("not base64!");
    assert_eq!(
        refusal(create_blob(&ctx, "ann", "t", &body, "wt", &[bad("")])),
        (400, "content is not valid base64".to_string())
    );
    let body = put_body("aGVsbG8");
    assert_eq!(
        refusal(update_blob(&ctx, "ann", "t", &body, "wt", &[good("")])),
        (400, "content is not valid base64".to_string())
    );
    let body = put_body("aGVsbG9=");
    assert_eq!(refusal(update_blob(&ctx, "ann", "t", &body, "wt", &[good("")])).0, 400);
    assert_eq!(
        refusal(update_blob(&ctx, "ann", "t", &put_body(""), "wt", &[bad("")])),
        (404, "file not found".to_string())
    );
    assert_eq!(
        refusal(create_blob(&ctx, "ann", "t", &put_body(""), "wt", &[good("")])),
        (409, "file already exists".to_string())
    );
}

#[test]
fn taking_a_file_away_uses_a_scratch_directory() {
    let ctx = ann();
    let body = DeleteFileBody {
        path: "f".to_string(),
        message: "m".to_string(),
        branch: "main".to_string(),
        author_name: "A".to_string(),
        author_email: "a@a".to_string(),
    };
    let scratch = scratch_name();
    assert!(scratch.starts_with("git-agent-wt-"));
    assert_eq!(scratch.len(), 13 + 32);
    assert!(scratch[13..].chars().all(|c| c.is_ascii_digit() || ('a'..='f').contains(&c)));
    assert_eq!(&scratch[25..26], "4");
    assert_ne!(scratch, scratch_name());
    let replies = [good(""), Reply::Done, good("old"), good("")];
    match asked(delete_blob(&ctx, "1", "t", &body, &scratch, &replies)) {
        Work::Git(c) => {
            assert_eq!(
                c.args,
                vec!["-c", "core.bare=false", "update-index", "--force-remove", "f"]
            );
            assert_eq!(c.scratch, Some(scratch));
        }
        other => panic!("{other:?}"),
    }
}

// ── Settings, stars and collaborators ───────────────────────────────────────

#[test]
fn settings_are_refused_and_kept() {
    let ctx = ann();
    let body = UpdateSettingsBody { visibility: Some("Public".to_string()), description: None };
    assert_eq!(
        refusal(update_settings(&ctx, "ann", "t", &body, &[Reply::Meta(None)])),
        (400, "visibility must be 'public' or 'private'".to_string())
    );
    let body = UpdateSettingsBody { visibility: None, description: Some("new".to_string()) };
    let replies = [Reply::Meta(Some(meta("private"))), Reply::Flag(false)];
    match asked(update_settings(&ctx, "ann", "t", &body, &replies[..1])) {
        Work::WriteMeta { path, meta } => {
            assert_eq!(path, "./repos/1/t.meta.json");
            assert_eq!(meta.visibility, "private");
            assert_eq!(meta.description, "new");
            assert_eq!(meta.stars, vec!["5"]);
            assert_eq!(meta.collaborators, vec!["6"]);
            assert_eq!(meta.created_at, "then");
            assert_eq!(meta.updated_at, NOW);
        }
        other => panic!("{other:?}"),
    }
    assert_eq!(
        refusal(update_settings(&ctx, "ann", "t", &body, &replies)),
        (500, "failed to save settings".to_string())
    );
    let mut m = meta("public");
    assert!(apply_settings(&mut m, &body, NOW).is_ok());
    assert_eq!(m.description, "new");
    assert_eq!(m.visibility, "public");
}

#[test]
fn stars_change_metadata() {
    let mut m = meta("public");
    assert!(give_star(&mut m, "1", NOW));
    assert_eq!(m.stars, vec!["5", "1"]);
    assert_eq!(m.updated_at, NOW);
    assert!(!give_star(&mut m, "1", "later"));
    assert_eq!(m.updated_at, NOW);
    assert!(take_star(&mut m, "1", "later"));
    assert_eq!(m.stars, vec!["5"]);
    assert_eq!(m.updated_at, "later");
    assert!(!take_star(&mut m, "1", "much later"));
    assert_eq!(m.updated_at, "later");
    let mut twice = meta("public");
    twice.stars = vec!["1".to_string(), "5".to_string(), "1".to_string()];
    assert!(take_star(&mut twice, "1", NOW));
    assert_eq!(twice.stars, vec!["5"]);
}

#[test]
fn collaborators_come_and_go() {
    let mut m = meta("public");
    assert!(join(&mut m, "7", NOW).is_ok());
    assert_eq!(m.collaborators, vec!["6", "7"]);
    assert_eq!(join(&mut m, "7", NOW).unwrap_err().status, 409);
    assert!(leave(&mut m, "7", NOW).is_ok());
    assert_eq!(m.collaborators, vec!["6"]);
    assert_eq!(leave(&mut m, "7", NOW).unwrap_err().status, 404);
}

#[test]
fn changes_that_cannot_be_stored_fail() {
    let ctx = ann();
    let stored = || vec![Reply::Meta(None), Reply::Flag(false)];
    let who = CollaboratorBody { user_id: "7".to_string() };
    assert_eq!(
        refusal(add_collaborator(&ctx, "ann", "t", &who, &stored())),
        (500, "failed to add collaborator".to_string())
    );
    let replies = [Reply::Meta(Some(meta("public"))), Reply::Flag(false)];
    assert_eq!(
        refusal(remove_collaborator(&ctx, "ann", "t", "6", &replies)),
        (500, "failed to remove collaborator".to_string())
    );
    let replies = [Reply::Meta(None), Reply::Meta(None), Reply::Flag(false)];
    assert_eq!(
        refusal(star_repo(&ctx, "ann", "t", &replies)),
        (500, "failed to save star".to_string())
    );
}

// ── Locks and times ─────────────────────────────────────────────────────────

#[test]
fn each_repository_has_one_lock() {
    let mut table = LockTable::new();
    let a = write_lock(&mut table, "a");
    let b = write_lock(&mut table, "b");
    assert_ne!(a, b);
    assert_eq!(write_lock(&mut table, "a"), a);
    assert_eq!(write_lock(&mut table, "c"), 2);
    assert_eq!(write_lock(&mut table, "b"), b);
}

#[test]
fn latest_commits_are_timed() {
    let reply = |text: &str, success: bool| GitReply::Ended {
        success,
        stdout: text.as_bytes().to_vec(),
        stderr: Vec::new(),
    };
    assert_eq!(latest_commit_timestamp(&reply("1700000000\n", true)), Some(1_700_000_000));
    assert_eq!(latest_commit_timestamp(&reply("", true)), None);
    assert_eq!(latest_commit_timestamp(&reply("1700000000\n", false)), None);
    assert_eq!(latest_commit_timestamp(&GitReply::NotStarted), None);
}

// ── What holds of all of it ─────────────────────────────────────────────────

#[test]
fn outside_results_are_put_in_place() {
    assert_eq!(write_object("\"e\"", &None), "{\"error\":\"e\"}");
    assert_eq!(
        write_object("\"e\"", &Some("7".to_string())),
        "{\"detail\":7,\"error\":\"e\"}"
    );
    let r = describe("id".to_string(), "Ann", "tool", "/p", &meta("private"));
    assert_eq!(r.id, "id");
    assert_eq!(r.owner, "Ann");
    assert_eq!(r.star_count, 1);
    let name = scratch_from("936da01f9abd4d9d80c702af85c822a8");
    assert_eq!(name, "git-agent-wt-936da01f9abd4d9d80c702af85c822a8");
}

#[test]
fn each_repository_has_its_own_paths() {
    let names = ["a", "b", "a.git", ".git", "a.meta.json", "a-b", ".."];
    let mut paths: Vec<String> = Vec::new();
    for owner in names {
        for name in names {
            assert!(is_safe_segment(owner) && !owner.contains('/'));
            paths.push(repo_path("./repos", owner, name));
            paths.push(meta_path("./repos", owner, name));
            assert_eq!(owner_of_dir("./repos", &repo_path("./repos", owner, name), "x"), owner);
        }
    }
    let all = paths.len();
    paths.sort();
    paths.dedup();
    assert_eq!(paths.len(), all);
}

#[test]
fn nobody_changes_anything_without_a_token() {
    let ctx = context(None);
    let body = put_body("");
    let request = UpdateSettingsBody { visibility: None, description: None };
    let who = CollaboratorBody { user_id: "2".to_string() };
    let replies = [good(""), Reply::Done];
    assert_eq!(refusal(create_blob(&ctx, "1", "t", &body, "wt", &replies)).0, 401);
    assert_eq!(refusal(update_blob(&ctx, "1", "t", &body, "wt", &replies)).0, 401);
    assert_eq!(refusal(update_settings(&ctx, "1", "t", &request, &replies)).0, 401);
    assert_eq!(refusal(add_collaborator(&ctx, "1", "t", &who, &replies)).0, 401);
    assert_eq!(refusal(remove_collaborator(&ctx, "1", "t", "2", &replies)).0, 401);
    assert_eq!(refusal(delete_repository(&ctx, "1", "t", &replies)).0, 401);
    assert_eq!(refusal(star_repo(&ctx, "1", "t", &replies)).0, 401);
    assert_eq!(refusal(unstar_repo(&ctx, "1", "t", &replies)).0, 401);
}

#[test]
fn reads_ask_only_to_look() {
    let ctx = ann();
    let looks = ["branch", "symbolic-ref", "rev-parse", "log", "ls-tree", "show", "diff-tree"];
    let check = |work: Work, allowed: bool| match work {
        Work::IsDir { .. } | Work::ListDir { .. } | Work::ReadMeta { .. } => {}
        Work::Git(c) => {
            assert!(allowed);
            assert_eq!(c.dir, Some("./repos/1/t.git".to_string()));
            assert!(looks.contains(&c.args[0].as_str()));
            assert!(c.input.is_none() && c.env.is_empty() && c.scratch.is_none());
        }
        other => panic!("{other:?}"),
    };
    let all = allowed((0..7).map(|_| good("a\0b\0c\0d\0e\0")).collect());
    let commits = CommitsQuery { branch: None, limit: None, page: None };
    let tree = TreeQuery { git_ref: Some("dev".to_string()), path: None };
    let blob = BlobQuery { git_ref: None, path: "f".to_string() };
    let preview = PreviewQuery { branch: None };
    for n in 0..=all.len() {
        let r = &all[..n];
        if let Step::Ask(w) = list_branches(&ctx, "1", "t", r) {
            check(w, n >= 2);
        }
        if let Step::Ask(w) = list_commits(&ctx, "1", "t", &commits, r) {
            check(w, n >= 2);
        }
        if let Step::Ask(w) = get_tree(&ctx, "1", "t", &tree, r) {
            check(w, n >= 2);
        }
        if let Step::Ask(w) = get_blob(&ctx, "1", "t", &blob, r) {
            check(w, n >= 2);
        }
        if let Step::Ask(w) = get_diff(&ctx, "1", "t", "ab", r) {
            check(w, n >= 2);
        }
        if let Step::Ask(w) = commit_preview(&ctx, "1", "t", "ab", &preview, r) {
            check(w, n >= 2);
        }
        if let Step::Ask(w) = get_repo_meta(&ctx, "1", "t", r) {
            check(w, n >= 2);
        }
    }
}

#[test]
fn operations_end_after_nine_replies() {
    let ctx = context(Some(claims("9", "eve")));
    let own = ann();
    let replies: Vec<Reply> = (0..9).map(|_| good("")).collect();
    let preview = PreviewQuery { branch: None };
    let body = put_body("");
    assert!(!matches!(commit_preview(&ctx, "1", "t", "ab", &preview, &replies), Step::Ask(_)));
    assert!(!matches!(profile_repos(&ctx, "1", &replies), Step::Ask(_)));
    assert!(!matches!(star_repo(&ctx, "1", "t", &replies), Step::Ask(_)));
    assert!(matches!(
        update_blob(&own, "1", "t", &body, "wt", &replies),
        Step::Done(Ok(_))
    ));
    assert!(matches!(update_blob(&own, "1", "t", &body, "wt", &replies[..8]), Step::Ask(_)));
}

#[test]
fn metadata_stays_sound() {
    let mut m = RepoMeta::fresh(NOW);
    for user in ["1", "2", "1", "3", "2"] {
        give_star(&mut m, user, NOW);
        let _ = join(&mut m, user, NOW);
    }
    assert_eq!(m.stars, vec!["1", "2", "3"]);
    assert_eq!(m.collaborators, vec!["1", "2", "3"]);
    for visibility in ["private", "secret", "public", ""] {
        let body =
            UpdateSettingsBody { visibility: Some(visibility.to_string()), description: None };
        let done = apply_settings(&mut m, &body, NOW);
        assert_eq!(done.is_ok(), visibility == "private" || visibility == "public");
        assert!(m.visibility == "private" || m.visibility == "public");
    }
    assert!(leave(&mut m, "2", NOW).is_ok());
    assert!(take_star(&mut m, "2", NOW));
    assert_eq!(m.stars, m.collaborators);
}
