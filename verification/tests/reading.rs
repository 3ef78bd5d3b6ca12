//! Reading text, numbers, and what git prints.

use git_agent::number::{parse_i64, parse_u16, parse_u32, parse_u64, to_decimal};
use git_agent::output::{
    check_binary, check_sha, parse_branches, parse_commits, parse_diff, parse_entries,
    parse_names, parse_seconds, parse_shown, parse_stats,
};
use git_agent::split::{lines, split, split_whitespace, splitn};
use git_agent::text::{
    contains, ends_with, eq_ignore_ascii_case, find, join2, join3, same, starts_with,
    strip_prefix, strip_suffix, text_of, chars_of, trim, trim_end_matches,
};
use git_agent::work::GitReply;

#[test]
fn text_is_trimmed() {
    assert_eq!(trim("  a b\t\n"), "a b");
    assert_eq!(trim("\u{2003}a\u{a0}"), "a");
    assert_eq!(trim(" \u{b}\u{c}\r "), "");
    assert_eq!(trim(""), "");
    assert_eq!(trim_end_matches("a//b//", '/'), "a//b");
    assert_eq!(trim_end_matches("///", '/'), "");
}

#[test]
fn text_is_compared() {
    assert!(same("a", "a"));
    assert!(!same("a", "A"));
    assert!(eq_ignore_ascii_case("Ann-1", "aNN-1"));
    assert!(!eq_ignore_ascii_case("ann", "anne"));
    assert!(!eq_ignore_ascii_case("\u{c4}", "\u{e4}"));
    assert!(eq_ignore_ascii_case("", ""));
}

#[test]
fn text_is_searched() {
    assert_eq!(find("abcabc", "ca"), Some(2));
    assert_eq!(find("abc", ""), Some(0));
    assert_eq!(find("abc", "abcd"), None);
    assert!(contains("aaab", "aab"));
    assert!(!contains("aaa", "ab"));
    assert!(starts_with("origin/main", "origin/"));
    assert!(!starts_with("or", "origin"));
    assert!(ends_with("x/HEAD", "/HEAD"));
    assert!(!ends_with("EAD", "HEAD"));
    assert_eq!(strip_prefix("origin/main", "origin/"), "main");
    assert_eq!(strip_prefix("main", "origin/"), "main");
    assert_eq!(strip_suffix("tool.git", ".git"), "tool");
    assert_eq!(strip_suffix("tool", ".git"), "tool");
}

#[test]
fn text_is_joined_and_cut() {
    assert_eq!(join2("a", "b"), "ab");
    assert_eq!(join3("a", "", "c"), "ac");
    let chars = chars_of("h\u{e9}llo");
    assert_eq!(chars.len(), 5);
    assert_eq!(text_of(&chars, 1, 3), "\u{e9}l");
}

#[test]
fn broken_text_is_repaired() {
    let reply = GitReply::Ended {
        success: true,
        stdout: vec![b' ', b'a', 0xff, b'b', b'\n'],
        stderr: vec![0xc3, 0xa9],
    };
    assert_eq!(reply.printed(), " a\u{fffd}b\n");
    assert_eq!(reply.printed_name(), "a\u{fffd}b");
    assert_eq!(reply.complaint(), "\u{e9}");
    assert_eq!(reply.stdout(), vec![b' ', b'a', 0xff, b'b', b'\n']);
    assert_eq!(GitReply::NotStarted.printed(), "");
    assert!(!GitReply::EndLost.ended());
}

#[test]
fn text_is_split() {
    assert_eq!(split("a,,b", ','), vec!["a", "", "b"]);
    assert_eq!(split("", ','), vec![""]);
    assert_eq!(splitn("a:b:c", 2, ':'), vec!["a", "b:c"]);
    assert_eq!(splitn("a:b", 5, ':'), vec!["a", "b"]);
    assert_eq!(splitn("a:b", 1, ':'), vec!["a:b"]);
    assert_eq!(lines("a\r\nb\n\nc"), vec!["a", "b", "", "c"]);
    assert_eq!(lines("a\n"), vec!["a"]);
    assert_eq!(lines("a\r"), vec!["a\r"]);
    assert!(lines("").is_empty());
    assert_eq!(split_whitespace("  a \t b\n"), vec!["a", "b"]);
    assert!(split_whitespace(" \n").is_empty());
}

#[test]
fn numbers_are_read() {
    assert_eq!(parse_u64("18446744073709551615"), Some(u64::MAX));
    assert_eq!(parse_u64("18446744073709551616"), None);
    assert_eq!(parse_u64("+7"), Some(7));
    assert_eq!(parse_u64("-7"), None);
    assert_eq!(parse_u64(""), None);
    assert_eq!(parse_u64("+"), None);
    assert_eq!(parse_u64("-"), None);
    assert_eq!(parse_u64("1_0"), None);
    assert_eq!(parse_u64(" 1"), None);
    assert_eq!(parse_u64("0007"), Some(7));
    assert_eq!(parse_u32("4294967295"), Some(u32::MAX));
    assert_eq!(parse_u32("4294967296"), None);
    assert_eq!(parse_u16("65535"), Some(65535));
    assert_eq!(parse_u16("65536"), None);
    assert_eq!(parse_i64("-9223372036854775808"), Some(i64::MIN));
    assert_eq!(parse_i64("9223372036854775807"), Some(i64::MAX));
    assert_eq!(parse_i64("9223372036854775808"), None);
    assert_eq!(parse_i64("-9223372036854775809"), None);
    assert_eq!(parse_i64("-"), None);
    assert_eq!(parse_i64("-+1"), None);
    assert_eq!(parse_seconds("1700000000"), Some(1_700_000_000));
    assert_eq!(parse_seconds("soon"), None);
}

#[test]
fn numbers_are_written_and_read_back() {
    assert_eq!(to_decimal(0), "0");
    assert_eq!(to_decimal(1200), "1200");
    for n in [0, 9, 10, 99, 100, 4_294_967_295, u64::MAX] {
        assert_eq!(parse_u64(&to_decimal(n)), Some(n));
        assert_eq!(to_decimal(n), n.to_string());
    }
}

#[test]
fn branches_are_read() {
    let out = "main\norigin/HEAD\nHEAD\n  origin/main \norigin/dev\n\nfeature/HEAD\ndev\nHEADS\n";
    assert_eq!(parse_branches(out), vec!["main", "dev", "HEADS"]);
    assert!(parse_branches("").is_empty());
    assert_eq!(parse_branches("feature/x\n"), vec!["feature/x"]);
}

#[test]
fn commits_are_read() {
    let out = "aa\0Ann\0a@x\0\x31\x32\0one\0two\nbroken line\nbb\0B\0b@x\0then\0\n";
    let commits = parse_commits(out);
    assert_eq!(commits.len(), 2);
    assert_eq!(commits[0].sha, "aa");
    assert_eq!(commits[0].author_name, "Ann");
    assert_eq!(commits[0].author_email, "a@x");
    assert_eq!(commits[0].timestamp, 12);
    assert_eq!(commits[0].message, "one\0two");
    assert_eq!(commits[1].timestamp, 0);
    assert_eq!(commits[1].message, "");
}

#[test]
fn tree_entries_are_read() {
    let out = "100644 blob aaa      12\tREADME.md\n040000 tree bbb       -\tsrc\nshort line\n\
               160000 commit ccc       -\na b c d e\tname\twith tab\n";
    let entries = parse_entries(out);
    assert_eq!(entries.len(), 4);
    assert_eq!(entries[0].mode, "100644");
    assert_eq!(entries[0].kind, "blob");
    assert_eq!(entries[0].sha, "aaa");
    assert_eq!(entries[0].size, Some(12));
    assert_eq!(entries[0].name, "README.md");
    assert_eq!(entries[1].size, None);
    assert_eq!(entries[1].name, "src");
    assert_eq!(entries[2].name, "");
    assert_eq!(entries[3].size, None);
    assert_eq!(entries[3].name, "name\twith tab");
}

#[test]
fn counts_are_read() {
    let stats = parse_stats(" a | 3 ++-\n 2 files changed, 10 insertions(+), 4 deletions(-)\n");
    assert_eq!((stats.files_changed, stats.insertions, stats.deletions), (2, 10, 4));
    let stats = parse_stats(" 1 file changed, 1 deletion(-)");
    assert_eq!((stats.files_changed, stats.insertions, stats.deletions), (1, 0, 1));
    let stats = parse_stats("1 file changed, 2 insertions(+)\n3 files changed");
    assert_eq!((stats.files_changed, stats.insertions, stats.deletions), (3, 2, 0));
    let stats = parse_stats("nothing here");
    assert_eq!((stats.files_changed, stats.insertions, stats.deletions), (0, 0, 0));
    let stats = parse_stats("many files changed");
    assert_eq!(stats.files_changed, 0);
}

#[test]
fn diffs_are_read() {
    let out = "aa\0Ann\0a@x\0\x31\x35\0hello\0\n f | 1 +\n 1 file changed, 1 insertion(+)\n\n\
               diff --git a/f b/f\n+x\n\ndiff --git a/g b/g\n";
    let diff = parse_diff(out);
    assert_eq!(diff.commit.sha, "aa");
    assert_eq!(diff.commit.author_name, "Ann");
    assert_eq!(diff.commit.author_email, "a@x");
    assert_eq!(diff.commit.timestamp, 15);
    assert_eq!(diff.commit.message, "hello");
    assert_eq!(diff.stats.files_changed, 1);
    assert_eq!(diff.stats.insertions, 1);
    assert_eq!(diff.diff, "diff --git a/f b/f\n+x\n\ndiff --git a/g b/g\n");
    let bare = parse_diff("aa\0Ann");
    assert_eq!(bare.commit.author_name, "Ann");
    assert_eq!(bare.commit.timestamp, 0);
    assert_eq!(bare.diff, "");
}

#[test]
fn shown_commits_are_read() {
    let commit = parse_shown("aa\0Ann\0a@x\0\x31\x35\0hello\n", "a");
    assert_eq!(commit.sha, "aa");
    assert_eq!(commit.timestamp, 15);
    assert_eq!(commit.message, "hello");
    let commit = parse_shown("tag v1\n", "abc");
    assert_eq!(commit.sha, "abc");
    assert_eq!(commit.author_name, "");
    assert_eq!(commit.timestamp, 0);
    assert_eq!(parse_names(" main \n\n dev\n"), vec!["main", "dev"]);
}

#[test]
fn object_names_are_checked() {
    assert!(check_sha("0123456789abcdefABCDEF"));
    assert!(!check_sha(""));
    assert!(!check_sha("abg"));
    assert!(!check_sha("ab cd"));
}

#[test]
fn binary_files_are_told_by_their_start() {
    let mut bytes = vec![b'a'; 9000];
    assert!(!check_binary(&bytes));
    bytes[8000] = 0;
    assert!(!check_binary(&bytes));
    bytes[7999] = 0;
    assert!(check_binary(&bytes));
    assert!(!check_binary(&Vec::new()));
}
