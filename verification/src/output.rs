//! Reading what git prints.

use vstd::prelude::*;

use crate::number::{parse_i64, parse_u32, parse_u64, read_between};
use crate::split::{
    first_pieces, lines, lines_of, pieces, split, split_whitespace, splitn, words,
};
use crate::text::{
    add_text, chars_of, contains, ends, ends_with, find, first_at, holds_text, lemma_first_from,
    occurs, same, strip_prefix, text_of, texts, trim, trimmed, without_prefix,
};
use crate::types::{
    commit_views, entry_views, Commit, CommitView, Diff, DiffStats, DiffView, TreeEntry,
    TreeEntryView,
};

verus! {

/// A number of seconds; zero for what is not a number.
pub open spec fn seconds(s: Seq<char>) -> i64 {
    match read_between(s, true, i64::MIN as int, i64::MAX as int) {
        Some(n) => n as i64,
        None => 0,
    }
}

/// A number of seconds, if it is a number.
pub open spec fn maybe_seconds(s: Seq<char>) -> Option<i64> {
    match read_between(s, true, i64::MIN as int, i64::MAX as int) {
        Some(n) => Some(n as i64),
        None => None,
    }
}

/// A count; zero for what is not a number.
pub open spec fn count(s: Seq<char>) -> u32 {
    match read_between(s, false, 0, u32::MAX as int) {
        Some(n) => n as u32,
        None => 0,
    }
}

/// A size in bytes, if it is one.
pub open spec fn size(s: Seq<char>) -> Option<u64> {
    match read_between(s, false, 0, u64::MAX as int) {
        Some(n) => Some(n as u64),
        None => None,
    }
}

/// The piece at a place; nothing where there is none.
pub open spec fn piece(parts: Seq<Seq<char>>, i: int) -> Seq<char> {
    if 0 <= i < parts.len() {
        parts[i]
    } else {
        seq![]
    }
}

/// The branch that a line names: `HEAD` is none, and a remote branch goes by
/// the name it has at `origin`.
pub open spec fn branch_of(line: Seq<char>) -> Option<Seq<char>> {
    let name = trimmed(line);
    if name.len() == 0 || name == "HEAD"@ || ends(name, "/HEAD"@) {
        None
    } else {
        Some(without_prefix(name, "origin/"@))
    }
}

/// The branches that lines name, each once, in the order of first mention.
pub open spec fn branches_in(list: Seq<Seq<char>>) -> Seq<Seq<char>>
    decreases list.len(),
{
    if list.len() == 0 {
        seq![]
    } else {
        let before = branches_in(list.drop_last());
        match branch_of(list.last()) {
            Some(name) if !before.contains(name) => before.push(name),
            _ => before,
        }
    }
}

/// The commit that five fields stand for.
pub open spec fn commit_from(fields: Seq<Seq<char>>) -> CommitView {
    CommitView {
        sha: fields[0],
        author_name: fields[1],
        author_email: fields[2],
        timestamp: seconds(fields[3]),
        message: fields[4],
    }
}

/// The commits that lines stand for; a line without five fields is none.
pub open spec fn commits_in(list: Seq<Seq<char>>) -> Seq<CommitView>
    decreases list.len(),
{
    if list.len() == 0 {
        seq![]
    } else {
        let before = commits_in(list.drop_last());
        let fields = first_pieces(list.last(), 5, '\0');
        if fields.len() == 5 {
            before.push(commit_from(fields))
        } else {
            before
        }
    }
}

/// The tree entry that a line stands for: mode, kind, name and size of the
/// object, a tab, and the file name.
pub open spec fn entry_of(line: Seq<char>) -> Option<TreeEntryView> {
    let parts = first_pieces(line, 2, '\t');
    let cols = words(piece(parts, 0));
    if cols.len() >= 4 {
        Some(
            TreeEntryView {
                mode: cols[0],
                kind: cols[1],
                sha: cols[2],
                size: size(cols[3]),
                name: piece(parts, 1),
            },
        )
    } else {
        None
    }
}

/// The tree entries that lines stand for.
pub open spec fn entries_of(list: Seq<Seq<char>>) -> Seq<TreeEntryView>
    decreases list.len(),
{
    if list.len() == 0 {
        seq![]
    } else {
        let before = entries_of(list.drop_last());
        match entry_of(list.last()) {
            Some(entry) => before.push(entry),
            None => before,
        }
    }
}

/// The counts after one part of a summary line, such as `2 insertions(+)`.
pub open spec fn count_chunk(stats: DiffStats, raw: Seq<char>) -> DiffStats {
    let chunk = trimmed(raw);
    let parts = words(chunk);
    if parts.len() == 0 {
        stats
    } else if occurs(chunk, "file"@) {
        DiffStats { files_changed: count(parts[0]), ..stats }
    } else if occurs(chunk, "insertion"@) {
        DiffStats { insertions: count(parts[0]), ..stats }
    } else if occurs(chunk, "deletion"@) {
        DiffStats { deletions: count(parts[0]), ..stats }
    } else {
        stats
    }
}

/// The counts after the parts of a summary line.
pub open spec fn count_chunks(stats: DiffStats, chunks: Seq<Seq<char>>) -> DiffStats
    decreases chunks.len(),
{
    if chunks.len() == 0 {
        stats
    } else {
        count_chunk(count_chunks(stats, chunks.drop_last()), chunks.last())
    }
}

/// A line that sums up what a commit changes.
pub open spec fn is_summary(line: Seq<char>) -> bool {
    occurs(line, "file changed"@) || occurs(line, "files changed"@)
}

/// The counts of the summary lines among these; a later one overrides.
pub open spec fn stats_in(list: Seq<Seq<char>>) -> DiffStats
    decreases list.len(),
{
    if list.len() == 0 {
        DiffStats { files_changed: 0, insertions: 0, deletions: 0 }
    } else {
        let before = stats_in(list.drop_last());
        let line = trimmed(list.last());
        if is_summary(line) {
            count_chunks(before, pieces(line, ','))
        } else {
            before
        }
    }
}

/// Where the patch starts in what follows the header: at the first line that
/// starts with `diff --git` and is not the first line, or at the end.
pub open spec fn patch_start(rest: Seq<char>) -> nat {
    match first_at(rest, "\ndiff --git"@) {
        Some(i) => i + 1,
        None => rest.len(),
    }
}

/// What `git show --stat -p` printed: five fields of the commit, the counts,
/// and the patch.
pub open spec fn diff_of(out: Seq<char>) -> DiffView {
    let parts = first_pieces(out, 6, '\0');
    let rest = piece(parts, 5);
    let start = patch_start(rest) as int;
    DiffView {
        commit: CommitView {
            sha: piece(parts, 0),
            author_name: piece(parts, 1),
            author_email: piece(parts, 2),
            timestamp: seconds(piece(parts, 3)),
            message: piece(parts, 4),
        },
        stats: stats_in(lines_of(rest.take(start))),
        diff: rest.skip(start),
    }
}

/// The commit that `git show -s` printed; where it did not print five fields,
/// only the name that was asked for is known.
pub open spec fn shown_commit(out: Seq<char>, sha: Seq<char>) -> CommitView {
    let fields = first_pieces(trimmed(out), 5, '\0');
    if fields.len() == 5 {
        commit_from(fields)
    } else {
        CommitView {
            sha,
            author_name: seq![],
            author_email: seq![],
            timestamp: 0,
            message: seq![],
        }
    }
}

/// The lines that hold more than white space, without the white space around
/// them.
pub open spec fn names_in(list: Seq<Seq<char>>) -> Seq<Seq<char>>
    decreases list.len(),
{
    if list.len() == 0 {
        seq![]
    } else {
        let before = names_in(list.drop_last());
        let name = trimmed(list.last());
        if name.len() == 0 {
            before
        } else {
            before.push(name)
        }
    }
}

/// A hexadecimal object name, of either case.
pub open spec fn is_sha(s: Seq<char>) -> bool {
    s.len() > 0 && forall|i: int| 0 <= i < s.len() ==> is_hex(#[trigger] s[i])
}

/// A hexadecimal digit of either case.
pub open spec fn is_hex(c: char) -> bool {
    ('0' <= c && c <= '9') || ('a' <= c && c <= 'f') || ('A' <= c && c <= 'F')
}

/// Bytes that hold a zero among the first 8000 do not look like text.
pub open spec fn looks_binary(bytes: Seq<u8>) -> bool {
    exists|i: int| 0 <= i < bytes.len() && i < 8000 && #[trigger] bytes[i] == 0
}

/// Reads a number of seconds.
fn read_seconds(s: &str) -> (n: i64)
    ensures
        n == seconds(s@),
{
    match parse_i64(s) {
        Some(n) => n,
        None => 0,
    }
}

/// Reads a number of seconds, if it is a number.
pub fn parse_seconds(s: &str) -> (n: Option<i64>)
    ensures
        n == maybe_seconds(s@),
{
    parse_i64(s)
}

/// Reads a count.
fn read_count(s: &str) -> (n: u32)
    ensures
        n == count(s@),
{
    match parse_u32(s) {
        Some(n) => n,
        None => 0,
    }
}

/// The piece at a place.
fn take_piece(parts: &Vec<String>, i: usize) -> (s: String)
    ensures
        s@ == piece(texts(parts@), i as int),
{
    if i < parts.len() {
        parts[i].clone()
    } else {
        String::new()
    }
}

/// Reads the branches that `git branch` printed.
pub fn parse_branches(out: &str) -> (branches: Vec<String>)
    ensures
        texts(branches@) == branches_in(lines_of(out@)),
{
    let list = lines(out);
    let ghost all = lines_of(out@);
    let mut branches: Vec<String> = Vec::new();
    assert(texts(branches@) =~= branches_in(all.take(0)));
    for i in 0..list.len()
        invariant
            texts(list@) == all,
            texts(branches@) == branches_in(all.take(i as int)),
    {
        assert(all[i as int] == list@[i as int]@);
        assert(all.take(i + 1).drop_last() =~= all.take(i as int));
        let name = trim(list[i].as_str());
        if !(name.as_str().is_empty() || same(name.as_str(), "HEAD") || ends_with(
            name.as_str(),
            "/HEAD",
        )) {
            let stripped = strip_prefix(name.as_str(), "origin/");
            if !holds_text(&branches, stripped.as_str()) {
                add_text(&mut branches, stripped.as_str());
            }
        }
    }
    assert(all.take(list@.len() as int) =~= all);
    branches
}

/// The commit of five fields.
fn make_commit(fields: &Vec<String>) -> (commit: Commit)
    requires
        fields@.len() == 5,
    ensures
        commit@ == commit_from(texts(fields@)),
{
    Commit {
        sha: fields[0].clone(),
        author_name: fields[1].clone(),
        author_email: fields[2].clone(),
        timestamp: read_seconds(fields[3].as_str()),
        message: fields[4].clone(),
    }
}

/// Reads the commits that `git log` printed.
pub fn parse_commits(out: &str) -> (commits: Vec<Commit>)
    ensures
        commit_views(commits@) == commits_in(lines_of(out@)),
{
    let list = lines(out);
    let ghost all = lines_of(out@);
    let mut commits: Vec<Commit> = Vec::new();
    assert(commit_views(commits@) =~= commits_in(all.take(0)));
    for i in 0..list.len()
        invariant
            texts(list@) == all,
            commit_views(commits@) == commits_in(all.take(i as int)),
    {
        assert(all[i as int] == list@[i as int]@);
        assert(all.take(i + 1).drop_last() =~= all.take(i as int));
        let fields = splitn(list[i].as_str(), 5, '\0');
        assert(texts(fields@).len() == fields@.len());
        if fields.len() == 5 {
            let ghost before = commits@;
            let commit = make_commit(&fields);
            commits.push(commit);
            assert(commit_views(commits@) =~= commit_views(before).push(commit@));
        }
    }
    assert(all.take(list@.len() as int) =~= all);
    commits
}

/// Reads one line of `git ls-tree --long`.
fn parse_entry(line: &str) -> (entry: Option<TreeEntry>)
    ensures
        match entry {
            Some(e) => entry_of(line@) == Some(e@),
            None => entry_of(line@) is None,
        },
{
    let parts = splitn(line, 2, '\t');
    let head = take_piece(&parts, 0);
    let cols = split_whitespace(head.as_str());
    assert(texts(cols@).len() == cols@.len());
    if cols.len() >= 4 {
        Some(
            TreeEntry {
                mode: cols[0].clone(),
                kind: cols[1].clone(),
                sha: cols[2].clone(),
                size: parse_u64(cols[3].as_str()),
                name: take_piece(&parts, 1),
            },
        )
    } else {
        None
    }
}

/// Reads the entries that `git ls-tree --long` printed.
pub fn parse_entries(out: &str) -> (entries: Vec<TreeEntry>)
    ensures
        entry_views(entries@) == entries_of(lines_of(out@)),
{
    let list = lines(out);
    let ghost all = lines_of(out@);
    let mut entries: Vec<TreeEntry> = Vec::new();
    assert(entry_views(entries@) =~= entries_of(all.take(0)));
    for i in 0..list.len()
        invariant
            texts(list@) == all,
            entry_views(entries@) == entries_of(all.take(i as int)),
    {
        assert(all[i as int] == list@[i as int]@);
        assert(all.take(i + 1).drop_last() =~= all.take(i as int));
        if let Some(entry) = parse_entry(list[i].as_str()) {
            let ghost before = entries@;
            entries.push(entry);
            assert(entry_views(entries@) =~= entry_views(before).push(entry@));
        }
    }
    assert(all.take(list@.len() as int) =~= all);
    entries
}

/// Reads one part of a summary line.
fn read_chunk(stats: DiffStats, raw: &str) -> (after: DiffStats)
    ensures
        after == count_chunk(stats, raw@),
{
    let chunk = trim(raw);
    let parts = split_whitespace(chunk.as_str());
    assert(texts(parts@).len() == parts@.len());
    if parts.len() == 0 {
        return stats;
    }
    let n = read_count(parts[0].as_str());
    if contains(chunk.as_str(), "file") {
        DiffStats {
            files_changed: n,
            insertions: stats.insertions,
            deletions: stats.deletions,
        }
    } else if contains(chunk.as_str(), "insertion") {
        DiffStats {
            files_changed: stats.files_changed,
            insertions: n,
            deletions: stats.deletions,
        }
    } else if contains(chunk.as_str(), "deletion") {
        DiffStats {
            files_changed: stats.files_changed,
            insertions: stats.insertions,
            deletions: n,
        }
    } else {
        stats
    }
}

/// Reads the counts of the summary lines in a text.
pub fn parse_stats(section: &str) -> (stats: DiffStats)
    ensures
        stats == stats_in(lines_of(section@)),
{
    let list = lines(section);
    let ghost all = lines_of(section@);
    let mut stats = DiffStats { files_changed: 0, insertions: 0, deletions: 0 };
    for i in 0..list.len()
        invariant
            texts(list@) == all,
            stats == stats_in(all.take(i as int)),
    {
        assert(all[i as int] == list@[i as int]@);
        assert(all.take(i + 1).drop_last() =~= all.take(i as int));
        let line = trim(list[i].as_str());
        if contains(line.as_str(), "file changed") || contains(line.as_str(), "files changed") {
            let chunks = split(line.as_str(), ',');
            let ghost parts = texts(chunks@);
            let ghost before = stats;
            for j in 0..chunks.len()
                invariant
                    texts(chunks@) == parts,
                    stats == count_chunks(before, parts.take(j as int)),
            {
                assert(parts[j as int] == chunks@[j as int]@);
                assert(parts.take(j + 1).drop_last() =~= parts.take(j as int));
                stats = read_chunk(stats, chunks[j].as_str());
            }
            assert(parts.take(chunks@.len() as int) =~= parts);
        }
    }
    assert(all.take(list@.len() as int) =~= all);
    stats
}

/// Reads what `git show --stat -p` printed.
pub fn parse_diff(out: &str) -> (diff: Diff)
    ensures
        diff@ == diff_of(out@),
{
    let parts = splitn(out, 6, '\0');
    let rest = take_piece(&parts, 5);
    let chars = chars_of(rest.as_str());
    let len: usize = chars.len();
    proof {
        lemma_first_from(rest@, "\ndiff --git"@, 0);
        reveal_strlit("\ndiff --git");
    }
    let start: usize = match find(rest.as_str(), "\ndiff --git") {
        Some(i) => i + 1,
        None => len,
    };
    let section = text_of(&chars, 0, start);
    let patch = text_of(&chars, start, len);
    assert(section@ =~= rest@.take(start as int));
    assert(patch@ =~= rest@.skip(start as int));
    let time = take_piece(&parts, 3);
    Diff {
        commit: Commit {
            sha: take_piece(&parts, 0),
            author_name: take_piece(&parts, 1),
            author_email: take_piece(&parts, 2),
            timestamp: read_seconds(time.as_str()),
            message: take_piece(&parts, 4),
        },
        stats: parse_stats(section.as_str()),
        diff: patch,
    }
}

/// Reads the commit that `git show -s` printed.
pub fn parse_shown(out: &str, sha: &str) -> (commit: Commit)
    ensures
        commit@ == shown_commit(out@, sha@),
{
    let text = trim(out);
    let fields = splitn(text.as_str(), 5, '\0');
    assert(texts(fields@).len() == fields@.len());
    if fields.len() == 5 {
        make_commit(&fields)
    } else {
        Commit {
            sha: sha.to_owned(),
            author_name: String::new(),
            author_email: String::new(),
            timestamp: 0,
            message: String::new(),
        }
    }
}

/// Reads the lines that hold more than white space.
pub fn parse_names(out: &str) -> (names: Vec<String>)
    ensures
        texts(names@) == names_in(lines_of(out@)),
{
    let list = lines(out);
    let ghost all = lines_of(out@);
    let mut names: Vec<String> = Vec::new();
    assert(texts(names@) =~= names_in(all.take(0)));
    for i in 0..list.len()
        invariant
            texts(list@) == all,
            texts(names@) == names_in(all.take(i as int)),
    {
        assert(all[i as int] == list@[i as int]@);
        assert(all.take(i + 1).drop_last() =~= all.take(i as int));
        let name = trim(list[i].as_str());
        if !name.as_str().is_empty() {
            add_text(&mut names, name.as_str());
        }
    }
    assert(all.take(list@.len() as int) =~= all);
    names
}

/// Whether a text is a hexadecimal object name.
pub fn check_sha(s: &str) -> (r: bool)
    ensures
        r == is_sha(s@),
{
    if s.is_empty() {
        return false;
    }
    for c in it: s.chars()
        invariant
            it.seq() == s@,
            forall|i: int| 0 <= i < it.index() ==> is_hex(#[trigger] s@[i]),
    {
        assert(c == s@[it.index() as int]);
        if !(('0' <= c && c <= '9') || ('a' <= c && c <= 'f') || ('A' <= c && c <= 'F')) {
            return false;
        }
    }
    true
}

/// Whether bytes look like something other than text.
pub fn check_binary(bytes: &Vec<u8>) -> (r: bool)
    ensures
        r == looks_binary(bytes@),
{
    let mut i: usize = 0;
    while i < bytes.len() && i < 8000
        invariant
            i <= bytes@.len(),
            i <= 8000,
            forall|j: int| 0 <= j < i ==> bytes@[j] != 0,
        decreases bytes@.len() - i,
    {
        if bytes[i] == 0 {
            return true;
        }
        i = i + 1;
    }
    false
}

} // verus!
