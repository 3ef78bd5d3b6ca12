//! The text that git prints, and that it is read for what it says.
//!
//! Here stands what git prints for commits, tree entries, branches and diffs,
//! and the proof that the readers of [`output`](crate::output) lead back from
//! it: each statement goes from the thing to the text and back.

use vstd::prelude::*;
use vstd::utf8::{encode_utf8, encode_utf8_decode_utf8, encode_utf8_valid_utf8};

use crate::git::{printed, printed_name, stdout_of, succeeded};
use crate::number::{decimal, decimal_reads_back, is_digit};
use crate::output::{
    branch_of, branches_in, commit_from, commits_in, count, count_chunk, count_chunks, diff_of,
    entries_of, entry_of, is_summary, maybe_seconds, names_in, patch_start, seconds, shown_commit,
    size, stats_in,
};
use crate::split::{
    first_pieces, index_of, lemma_index_is, lines_of, pieces, run_length, without_return, words,
};
use crate::text::{
    ends, is_space, lemma_first_from, lossy_text, occurs, stands_at, starts, trimmed,
    trimmed_back, trimmed_front,
};
use crate::types::{CommitView, DiffStats, DiffView, TreeEntryView};
use crate::work::{git_in, CommandView, GitReply, Reply, WorkView};

verus! {

/// Git ended with success and printed this text.
pub open spec fn git_prints(reply: Reply, text: Seq<char>) -> bool {
    match reply {
        Reply::Git(GitReply::Ended { success, stdout, .. }) => success && stdout@ == encode_utf8(
            text,
        ),
        _ => false,
    }
}

/// Git ended without success.
pub open spec fn git_fails(reply: Reply) -> bool {
    match reply {
        Reply::Git(GitReply::Ended { success, .. }) => !success,
        _ => false,
    }
}

/// Git could not be run to its end.
pub open spec fn git_is_lost(reply: Reply) -> bool {
    match reply {
        Reply::Git(GitReply::Ended { .. }) => false,
        Reply::Git(_) => true,
        _ => false,
    }
}

/// `git -C <dir> <args>`, with nothing else set.
pub open spec fn git_runs(dir: Seq<char>, args: Seq<Seq<char>>) -> WorkView {
    WorkView::Git(CommandView { dir: Some(dir), args, env: seq![], input: None, scratch: None })
}

/// Git ended with success, whatever it printed.
pub open spec fn git_is_fine(reply: Reply) -> bool {
    match reply {
        Reply::Git(GitReply::Ended { success, .. }) => success,
        _ => false,
    }
}

/// Git ended with success and printed a name on a line.
pub open spec fn git_names(reply: Reply, name: Seq<char>) -> bool {
    is_bare_name(name) && git_prints(reply, name + seq!['\n'])
}

/// A name on a line is read as that name.
pub proof fn names_are_read(reply: Reply, name: Seq<char>)
    requires
        git_names(reply, name),
    ensures
        succeeded(git_in(reply)),
        printed_name(git_in(reply)) == name,
{
    prints_are_read(reply, name + seq!['\n']);
    let none: Seq<char> = seq![];
    trimming_takes_white_space(none, name, seq!['\n']);
    assert(none + name + seq!['\n'] =~= name + seq!['\n']);
}

/// A step of git that does not succeed.
pub open spec fn git_is_not_fine(reply: Reply) -> bool {
    git_fails(reply) || git_is_lost(reply)
}

/// What git printed is read as the text that it is.
pub proof fn prints_are_read(reply: Reply, text: Seq<char>)
    requires
        git_prints(reply, text),
    ensures
        succeeded(git_in(reply)),
        printed(git_in(reply)) == text,
        lossy_text(stdout_of(git_in(reply))) == text,
{
    encode_utf8_valid_utf8(text);
    encode_utf8_decode_utf8(text);
}

/// A text that a separator ends is the first piece, and the rest is cut on.
pub proof fn pieces_follow_separators(a: Seq<char>, c: char, b: Seq<char>, n: nat)
    requires
        !a.contains(c),
    ensures
        pieces(a, c) == seq![a],
        pieces(a + seq![c] + b, c) == seq![a] + pieces(b, c),
        n > 0 ==> first_pieces(a, n, c) == seq![a],
        first_pieces(b, 1, c) == seq![b],
        n > 1 ==> first_pieces(a + seq![c] + b, n, c) == seq![a] + first_pieces(
            b,
            (n - 1) as nat,
            c,
        ),
{
    let whole = a + seq![c] + b;
    assert forall|j: int| 0 <= j < a.len() implies whole[j] != c by {
        assert(whole[j] == a[j]);
    }
    assert forall|j: int| 0 <= j < a.len() implies a[j] != c by {
        assert(a.contains(a[j]));
    }
    lemma_index_is(whole, c, a.len() as int);
    lemma_index_is(a, c, a.len() as int);
    assert(whole.take(a.len() as int) =~= a);
    assert(whole.skip(a.len() as int + 1) =~= b);
}

/// Lines, each with its end.
pub open spec fn lines_text(list: Seq<Seq<char>>) -> Seq<char>
    decreases list.len(),
{
    if list.len() == 0 {
        seq![]
    } else {
        list[0] + seq!['\n'] + lines_text(list.drop_first())
    }
}

/// A text that is one line, and keeps its end when it is read as one.
pub open spec fn is_line(s: Seq<char>) -> bool {
    !s.contains('\n') && (s.len() == 0 || s.last() != '\r')
}

proof fn lemma_line_pieces(list: Seq<Seq<char>>)
    requires
        forall|i: int| 0 <= i < list.len() ==> is_line(#[trigger] list[i]),
    ensures
        pieces(lines_text(list), '\n') == list.push(seq![]),
    decreases list.len(),
{
    if list.len() == 0 {
        let none: Seq<char> = seq![];
        assert(!none.contains('\n'));
        pieces_follow_separators(none, '\n', none, 1);
        assert(pieces(lines_text(list), '\n') =~= list.push(seq![]));
    } else {
        let rest = list.drop_first();
        assert forall|i: int| 0 <= i < rest.len() implies is_line(#[trigger] rest[i]) by {
            assert(rest[i] == list[i + 1]);
        }
        lemma_line_pieces(rest);
        pieces_follow_separators(list[0], '\n', lines_text(rest), 2);
        assert(seq![list[0]] + rest.push(seq![]) =~= list.push(seq![]));
    }
}

/// Lines that are printed are read as those lines.
pub proof fn lines_read_back(list: Seq<Seq<char>>)
    requires
        forall|i: int| 0 <= i < list.len() ==> is_line(#[trigger] list[i]),
    ensures
        lines_of(lines_text(list)) == list,
{
    lemma_line_pieces(list);
    let parts = pieces(lines_text(list), '\n');
    assert(parts.drop_last() =~= list);
    assert(parts.last() =~= seq![]);
    assert(list.map_values(|line: Seq<char>| without_return(line)) =~= list) by {
        assert forall|i: int| 0 <= i < list.len() implies without_return(list[i]) == list[i] by {
            assert(is_line(list[i]));
        }
    }
}

/// Nothing but white space.
pub open spec fn is_blank(s: Seq<char>) -> bool {
    forall|i: int| 0 <= i < s.len() ==> is_space(#[trigger] s[i])
}

proof fn lemma_front(a: Seq<char>, s: Seq<char>)
    requires
        is_blank(a),
        s.len() == 0 || !is_space(s[0]),
    ensures
        trimmed_front(a + s) == s,
    decreases a.len(),
{
    if a.len() == 0 {
        assert(a + s =~= s);
    } else {
        assert((a + s)[0] == a[0]);
        assert((a + s).drop_first() =~= a.drop_first() + s);
        lemma_front(a.drop_first(), s);
    }
}

proof fn lemma_back(s: Seq<char>, b: Seq<char>)
    requires
        is_blank(b),
        s.len() == 0 || !is_space(s.last()),
    ensures
        trimmed_back(s + b) == s,
    decreases b.len(),
{
    if b.len() == 0 {
        assert(s + b =~= s);
    } else {
        assert((s + b).last() == b.last());
        assert((s + b).drop_last() =~= s + b.drop_last());
        lemma_back(s, b.drop_last());
    }
}

/// Trimming takes the white space around a text away and nothing else.
pub proof fn trimming_takes_white_space(a: Seq<char>, s: Seq<char>, b: Seq<char>)
    requires
        is_blank(a),
        is_blank(b),
        s.len() > 0,
        !is_space(s[0]),
        !is_space(s.last()),
    ensures
        trimmed(a + s + b) == s,
        trimmed(s) == s,
{
    assert(a + s + b =~= a + (s + b));
    assert((s + b)[0] == s[0]);
    lemma_front(a, s + b);
    lemma_back(s, b);
    let none: Seq<char> = seq![];
    assert(none + s =~= s);
    lemma_front(none, s);
    assert(s + none =~= s);
    lemma_back(s, none);
}

proof fn lemma_front_parts(s: Seq<char>) -> (a: Seq<char>)
    ensures
        is_blank(a),
        s == a + trimmed_front(s),
        trimmed_front(s).len() == 0 || !is_space(trimmed_front(s)[0]),
    decreases s.len(),
{
    if s.len() > 0 && is_space(s[0]) {
        let a = lemma_front_parts(s.drop_first());
        let all = seq![s[0]] + a;
        let rest = s.drop_first();
        assert(s =~= seq![s[0]] + rest);
        assert(s =~= all + trimmed_front(s)) by {
            assert(rest == a + trimmed_front(rest));
        }
        assert forall|i: int| 0 <= i < all.len() implies is_space(#[trigger] all[i]) by {
            if i > 0 {
                assert(all[i] == a[i - 1]);
            }
        }
        all
    } else {
        assert(s =~= seq![] + s);
        seq![]
    }
}

proof fn lemma_back_parts(s: Seq<char>) -> (b: Seq<char>)
    ensures
        is_blank(b),
        s == trimmed_back(s) + b,
        trimmed_back(s).len() == 0 || !is_space(trimmed_back(s).last()),
    decreases s.len(),
{
    if s.len() > 0 && is_space(s.last()) {
        let b = lemma_back_parts(s.drop_last());
        let all = b.push(s.last());
        let rest = s.drop_last();
        assert(s =~= rest.push(s.last()));
        assert(s =~= trimmed_back(s) + all) by {
            assert(rest == trimmed_back(rest) + b);
        }
        assert forall|i: int| 0 <= i < all.len() implies is_space(#[trigger] all[i]) by {
            if i < b.len() {
                assert(all[i] == b[i]);
            }
        }
        all
    } else {
        assert(s =~= s + seq![]);
        seq![]
    }
}

/// Of white space alone, trimming leaves nothing.
pub proof fn trimming_empties_white_space(s: Seq<char>)
    requires
        is_blank(s),
    ensures
        trimmed(s) == Seq::<char>::empty(),
{
    let none: Seq<char> = seq![];
    lemma_front(s, none);
    assert(s + none =~= s);
}

/// A text is what trimming leaves of it, with white space around it, and what
/// trimming leaves does not start or end with white space.
pub proof fn trimming_leaves_the_middle(s: Seq<char>)
    ensures
        exists|a: Seq<char>, b: Seq<char>|
            is_blank(a) && is_blank(b) && s == #[trigger] (a + trimmed(s) + b),
        trimmed(s).len() == 0 || (!is_space(trimmed(s)[0]) && !is_space(trimmed(s).last())),
{
    let a = lemma_front_parts(s);
    let mid = trimmed_front(s);
    let b = lemma_back_parts(mid);
    assert(s =~= a + trimmed(s) + b);
    if trimmed(s).len() > 0 {
        assert(mid[0] == trimmed(s)[0]);
    }
}

/// What stands in a part of a text stands in the text.
proof fn lemma_occurs_around(a: Seq<char>, s: Seq<char>, b: Seq<char>, part: Seq<char>)
    requires
        occurs(s, part),
    ensures
        occurs(a + s + b, part),
{
    let i = choose|i: int| stands_at(s, part, i);
    let whole = a + s + b;
    assert(whole.subrange(a.len() + i, a.len() + i + part.len()) =~= part) by {
        assert forall|j: int| 0 <= j < part.len() implies whole[a.len() + i + j] == part[j] by {
            assert(s.subrange(i, i + part.len())[j] == part[j]);
        }
    }
    assert(stands_at(whole, part, a.len() + i));
}

/// A text that lacks a character of another does not hold it.
proof fn lemma_cannot_occur(s: Seq<char>, part: Seq<char>, j: int)
    requires
        0 <= j < part.len(),
        !s.contains(part[j]),
    ensures
        !occurs(s, part),
{
    if occurs(s, part) {
        let i = choose|i: int| stands_at(s, part, i);
        assert(s.subrange(i, i + part.len())[j] == part[j]);
        assert(s[i + j] == part[j]);
    }
}

/// A text is another with something before and behind it, or nothing.
pub open spec fn holds(s: Seq<char>, part: Seq<char>) -> bool {
    exists|a: Seq<char>, b: Seq<char>| s == #[trigger] (a + part + b)
}

/// A text holds another if and only if it is that text with something before and
/// behind it.
pub proof fn holding_is_standing_between(s: Seq<char>, part: Seq<char>)
    ensures
        occurs(s, part) <==> holds(s, part),
        starts(s, part) <==> exists|b: Seq<char>| s == #[trigger] (part + b),
        ends(s, part) <==> exists|a: Seq<char>| s == #[trigger] (a + part),
{
    if occurs(s, part) {
        let i = choose|i: int| stands_at(s, part, i);
        assert(s =~= s.take(i) + part + s.skip(i + part.len()));
    }
    if exists|a: Seq<char>, b: Seq<char>| s == #[trigger] (a + part + b) {
        let (a, b) = choose|a: Seq<char>, b: Seq<char>| s == #[trigger] (a + part + b);
        assert(s.subrange(a.len() as int, a.len() as int + part.len()) =~= part);
        assert(stands_at(s, part, a.len() as int));
    }
    if starts(s, part) {
        assert(s =~= part + s.skip(part.len() as int));
    }
    if exists|b: Seq<char>| s == #[trigger] (part + b) {
        let b = choose|b: Seq<char>| s == #[trigger] (part + b);
        assert(s.subrange(0, 0int + part.len()) =~= part);
    }
    if ends(s, part) {
        assert(s =~= s.take(s.len() - part.len()) + part);
    }
    if exists|a: Seq<char>| s == #[trigger] (a + part) {
        let a = choose|a: Seq<char>| s == #[trigger] (a + part);
        assert(s.subrange(s.len() - part.len(), s.len() - part.len() + part.len()) =~= part);
    }
}

/// A number as git writes it, with its sign if it is negative.
pub open spec fn signed(n: int) -> Seq<char> {
    if n < 0 {
        seq!['-'] + decimal((-n) as nat)
    } else {
        decimal(n as nat)
    }
}

/// The texts of decimals are digits, so they hold no other character.
proof fn lemma_decimal_chars(n: nat, c: char)
    requires
        !is_digit(c),
    ensures
        !decimal(n).contains(c),
        decimal(n).len() > 0,
        is_digit(decimal(n)[0]),
        is_digit(decimal(n).last()),
{
    decimal_reads_back(n);
    assert forall|i: int| 0 <= i < decimal(n).len() implies decimal(n)[i] != c by {
        assert(is_digit(decimal(n)[i]));
    }
}

/// A number as it is printed neither starts nor ends with white space.
pub proof fn lemma_signed_is_word(n: int)
    ensures
        signed(n).len() > 0,
        !is_space(signed(n)[0]),
        !is_space(signed(n).last()),
{
    let m = if n < 0 {
        (-n) as nat
    } else {
        n as nat
    };
    decimal_reads_back(m);
    assert(is_digit(decimal(m)[0]));
    assert(is_digit(decimal(m)[decimal(m).len() - 1]));
}

/// Seconds, sizes and counts are read as the numbers that were printed, and
/// what is no number is no time.
pub proof fn numbers_read_back(time: i64, bytes: u64, n: u32)
    ensures
        seconds(signed(time as int)) == time,
        maybe_seconds(signed(time as int)) == Some(time),
        size(decimal(bytes as nat)) == Some(bytes),
        size(seq!['-']) is None,
        count(decimal(n as nat)) == n,
        seconds(seq![]) == 0,
        maybe_seconds(seq![]) is None,
{
    decimal_reads_back(bytes as nat);
    decimal_reads_back(n as nat);
    if time < 0 {
        let m = (-time) as nat;
        decimal_reads_back(m);
        let text = signed(time as int);
        assert(text.drop_first() =~= decimal(m));
        assert(text[0] == '-');
    } else {
        decimal_reads_back(time as nat);
    }
    let dash = seq!['-'];
    assert(!is_digit(dash[0]));
}

/// A field of a commit, as git can print it.
pub open spec fn is_field(s: Seq<char>) -> bool {
    !s.contains('\0') && !s.contains('\n')
}

/// A commit that git can print on one line.
pub open spec fn is_printable(c: CommitView) -> bool {
    is_field(c.sha) && is_field(c.author_name) && is_field(c.author_email) && is_line(c.message)
}

/// A commit on one line: five fields with zeros between them.
pub open spec fn commit_line(c: CommitView) -> Seq<char> {
    c.sha + seq!['\0'] + (c.author_name + seq!['\0'] + (c.author_email + seq!['\0'] + (signed(
        c.timestamp as int,
    ) + seq!['\0'] + c.message)))
}

/// The lines of commits.
pub open spec fn commit_lines(list: Seq<CommitView>) -> Seq<Seq<char>> {
    list.map_values(|c: CommitView| commit_line(c))
}

proof fn lemma_signed_chars(n: int, c: char)
    requires
        !is_digit(c),
        c != '-',
    ensures
        !signed(n).contains(c),
{
    let m = if n < 0 {
        (-n) as nat
    } else {
        n as nat
    };
    lemma_decimal_chars(m, c);
    if n < 0 && signed(n).contains(c) {
        let i = signed(n).index_of(c);
        assert(i > 0);
        assert(decimal(m)[i - 1] == c);
    }
}

proof fn lemma_commit_fields(c: CommitView)
    requires
        is_printable(c),
    ensures
        first_pieces(commit_line(c), 5, '\0') == seq![
            c.sha,
            c.author_name,
            c.author_email,
            signed(c.timestamp as int),
            c.message,
        ],
        commit_from(first_pieces(commit_line(c), 5, '\0')) == c,
{
    let time = signed(c.timestamp as int);
    lemma_signed_chars(c.timestamp as int, '\0');
    let four = time + seq!['\0'] + c.message;
    let three = c.author_email + seq!['\0'] + four;
    let two = c.author_name + seq!['\0'] + three;
    pieces_follow_separators(time, '\0', c.message, 2);
    pieces_follow_separators(c.author_email, '\0', four, 3);
    pieces_follow_separators(c.author_name, '\0', three, 4);
    pieces_follow_separators(c.sha, '\0', two, 5);
    let all = seq![c.sha, c.author_name, c.author_email, time, c.message];
    assert(first_pieces(commit_line(c), 5, '\0') =~= all);
    numbers_read_back(c.timestamp, 0, 0);
}

proof fn lemma_joined(a: Seq<char>, x: char, b: Seq<char>, c: char)
    requires
        !a.contains(c),
        x != c,
        !b.contains(c),
    ensures
        !(a + seq![x] + b).contains(c),
{
    let whole = a + seq![x] + b;
    if whole.contains(c) {
        let i = whole.index_of(c);
        if i < a.len() {
            assert(a[i] == c);
        } else if i > a.len() {
            assert(b[i - a.len() - 1] == c);
        }
    }
}

proof fn lemma_commit_is_line(c: CommitView)
    requires
        is_printable(c),
    ensures
        is_line(commit_line(c)),
{
    let time = signed(c.timestamp as int);
    lemma_signed_chars(c.timestamp as int, '\n');
    let four = time + seq!['\0'] + c.message;
    let three = c.author_email + seq!['\0'] + four;
    let two = c.author_name + seq!['\0'] + three;
    lemma_joined(time, '\0', c.message, '\n');
    lemma_joined(c.author_email, '\0', four, '\n');
    lemma_joined(c.author_name, '\0', three, '\n');
    lemma_joined(c.sha, '\0', two, '\n');
    let line = commit_line(c);
    if c.message.len() > 0 {
        assert(line.last() == c.message.last());
    } else {
        assert(line.last() == '\0');
    }
}

proof fn lemma_commits_in(list: Seq<CommitView>)
    requires
        forall|i: int| 0 <= i < list.len() ==> is_printable(#[trigger] list[i]),
    ensures
        commits_in(commit_lines(list)) == list,
    decreases list.len(),
{
    let lines = commit_lines(list);
    if list.len() > 0 {
        let rest = list.drop_last();
        assert(lines.drop_last() =~= commit_lines(rest));
        assert forall|i: int| 0 <= i < rest.len() implies is_printable(#[trigger] rest[i]) by {
            assert(rest[i] == list[i]);
        }
        lemma_commits_in(rest);
        assert(is_printable(list[list.len() - 1]));
        lemma_commit_fields(list.last());
        assert(lines.last() == commit_line(list.last()));
        assert(rest.push(list.last()) =~= list);
    } else {
        assert(commits_in(lines) =~= list);
    }
}

/// Commits that git lists are read as those commits, each with its own fields,
/// in their order.
pub proof fn commits_read_back(list: Seq<CommitView>)
    requires
        forall|i: int| 0 <= i < list.len() ==> is_printable(#[trigger] list[i]),
    ensures
        commits_in(lines_of(lines_text(commit_lines(list)))) == list,
{
    let lines = commit_lines(list);
    assert forall|i: int| 0 <= i < lines.len() implies is_line(#[trigger] lines[i]) by {
        assert(is_printable(list[i]));
        lemma_commit_is_line(list[i]);
    }
    lines_read_back(lines);
    lemma_commits_in(list);
}

/// The one commit that git shows is read as that commit.
pub proof fn shown_commits_read_back(c: CommitView, sha: Seq<char>)
    requires
        is_printable(c),
        c.sha.len() > 0,
        !is_space(c.sha[0]),
        c.message.len() == 0 || !is_space(c.message.last()),
    ensures
        shown_commit(commit_line(c) + seq!['\n'], sha) == c,
{
    let line = commit_line(c);
    let none: Seq<char> = seq![];
    let end = seq!['\n'];
    assert(line[0] == c.sha[0]);
    if c.message.len() > 0 {
        assert(line.last() == c.message.last());
    } else {
        assert(line.last() == '\0');
    }
    assert(is_blank(end));
    trimming_takes_white_space(none, line, end);
    assert(none + line + end =~= line + end);
    lemma_commit_fields(c);
}

/// A name on a line of its own, without white space around it.
pub open spec fn is_bare_name(s: Seq<char>) -> bool {
    s.len() > 0 && !s.contains('\n') && !is_space(s[0]) && !is_space(s.last())
}

proof fn lemma_bare_name(s: Seq<char>)
    requires
        is_bare_name(s),
    ensures
        is_line(s),
        trimmed(s) == s,
{
    let none: Seq<char> = seq![];
    trimming_takes_white_space(none, s, none);
}

proof fn lemma_names_in(list: Seq<Seq<char>>)
    requires
        forall|i: int| 0 <= i < list.len() ==> is_bare_name(#[trigger] list[i]),
    ensures
        names_in(list) == list,
    decreases list.len(),
{
    if list.len() > 0 {
        let rest = list.drop_last();
        assert forall|i: int| 0 <= i < rest.len() implies is_bare_name(#[trigger] rest[i]) by {
            assert(rest[i] == list[i]);
        }
        lemma_names_in(rest);
        assert(is_bare_name(list[list.len() - 1]));
        lemma_bare_name(list.last());
        assert(rest.push(list.last()) =~= list);
    } else {
        assert(names_in(list) =~= list);
    }
}

/// Names that git prints are read as those names, in their order.
pub proof fn names_read_back(list: Seq<Seq<char>>)
    requires
        forall|i: int| 0 <= i < list.len() ==> is_bare_name(#[trigger] list[i]),
    ensures
        names_in(lines_of(lines_text(list))) == list,
{
    assert forall|i: int| 0 <= i < list.len() implies is_line(#[trigger] list[i]) by {
        assert(is_bare_name(list[i]));
        lemma_bare_name(list[i]);
    }
    lines_read_back(list);
    lemma_names_in(list);
}

/// A local branch, as git names it: not `HEAD`, and not a branch of `origin`.
pub open spec fn is_local_branch(s: Seq<char>) -> bool {
    &&& is_bare_name(s)
    &&& s != "HEAD"@
    &&& s.len() >= 5 ==> s.skip(s.len() - 5) != "/HEAD"@
    &&& s.len() >= 7 ==> s.take(7) != "origin/"@
}

proof fn lemma_local_branch(s: Seq<char>)
    requires
        is_local_branch(s),
    ensures
        branch_of(s) == Some(s),
{
    lemma_bare_name(s);
    reveal_strlit("origin/");
    reveal_strlit("/HEAD");
    if ends(s, "/HEAD"@) {
        assert(s.skip(s.len() - 5) =~= s.subrange(s.len() - 5, s.len() - 5 + 5));
    }
    if starts(s, "origin/"@) {
        assert(s.take(7) =~= s.subrange(0, 0int + 7));
    }
}

proof fn lemma_remote_branch(s: Seq<char>)
    requires
        is_local_branch(s),
    ensures
        branch_of("origin/"@ + s) == Some(s),
{
    let remote = "origin/"@ + s;
    reveal_strlit("origin/");
    reveal_strlit("HEAD");
    reveal_strlit("/HEAD");
    assert(remote[0] == 'o');
    assert(remote.last() == s.last());
    let none: Seq<char> = seq![];
    trimming_takes_white_space(none, remote, none);
    assert(remote.subrange(0, 0int + 7) =~= "origin/"@);
    assert(remote.skip(7) =~= s);
    assert(remote.len() != "HEAD"@.len());
    let n = remote.len() as int;
    if ends(remote, "/HEAD"@) {
        let tail = remote.subrange(n - 5, n - 5 + 5);
        assert(tail == "/HEAD"@);
        if s.len() >= 5 {
            assert(s.skip(s.len() - 5) =~= tail);
        } else if s.len() == 4 {
            assert(s =~= tail.skip(1));
            assert("HEAD"@ =~= "/HEAD"@.skip(1));
        } else {
            assert(remote[n - 5] == tail[0]);
            assert(remote[n - 5] == "origin/"@[n - 5]);
        }
    }
}

proof fn lemma_branches_in(list: Seq<Seq<char>>)
    requires
        forall|i: int| 0 <= i < list.len() ==> is_local_branch(#[trigger] list[i]),
        list.no_duplicates(),
    ensures
        branches_in(list) == list,
    decreases list.len(),
{
    if list.len() > 0 {
        let rest = list.drop_last();
        assert forall|i: int| 0 <= i < rest.len() implies is_local_branch(#[trigger] rest[i]) by {
            assert(rest[i] == list[i]);
        }
        lemma_branches_in(rest);
        assert(is_local_branch(list[list.len() - 1]));
        lemma_local_branch(list.last());
        if rest.contains(list.last()) {
            let i = rest.index_of(list.last());
            assert(list[i] == list[list.len() - 1]);
        }
        assert(rest.push(list.last()) =~= list);
    } else {
        assert(branches_in(list) =~= list);
    }
}

/// Branches that git lists are read as those branches, in their order.
pub proof fn branches_read_back(list: Seq<Seq<char>>)
    requires
        forall|i: int| 0 <= i < list.len() ==> is_local_branch(#[trigger] list[i]),
        list.no_duplicates(),
    ensures
        branches_in(lines_of(lines_text(list))) == list,
{
    assert forall|i: int| 0 <= i < list.len() implies is_line(#[trigger] list[i]) by {
        assert(is_local_branch(list[i]));
        lemma_bare_name(list[i]);
    }
    lines_read_back(list);
    lemma_branches_in(list);
}

/// A branch of `origin` goes by its own name: it is listed where no branch of
/// that name is, and adds nothing where one is. `HEAD` and what stands for it at
/// `origin` or elsewhere add nothing.
pub proof fn remote_branches_go_by_their_name(
    list: Seq<Seq<char>>,
    name: Seq<char>,
    remote: Seq<char>,
)
    requires
        forall|i: int| 0 <= i < list.len() ==> is_local_branch(#[trigger] list[i]),
        list.no_duplicates(),
        is_local_branch(name),
    ensures
        branches_in(list.push("origin/"@ + name)) == if list.contains(name) {
            list
        } else {
            list.push(name)
        },
        branches_in(list.push("HEAD"@)) == list,
        is_bare_name(remote) ==> branches_in(list.push(remote + "/HEAD"@)) == list,
{
    lemma_branches_in(list);
    lemma_remote_branch(name);
    assert(list.push("origin/"@ + name).drop_last() =~= list);
    assert(list.push("HEAD"@).drop_last() =~= list);
    reveal_strlit("HEAD");
    reveal_strlit("/HEAD");
    let none: Seq<char> = seq![];
    trimming_takes_white_space(none, "HEAD"@, none);
    if is_bare_name(remote) {
        let head = remote + "/HEAD"@;
        assert(list.push(head).drop_last() =~= list);
        assert(head[0] == remote[0]);
        assert(head.last() == 'D');
        trimming_takes_white_space(none, head, none);
        assert(head.subrange(head.len() - 5, head.len() - 5 + 5) =~= "/HEAD"@);
    }
}

/// A word: not empty, and without white space.
pub open spec fn is_word(s: Seq<char>) -> bool {
    s.len() > 0 && forall|i: int| 0 <= i < s.len() ==> !is_space(#[trigger] s[i])
}

proof fn lemma_run(run: Seq<char>, s: Seq<char>, space: bool)
    requires
        forall|i: int| 0 <= i < run.len() ==> is_space(#[trigger] run[i]) == space,
        s.len() == 0 || is_space(s[0]) != space,
    ensures
        run_length(run + s, space) == run.len(),
    decreases run.len(),
{
    if run.len() == 0 {
        assert(run + s =~= s);
    } else {
        let rest = run.drop_first();
        assert((run + s)[0] == run[0]);
        assert((run + s).drop_first() =~= rest + s);
        lemma_run(rest, s, space);
    }
}

/// The words of a text are its words: what stands between white space, one after
/// another.
pub proof fn words_stand_between_white_space(gap: Seq<char>, word: Seq<char>, s: Seq<char>)
    requires
        is_blank(gap),
        is_word(word),
        s.len() == 0 || is_space(s[0]),
    ensures
        words(gap) == Seq::<Seq<char>>::empty(),
        words(gap + word + s) == seq![word] + words(s),
{
    let all = gap + word + s;
    let rest = word + s;
    assert(all =~= gap + rest);
    assert(rest[0] == word[0]);
    lemma_run(gap, rest, true);
    assert(all.skip(gap.len() as int) =~= rest);
    lemma_run(word, s, false);
    assert(rest.take(word.len() as int) =~= word);
    assert(rest.skip(word.len() as int) =~= s);
    let none: Seq<char> = seq![];
    assert(gap + none =~= gap);
    lemma_run(gap, none, true);
}

/// A run of spaces.
pub open spec fn spaces(n: nat) -> Seq<char> {
    Seq::new(n, |i: int| ' ')
}

/// The size of an entry, or a dash.
pub open spec fn size_text(n: Option<u64>) -> Seq<char> {
    match n {
        Some(n) => decimal(n as nat),
        None => seq!['-'],
    }
}

/// A tree entry on one line, its size set off by some spaces.
pub open spec fn entry_line(e: TreeEntryView, pad: nat) -> Seq<char> {
    e.mode + seq![' '] + e.kind + seq![' '] + e.sha + spaces(pad + 1) + size_text(e.size) + seq![
        '\t',
    ] + e.name
}

/// A tree entry that git can print on one line.
pub open spec fn is_printable_entry(e: TreeEntryView) -> bool {
    is_word(e.mode) && is_word(e.kind) && is_word(e.sha) && is_line(e.name)
}

proof fn lemma_size_is_word(n: Option<u64>)
    ensures
        is_word(size_text(n)),
{
    if let Some(n) = n {
        decimal_reads_back(n as nat);
        assert forall|i: int| 0 <= i < decimal(n as nat).len() implies !is_space(
            #[trigger] decimal(n as nat)[i],
        ) by {
            assert(is_digit(decimal(n as nat)[i]));
        }
    }
}

proof fn lemma_regroup(a: Seq<char>, b: Seq<char>, c: Seq<char>)
    ensures
        (a + b) + c == a + (b + c),
{
    assert((a + b) + c =~= a + (b + c));
}

proof fn lemma_word_and_more(gap: Seq<char>, word: Seq<char>, rest: Seq<char>, all: Seq<Seq<char>>)
    requires
        is_blank(gap),
        is_word(word),
        rest.len() == 0 || is_space(rest[0]),
        words(rest) == all,
    ensures
        words(gap + (word + rest)) == seq![word] + all,
{
    words_stand_between_white_space(gap, word, rest);
    lemma_regroup(gap, word, rest);
}

proof fn lemma_entry_words(e: TreeEntryView, pad: nat)
    requires
        is_printable_entry(e),
    ensures
        words(e.mode + seq![' '] + e.kind + seq![' '] + e.sha + spaces(pad + 1) + size_text(e.size))
            == seq![e.mode, e.kind, e.sha, size_text(e.size)],
{
    lemma_size_is_word(e.size);
    let none: Seq<char> = seq![];
    let one = seq![' '];
    let gap = spaces(pad + 1);
    let size = size_text(e.size);
    let no_words: Seq<Seq<char>> = seq![];
    assert(is_blank(one) && is_blank(gap) && is_blank(none));
    let last = gap + (size + none);
    let third = one + (e.sha + last);
    let second = one + (e.kind + third);
    assert(last[0] == gap[0] && third[0] == one[0] && second[0] == one[0]);
    words_stand_between_white_space(none, size, none);
    lemma_word_and_more(gap, size, none, no_words);
    lemma_word_and_more(one, e.sha, last, seq![size] + no_words);
    lemma_word_and_more(one, e.kind, third, seq![e.sha] + (seq![size] + no_words));
    lemma_word_and_more(
        none,
        e.mode,
        second,
        seq![e.kind] + (seq![e.sha] + (seq![size] + no_words)),
    );
    assert(none + (e.mode + second) =~= e.mode + second);
    assert(size + none =~= size);
    lemma_regroup(one, e.sha, gap + size);
    lemma_regroup(one, e.kind, third);
    lemma_regroup(e.mode, one, e.kind + third);
    lemma_regroup(e.mode + one, e.kind, third);
    lemma_regroup(e.mode + one + e.kind, one, e.sha + (gap + size));
    lemma_regroup(e.mode + one + e.kind + one, e.sha, gap + size);
    lemma_regroup(e.mode + one + e.kind + one + e.sha, gap, size);
    assert(seq![e.mode] + (seq![e.kind] + (seq![e.sha] + (seq![size] + no_words))) =~= seq![
        e.mode,
        e.kind,
        e.sha,
        size,
    ]);
}

proof fn lemma_plus_lacks(a: Seq<char>, b: Seq<char>, c: char)
    requires
        !a.contains(c),
        !b.contains(c),
    ensures
        !(a + b).contains(c),
{
    let whole = a + b;
    if whole.contains(c) {
        let i = whole.index_of(c);
        if i < a.len() {
            assert(a[i] == c);
        } else {
            assert(b[i - a.len()] == c);
        }
    }
}

proof fn lemma_word_lacks(s: Seq<char>, c: char)
    requires
        is_word(s),
        is_space(c),
    ensures
        !s.contains(c),
{
    if s.contains(c) {
        let i = s.index_of(c);
        assert(!is_space(s[i]));
    }
}

proof fn lemma_entry(e: TreeEntryView, pad: nat)
    requires
        is_printable_entry(e),
    ensures
        entry_of(entry_line(e, pad)) == Some(e),
        is_line(entry_line(e, pad)),
{
    let one = seq![' '];
    let gap = spaces(pad + 1);
    let size = size_text(e.size);
    let head = e.mode + one + e.kind + one + e.sha + gap + size;
    lemma_size_is_word(e.size);
    assert forall|c: char| c == '\t' || c == '\n' implies !#[trigger] head.contains(c) by {
        assert(is_space(c));
        lemma_word_lacks(e.mode, c);
        lemma_word_lacks(e.kind, c);
        lemma_word_lacks(e.sha, c);
        lemma_word_lacks(size, c);
        lemma_plus_lacks(e.mode, one, c);
        lemma_plus_lacks(e.mode + one, e.kind, c);
        lemma_plus_lacks(e.mode + one + e.kind, one, c);
        lemma_plus_lacks(e.mode + one + e.kind + one, e.sha, c);
        lemma_plus_lacks(e.mode + one + e.kind + one + e.sha, gap, c);
        lemma_plus_lacks(e.mode + one + e.kind + one + e.sha + gap, size, c);
    }
    let line = entry_line(e, pad);
    assert(line =~= head + seq!['\t'] + e.name);
    pieces_follow_separators(head, '\t', e.name, 2);
    lemma_entry_words(e, pad);
    match e.size {
        Some(n) => numbers_read_back(0, n, 0),
        None => numbers_read_back(0, 0, 0),
    }
    lemma_joined(head, '\t', e.name, '\n');
    if e.name.len() > 0 {
        assert(line.last() == e.name.last());
    } else {
        assert(line.last() == '\t');
    }
}

/// The lines of tree entries.
pub open spec fn entry_lines(list: Seq<TreeEntryView>, pads: Seq<nat>) -> Seq<Seq<char>> {
    Seq::new(list.len(), |i: int| entry_line(list[i], pads[i]))
}

proof fn lemma_entries_of(list: Seq<TreeEntryView>, pads: Seq<nat>)
    requires
        forall|i: int| 0 <= i < list.len() ==> is_printable_entry(#[trigger] list[i]),
    ensures
        entries_of(entry_lines(list, pads)) == list,
    decreases list.len(),
{
    let lines = entry_lines(list, pads);
    if list.len() > 0 {
        let rest = list.drop_last();
        assert(lines.drop_last() =~= entry_lines(rest, pads));
        assert forall|i: int| 0 <= i < rest.len() implies is_printable_entry(
            #[trigger] rest[i],
        ) by {
            assert(rest[i] == list[i]);
        }
        lemma_entries_of(rest, pads);
        let n = list.len() - 1;
        assert(is_printable_entry(list[n]));
        lemma_entry(list[n], pads[n]);
        assert(rest.push(list.last()) =~= list);
    } else {
        assert(entries_of(lines) =~= list);
    }
}

/// Tree entries that git lists are read as those entries, each with its own
/// fields, in their order, however their sizes are set off.
pub proof fn entries_read_back(list: Seq<TreeEntryView>, pads: Seq<nat>)
    requires
        forall|i: int| 0 <= i < list.len() ==> is_printable_entry(#[trigger] list[i]),
    ensures
        entries_of(lines_of(lines_text(entry_lines(list, pads)))) == list,
{
    let lines = entry_lines(list, pads);
    assert forall|i: int| 0 <= i < lines.len() implies is_line(#[trigger] lines[i]) by {
        assert(is_printable_entry(list[i]));
        lemma_entry(list[i], pads[i]);
    }
    lines_read_back(lines);
    lemma_entries_of(list, pads);
}

/// A number of changed files.
pub open spec fn files_phrase(n: u32) -> Seq<char> {
    decimal(n as nat) + if n == 1 {
        " file changed"@
    } else {
        " files changed"@
    }
}

/// A number of added lines.
pub open spec fn insertions_phrase(n: u32) -> Seq<char> {
    decimal(n as nat) + if n == 1 {
        " insertion(+)"@
    } else {
        " insertions(+)"@
    }
}

/// A number of removed lines.
pub open spec fn deletions_phrase(n: u32) -> Seq<char> {
    decimal(n as nat) + if n == 1 {
        " deletion(-)"@
    } else {
        " deletions(-)"@
    }
}

/// The line that sums up a commit. Git leaves out what there is none of.
pub open spec fn summary_line(files: u32, insertions: Option<u32>, deletions: Option<u32>) -> Seq<
    char,
> {
    seq![' '] + files_phrase(files) + match insertions {
        Some(n) => ", "@ + insertions_phrase(n),
        None => seq![],
    } + match deletions {
        Some(n) => ", "@ + deletions_phrase(n),
        None => seq![],
    }
}

/// A number and words behind it.
proof fn lemma_phrase(n: u32, tail: Seq<char>)
    requires
        tail.len() > 0,
        tail[0] == ' ',
        !is_space(tail.last()),
        !tail.contains(','),
    ensures
        ({
            let phrase = decimal(n as nat) + tail;
            &&& !phrase.contains(',')
            &&& trimmed(phrase) == phrase
            &&& trimmed(seq![' '] + phrase) == phrase
            &&& words(phrase).len() > 0
            &&& words(phrase)[0] == decimal(n as nat)
            &&& count(words(phrase)[0]) == n
            &&& is_digit(phrase[0])
            &&& phrase.last() == tail.last()
        }),
{
    let digits = decimal(n as nat);
    let phrase = digits + tail;
    lemma_decimal_chars(n as nat, ',');
    lemma_plus_lacks(digits, tail, ',');
    let none: Seq<char> = seq![];
    let one = seq![' '];
    assert(phrase[0] == digits[0]);
    assert(is_blank(one));
    trimming_takes_white_space(one, phrase, none);
    assert(one + phrase + none =~= one + phrase);
    numbers_read_back(0, n as u64, n);
    lemma_size_is_word(Some(n as u64));
    words_stand_between_white_space(none, digits, tail);
    assert(none + digits + tail =~= phrase);
}

proof fn lemma_occurs_behind(a: Seq<char>, part: Seq<char>, b: Seq<char>, whole: Seq<char>)
    requires
        whole == a + part + b,
    ensures
        occurs(whole, part),
{
    assert(whole.subrange(a.len() as int, a.len() as int + part.len()) =~= part);
    assert(stands_at(whole, part, a.len() as int));
}

proof fn lemma_one_file()
    ensures
        ({
            let tail = " file changed"@;
            &&& tail.len() == 13
            &&& tail[0] == ' '
            &&& tail.last() == 'd'
            &&& !tail.contains(',')
            &&& "file changed"@.len() == 12
            &&& tail.subrange(1, 5) == "file"@
            &&& tail.subrange(1, 13) == "file changed"@
        }),
{
    reveal_strlit(" file changed");
    reveal_strlit("file changed");
    reveal_strlit("file");
    assert(" file changed"@.subrange(1, 5) =~= "file"@);
    assert(" file changed"@.subrange(1, 13) =~= "file changed"@);
}

proof fn lemma_many_files()
    ensures
        ({
            let tail = " files changed"@;
            &&& tail.len() == 14
            &&& tail[0] == ' '
            &&& tail.last() == 'd'
            &&& !tail.contains(',')
            &&& "files changed"@.len() == 13
            &&& tail.subrange(1, 5) == "file"@
            &&& tail.subrange(1, 14) == "files changed"@
        }),
{
    reveal_strlit(" files changed");
    reveal_strlit("files changed");
    reveal_strlit("file");
    assert(" files changed"@.subrange(1, 5) =~= "file"@);
    assert(" files changed"@.subrange(1, 14) =~= "files changed"@);
}

proof fn lemma_word_letters()
    ensures
        "file"@.len() == 4 && "file"@[0] == 'f',
        "insertion"@.len() == 9 && "insertion"@[4] == 'r',
        "deletion"@.len() == 8,
{
    reveal_strlit("file");
    reveal_strlit("insertion");
    reveal_strlit("deletion");
}

/// A phrase of a number holds the word behind the number, and no word with a
/// letter that it lacks.
proof fn lemma_phrase_holds(n: u32, tail: Seq<char>, word: Seq<char>)
    requires
        tail.len() > word.len(),
        tail[0] == ' ',
        tail.subrange(1, 1int + word.len()) == word,
    ensures
        occurs(decimal(n as nat) + tail, word),
{
    let digits = decimal(n as nat);
    let front = digits.push(' ');
    let rest = tail.skip(1int + word.len());
    assert forall|k: int| 0 <= k < word.len() implies tail[1 + k] == word[k] by {
        assert(tail.subrange(1, 1int + word.len())[k] == word[k]);
    }
    assert(digits + tail =~= front + word + rest);
    lemma_occurs_behind(front, word, rest, digits + tail);
}

proof fn lemma_phrase_lacks(n: u32, tail: Seq<char>, word: Seq<char>, j: int)
    requires
        0 <= j < word.len(),
        !is_digit(word[j]),
        !tail.contains(word[j]),
    ensures
        !occurs(decimal(n as nat) + tail, word),
{
    lemma_decimal_chars(n as nat, word[j]);
    lemma_plus_lacks(decimal(n as nat), tail, word[j]);
    lemma_cannot_occur(decimal(n as nat) + tail, word, j);
}

proof fn lemma_files_counts(n: u32, tail: Seq<char>, stats: DiffStats)
    requires
        tail == " file changed"@ || tail == " files changed"@,
    ensures
        ({
            let phrase = decimal(n as nat) + tail;
            &&& !phrase.contains(',')
            &&& trimmed(phrase) == phrase
            &&& is_digit(phrase[0])
            &&& phrase.last() == 'd'
            &&& occurs(phrase, "file changed"@) || occurs(phrase, "files changed"@)
            &&& count_chunk(stats, phrase) == (DiffStats { files_changed: n, ..stats })
        }),
{
    lemma_word_letters();
    if tail == " file changed"@ {
        lemma_one_file();
        lemma_phrase(n, tail);
        lemma_phrase_holds(n, tail, "file"@);
        lemma_phrase_holds(n, tail, "file changed"@);
    } else {
        lemma_many_files();
        lemma_phrase(n, tail);
        lemma_phrase_holds(n, tail, "file"@);
        lemma_phrase_holds(n, tail, "files changed"@);
    }
}

proof fn lemma_files_phrase(n: u32, stats: DiffStats)
    ensures
        ({
            let phrase = files_phrase(n);
            &&& !phrase.contains(',')
            &&& trimmed(phrase) == phrase
            &&& is_digit(phrase[0])
            &&& phrase.last() == 'd'
            &&& occurs(phrase, "file changed"@) || occurs(phrase, "files changed"@)
            &&& count_chunk(stats, phrase) == (DiffStats { files_changed: n, ..stats })
        }),
{
    if n == 1 {
        lemma_files_counts(n, " file changed"@, stats);
    } else {
        lemma_files_counts(n, " files changed"@, stats);
    }
}

proof fn lemma_insertion_tail(tail: Seq<char>)
    requires
        tail == " insertion(+)"@ || tail == " insertions(+)"@,
    ensures
        tail.len() > 10,
        tail[0] == ' ',
        tail.last() == ')',
        !tail.contains(','),
        !tail.contains('f'),
        tail.subrange(1, 10) == "insertion"@,
{
    reveal_strlit(" insertion(+)");
    reveal_strlit(" insertions(+)");
    reveal_strlit("insertion");
    assert(tail.subrange(1, 10) =~= "insertion"@);
}

proof fn lemma_deletion_tail(tail: Seq<char>)
    requires
        tail == " deletion(-)"@ || tail == " deletions(-)"@,
    ensures
        tail.len() > 9,
        tail[0] == ' ',
        tail.last() == ')',
        !tail.contains(','),
        !tail.contains('f'),
        !tail.contains('r'),
        tail.subrange(1, 9) == "deletion"@,
{
    reveal_strlit(" deletion(-)");
    reveal_strlit(" deletions(-)");
    reveal_strlit("deletion");
    assert(tail.subrange(1, 9) =~= "deletion"@);
}

proof fn lemma_insertions_counts(n: u32, tail: Seq<char>, stats: DiffStats)
    requires
        tail == " insertion(+)"@ || tail == " insertions(+)"@,
    ensures
        ({
            let phrase = decimal(n as nat) + tail;
            &&& !phrase.contains(',')
            &&& phrase.last() == ')'
            &&& count_chunk(stats, seq![' '] + phrase) == (DiffStats { insertions: n, ..stats })
        }),
{
    lemma_insertion_tail(tail);
    lemma_word_letters();
    lemma_phrase(n, tail);
    lemma_phrase_holds(n, tail, "insertion"@);
    lemma_phrase_lacks(n, tail, "file"@, 0);
}

proof fn lemma_insertions_phrase(n: u32, stats: DiffStats)
    ensures
        ({
            let phrase = insertions_phrase(n);
            &&& !phrase.contains(',')
            &&& phrase.last() == ')'
            &&& count_chunk(stats, seq![' '] + phrase) == (DiffStats { insertions: n, ..stats })
        }),
{
    if n == 1 {
        lemma_insertions_counts(n, " insertion(+)"@, stats);
    } else {
        lemma_insertions_counts(n, " insertions(+)"@, stats);
    }
}

proof fn lemma_deletions_counts(n: u32, tail: Seq<char>, stats: DiffStats)
    requires
        tail == " deletion(-)"@ || tail == " deletions(-)"@,
    ensures
        ({
            let phrase = decimal(n as nat) + tail;
            &&& !phrase.contains(',')
            &&& phrase.last() == ')'
            &&& count_chunk(stats, seq![' '] + phrase) == (DiffStats { deletions: n, ..stats })
        }),
{
    lemma_deletion_tail(tail);
    lemma_word_letters();
    lemma_phrase(n, tail);
    lemma_phrase_holds(n, tail, "deletion"@);
    lemma_phrase_lacks(n, tail, "file"@, 0);
    lemma_phrase_lacks(n, tail, "insertion"@, 4);
}

proof fn lemma_deletions_phrase(n: u32, stats: DiffStats)
    ensures
        ({
            let phrase = deletions_phrase(n);
            &&& !phrase.contains(',')
            &&& phrase.last() == ')'
            &&& count_chunk(stats, seq![' '] + phrase) == (DiffStats { deletions: n, ..stats })
        }),
{
    if n == 1 {
        lemma_deletions_counts(n, " deletion(-)"@, stats);
    } else {
        lemma_deletions_counts(n, " deletions(-)"@, stats);
    }
}

/// The counts after a summary line: what it names replaces what was counted
/// before, and what it does not name stays.
pub open spec fn recounted(
    stats: DiffStats,
    files: u32,
    insertions: Option<u32>,
    deletions: Option<u32>,
) -> DiffStats {
    DiffStats {
        files_changed: files,
        insertions: match insertions {
            Some(n) => n,
            None => stats.insertions,
        },
        deletions: match deletions {
            Some(n) => n,
            None => stats.deletions,
        },
    }
}

/// The numbers of a summary; what is left out is none.
pub open spec fn counted(files: u32, insertions: Option<u32>, deletions: Option<u32>) -> DiffStats {
    DiffStats {
        files_changed: files,
        insertions: match insertions {
            Some(n) => n,
            None => 0,
        },
        deletions: match deletions {
            Some(n) => n,
            None => 0,
        },
    }
}

proof fn lemma_count_parts(stats: DiffStats, a: Seq<char>, b: Seq<char>, c: Seq<char>)
    ensures
        count_chunks(stats, seq![a]) == count_chunk(stats, a),
        count_chunks(stats, seq![a, b]) == count_chunk(count_chunk(stats, a), b),
        count_chunks(stats, seq![a, b, c]) == count_chunk(
            count_chunk(count_chunk(stats, a), b),
            c,
        ),
{
    let none: Seq<Seq<char>> = seq![];
    assert(seq![a, b, c].drop_last() =~= seq![a, b]);
    assert(seq![a, b].drop_last() =~= seq![a]);
    assert(seq![a].drop_last() =~= none);
    assert(count_chunks(stats, none) == stats);
    assert(seq![a].last() == a && seq![a, b].last() == b && seq![a, b, c].last() == c);
    assert(count_chunks(stats, seq![a]) == count_chunk(stats, a));
    assert(count_chunks(stats, seq![a, b]) == count_chunk(count_chunk(stats, a), b));
}

proof fn lemma_summary_parts(first: Seq<char>, second: Option<Seq<char>>, third: Option<Seq<char>>)
    requires
        !first.contains(','),
        second is Some ==> !second->0.contains(','),
        third is Some ==> !third->0.contains(','),
    ensures
        ({
            let one = seq![' '];
            pieces(
                first + match second {
                    Some(t) => ", "@ + t,
                    None => seq![],
                } + match third {
                    Some(t) => ", "@ + t,
                    None => seq![],
                },
                ',',
            ) == match (second, third) {
                (None, None) => seq![first],
                (Some(a), None) => seq![first, one + a],
                (None, Some(a)) => seq![first, one + a],
                (Some(a), Some(b)) => seq![first, one + a, one + b],
            }
        }),
{
    let one = seq![' '];
    let none: Seq<char> = seq![];
    let empty: Seq<char> = seq![];
    reveal_strlit(", ");
    assert(", "@ =~= seq![','] + one);
    match (second, third) {
        (None, None) => {
            assert(first + none + empty =~= first);
            pieces_follow_separators(first, ',', none, 2);
        },
        (Some(a), None) => {
            lemma_plus_lacks(one, a, ',');
            pieces_follow_separators(first, ',', one + a, 2);
            pieces_follow_separators(one + a, ',', none, 2);
            assert(first + (", "@ + a) + none =~= first + seq![','] + (one + a));
            assert(seq![first] + seq![one + a] =~= seq![first, one + a]);
        },
        (None, Some(a)) => {
            lemma_plus_lacks(one, a, ',');
            pieces_follow_separators(first, ',', one + a, 2);
            pieces_follow_separators(one + a, ',', none, 2);
            assert(first + none + (", "@ + a) =~= first + seq![','] + (one + a));
            assert(seq![first] + seq![one + a] =~= seq![first, one + a]);
        },
        (Some(a), Some(b)) => {
            lemma_plus_lacks(one, a, ',');
            lemma_plus_lacks(one, b, ',');
            let rest = one + a + seq![','] + (one + b);
            pieces_follow_separators(first, ',', rest, 2);
            pieces_follow_separators(one + a, ',', one + b, 2);
            pieces_follow_separators(one + b, ',', none, 2);
            assert(first + (", "@ + a) + (", "@ + b) =~= first + seq![','] + rest);
            assert(seq![first] + (seq![one + a] + seq![one + b]) =~= seq![
                first,
                one + a,
                one + b,
            ]);
        },
    }
}

/// What stands behind the first phrase of a summary line.
spec fn phrase_behind(phrase: Option<Seq<char>>) -> Seq<char> {
    match phrase {
        Some(t) => ", "@ + t,
        None => seq![],
    }
}

spec fn some_insertions(n: Option<u32>) -> Option<Seq<char>> {
    match n {
        Some(n) => Some(insertions_phrase(n)),
        None => None,
    }
}

spec fn some_deletions(n: Option<u32>) -> Option<Seq<char>> {
    match n {
        Some(n) => Some(deletions_phrase(n)),
        None => None,
    }
}

#[verifier::spinoff_prover]
proof fn lemma_summary_counts(
    stats: DiffStats,
    files: u32,
    insertions: Option<u32>,
    deletions: Option<u32>,
)
    ensures
        count_chunks(
            stats,
            pieces(
                files_phrase(files) + phrase_behind(some_insertions(insertions)) + phrase_behind(
                    some_deletions(deletions),
                ),
                ',',
            ),
        ) == recounted(stats, files, insertions, deletions),
{
    let first = files_phrase(files);
    let one = seq![' '];
    let none: Seq<char> = seq![];
    let after = DiffStats { files_changed: files, ..stats };
    lemma_files_phrase(files, stats);
    lemma_summary_parts_of(files, insertions, deletions);
    match (insertions, deletions) {
        (None, None) => lemma_count_parts(stats, first, none, none),
        (Some(i), None) => {
            lemma_insertions_phrase(i, after);
            lemma_count_parts(stats, first, one + insertions_phrase(i), none);
        },
        (None, Some(d)) => {
            lemma_deletions_phrase(d, after);
            lemma_count_parts(stats, first, one + deletions_phrase(d), none);
        },
        (Some(i), Some(d)) => {
            lemma_insertions_phrase(i, after);
            lemma_deletions_phrase(d, DiffStats { insertions: i, ..after });
            lemma_count_parts(
                stats,
                first,
                one + insertions_phrase(i),
                one + deletions_phrase(d),
            );
        },
    }
}

proof fn lemma_summary_parts_of(files: u32, insertions: Option<u32>, deletions: Option<u32>)
    ensures
        ({
            let first = files_phrase(files);
            let one = seq![' '];
            pieces(
                first + phrase_behind(some_insertions(insertions)) + phrase_behind(
                    some_deletions(deletions),
                ),
                ',',
            ) == match (insertions, deletions) {
                (None, None) => seq![first],
                (Some(i), None) => seq![first, one + insertions_phrase(i)],
                (None, Some(d)) => seq![first, one + deletions_phrase(d)],
                (Some(i), Some(d)) => seq![
                    first,
                    one + insertions_phrase(i),
                    one + deletions_phrase(d),
                ],
            }
        }),
{
    let zero = DiffStats { files_changed: 0, insertions: 0, deletions: 0 };
    lemma_files_phrase(files, zero);
    if let Some(i) = insertions {
        lemma_insertions_phrase(i, zero);
    }
    if let Some(d) = deletions {
        lemma_deletions_phrase(d, zero);
    }
    lemma_summary_parts(
        files_phrase(files),
        some_insertions(insertions),
        some_deletions(deletions),
    );
}

proof fn lemma_summary_chunks(
    stats: DiffStats,
    files: u32,
    insertions: Option<u32>,
    deletions: Option<u32>,
    core: Seq<char>,
)
    requires
        seq![' '] + core == summary_line(files, insertions, deletions),
    ensures
        is_digit(core[0]),
        core.last() == 'd' || core.last() == ')',
        occurs(core, "file changed"@) || occurs(core, "files changed"@),
        count_chunks(stats, pieces(core, ',')) == recounted(stats, files, insertions, deletions),
{
    let first = files_phrase(files);
    let one = seq![' '];
    let none: Seq<char> = seq![];
    let left = phrase_behind(some_insertions(insertions));
    let right = phrase_behind(some_deletions(deletions));
    assert(core =~= (one + core).skip(1));
    assert(core =~= first + left + right);
    lemma_summary_counts(stats, files, insertions, deletions);
    lemma_files_phrase(files, stats);
    assert(core =~= none + first + (left + right));
    if occurs(first, "file changed"@) {
        lemma_occurs_around(none, first, left + right, "file changed"@);
    } else {
        lemma_occurs_around(none, first, left + right, "files changed"@);
    }
    assert(core[0] == first[0]);
    if let Some(i) = insertions {
        lemma_insertions_phrase(i, stats);
        assert(deletions is None ==> core.last() == insertions_phrase(i).last());
    }
    if let Some(d) = deletions {
        lemma_deletions_phrase(d, stats);
        assert(core.last() == deletions_phrase(d).last());
    }
}

/// A line that sums nothing up.
pub open spec fn is_detail(line: Seq<char>) -> bool {
    !occurs(line, "file changed"@) && !occurs(line, "files changed"@)
}

proof fn lemma_detail(line: Seq<char>)
    requires
        is_detail(line),
    ensures
        !is_summary(trimmed(line)),
{
    trimming_leaves_the_middle(line);
    let (a, b) = choose|a: Seq<char>, b: Seq<char>|
        is_blank(a) && is_blank(b) && line == #[trigger] (a + trimmed(line) + b);
    if occurs(trimmed(line), "file changed"@) {
        lemma_occurs_around(a, trimmed(line), b, "file changed"@);
    }
    if occurs(trimmed(line), "files changed"@) {
        lemma_occurs_around(a, trimmed(line), b, "files changed"@);
    }
}

proof fn lemma_details_count_nothing(list: Seq<Seq<char>>, more: Seq<Seq<char>>)
    requires
        forall|i: int| 0 <= i < more.len() ==> is_detail(#[trigger] more[i]),
    ensures
        stats_in(list + more) == stats_in(list),
    decreases more.len(),
{
    if more.len() > 0 {
        let rest = more.drop_last();
        assert forall|i: int| 0 <= i < rest.len() implies is_detail(#[trigger] rest[i]) by {
            assert(rest[i] == more[i]);
        }
        lemma_details_count_nothing(list, rest);
        assert((list + more).drop_last() =~= list + rest);
        assert(is_detail(more[more.len() - 1]));
        lemma_detail(more.last());
    } else {
        assert(list + more =~= list);
    }
}

/// One line more: a summary line replaces what it names of the counts, and any
/// other line leaves them.
pub proof fn counts_add_up(
    list: Seq<Seq<char>>,
    files: u32,
    insertions: Option<u32>,
    deletions: Option<u32>,
    other: Seq<char>,
)
    requires
        is_detail(other),
    ensures
        stats_in(seq![]) == (DiffStats { files_changed: 0, insertions: 0, deletions: 0 }),
        stats_in(list.push(summary_line(files, insertions, deletions))) == recounted(
            stats_in(list),
            files,
            insertions,
            deletions,
        ),
        stats_in(list.push(other)) == stats_in(list),
{
    let line = summary_line(files, insertions, deletions);
    let core = line.skip(1);
    let one = seq![' '];
    let nothing: Seq<char> = seq![];
    assert(one + core =~= line);
    lemma_summary_chunks(stats_in(list), files, insertions, deletions, core);
    assert(is_blank(one));
    trimming_takes_white_space(one, core, nothing);
    assert(one + core + nothing =~= line);
    assert(list.push(line).drop_last() =~= list);
    lemma_detail(other);
    assert(list.push(other).drop_last() =~= list);
}

/// The counts of a commit are the numbers that its summary line gives, wherever
/// among the other lines that stands.
pub proof fn counts_read_back(
    before: Seq<Seq<char>>,
    files: u32,
    insertions: Option<u32>,
    deletions: Option<u32>,
    after: Seq<Seq<char>>,
)
    requires
        forall|i: int| 0 <= i < before.len() ==> is_detail(#[trigger] before[i]),
        forall|i: int| 0 <= i < after.len() ==> is_detail(#[trigger] after[i]),
    ensures
        stats_in(before.push(summary_line(files, insertions, deletions)) + after) == counted(
            files,
            insertions,
            deletions,
        ),
{
    let none: Seq<Seq<char>> = seq![];
    let line = summary_line(files, insertions, deletions);
    lemma_details_count_nothing(none, before);
    assert(none + before =~= before);
    lemma_details_count_nothing(before.push(line), after);
    reveal_strlit("file changed");
    reveal_strlit("files changed");
    let nothing: Seq<char> = seq![];
    lemma_cannot_occur(nothing, "file changed"@, 0);
    lemma_cannot_occur(nothing, "files changed"@, 0);
    counts_add_up(before, files, insertions, deletions, nothing);
}

/// A line that does not start a patch.
pub open spec fn starts_no_patch(line: Seq<char>) -> bool {
    !starts(line, "diff --git"@)
}

proof fn lemma_no_patch_in_lines(list: Seq<Seq<char>>, patch: Seq<char>, p: int)
    requires
        forall|i: int| 0 <= i < list.len() ==> is_line(#[trigger] list[i]) && starts_no_patch(
            list[i],
        ),
        0 <= p < lines_text(list).len() - 1,
    ensures
        !stands_at(lines_text(list) + patch, "\ndiff --git"@, p),
    decreases list.len(),
{
    let all = lines_text(list) + patch;
    let part = "\ndiff --git"@;
    let word = "diff --git"@;
    reveal_strlit("\ndiff --git");
    reveal_strlit("diff --git");
    assert(part =~= seq!['\n'] + word);
    if stands_at(all, part, p) {
        let rest = list.drop_first();
        let line = list[0];
        assert(is_line(line));
        let after = lines_text(rest) + patch;
        assert(all =~= line + seq!['\n'] + after);
        assert forall|j: int| 0 <= j < part.len() implies all[p + j] == part[j] by {
            assert(all.subrange(p, p + part.len())[j] == part[j]);
        }
        assert(all[p + 0] == part[0]);
        assert(part[0] == '\n');
        if p < line.len() {
            assert(line[p] == '\n');
        } else if p == line.len() {
            assert(rest.len() > 0);
            let next = rest[0];
            assert(next == list[1]);
            assert(is_line(list[1]) && starts_no_patch(list[1]));
            let more = lines_text(rest.drop_first()) + patch;
            assert(after =~= next + seq!['\n'] + more);
            assert forall|j: int| 0 <= j < word.len() implies after[j] == word[j] by {
                assert(all[p + (j + 1)] == part[j + 1]);
                assert(part[j + 1] == word[j]);
            }
            if next.len() < word.len() {
                assert(after[next.len() as int] == '\n');
                assert(!word.contains('\n'));
                assert(word[next.len() as int] == '\n');
            } else {
                assert(next.subrange(0, 0int + word.len()) =~= word) by {
                    assert forall|j: int| 0 <= j < word.len() implies next[j] == word[j] by {
                        assert(after[j] == next[j]);
                    }
                }
            }
        } else {
            let q = p - line.len() - 1;
            assert forall|i: int| 0 <= i < rest.len() implies is_line(#[trigger] rest[i])
                && starts_no_patch(rest[i]) by {
                assert(rest[i] == list[i + 1]);
            }
            lemma_no_patch_in_lines(rest, patch, q);
            assert(after.subrange(q, q + part.len()) =~= all.subrange(p, p + part.len()));
        }
    }
}

proof fn lemma_lines_end(list: Seq<Seq<char>>)
    requires
        list.len() > 0,
    ensures
        lines_text(list).len() > 0,
        lines_text(list).last() == '\n',
    decreases list.len(),
{
    if list.len() > 1 {
        lemma_lines_end(list.drop_first());
    } else {
        assert(lines_text(list.drop_first()) =~= seq![]);
        assert(lines_text(list) =~= list[0] + seq!['\n']);
    }
}

proof fn lemma_patch_start(list: Seq<Seq<char>>, patch: Seq<char>)
    requires
        list.len() > 0,
        forall|i: int| 0 <= i < list.len() ==> is_line(#[trigger] list[i]) && starts_no_patch(
            list[i],
        ),
        patch.len() == 0 || starts(patch, "diff --git"@),
    ensures
        patch_start(lines_text(list) + patch) == lines_text(list).len(),
{
    let text = lines_text(list);
    let all = text + patch;
    let part = "\ndiff --git"@;
    let word = "diff --git"@;
    reveal_strlit("\ndiff --git");
    reveal_strlit("diff --git");
    assert(part =~= seq!['\n'] + word);
    lemma_lines_end(list);
    lemma_first_from(all, part, 0);
    let n = text.len() - 1;
    assert forall|p: int| 0 <= p < n implies !stands_at(all, part, p) by {
        lemma_no_patch_in_lines(list, patch, p);
    }
    if patch.len() > 0 {
        assert(all.subrange(n, n + part.len()) =~= part) by {
            assert forall|j: int| 0 <= j < part.len() implies all[n + j] == part[j] by {
                if j > 0 {
                    assert(all[n + j] == patch[j - 1]);
                    assert(patch.subrange(0, 0int + word.len())[j - 1] == word[j - 1]);
                    assert(part[j] == word[j - 1]);
                }
            }
        }
        assert(stands_at(all, part, n));
    } else {
        assert(!stands_at(all, part, n));
    }
}

/// What git prints for a commit and what it changes: the fields of the commit,
/// each with a zero behind it, lines with the counts, and the patch.
pub open spec fn diff_text(c: CommitView, lines: Seq<Seq<char>>, patch: Seq<char>) -> Seq<char> {
    c.sha + seq!['\0'] + (c.author_name + seq!['\0'] + (c.author_email + seq!['\0'] + (signed(
        c.timestamp as int,
    ) + seq!['\0'] + (c.message + seq!['\0'] + (lines_text(lines) + patch)))))
}

/// A commit and what it changes are cut at the right places: the commit has its
/// own fields, the counts are those of the lines behind them, and the patch is
/// the patch.
pub proof fn diffs_are_cut_in_three(c: CommitView, lines: Seq<Seq<char>>, patch: Seq<char>)
    requires
        is_field(c.sha),
        is_field(c.author_name),
        is_field(c.author_email),
        is_field(c.message),
        lines.len() > 0,
        forall|i: int| 0 <= i < lines.len() ==> is_line(#[trigger] lines[i]) && starts_no_patch(
            lines[i],
        ),
        patch.len() == 0 || starts(patch, "diff --git"@),
    ensures
        diff_of(diff_text(c, lines, patch)) == (DiffView {
            commit: c,
            stats: stats_in(lines),
            diff: patch,
        }),
{
    let rest = lines_text(lines) + patch;
    let time = signed(c.timestamp as int);
    lemma_signed_chars(c.timestamp as int, '\0');
    let five = c.message + seq!['\0'] + rest;
    let four = time + seq!['\0'] + five;
    let three = c.author_email + seq!['\0'] + four;
    let two = c.author_name + seq!['\0'] + three;
    pieces_follow_separators(c.message, '\0', rest, 2);
    pieces_follow_separators(time, '\0', five, 3);
    pieces_follow_separators(c.author_email, '\0', four, 4);
    pieces_follow_separators(c.author_name, '\0', three, 5);
    pieces_follow_separators(c.sha, '\0', two, 6);
    let text = diff_text(c, lines, patch);
    assert(first_pieces(text, 6, '\0') =~= seq![
        c.sha,
        c.author_name,
        c.author_email,
        time,
        c.message,
        rest,
    ]);
    numbers_read_back(c.timestamp, 0, 0);
    lemma_patch_start(lines, patch);
    let n = lines_text(lines).len() as int;
    assert(rest.take(n) =~= lines_text(lines));
    assert(rest.skip(n) =~= patch);
    lines_read_back(lines);
}

/// A commit and what it changes are read as they are: the commit with its own
/// fields, the counts that the one summary line gives, and the patch as a whole.
pub proof fn diffs_read_back(
    c: CommitView,
    before: Seq<Seq<char>>,
    files: u32,
    insertions: Option<u32>,
    deletions: Option<u32>,
    after: Seq<Seq<char>>,
    patch: Seq<char>,
)
    requires
        is_field(c.sha),
        is_field(c.author_name),
        is_field(c.author_email),
        is_field(c.message),
        forall|i: int| 0 <= i < before.len() ==> is_detail(#[trigger] before[i]) && is_line(
            before[i],
        ) && starts_no_patch(before[i]),
        forall|i: int| 0 <= i < after.len() ==> is_detail(#[trigger] after[i]) && is_line(after[i])
            && starts_no_patch(after[i]),
        patch.len() == 0 || starts(patch, "diff --git"@),
    ensures
        diff_of(
            diff_text(
                c,
                before.push(summary_line(files, insertions, deletions)) + after,
                patch,
            ),
        ) == (DiffView {
            commit: c,
            stats: counted(files, insertions, deletions),
            diff: patch,
        }),
{
    let line = summary_line(files, insertions, deletions);
    lemma_summary_is_line(files, insertions, deletions);
    lemma_lines_around(before, line, after);
    diffs_are_cut_in_three(c, before.push(line) + after, patch);
    counts_read_back(before, files, insertions, deletions, after);
}

proof fn lemma_lines_around(before: Seq<Seq<char>>, line: Seq<char>, after: Seq<Seq<char>>)
    requires
        forall|i: int| 0 <= i < before.len() ==> is_detail(#[trigger] before[i]) && is_line(
            before[i],
        ) && starts_no_patch(before[i]),
        forall|i: int| 0 <= i < after.len() ==> is_detail(#[trigger] after[i]) && is_line(after[i])
            && starts_no_patch(after[i]),
        is_line(line),
        starts_no_patch(line),
    ensures
        forall|i: int|
            0 <= i < (before.push(line) + after).len() ==> is_line(
                #[trigger] (before.push(line) + after)[i],
            ) && starts_no_patch((before.push(line) + after)[i]),
{
    let list = before.push(line) + after;
    assert forall|i: int| 0 <= i < list.len() implies is_line(#[trigger] list[i])
        && starts_no_patch(list[i]) by {
        if i < before.len() {
            assert(list[i] == before[i]);
            assert(is_detail(before[i]));
        } else if i > before.len() {
            assert(list[i] == after[i - before.len() - 1]);
            assert(is_detail(after[i - before.len() - 1]));
        }
    }
}

/// Three numbers, each with its word in the plural.
pub open spec fn plain_summary(files: u32, insertions: u32, deletions: u32) -> Seq<char> {
    decimal(files as nat) + " files changed"@ + (", "@ + (decimal(insertions as nat)
        + " insertions(+)"@)) + (", "@ + (decimal(deletions as nat) + " deletions(-)"@))
}

/// The counts of a commit are the three numbers that its one summary line gives,
/// whatever white space stands around them and whatever they are.
pub proof fn plain_counts_read_back(
    before: Seq<Seq<char>>,
    front: Seq<char>,
    files: u32,
    insertions: u32,
    deletions: u32,
    back: Seq<char>,
    after: Seq<Seq<char>>,
)
    requires
        is_blank(front),
        is_blank(back),
        forall|i: int| 0 <= i < before.len() ==> is_detail(#[trigger] before[i]),
        forall|i: int| 0 <= i < after.len() ==> is_detail(#[trigger] after[i]),
    ensures
        stats_in(
            before.push(front + plain_summary(files, insertions, deletions) + back) + after,
        ) == (DiffStats { files_changed: files, insertions, deletions }),
{
    let core = plain_summary(files, insertions, deletions);
    let line = front + core + back;
    let none: Seq<Seq<char>> = seq![];
    lemma_details_count_nothing(none, before);
    assert(none + before =~= before);
    lemma_details_count_nothing(before.push(line), after);
    lemma_plain_summary(stats_in(before), files, insertions, deletions);
    trimming_takes_white_space(front, core, back);
    assert(before.push(line).drop_last() =~= before);
}

proof fn lemma_plain_summary(stats: DiffStats, files: u32, insertions: u32, deletions: u32)
    ensures
        ({
            let core = plain_summary(files, insertions, deletions);
            &&& core.len() > 0
            &&& is_digit(core[0])
            &&& core.last() == ')'
            &&& is_summary(core)
            &&& count_chunks(stats, pieces(core, ',')) == (DiffStats {
                files_changed: files,
                insertions,
                deletions,
            })
        }),
{
    let first = decimal(files as nat) + " files changed"@;
    let second = decimal(insertions as nat) + " insertions(+)"@;
    let third = decimal(deletions as nat) + " deletions(-)"@;
    let one = seq![' '];
    let none: Seq<char> = seq![];
    let core = plain_summary(files, insertions, deletions);
    let more = DiffStats { files_changed: files, ..stats };
    lemma_files_counts(files, " files changed"@, stats);
    lemma_insertions_counts(insertions, " insertions(+)"@, more);
    lemma_deletions_counts(deletions, " deletions(-)"@, DiffStats { insertions, ..more });
    lemma_summary_parts(first, Some(second), Some(third));
    lemma_count_parts(stats, first, one + second, one + third);
    let rest = (", "@ + second) + (", "@ + third);
    assert(core =~= none + first + rest);
    if occurs(first, "file changed"@) {
        lemma_occurs_around(none, first, rest, "file changed"@);
    } else {
        lemma_occurs_around(none, first, rest, "files changed"@);
    }
    assert(core[0] == first[0]);
    assert(core.last() == third.last());
}

/// A diff whose one summary line holds three numbers has those three counts.
pub proof fn diffs_count_what_is_printed(
    c: CommitView,
    before: Seq<Seq<char>>,
    front: Seq<char>,
    files: u32,
    insertions: u32,
    deletions: u32,
    after: Seq<Seq<char>>,
    patch: Seq<char>,
)
    requires
        is_field(c.sha),
        is_field(c.author_name),
        is_field(c.author_email),
        is_field(c.message),
        is_blank(front),
        is_line(front),
        forall|i: int| 0 <= i < before.len() ==> is_detail(#[trigger] before[i]) && is_line(
            before[i],
        ) && starts_no_patch(before[i]),
        forall|i: int| 0 <= i < after.len() ==> is_detail(#[trigger] after[i]) && is_line(after[i])
            && starts_no_patch(after[i]),
        patch.len() == 0 || starts(patch, "diff --git"@),
    ensures
        diff_of(
            diff_text(
                c,
                before.push(front + plain_summary(files, insertions, deletions)) + after,
                patch,
            ),
        ) == (DiffView {
            commit: c,
            stats: DiffStats { files_changed: files, insertions, deletions },
            diff: patch,
        }),
{
    let core = plain_summary(files, insertions, deletions);
    let line = front + core;
    let none: Seq<char> = seq![];
    assert(front + core + none =~= line);
    lemma_plain_is_line(files, insertions, deletions);
    lemma_plus_lacks(front, core, '\n');
    assert(line.last() == core.last());
    reveal_strlit("diff --git");
    if starts(line, "diff --git"@) {
        let start = line.subrange(0, 0int + "diff --git"@.len());
        assert(start[0] == line[0]);
        if front.len() > 0 {
            assert(is_space(front[0]));
            assert(line[0] == front[0]);
        } else {
            assert(line[0] == core[0]);
        }
    }
    lemma_lines_around(before, line, after);
    diffs_are_cut_in_three(c, before.push(line) + after, patch);
    plain_counts_read_back(before, front, files, insertions, deletions, none, after);
}

proof fn lemma_plain_is_line(files: u32, insertions: u32, deletions: u32)
    ensures
        ({
            let core = plain_summary(files, insertions, deletions);
            &&& core.len() > 0
            &&& is_digit(core[0])
            &&& core.last() == ')'
            &&& !core.contains('\n')
        }),
{
    let zero = DiffStats { files_changed: 0, insertions: 0, deletions: 0 };
    lemma_plain_summary(zero, files, insertions, deletions);
    reveal_strlit(" files changed");
    reveal_strlit(" insertions(+)");
    reveal_strlit(" deletions(-)");
    reveal_strlit(", ");
    let first = decimal(files as nat) + " files changed"@;
    let second = decimal(insertions as nat) + " insertions(+)"@;
    let third = decimal(deletions as nat) + " deletions(-)"@;
    lemma_phrase_is_line(files, " files changed"@);
    lemma_phrase_is_line(insertions, " insertions(+)"@);
    lemma_phrase_is_line(deletions, " deletions(-)"@);
    lemma_plus_lacks(", "@, second, '\n');
    lemma_plus_lacks(", "@, third, '\n');
    lemma_plus_lacks(first, ", "@ + second, '\n');
    lemma_plus_lacks(first + (", "@ + second), ", "@ + third, '\n');
}

proof fn lemma_phrase_is_line(n: u32, tail: Seq<char>)
    requires
        !tail.contains('\n'),
    ensures
        !(decimal(n as nat) + tail).contains('\n'),
{
    lemma_decimal_chars(n as nat, '\n');
    lemma_plus_lacks(decimal(n as nat), tail, '\n');
}

proof fn lemma_summary_is_line(files: u32, insertions: Option<u32>, deletions: Option<u32>)
    ensures
        is_line(summary_line(files, insertions, deletions)),
        starts_no_patch(summary_line(files, insertions, deletions)),
{
    reveal_strlit(" file changed");
    reveal_strlit(" files changed");
    reveal_strlit(" insertion(+)");
    reveal_strlit(" insertions(+)");
    reveal_strlit(" deletion(-)");
    reveal_strlit(" deletions(-)");
    reveal_strlit(", ");
    reveal_strlit("diff --git");
    let one = seq![' '];
    let line = summary_line(files, insertions, deletions);
    lemma_phrase_is_line(files, " file changed"@);
    lemma_phrase_is_line(files, " files changed"@);
    lemma_plus_lacks(one, files_phrase(files), '\n');
    let second = match insertions {
        Some(n) => ", "@ + insertions_phrase(n),
        None => seq![],
    };
    let third = match deletions {
        Some(n) => ", "@ + deletions_phrase(n),
        None => seq![],
    };
    if let Some(n) = insertions {
        lemma_phrase_is_line(n, " insertion(+)"@);
        lemma_phrase_is_line(n, " insertions(+)"@);
        lemma_plus_lacks(", "@, insertions_phrase(n), '\n');
    }
    if let Some(n) = deletions {
        lemma_phrase_is_line(n, " deletion(-)"@);
        lemma_phrase_is_line(n, " deletions(-)"@);
        lemma_plus_lacks(", "@, deletions_phrase(n), '\n');
    }
    lemma_plus_lacks(one + files_phrase(files), second, '\n');
    lemma_plus_lacks(one + files_phrase(files) + second, third, '\n');
    let core = line.skip(1);
    assert(one + core =~= line);
    lemma_summary_chunks(
        DiffStats { files_changed: 0, insertions: 0, deletions: 0 },
        files,
        insertions,
        deletions,
        core,
    );
    assert(line.last() == core.last());
    if starts(line, "diff --git"@) {
        assert(line.subrange(0, 0int + "diff --git"@.len())[0] == 'd');
        assert(line[0] == ' ');
    }
}

/// One line more of a list of commits, entries or branches adds what stands on
/// it behind what was there. A branch that is there adds nothing, and one of
/// `origin` is the same as one that has only its name.
pub proof fn lines_add_up(
    list: Seq<Seq<char>>,
    c: CommitView,
    e: TreeEntryView,
    pad: nat,
    branch: Seq<char>,
)
    requires
        is_printable(c),
        is_printable_entry(e),
        is_local_branch(branch),
    ensures
        commits_in(list.push(commit_line(c))) == commits_in(list).push(c),
        entries_of(list.push(entry_line(e, pad))) == entries_of(list).push(e),
        branches_in(list.push(branch)) == if branches_in(list).contains(branch) {
            branches_in(list)
        } else {
            branches_in(list).push(branch)
        },
        branches_in(list.push("origin/"@ + branch)) == branches_in(list.push(branch)),
{
    lemma_commit_fields(c);
    lemma_entry(e, pad);
    lemma_local_branch(branch);
    lemma_remote_branch(branch);
    assert(list.push(commit_line(c)).drop_last() =~= list);
    assert(list.push(entry_line(e, pad)).drop_last() =~= list);
    assert(list.push(branch).drop_last() =~= list);
    assert(list.push("origin/"@ + branch).drop_last() =~= list);
}

/// Where git prints one field alone for a commit and its changes, that is its
/// name and nothing is known of the rest.
pub proof fn short_diffs_are_empty(text: Seq<char>)
    requires
        !text.contains('\0'),
    ensures
        diff_of(text) == (DiffView {
            commit: CommitView {
                sha: text,
                author_name: seq![],
                author_email: seq![],
                timestamp: 0,
                message: seq![],
            },
            stats: DiffStats { files_changed: 0, insertions: 0, deletions: 0 },
            diff: seq![],
        }),
{
    let none: Seq<char> = seq![];
    pieces_follow_separators(text, '\0', none, 6);
    numbers_read_back(0, 0, 0);
    reveal_strlit("\ndiff --git");
    lemma_first_from(none, "\ndiff --git"@, 0);
    assert(patch_start(none) == 0);
    assert(none.take(0) =~= none);
    assert(none.skip(0) =~= none);
    assert(!none.contains('\n'));
    pieces_follow_separators(none, '\n', none, 1);
    let ended = seq![none].drop_last().map_values(|line: Seq<char>| without_return(line));
    assert(ended =~= Seq::<Seq<char>>::empty());
    assert(lines_of(none) == ended);
}

} // verus!
