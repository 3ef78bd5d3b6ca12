//! Numbers and lines, and lines that say nothing.

use vstd::prelude::*;
use vstd::utf8::{decode_utf8, valid_utf8};

use crate::number::{decimal, decimal_value, is_decimal, is_digit, read_number};
use crate::output::{
    branches_in, commits_in, count, entries_of, entry_of, is_hex, is_sha, maybe_seconds, names_in,
    seconds, shown_commit, size,
};
use crate::printing::{
    is_bare_name, is_blank, is_word, pieces_follow_separators, trimming_empties_white_space,
    trimming_takes_white_space, words_stand_between_white_space,
};
use crate::split::{first_pieces, lines_of, pieces, without_return, words};
use crate::text::{lossy_text, repaired_utf8, trimmed};
use crate::types::CommitView;

verus! {

/// A number is written by its decimal digits, the last one last.
pub proof fn numbers_are_written_digit_by_digit(n: nat, digit: nat)
    requires
        digit < 10,
    ensures
        decimal(digit).len() == 1,
        decimal(digit)[0] as u32 == 48 + digit,
        n > 0 ==> decimal(10 * n + digit) == decimal(n) + decimal(digit),
{
    if n > 0 {
        assert((10 * n + digit) / 10 == n) by (nonlinear_arith)
            requires
                digit < 10,
        ;
        assert((10 * n + digit) % 10 == digit) by (nonlinear_arith)
            requires
                digit < 10,
        ;
        assert(decimal(10 * n + digit) =~= decimal(n) + decimal(digit));
    }
}

/// A number is read digit by digit: one more digit makes it ten times as large,
/// and adds that digit. A plus before it changes nothing, and a minus turns it
/// round where there may be one.
pub proof fn numbers_are_read_digit_by_digit(s: Seq<char>, n: int, c: char, signed: bool)
    requires
        s.len() > 0,
        s[0] != '+',
        s[0] != '-',
        read_number(s, signed) == Some(n),
        '0' <= c <= '9',
    ensures
        n >= 0,
        read_number(s.push(c), signed) == Some(10 * n + (c as u32 - 48)),
        read_number(seq![c], signed) == Some(c as u32 - 48),
        read_number(seq!['+'] + s, signed) == Some(n),
        read_number(seq!['-'] + s, true) == Some(-n),
        read_number(seq!['-'] + s, false) is None,
{
    let more = s.push(c);
    assert(more.drop_last() =~= s);
    assert forall|i: int| 0 <= i < more.len() implies is_digit(#[trigger] more[i]) by {
        if i < s.len() {
            assert(is_digit(s[i]));
        }
    }
    assert(is_decimal(more));
    assert(more[0] == s[0]);
    let one = seq![c];
    assert(one.drop_last() =~= seq![]);
    assert(decimal_value(one.drop_last()) == 0);
    assert(is_digit(one[0]));
    assert(is_decimal(one));
    assert((seq!['+'] + s).drop_first() =~= s);
    assert((seq!['-'] + s).drop_first() =~= s);
    let minus = seq!['-'] + s;
    assert(minus[0] == '-');
    assert(!is_digit(minus[0]));
}

/// What holds something else than digits behind its sign is no number.
pub proof fn other_texts_are_no_numbers(s: Seq<char>, i: int, signed: bool)
    requires
        0 <= i < s.len(),
        !('0' <= s[i] <= '9'),
        i > 0 || (s[0] != '+' && s[0] != '-'),
    ensures
        read_number(s, signed) is None,
        read_number(seq![], signed) is None,
{
    if i > 0 {
        assert(s.drop_first()[i - 1] == s[i]);
    }
}

/// A number out of bounds counts as none.
pub proof fn numbers_have_bounds(s: Seq<char>, n: int)
    ensures
        read_number(s, true) == Some(n) && i64::MIN <= n <= i64::MAX ==> seconds(s) == n
            && maybe_seconds(s) == Some(n as i64),
        read_number(s, true) == Some(n) && !(i64::MIN <= n <= i64::MAX) ==> seconds(s) == 0
            && maybe_seconds(s) is None,
        read_number(s, true) is None ==> seconds(s) == 0 && maybe_seconds(s) is None,
        read_number(s, false) == Some(n) && 0 <= n <= u64::MAX ==> size(s) == Some(n as u64),
        read_number(s, false) == Some(n) && !(0 <= n <= u64::MAX) ==> size(s) is None,
        read_number(s, false) is None ==> size(s) is None && count(s) == 0,
        read_number(s, false) == Some(n) && 0 <= n <= u32::MAX ==> count(s) == n,
        read_number(s, false) == Some(n) && !(0 <= n <= u32::MAX) ==> count(s) == 0,
{
}

/// A text is read line by line. A line ends with a line feed, and a carriage
/// return before it is no part of the line; the last line may lack its end.
pub proof fn texts_are_read_line_by_line(line: Seq<char>, rest: Seq<char>)
    requires
        !line.contains('\n'),
    ensures
        lines_of(seq![]) == Seq::<Seq<char>>::empty(),
        line.len() > 0 ==> lines_of(line) == seq![line],
        line.len() == 0 || line.last() != '\r' ==> lines_of(line + seq!['\n'] + rest) == seq![line]
            + lines_of(rest),
        lines_of(line + seq!['\r', '\n'] + rest) == seq![line] + lines_of(rest),
{
    let none: Seq<char> = seq![];
    pieces_follow_separators(line, '\n', rest, 1);
    assert(!none.contains('\n'));
    pieces_follow_separators(none, '\n', none, 1);
    assert(pieces(none, '\n') == seq![none]);
    assert(lines_of(none) =~= Seq::<Seq<char>>::empty());
    if line.len() > 0 {
        assert(seq![line].drop_last().map_values(|l: Seq<char>| without_return(l)) =~= Seq::<
            Seq<char>,
        >::empty());
        assert(lines_of(line) =~= seq![line]);
    }
    lemma_one_line_more(line, rest);
    let long = line + seq!['\r'];
    assert(!long.contains('\n')) by {
        if long.contains('\n') {
            let i = long.index_of('\n');
            assert(i < line.len());
            assert(line[i] == '\n');
        }
    }
    pieces_follow_separators(long, '\n', rest, 1);
    lemma_one_line_more(long, rest);
    assert(without_return(long) =~= line);
    assert(long + seq!['\n'] + rest =~= line + seq!['\r', '\n'] + rest);
}

proof fn lemma_pieces_not_empty(s: Seq<char>, c: char)
    ensures
        pieces(s, c).len() > 0,
{
}

proof fn lemma_one_line_more(line: Seq<char>, rest: Seq<char>)
    requires
        !line.contains('\n'),
    ensures
        lines_of(line + seq!['\n'] + rest) == seq![without_return(line)] + lines_of(rest),
{
    pieces_follow_separators(line, '\n', rest, 1);
    let parts = pieces(rest, '\n');
    lemma_pieces_not_empty(rest, '\n');
    let all = seq![line] + parts;
    let f = |l: Seq<char>| without_return(l);
    assert(all.last() == parts.last());
    assert(all.drop_last().map_values(f) =~= seq![without_return(line)]
        + parts.drop_last().map_values(f));
    assert(lines_of(line + seq!['\n'] + rest) =~= seq![without_return(line)] + lines_of(rest));
}

/// White space around a name on a line is no part of it, and a line of white
/// space alone names nothing.
pub proof fn names_are_read_without_white_space(
    list: Seq<Seq<char>>,
    before: Seq<char>,
    name: Seq<char>,
    after: Seq<char>,
    blank: Seq<char>,
)
    requires
        is_blank(before),
        is_blank(after),
        is_blank(blank),
        is_bare_name(name),
    ensures
        names_in(list.push(before + name + after)) == names_in(list).push(name),
        names_in(list.push(blank)) == names_in(list),
        branches_in(list.push(before + name + after)) == branches_in(list.push(name)),
        branches_in(list.push(blank)) == branches_in(list),
{
    trimming_takes_white_space(before, name, after);
    trimming_empties_white_space(blank);
    assert(list.push(before + name + after).drop_last() =~= list);
    assert(list.push(name).drop_last() =~= list);
    assert(list.push(blank).drop_last() =~= list);
}

/// A line with fewer than five fields is no commit. Where git shows a commit on
/// such a line, its name is the one that was asked for and nothing else is
/// known.
pub proof fn lines_without_fields_are_no_commits(
    list: Seq<Seq<char>>,
    fields: Seq<Seq<char>>,
    line: Seq<char>,
    sha: Seq<char>,
)
    requires
        1 <= fields.len() <= 4,
        forall|i: int| 0 <= i < fields.len() ==> !(#[trigger] fields[i]).contains('\0'),
        line == joined(fields),
    ensures
        commits_in(list.push(line)) == commits_in(list),
        trimmed(line) == line ==> shown_commit(line, sha) == (CommitView {
            sha,
            author_name: seq![],
            author_email: seq![],
            timestamp: 0,
            message: seq![],
        }),
{
    lemma_few_fields(fields, 5);
    assert(list.push(line).drop_last() =~= list);
}

/// Fields with zeros between them.
pub open spec fn joined(fields: Seq<Seq<char>>) -> Seq<char>
    decreases fields.len(),
{
    if fields.len() == 0 {
        seq![]
    } else if fields.len() == 1 {
        fields[0]
    } else {
        fields[0] + seq!['\0'] + joined(fields.drop_first())
    }
}

proof fn lemma_few_fields(fields: Seq<Seq<char>>, n: nat)
    requires
        1 <= fields.len() < n,
        forall|i: int| 0 <= i < fields.len() ==> !(#[trigger] fields[i]).contains('\0'),
    ensures
        first_pieces(joined(fields), n, '\0').len() == fields.len(),
    decreases fields.len(),
{
    assert(!fields[0].contains('\0'));
    let rest = fields.drop_first();
    pieces_follow_separators(fields[0], '\0', joined(rest), n);
    if fields.len() > 1 {
        assert forall|i: int| 0 <= i < rest.len() implies !(#[trigger] rest[i]).contains('\0') by {
            assert(rest[i] == fields[i + 1]);
        }
        lemma_few_fields(rest, (n - 1) as nat);
    }
}

/// A line with fewer than four words before its tab is no tree entry.
pub proof fn lines_with_few_words_are_no_entries(
    mode: Seq<char>,
    kind: Seq<char>,
    sha: Seq<char>,
    name: Seq<char>,
)
    requires
        is_word(mode),
        is_word(kind),
        is_word(sha),
        !mode.contains('\t'),
        !kind.contains('\t'),
        !sha.contains('\t'),
    ensures
        entry_of(mode + seq![' '] + kind + seq![' '] + sha + seq!['\t'] + name) is None,
        entry_of(seq![]) is None,
{
    let one = seq![' '];
    let none: Seq<char> = seq![];
    let two_more = one + kind + (one + sha);
    let head = mode + two_more;
    words_stand_between_white_space(none, mode, two_more);
    assert(none + mode + two_more =~= head);
    words_stand_between_white_space(one, kind, one + sha);
    words_stand_between_white_space(one, sha, none);
    assert(one + sha + none =~= one + sha);
    words_stand_between_white_space(none, mode, none);
    assert(words(none) == Seq::<Seq<char>>::empty());
    assert(!head.contains('\t')) by {
        if head.contains('\t') {
            let i = head.index_of('\t');
            if i < mode.len() {
                assert(mode[i] == '\t');
            } else if i > mode.len() && i < mode.len() + 1 + kind.len() {
                assert(kind[i - mode.len() - 1] == '\t');
            } else if i > mode.len() + 1 + kind.len() {
                assert(sha[i - mode.len() - kind.len() - 2] == '\t');
            }
        }
    }
    pieces_follow_separators(head, '\t', name, 2);
    assert(mode + seq![' '] + kind + seq![' '] + sha + seq!['\t'] + name =~= head + seq!['\t']
        + name);
    pieces_follow_separators(none, '\t', none, 2);
}

/// A line that stands for nothing changes nothing.
pub proof fn odd_lines_are_passed_over(list: Seq<Seq<char>>, line: Seq<char>)
    requires
        entry_of(line) is None,
    ensures
        entries_of(list.push(line)) == entries_of(list),
{
    assert(list.push(line).drop_last() =~= list);
}

/// The name of a commit is not empty and holds hexadecimal digits of either case
/// alone.
pub proof fn commits_are_named_in_hexadecimal(s: Seq<char>)
    ensures
        is_sha(s) <==> s.len() > 0 && (forall|i: int|
            0 <= i < s.len() ==> '0' <= #[trigger] s[i] <= '9' || 'a' <= s[i] <= 'f' || 'A' <= s[i]
                <= 'F'),
{
    if is_sha(s) {
        assert forall|i: int| 0 <= i < s.len() implies '0' <= #[trigger] s[i] <= '9' || 'a' <= s[i]
            <= 'f' || 'A' <= s[i] <= 'F' by {
            assert(is_hex(s[i]));
        }
    }
}

/// Bytes that are UTF-8 are read as their text; others are repaired.
pub proof fn bytes_are_read_as_text(bytes: Seq<u8>)
    ensures
        valid_utf8(bytes) ==> lossy_text(bytes) == decode_utf8(bytes),
        !valid_utf8(bytes) ==> lossy_text(bytes) == repaired_utf8(bytes),
{
}

} // verus!
