//! Cutting text into lines, fields and words.

use vstd::prelude::*;

use crate::text::{add_text, chars_of, is_space, text_of, texts};

verus! {

/// The first position of `c` in `s`; the length of `s` if `c` is not there.
pub open spec fn index_of(s: Seq<char>, c: char) -> nat
    decreases s.len(),
{
    if s.len() == 0 || s[0] == c {
        0
    } else {
        1 + index_of(s.drop_first(), c)
    }
}

/// The pieces of `s` between the occurrences of `c`.
pub open spec fn pieces(s: Seq<char>, c: char) -> Seq<Seq<char>>
    decreases s.len(),
{
    let i = index_of(s, c) as int;
    if i >= s.len() {
        seq![s]
    } else {
        seq![s.take(i)] + pieces(s.skip(i + 1), c)
    }
}

/// At most `n` pieces of `s` between occurrences of `c`: the last one keeps
/// whatever is left. There are none where `n` is 0.
pub open spec fn first_pieces(s: Seq<char>, n: nat, c: char) -> Seq<Seq<char>>
    decreases n,
{
    let i = index_of(s, c) as int;
    if n == 0 {
        seq![]
    } else if n == 1 || i >= s.len() {
        seq![s]
    } else {
        seq![s.take(i)] + first_pieces(s.skip(i + 1), (n - 1) as nat, c)
    }
}

/// A line without the carriage return at its end.
pub open spec fn without_return(line: Seq<char>) -> Seq<char> {
    if line.len() > 0 && line.last() == '\r' {
        line.drop_last()
    } else {
        line
    }
}

/// The lines of a text: each ends with a line feed, or a carriage return and a
/// line feed, which are left out; the last line may lack its end.
pub open spec fn lines_of(s: Seq<char>) -> Seq<Seq<char>> {
    let parts = pieces(s, '\n');
    let ended = parts.drop_last().map_values(|line: Seq<char>| without_return(line));
    if parts.last().len() == 0 {
        ended
    } else {
        ended.push(parts.last())
    }
}

/// The length of the run at the start of `s` whose characters are white space
/// (`space`) or are not (`!space`).
pub open spec fn run_length(s: Seq<char>, space: bool) -> nat
    decreases s.len(),
{
    if s.len() == 0 || is_space(s[0]) != space {
        0
    } else {
        1 + run_length(s.drop_first(), space)
    }
}

/// The words of a text: its longest runs without white space.
pub open spec fn words(s: Seq<char>) -> Seq<Seq<char>>
    decreases s.len(),
{
    let gap = run_length(s, true) as int;
    let rest = s.skip(gap);
    if gap >= s.len() {
        seq![]
    } else {
        let n = run_length(rest, false) as int;
        if n == 0 || n > rest.len() {
            seq![]
        } else {
            seq![rest.take(n)] + words(rest.skip(n))
        }
    }
}

/// [`index_of`] gives a position of `c` before which `c` does not stand.
pub proof fn lemma_index_of(s: Seq<char>, c: char)
    ensures
        index_of(s, c) <= s.len(),
        index_of(s, c) < s.len() ==> s[index_of(s, c) as int] == c,
        forall|j: int| 0 <= j < index_of(s, c) ==> s[j] != c,
    decreases s.len(),
{
    if s.len() > 0 && s[0] != c {
        let rest = s.drop_first();
        lemma_index_of(rest, c);
        assert forall|j: int| 0 <= j < index_of(s, c) implies s[j] != c by {
            if j > 0 {
                assert(rest[j - 1] == s[j]);
            }
        }
    }
}

/// A position of `c` before which `c` does not stand is [`index_of`].
pub proof fn lemma_index_is(s: Seq<char>, c: char, i: int)
    requires
        0 <= i <= s.len(),
        i < s.len() ==> s[i] == c,
        forall|j: int| 0 <= j < i ==> s[j] != c,
    ensures
        index_of(s, c) == i,
{
    lemma_index_of(s, c);
    let k = index_of(s, c) as int;
    if k < i {
        assert(s[k] != c);
    } else if i < k {
        assert(s[i] != c);
    }
}

/// The pieces of a text are never none.
proof fn lemma_pieces_some(s: Seq<char>, c: char)
    ensures
        pieces(s, c).len() > 0,
{
}

/// Cuts a text at every occurrence of `c`.
pub fn split(s: &str, c: char) -> (parts: Vec<String>)
    ensures
        texts(parts@) == pieces(s@, c),
{
    let chars = chars_of(s);
    let mut parts: Vec<String> = Vec::new();
    let mut from: usize = 0;
    let mut i: usize = 0;
    assert(chars@.skip(0) =~= chars@);
    assert(texts(parts@) + pieces(chars@.skip(0), c) =~= pieces(s@, c));
    while i < chars.len()
        invariant
            chars@ == s@,
            from <= i <= chars@.len(),
            forall|j: int| from <= j < i ==> chars@[j] != c,
            texts(parts@) + pieces(chars@.skip(from as int), c) == pieces(s@, c),
        decreases chars@.len() - i,
    {
        if chars[i] == c {
            let ghost rest = chars@.skip(from as int);
            let ghost before = texts(parts@);
            proof {
                lemma_index_is(rest, c, i - from);
                assert(rest.take(i - from) =~= chars@.subrange(from as int, i as int));
                assert(rest.skip(i - from + 1) =~= chars@.skip(i + 1));
            }
            let part = text_of(&chars, from, i);
            add_text(&mut parts, part.as_str());
            from = i + 1;
            assert(texts(parts@) + pieces(chars@.skip(from as int), c) =~= before + pieces(rest, c));
        }
        i = i + 1;
    }
    let ghost rest = chars@.skip(from as int);
    let ghost before = texts(parts@);
    proof {
        lemma_index_is(rest, c, rest.len() as int);
        assert(rest =~= chars@.subrange(from as int, chars@.len() as int));
    }
    let part = text_of(&chars, from, chars.len());
    add_text(&mut parts, part.as_str());
    assert(texts(parts@) =~= before + pieces(rest, c));
    parts
}

/// Cuts a text at the first occurrences of `c`, into at most `n` pieces.
pub fn splitn(s: &str, n: usize, c: char) -> (parts: Vec<String>)
    ensures
        texts(parts@) == first_pieces(s@, n as nat, c),
{
    let chars = chars_of(s);
    let mut parts: Vec<String> = Vec::new();
    if n == 0 {
        assert(texts(parts@) =~= seq![]);
        return parts;
    }
    let mut from: usize = 0;
    let mut i: usize = 0;
    let mut left: usize = n;
    assert(chars@.skip(0) =~= chars@);
    assert(texts(parts@) + first_pieces(chars@.skip(0), n as nat, c) =~= first_pieces(
        s@,
        n as nat,
        c,
    ));
    while i < chars.len() && left > 1
        invariant
            chars@ == s@,
            from <= i <= chars@.len(),
            left > 0,
            forall|j: int| from <= j < i ==> chars@[j] != c,
            texts(parts@) + first_pieces(chars@.skip(from as int), left as nat, c) == first_pieces(
                s@,
                n as nat,
                c,
            ),
        decreases chars@.len() - i,
    {
        if chars[i] == c {
            let ghost rest = chars@.skip(from as int);
            let ghost before = texts(parts@);
            proof {
                lemma_index_is(rest, c, i - from);
                assert(rest.take(i - from) =~= chars@.subrange(from as int, i as int));
                assert(rest.skip(i - from + 1) =~= chars@.skip(i + 1));
            }
            let part = text_of(&chars, from, i);
            add_text(&mut parts, part.as_str());
            from = i + 1;
            left = left - 1;
            assert(texts(parts@) + first_pieces(chars@.skip(from as int), left as nat, c)
                =~= before + first_pieces(rest, (left + 1) as nat, c));
        }
        i = i + 1;
    }
    let ghost rest = chars@.skip(from as int);
    let ghost before = texts(parts@);
    proof {
        if left > 1 {
            lemma_index_is(rest, c, rest.len() as int);
        }
        assert(rest =~= chars@.subrange(from as int, chars@.len() as int));
    }
    let part = text_of(&chars, from, chars.len());
    add_text(&mut parts, part.as_str());
    assert(texts(parts@) =~= before + first_pieces(rest, left as nat, c));
    parts
}

/// A line without the carriage return at its end.
fn drop_return(line: &str) -> (t: String)
    ensures
        t@ == without_return(line@),
{
    let chars = chars_of(line);
    if chars.len() > 0 && chars[chars.len() - 1] == '\r' {
        let t = text_of(&chars, 0, chars.len() - 1);
        assert(t@ =~= line@.drop_last());
        t
    } else {
        line.to_owned()
    }
}

/// The lines of a text.
pub fn lines(s: &str) -> (list: Vec<String>)
    ensures
        texts(list@) == lines_of(s@),
{
    let parts = split(s, '\n');
    proof {
        lemma_pieces_some(s@, '\n');
    }
    let ghost all = pieces(s@, '\n');
    let ghost ended = all.drop_last().map_values(|line: Seq<char>| without_return(line));
    let last: usize = parts.len() - 1;
    let mut list: Vec<String> = Vec::new();
    for i in 0..last
        invariant
            last == parts@.len() - 1,
            texts(parts@) == all,
            ended == all.drop_last().map_values(|line: Seq<char>| without_return(line)),
            texts(list@) =~= ended.take(i as int),
    {
        assert(all[i as int] == parts@[i as int]@);
        assert(all.drop_last()[i as int] == all[i as int]);
        let line = drop_return(parts[i].as_str());
        add_text(&mut list, line.as_str());
        assert(ended.take(i + 1) =~= ended.take(i as int).push(ended[i as int]));
    }
    assert(ended.take(last as int) =~= ended);
    assert(all.last() == parts@[last as int]@);
    if !parts[last].as_str().is_empty() {
        add_text(&mut list, parts[last].as_str());
    }
    list
}

proof fn lemma_run_length(s: Seq<char>, space: bool)
    ensures
        run_length(s, space) <= s.len(),
        forall|j: int| 0 <= j < run_length(s, space) ==> is_space(s[j]) == space,
        run_length(s, space) < s.len() ==> is_space(s[run_length(s, space) as int]) != space,
    decreases s.len(),
{
    if s.len() > 0 && is_space(s[0]) == space {
        let rest = s.drop_first();
        lemma_run_length(rest, space);
        assert forall|j: int| 0 <= j < run_length(s, space) implies is_space(s[j]) == space by {
            if j > 0 {
                assert(rest[j - 1] == s[j]);
            }
        }
    }
}

/// The length of the run that starts at `from`.
fn measure_run(chars: &Vec<char>, from: usize, space: bool) -> (end: usize)
    requires
        from <= chars@.len(),
    ensures
        from <= end <= chars@.len(),
        end - from == run_length(chars@.skip(from as int), space),
{
    let mut end: usize = from;
    let ghost s = chars@.skip(from as int);
    while end < chars.len() && chars[end].is_whitespace() == space
        invariant
            from <= end <= chars@.len(),
            s == chars@.skip(from as int),
            forall|j: int| from <= j < end ==> is_space(#[trigger] chars@[j]) == space,
        decreases chars@.len() - end,
    {
        end = end + 1;
    }
    proof {
        lemma_run_length(s, space);
        let k = run_length(s, space) as int;
        if k < end - from {
            assert(chars@[from + k] == s[k]);
        } else if end - from < k {
            assert(chars@[end as int] == s[end - from]);
        }
    }
    end
}

/// The words of a text.
pub fn split_whitespace(s: &str) -> (list: Vec<String>)
    ensures
        texts(list@) == words(s@),
{
    let chars = chars_of(s);
    let mut list: Vec<String> = Vec::new();
    let mut at: usize = 0;
    assert(chars@.skip(0) =~= chars@);
    assert(texts(list@) + words(chars@.skip(0)) =~= words(s@));
    while at < chars.len()
        invariant
            chars@ == s@,
            at <= chars@.len(),
            texts(list@) + words(chars@.skip(at as int)) == words(s@),
        decreases chars@.len() - at,
    {
        let ghost before = texts(list@);
        let ghost here = chars@.skip(at as int);
        let start = measure_run(&chars, at, true);
        proof {
            lemma_run_length(here, true);
            assert(here.skip(start - at) =~= chars@.skip(start as int));
        }
        if start == chars.len() {
            assert(words(here) =~= seq![]);
            assert(texts(list@) =~= words(s@));
            return list;
        }
        let end = measure_run(&chars, start, false);
        proof {
            let rest = chars@.skip(start as int);
            lemma_run_length(rest, false);
            assert(rest[0] == here[start - at]);
            assert(rest.take(end - start) =~= chars@.subrange(start as int, end as int));
            assert(rest.skip(end - start) =~= chars@.skip(end as int));
        }
        let word = text_of(&chars, start, end);
        add_text(&mut list, word.as_str());
        assert(texts(list@) + words(chars@.skip(end as int)) =~= before + words(here));
        at = end;
    }
    assert(words(chars@.skip(at as int)) =~= seq![]);
    assert(texts(list@) =~= words(s@));
    list
}

} // verus!
