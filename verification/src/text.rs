//! Text as sequences of characters: comparing, trimming and searching.
//!
//! Every function here works on the characters of a string, so its contract
//! speaks of `Seq<char>`. The few things that only the standard library knows
//! (Unicode properties, case folding, lossy UTF-8) stand at the top.

use vstd::prelude::*;
use vstd::utf8::{decode_utf8, valid_utf8};

verus! {

/// The views of a list of strings.
pub open spec fn texts(list: Seq<String>) -> Seq<Seq<char>> {
    list.map_values(|s: String| s@)
}

/// A character of the ASCII range.
pub open spec fn is_narrow(c: char) -> bool {
    c as u32 <= 127
}

/// White space of the ASCII range: tab, line feed, vertical tab, form feed,
/// carriage return and space.
pub open spec fn is_narrow_space(c: char) -> bool {
    c == ' ' || 9 <= c as u32 <= 13
}

/// An ASCII letter or digit.
pub open spec fn is_narrow_alphanumeric(c: char) -> bool {
    ('0' <= c && c <= '9') || ('a' <= c && c <= 'z') || ('A' <= c && c <= 'Z')
}

/// The Unicode property `White_Space` beyond the ASCII range.
pub uninterp spec fn wide_space(c: char) -> bool;

/// The Unicode letters and numbers beyond the ASCII range.
pub uninterp spec fn wide_alphanumeric(c: char) -> bool;

/// The lower case of a text that leaves the ASCII range.
pub uninterp spec fn wide_lowercase(s: Seq<char>) -> Seq<char>;

/// What bytes that are not UTF-8 read as, with replacement characters.
pub uninterp spec fn repaired_utf8(bytes: Seq<u8>) -> Seq<char>;

/// White space, as Unicode defines it.
pub open spec fn is_space(c: char) -> bool {
    if is_narrow(c) {
        is_narrow_space(c)
    } else {
        wide_space(c)
    }
}

/// A letter or a number, as Unicode defines them.
pub open spec fn is_letter_or_number(c: char) -> bool {
    if is_narrow(c) {
        is_narrow_alphanumeric(c)
    } else {
        wide_alphanumeric(c)
    }
}

/// The ASCII lower case of a character: only `A` to `Z` change.
pub open spec fn narrow_lower(c: char) -> char {
    if 'A' <= c && c <= 'Z' {
        ((c as u32) + 32) as char
    } else {
        c
    }
}

/// The lower case of a text.
pub open spec fn lowercase(s: Seq<char>) -> Seq<char> {
    if forall|i: int| 0 <= i < s.len() ==> is_narrow(#[trigger] s[i]) {
        s.map_values(|c: char| narrow_lower(c))
    } else {
        wide_lowercase(s)
    }
}

/// The text that bytes stand for; what is not UTF-8 is repaired.
pub open spec fn lossy_text(bytes: Seq<u8>) -> Seq<char> {
    if valid_utf8(bytes) {
        decode_utf8(bytes)
    } else {
        repaired_utf8(bytes)
    }
}

/// `String::push` appends the character to the end of the string.
pub assume_specification[ String::push ](s: &mut String, c: char)
    ensures
        final(s)@ == old(s)@.push(c),
;

/// `char::is_whitespace` tells the characters with the property `White_Space`:
/// in the ASCII range the six that [`is_narrow_space`] names, beyond it those
/// that [`wide_space`] names.
pub assume_specification[ char::is_whitespace ](c: char) -> (b: bool)
    ensures
        is_narrow(c) ==> b == is_narrow_space(c),
        !is_narrow(c) ==> b == wide_space(c),
;

/// `char::is_alphanumeric` tells letters and numbers: in the ASCII range the
/// digits and the letters of both cases, beyond it what [`wide_alphanumeric`]
/// names.
pub assume_specification[ char::is_alphanumeric ](c: char) -> (b: bool)
    ensures
        is_narrow(c) ==> b == is_narrow_alphanumeric(c),
        !is_narrow(c) ==> b == wide_alphanumeric(c),
;

/// `str::to_lowercase` gives the lower case of a text: for an ASCII text `A` to
/// `Z` become `a` to `z` and nothing else changes; any other text becomes what
/// [`wide_lowercase`] names.
pub assume_specification[ str::to_lowercase ](s: &str) -> (lower: String)
    ensures
        (forall|i: int| 0 <= i < s@.len() ==> is_narrow(#[trigger] s@[i])) ==> lower@
            == s@.map_values(|c: char| narrow_lower(c)),
        !(forall|i: int| 0 <= i < s@.len() ==> is_narrow(#[trigger] s@[i])) ==> lower@
            == wide_lowercase(s@),
;

/// `String::from_utf8_lossy` decodes bytes that are UTF-8 and repairs others, in
/// the way that [`repaired_utf8`] names.
#[verifier::external_body]
pub(crate) fn lossy(bytes: &[u8]) -> (text: String)
    ensures
        valid_utf8(bytes@) ==> text@ == decode_utf8(bytes@),
        !valid_utf8(bytes@) ==> text@ == repaired_utf8(bytes@),
{
    String::from_utf8_lossy(bytes).to_string()
}

/// The characters of a text.
pub fn chars_of(s: &str) -> (chars: Vec<char>)
    ensures
        chars@ == s@,
{
    let mut chars: Vec<char> = Vec::new();
    for c in it: s.chars()
        invariant
            chars@ == it.seq().take(it.index() as int),
            it.seq() == s@,
    {
        chars.push(c);
    }
    chars
}

/// The text of the characters from `from` up to `to`.
pub fn text_of(chars: &Vec<char>, from: usize, to: usize) -> (s: String)
    requires
        from <= to <= chars@.len(),
    ensures
        s@ == chars@.subrange(from as int, to as int),
{
    let mut s = String::new();
    for i in from..to
        invariant
            from <= i <= to <= chars@.len(),
            s@ == chars@.subrange(from as int, i as int),
    {
        s.push(chars[i]);
    }
    s
}

/// Whether two texts are equal.
pub fn same(a: &str, b: &str) -> (r: bool)
    ensures
        r == (a@ == b@),
{
    a.to_owned() == b.to_owned()
}

/// Two texts joined.
pub fn join2(a: &str, b: &str) -> (s: String)
    ensures
        s@ == a@ + b@,
{
    let mut s = a.to_owned();
    s.append(b);
    s
}

/// Three texts joined.
pub fn join3(a: &str, b: &str, c: &str) -> (s: String)
    ensures
        s@ == a@ + b@ + c@,
{
    let mut s = join2(a, b);
    s.append(c);
    s
}

/// Adds a text to a list of strings.
pub fn add_text(list: &mut Vec<String>, s: &str)
    ensures
        texts(final(list)@) == texts(old(list)@).push(s@),
        final(list)@.len() == old(list)@.len() + 1,
{
    let ghost before = list@;
    list.push(s.to_owned());
    assert(texts(list@) =~= texts(before).push(s@));
}

/// Whether a list of strings holds a text.
pub fn holds_text(list: &Vec<String>, s: &str) -> (r: bool)
    ensures
        r == texts(list@).contains(s@),
{
    for i in 0..list.len()
        invariant
            forall|j: int| 0 <= j < i ==> texts(list@)[j] != s@,
    {
        if same(list[i].as_str(), s) {
            assert(texts(list@)[i as int] == s@);
            return true;
        }
    }
    false
}

/// A list of strings, copied.
pub fn copy_texts(list: &Vec<String>) -> (copy: Vec<String>)
    ensures
        texts(copy@) == texts(list@),
        copy@.len() == list@.len(),
{
    let mut copy: Vec<String> = Vec::new();
    for i in 0..list.len()
        invariant
            copy@.len() == i,
            texts(copy@) =~= texts(list@).take(i as int),
    {
        add_text(&mut copy, list[i].as_str());
    }
    copy
}

/// Equality but for the case of ASCII letters.
pub open spec fn alike(a: Seq<char>, b: Seq<char>) -> bool {
    &&& a.len() == b.len()
    &&& forall|i: int| 0 <= i < a.len() ==> narrow_lower(#[trigger] a[i]) == narrow_lower(b[i])
}

fn lower_of(c: char) -> (l: char)
    ensures
        l == narrow_lower(c),
{
    if 'A' <= c && c <= 'Z' {
        let code: u32 = c as u32;
        let byte: u8 = (code + 32) as u8;
        byte as char
    } else {
        c
    }
}

/// Whether two texts are equal but for the case of ASCII letters.
pub fn eq_ignore_ascii_case(a: &str, b: &str) -> (r: bool)
    ensures
        r == alike(a@, b@),
{
    let left = chars_of(a);
    let right = chars_of(b);
    if left.len() != right.len() {
        return false;
    }
    for i in 0..left.len()
        invariant
            left@.len() == right@.len(),
            left@ == a@,
            right@ == b@,
            forall|j: int|
                0 <= j < i ==> narrow_lower(#[trigger] left@[j]) == narrow_lower(right@[j]),
    {
        if lower_of(left[i]) != lower_of(right[i]) {
            assert(narrow_lower(a@[i as int]) != narrow_lower(b@[i as int]));
            return false;
        }
    }
    true
}

/// A text without the white space at its start.
pub open spec fn trimmed_front(s: Seq<char>) -> Seq<char>
    decreases s.len(),
{
    if s.len() > 0 && is_space(s[0]) {
        trimmed_front(s.drop_first())
    } else {
        s
    }
}

/// A text without the white space at its end.
pub open spec fn trimmed_back(s: Seq<char>) -> Seq<char>
    decreases s.len(),
{
    if s.len() > 0 && is_space(s.last()) {
        trimmed_back(s.drop_last())
    } else {
        s
    }
}

/// A text without the white space at both ends.
pub open spec fn trimmed(s: Seq<char>) -> Seq<char> {
    trimmed_back(trimmed_front(s))
}

/// A text without the white space at both ends.
pub fn trim(s: &str) -> (t: String)
    ensures
        t@ == trimmed(s@),
{
    let chars = chars_of(s);
    let mut from: usize = 0;
    assert(chars@.skip(0) =~= chars@);
    while from < chars.len() && chars[from].is_whitespace()
        invariant
            from <= chars@.len(),
            chars@ == s@,
            trimmed_front(s@) == trimmed_front(chars@.skip(from as int)),
        decreases chars@.len() - from,
    {
        assert(chars@.skip(from as int).drop_first() =~= chars@.skip(from + 1));
        from = from + 1;
    }
    let ghost front = chars@.skip(from as int);
    assert(trimmed_front(s@) == front);
    let mut to: usize = chars.len();
    assert(chars@.subrange(from as int, to as int) =~= front);
    while from < to && chars[to - 1].is_whitespace()
        invariant
            from <= to <= chars@.len(),
            trimmed_back(front) == trimmed_back(chars@.subrange(from as int, to as int)),
        decreases to,
    {
        assert(chars@.subrange(from as int, to as int).drop_last() =~= chars@.subrange(
            from as int,
            to - 1,
        ));
        to = to - 1;
    }
    assert(from < to ==> chars@.subrange(from as int, to as int).last() == chars@[to - 1]);
    text_of(&chars, from, to)
}

/// A text without the run of `c` at its end.
pub open spec fn trimmed_end(s: Seq<char>, c: char) -> Seq<char>
    decreases s.len(),
{
    if s.len() > 0 && s.last() == c {
        trimmed_end(s.drop_last(), c)
    } else {
        s
    }
}

/// A text without the run of `c` at its end.
pub fn trim_end_matches(s: &str, c: char) -> (t: String)
    ensures
        t@ == trimmed_end(s@, c),
{
    let chars = chars_of(s);
    let mut to: usize = chars.len();
    assert(chars@.subrange(0, to as int) =~= s@);
    while 0 < to && chars[to - 1] == c
        invariant
            to <= chars@.len(),
            trimmed_end(s@, c) == trimmed_end(chars@.subrange(0, to as int), c),
        decreases to,
    {
        assert(chars@.subrange(0, to as int).drop_last() =~= chars@.subrange(0, to - 1));
        to = to - 1;
    }
    assert(0 < to ==> chars@.subrange(0, to as int).last() == chars@[to - 1]);
    text_of(&chars, 0, to)
}

/// `part` stands in `s` at position `i`.
pub open spec fn stands_at(s: Seq<char>, part: Seq<char>, i: int) -> bool {
    0 <= i && i + part.len() <= s.len() && s.subrange(i, i + part.len()) == part
}

/// `part` stands somewhere in `s`.
pub open spec fn occurs(s: Seq<char>, part: Seq<char>) -> bool {
    exists|i: int| stands_at(s, part, i)
}

/// `s` starts with `part`.
pub open spec fn starts(s: Seq<char>, part: Seq<char>) -> bool {
    stands_at(s, part, 0)
}

/// `s` ends with `part`.
pub open spec fn ends(s: Seq<char>, part: Seq<char>) -> bool {
    stands_at(s, part, s.len() - part.len())
}

/// The first position, from `i` on, at which `part` stands in `s`.
pub open spec fn first_from(s: Seq<char>, part: Seq<char>, i: nat) -> Option<nat>
    decreases s.len() - i,
{
    if i + part.len() > s.len() {
        None
    } else if stands_at(s, part, i as int) {
        Some(i)
    } else if i < s.len() {
        first_from(s, part, i + 1)
    } else {
        None
    }
}

/// The first position at which `part` stands in `s`.
pub open spec fn first_at(s: Seq<char>, part: Seq<char>) -> Option<nat> {
    first_from(s, part, 0)
}

/// [`first_from`] gives the least position from `i` on, if there is one.
pub proof fn lemma_first_from(s: Seq<char>, part: Seq<char>, i: nat)
    ensures
        match first_from(s, part, i) {
            Some(k) => i <= k && stands_at(s, part, k as int) && (forall|j: int|
                i <= j < k ==> !stands_at(s, part, j)),
            None => forall|j: int| i <= j ==> !stands_at(s, part, j),
        },
    decreases s.len() - i,
{
    if i + part.len() <= s.len() && !stands_at(s, part, i as int) && i < s.len() {
        lemma_first_from(s, part, i + 1);
    }
}

/// Whether `part` stands in `chars` at position `i`.
fn check_at(chars: &Vec<char>, part: &Vec<char>, i: usize) -> (r: bool)
    ensures
        r == stands_at(chars@, part@, i as int),
{
    let len: usize = chars.len();
    if part.len() > len || i > len - part.len() {
        return false;
    }
    for j in 0..part.len()
        invariant
            len == chars@.len(),
            i + part@.len() <= len,
            forall|k: int| 0 <= k < j ==> chars@[i + k] == part@[k],
    {
        if chars[i + j] != part[j] {
            assert(chars@.subrange(i as int, i + part@.len())[j as int] != part@[j as int]);
            return false;
        }
    }
    assert(chars@.subrange(i as int, i + part@.len()) =~= part@);
    true
}

/// The first position, counted in characters, at which `part` stands.
pub fn find(s: &str, part: &str) -> (at: Option<usize>)
    ensures
        match at {
            Some(i) => first_at(s@, part@) == Some(i as nat),
            None => first_at(s@, part@) is None,
        },
{
    let chars = chars_of(s);
    let wanted = chars_of(part);
    let mut i: usize = 0;
    while wanted.len() <= chars.len() && i <= chars.len() - wanted.len()
        invariant
            chars@ == s@,
            wanted@ == part@,
            first_at(s@, part@) == first_from(s@, part@, i as nat),
            i <= chars@.len() + 1,
        decreases chars@.len() + 1 - i,
    {
        if check_at(&chars, &wanted, i) {
            return Some(i);
        }
        if i == chars.len() {
            return None;
        }
        i = i + 1;
    }
    None
}

/// Whether `part` stands somewhere in `s`.
pub fn contains(s: &str, part: &str) -> (r: bool)
    ensures
        r == occurs(s@, part@),
{
    proof {
        lemma_first_from(s@, part@, 0);
    }
    match find(s, part) {
        Some(_) => true,
        None => false,
    }
}

/// Whether `s` starts with `part`.
pub fn starts_with(s: &str, part: &str) -> (r: bool)
    ensures
        r == starts(s@, part@),
{
    check_at(&chars_of(s), &chars_of(part), 0)
}

/// Whether `s` ends with `part`.
pub fn ends_with(s: &str, part: &str) -> (r: bool)
    ensures
        r == ends(s@, part@),
{
    let chars = chars_of(s);
    let wanted = chars_of(part);
    if wanted.len() > chars.len() {
        return false;
    }
    check_at(&chars, &wanted, chars.len() - wanted.len())
}

/// `s` without `part` at its start, or `s` itself.
pub open spec fn without_prefix(s: Seq<char>, part: Seq<char>) -> Seq<char> {
    if starts(s, part) {
        s.skip(part.len() as int)
    } else {
        s
    }
}

/// `s` without `part` at its end, or `s` itself.
pub open spec fn without_suffix(s: Seq<char>, part: Seq<char>) -> Seq<char> {
    if ends(s, part) {
        s.take(s.len() - part.len())
    } else {
        s
    }
}

/// `s` without `part` at its start, or `s` itself.
pub fn strip_prefix(s: &str, part: &str) -> (t: String)
    ensures
        t@ == without_prefix(s@, part@),
{
    let chars = chars_of(s);
    let wanted = chars_of(part);
    if check_at(&chars, &wanted, 0) {
        text_of(&chars, wanted.len(), chars.len())
    } else {
        s.to_owned()
    }
}

/// `s` without `part` at its end, or `s` itself.
pub fn strip_suffix(s: &str, part: &str) -> (t: String)
    ensures
        t@ == without_suffix(s@, part@),
{
    let chars = chars_of(s);
    let wanted = chars_of(part);
    if wanted.len() <= chars.len() && check_at(&chars, &wanted, chars.len() - wanted.len()) {
        text_of(&chars, 0, chars.len() - wanted.len())
    } else {
        s.to_owned()
    }
}

} // verus!
