//! Decimal numbers, read and written.

use vstd::prelude::*;

use crate::text::chars_of;

verus! {

/// A decimal digit.
pub open spec fn is_digit(c: char) -> bool {
    '0' <= c && c <= '9'
}

/// The value of a decimal digit.
pub open spec fn digit_value(c: char) -> nat {
    (c as u32 - '0' as u32) as nat
}

/// A text of one or more decimal digits.
pub open spec fn is_decimal(s: Seq<char>) -> bool {
    s.len() > 0 && forall|i: int| 0 <= i < s.len() ==> is_digit(#[trigger] s[i])
}

/// The number that decimal digits stand for.
pub open spec fn decimal_value(s: Seq<char>) -> nat
    decreases s.len(),
{
    if s.len() == 0 {
        0
    } else {
        decimal_value(s.drop_last()) * 10 + digit_value(s.last())
    }
}

/// The number that a text stands for: decimal digits, after a `+` or, where
/// `signed`, a `-`.
pub open spec fn read_number(s: Seq<char>, signed: bool) -> Option<int> {
    if s.len() > 0 && (s[0] == '+' || (signed && s[0] == '-')) {
        let digits = s.drop_first();
        if !is_decimal(digits) {
            None
        } else if s[0] == '-' {
            Some(-(decimal_value(digits) as int))
        } else {
            Some(decimal_value(digits) as int)
        }
    } else if is_decimal(s) {
        Some(decimal_value(s) as int)
    } else {
        None
    }
}

/// The number that a text stands for, if it lies between `low` and `high`.
pub open spec fn read_between(s: Seq<char>, signed: bool, low: int, high: int) -> Option<int> {
    match read_number(s, signed) {
        Some(n) if low <= n <= high => Some(n),
        _ => None,
    }
}

/// The decimal digits of a number, without leading zeros.
pub open spec fn decimal(n: nat) -> Seq<char>
    decreases n,
{
    if n < 10 {
        seq![(n + '0' as u32) as char]
    } else {
        decimal(n / 10).push(((n % 10) + '0' as u32) as char)
    }
}

proof fn lemma_value_grows(s: Seq<char>, i: int)
    requires
        0 <= i <= s.len(),
    ensures
        decimal_value(s.take(i)) <= decimal_value(s),
    decreases s.len() - i,
{
    if i < s.len() {
        assert(s.take(i + 1).drop_last() =~= s.take(i));
        lemma_value_grows(s, i + 1);
    } else {
        assert(s.take(i) =~= s);
    }
}

/// What [`decimal`] writes reads as the same number.
pub proof fn decimal_reads_back(n: nat)
    ensures
        is_decimal(decimal(n)),
        decimal_value(decimal(n)) == n,
        read_number(decimal(n), false) == Some(n as int),
        read_number(decimal(n), true) == Some(n as int),
    decreases n,
{
    let text = decimal(n);
    if n >= 10 {
        decimal_reads_back(n / 10);
        assert(text.drop_last() =~= decimal(n / 10));
        assert(text[0] == decimal(n / 10)[0]);
    } else {
        assert(text.drop_last() =~= seq![]);
        assert(decimal_value(text.drop_last()) == 0);
    }
    assert(is_digit(text[0]));
}

/// The number that the digits from `from` on stand for, if it fits.
fn read_digits(chars: &Vec<char>, from: usize) -> (n: Option<u64>)
    requires
        from <= chars@.len(),
    ensures
        match n {
            Some(v) => is_decimal(chars@.skip(from as int)) && decimal_value(
                chars@.skip(from as int),
            ) == v,
            None => !is_decimal(chars@.skip(from as int)) || decimal_value(
                chars@.skip(from as int),
            ) > u64::MAX,
        },
{
    let ghost s = chars@.skip(from as int);
    if from == chars.len() {
        return None;
    }
    let mut value: u64 = 0;
    assert(s.take(0) =~= seq![]);
    for i in from..chars.len()
        invariant
            from <= i <= chars@.len(),
            s == chars@.skip(from as int),
            value == decimal_value(s.take(i - from)),
            forall|j: int| 0 <= j < i - from ==> is_digit(#[trigger] s[j]),
    {
        let c = chars[i];
        assert(s[i - from] == c);
        if !('0' <= c && c <= '9') {
            return None;
        }
        let digit: u64 = (c as u32 - '0' as u32) as u64;
        proof {
            assert(s.take(i - from + 1).drop_last() =~= s.take(i - from));
            lemma_value_grows(s, i - from + 1);
        }
        if value > (u64::MAX - digit) / 10 {
            return None;
        }
        value = value * 10 + digit;
    }
    assert(s.take(chars@.len() - from) =~= s);
    Some(value)
}

/// A text read as an unsigned number up to `high`.
fn parse_upto(s: &str, high: u64) -> (n: Option<u64>)
    ensures
        match n {
            Some(v) => read_between(s@, false, 0, high as int) == Some(v as int),
            None => read_between(s@, false, 0, high as int) is None,
        },
{
    let chars = chars_of(s);
    assert(chars@.skip(0) =~= s@);
    let from: usize = if chars.len() > 0 && chars[0] == '+' {
        1
    } else {
        0
    };
    assert(from == 1 ==> chars@.skip(1) =~= s@.drop_first());
    match read_digits(&chars, from) {
        Some(v) => if v <= high {
            Some(v)
        } else {
            None
        },
        None => None,
    }
}

/// A text read as a `u64`.
pub fn parse_u64(s: &str) -> (n: Option<u64>)
    ensures
        match n {
            Some(v) => read_between(s@, false, 0, u64::MAX as int) == Some(v as int),
            None => read_between(s@, false, 0, u64::MAX as int) is None,
        },
{
    parse_upto(s, u64::MAX)
}

/// A text read as a `u32`.
pub fn parse_u32(s: &str) -> (n: Option<u32>)
    ensures
        match n {
            Some(v) => read_between(s@, false, 0, u32::MAX as int) == Some(v as int),
            None => read_between(s@, false, 0, u32::MAX as int) is None,
        },
{
    match parse_upto(s, u32::MAX as u64) {
        Some(v) => Some(v as u32),
        None => None,
    }
}

/// A text read as a `u16`.
pub fn parse_u16(s: &str) -> (n: Option<u16>)
    ensures
        match n {
            Some(v) => read_between(s@, false, 0, u16::MAX as int) == Some(v as int),
            None => read_between(s@, false, 0, u16::MAX as int) is None,
        },
{
    match parse_upto(s, u16::MAX as u64) {
        Some(v) => Some(v as u16),
        None => None,
    }
}

/// A text read as an `i64`.
pub fn parse_i64(s: &str) -> (n: Option<i64>)
    ensures
        match n {
            Some(v) => read_between(s@, true, i64::MIN as int, i64::MAX as int) == Some(v as int),
            None => read_between(s@, true, i64::MIN as int, i64::MAX as int) is None,
        },
{
    let chars = chars_of(s);
    assert(chars@.skip(0) =~= s@);
    assert(s@.len() > 0 ==> chars@.skip(1) =~= s@.drop_first());
    if chars.len() > 0 && chars[0] == '-' {
        match read_digits(&chars, 1) {
            Some(v) => if v <= 0x7fff_ffff_ffff_ffff {
                Some(-(v as i64))
            } else if v == 0x8000_0000_0000_0000 {
                Some(i64::MIN)
            } else {
                None
            },
            None => None,
        }
    } else {
        let from: usize = if chars.len() > 0 && chars[0] == '+' {
            1
        } else {
            0
        };
        match read_digits(&chars, from) {
            Some(v) => if v <= 0x7fff_ffff_ffff_ffff {
                Some(v as i64)
            } else {
                None
            },
            None => None,
        }
    }
}

/// A number in decimal digits.
pub fn to_decimal(n: u64) -> (s: String)
    ensures
        s@ == decimal(n as nat),
    decreases n,
{
    let digit: u8 = (n % 10) as u8;
    let c: char = (digit + 48) as char;
    let mut s = if n < 10 {
        String::new()
    } else {
        to_decimal(n / 10)
    };
    s.push(c);
    assert(n < 10 ==> s@ =~= decimal(n as nat));
    s
}

} // verus!
