//! The calls into base64, chrono, serde_json and uuid.
//!
//! Each wrapper makes one outside call; its contract says what the library
//! relies on and is not proved.

use base64::engine::general_purpose::STANDARD;
use base64::Engine;
use vstd::prelude::*;

use crate::number::{digit_value, is_digit};

verus! {

/// A failed base64 decoding, as the base64 crate reports it.
#[verifier::external_type_specification]
#[verifier::external_body]
pub struct ExDecodeError(base64::DecodeError);

/// The base64 text of bytes: standard alphabet, padded.
pub uninterp spec fn base64_text(bytes: Seq<u8>) -> Seq<char>;

/// The bytes that a base64 text stands for, if it is one.
pub uninterp spec fn base64_bytes(text: Seq<char>) -> Option<Seq<u8>>;

/// The lower-case hexadecimal digit of a number below 16.
pub open spec fn hex_digit(n: nat) -> char {
    if n < 10 {
        (n + '0' as nat) as char
    } else {
        (n - 10 + 'a' as nat) as char
    }
}

/// How a character stands in a JSON string literal: quotes, backslashes and
/// control characters are escaped, all else stands for itself.
pub open spec fn json_char(c: char) -> Seq<char> {
    if c == '"' {
        seq!['\\', '"']
    } else if c == '\\' {
        seq!['\\', '\\']
    } else if c == '\u{8}' {
        seq!['\\', 'b']
    } else if c == '\t' {
        seq!['\\', 't']
    } else if c == '\n' {
        seq!['\\', 'n']
    } else if c == '\u{c}' {
        seq!['\\', 'f']
    } else if c == '\r' {
        seq!['\\', 'r']
    } else if (c as nat) < 32 {
        seq!['\\', 'u', '0', '0', hex_digit(c as nat / 16), hex_digit(c as nat % 16)]
    } else {
        seq![c]
    }
}

/// The characters of a JSON string literal, between its quotes.
pub open spec fn json_chars(text: Seq<char>) -> Seq<char>
    decreases text.len(),
{
    if text.len() == 0 {
        seq![]
    } else {
        json_chars(text.drop_last()) + json_char(text.last())
    }
}

/// The JSON string literal of a text, quotes and escapes included.
pub open spec fn json_literal(text: Seq<char>) -> Seq<char> {
    seq!['"'] + json_chars(text) + seq!['"']
}

/// The base64 text of so many bytes fits in memory.
pub open spec fn encodable(len: nat) -> bool {
    4 * ((len + 2) / 3) <= isize::MAX
}

/// A lower-case hexadecimal digit.
pub open spec fn is_lower_hex(c: char) -> bool {
    ('0' <= c && c <= '9') || ('a' <= c && c <= 'f')
}

/// A random UUID in its hyphenated form: groups of 8, 4, 4, 4 and 12
/// hexadecimal digits, with the digits for version 4 and its variant.
pub open spec fn is_uuid(s: Seq<char>) -> bool {
    &&& s.len() == 36
    &&& forall|i: int|
        0 <= i < 36 ==> if i == 8 || i == 13 || i == 18 || i == 23 {
            #[trigger] s[i] == '-'
        } else {
            is_lower_hex(s[i])
        }
    &&& s[14] == '4'
    &&& s[19] == '8' || s[19] == '9' || s[19] == 'a' || s[19] == 'b'
}

/// A random UUID in its simple form: 32 hexadecimal digits, with those for
/// version 4 and its variant.
pub open spec fn is_simple_uuid(s: Seq<char>) -> bool {
    &&& s.len() == 32
    &&& forall|i: int| 0 <= i < 32 ==> is_lower_hex(#[trigger] s[i])
    &&& s[12] == '4'
    &&& s[16] == '8' || s[16] == '9' || s[16] == 'a' || s[16] == 'b'
}

/// Two digits stand at a place, for a number in these bounds.
pub open spec fn two_digits(s: Seq<char>, i: int, low: nat, high: nat) -> bool {
    &&& is_digit(s[i])
    &&& is_digit(s[i + 1])
    &&& low <= 10 * digit_value(s[i]) + digit_value(s[i + 1]) <= high
}

/// A year: four digits, or a plus sign and five or six digits.
pub open spec fn is_year(s: Seq<char>) -> bool {
    ||| s.len() == 4 && forall|i: int| 0 <= i < 4 ==> is_digit(#[trigger] s[i])
    ||| 6 <= s.len() <= 7 && s[0] == '+' && forall|i: int|
        1 <= i < s.len() ==> is_digit(#[trigger] s[i])
}

/// A fraction of a second: nothing, or a dot and three, six or nine digits, of
/// which the last three are not all zero.
pub open spec fn is_fraction(s: Seq<char>) -> bool {
    ||| s.len() == 0
    ||| {
        let n = s.len() as int;
        &&& n == 4 || n == 7 || n == 10
        &&& s[0] == '.'
        &&& forall|i: int| 1 <= i < n ==> is_digit(#[trigger] s[i])
        &&& s[n - 3] != '0' || s[n - 2] != '0' || s[n - 1] != '0'
    }
}

/// A date and a time of day, as in `-05-06T07:08:09`: month, day, hour, minute
/// and second.
pub open spec fn is_day_and_time(s: Seq<char>) -> bool {
    &&& s.len() == 15
    &&& s[0] == '-'
    &&& two_digits(s, 1, 1, 12)
    &&& s[3] == '-'
    &&& two_digits(s, 4, 1, 31)
    &&& s[6] == 'T'
    &&& two_digits(s, 7, 0, 23)
    &&& s[9] == ':'
    &&& two_digits(s, 10, 0, 59)
    &&& s[12] == ':'
    &&& two_digits(s, 13, 0, 59)
}

/// A moment of Coordinated Universal Time, written as RFC 3339 has it: year, day
/// and time of day, the fraction of the second, and the offset `+00:00`.
pub open spec fn is_utc_time(s: Seq<char>) -> bool {
    exists|year: Seq<char>, time: Seq<char>, fraction: Seq<char>|
        is_year(year) && is_day_and_time(time) && is_fraction(fraction) && s
            == #[trigger] utc_text(year, time, fraction)
}

/// The text of a moment of Coordinated Universal Time, from its parts.
pub open spec fn utc_text(year: Seq<char>, time: Seq<char>, fraction: Seq<char>) -> Seq<char> {
    year + time + fraction + "+00:00"@
}

/// `Engine::encode` of base64's `STANDARD` engine. Its result is
/// [`base64_text`] of the bytes, and [`base64_bytes`] leads back from it. It
/// panics where the text would not fit in memory.
#[verifier::external_body]
pub(crate) fn encode_base64(bytes: &[u8]) -> (text: String)
    requires
        encodable(bytes@.len()),
    ensures
        text@ == base64_text(bytes@),
        base64_bytes(text@) == Some(bytes@),
{
    STANDARD.encode(bytes)
}

/// `Engine::decode` of base64's `STANDARD` engine. Its result is
/// [`base64_bytes`] of the text, an error where that is `None`. Only the
/// canonical text of some bytes is accepted, so [`base64_text`] leads back.
#[verifier::external_body]
pub(crate) fn decode_base64(text: &str) -> (bytes: Result<Vec<u8>, base64::DecodeError>)
    ensures
        match bytes {
            Ok(b) => base64_bytes(text@) == Some(b@) && base64_text(b@) == text@,
            Err(_) => base64_bytes(text@) is None,
        },
{
    STANDARD.decode(text.as_bytes())
}

/// The text of a serde_json string value, as its `Display` writes it: the string
/// literal that [`json_literal`] spells out.
#[verifier::external_body]
pub(crate) fn quote_json(text: &str) -> (literal: String)
    ensures
        literal@ == json_literal(text@),
{
    serde_json::Value::from(text).to_string()
}

/// `chrono::Utc::now` as `DateTime::to_rfc3339` writes it, in the form that
/// [`is_utc_time`] spells out. Which moment it is, nothing says.
#[verifier::external_body]
pub(crate) fn read_clock() -> (time: String)
    ensures
        is_utc_time(time@),
{
    chrono::Utc::now().to_rfc3339()
}

/// `uuid::Uuid::new_v4` in its hyphenated form. Which one it is, nothing says.
#[verifier::external_body]
pub(crate) fn draw_uuid() -> (id: String)
    ensures
        is_uuid(id@),
{
    uuid::Uuid::new_v4().to_string()
}

/// `uuid::Uuid::new_v4` in its simple form, as `Uuid::simple` gives it. Which one
/// it is, nothing says.
#[verifier::external_body]
pub(crate) fn draw_simple_uuid() -> (id: String)
    ensures
        is_simple_uuid(id@),
{
    uuid::Uuid::new_v4().simple().to_string()
}

} // verus!
