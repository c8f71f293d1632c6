//! Trusted items: the calls into std and into outside crates that Verus
//! cannot read, each with the contract that its documentation or source shows.
use vstd::prelude::*;

use crate::text::join;

verus! {

/// `String::push`: appends the character `c` to `s`.
#[verifier::external_body]
pub(crate) fn push_char(s: &mut String, c: char)
    ensures
        final(s)@ == old(s)@.push(c),
{
    s.push(c);
}

} // verus!

verus! {

/// A lower-case hexadecimal digit.
pub open spec fn is_lower_hex(c: char) -> bool {
    ('0' <= c && c <= '9') || ('a' <= c && c <= 'f')
}

/// The text of a random (version 4, RFC 4122 variant) UUID in hyphenated
/// lower-case form: 36 characters, `'-'` at 8, 13, 18 and 23, the version
/// digit `'4'` at 14, a variant digit among `8 9 a b` at 19, and lower-case
/// hexadecimal digits elsewhere.
pub open spec fn is_uuid_v4_text(s: Seq<char>) -> bool {
    &&& s.len() == 36
    &&& s[8] == '-' && s[13] == '-' && s[18] == '-' && s[23] == '-'
    &&& s[14] == '4'
    &&& s[19] == '8' || s[19] == '9' || s[19] == 'a' || s[19] == 'b'
    &&& forall|i: int|
        0 <= i < 36 && i != 8 && i != 13 && i != 18 && i != 23 ==> is_lower_hex(#[trigger] s[i])
}

/// `uuid::Uuid::new_v4` followed by `to_string`: a fresh random UUID as text.
/// The `Display` impl of `Uuid` writes the hyphenated lower-case form, and
/// `new_v4` sets the version bits to 4 and the variant bits to `10`; the
/// random bits are not stated. It panics only where the operating system's
/// random source fails, which no argument can rule out.
#[verifier::external_body]
pub(crate) fn new_uuid_v4_text() -> (s: String)
    ensures
        is_uuid_v4_text(s@),
{
    uuid::Uuid::new_v4().to_string()
}

/// A decimal digit.
pub open spec fn is_digit(c: char) -> bool {
    '0' <= c && c <= '9'
}

/// Every character of `s` is a decimal digit.
pub open spec fn all_digits(s: Seq<char>) -> bool {
    forall|i: int| 0 <= i < s.len() ==> is_digit(#[trigger] s[i])
}

/// What RFC 3339 text of a UTC time holds after its year:
/// `-MM-DDTHH:MM:SS`, then nothing or `.` with 3, 6 or 9 digits, then `+00:00`.
pub open spec fn is_utc_time_after_year(r: Seq<char>) -> bool {
    let f = r.len() - 21;
    &&& f == 0 || f == 4 || f == 7 || f == 10
    &&& r[0] == '-' && is_digit(r[1]) && is_digit(r[2])
    &&& r[3] == '-' && is_digit(r[4]) && is_digit(r[5])
    &&& r[6] == 'T' && is_digit(r[7]) && is_digit(r[8])
    &&& r[9] == ':' && is_digit(r[10]) && is_digit(r[11])
    &&& r[12] == ':' && is_digit(r[13]) && is_digit(r[14])
    &&& f > 0 ==> r[15] == '.' && all_digits(r.subrange(16, 15 + f))
    &&& r.skip(r.len() - 6) == "+00:00"@
}

/// RFC 3339 text of a UTC time as chrono writes it: a year of four digits,
/// or, past the year 9999, `+` and five or more digits; then the rest as
/// `is_utc_time_after_year` says.
pub open spec fn is_rfc3339_utc(s: Seq<char>) -> bool {
    ||| s.len() >= 4 && all_digits(s.take(4)) && is_utc_time_after_year(s.skip(4))
    ||| exists|k: int|
        6 <= k <= s.len() && s[0] == '+' && all_digits(#[trigger] s.subrange(1, k))
            && is_utc_time_after_year(s.skip(k))
}

/// `chrono::Utc::now` followed by `DateTime::to_rfc3339`: the current time as
/// RFC 3339 text. `write_rfc3339` writes the year as four digits (as `+` and
/// at least five digits past 9999), month, day, hour, minute and second as two
/// digits each, the nanoseconds as nothing, 3, 6 or 9 digits after a `.`
/// (whichever is shortest without losing any), and, for `Utc`, the offset as
/// `+00:00`. Which date and time it is depends on the clock and is not
/// stated. `Utc::now` panics where the system clock reads a time before
/// 1970, which no argument can rule out.
#[verifier::external_body]
pub(crate) fn now_rfc3339() -> (s: String)
    ensures
        is_rfc3339_utc(s@),
{
    chrono::Utc::now().to_rfc3339()
}

/// The views of a sequence of strings.
pub open spec fn string_views(v: Seq<String>) -> Seq<Seq<char>> {
    v.map_values(|s: String| s@)
}

/// The hexadecimal digit of `n`, lower case.
pub open spec fn hex_digit(n: int) -> char {
    seq!['0', '1', '2', '3', '4', '5', '6', '7', '8', '9', 'a', 'b', 'c', 'd', 'e', 'f'][n]
}

/// How serde_json writes the character `c` inside a JSON string: `"` and `\`
/// behind a backslash; backspace, tab, line feed, form feed and carriage
/// return as `\b`, `\t`, `\n`, `\f`, `\r`; any other character below
/// U+0020 as `\u00` and two lower-case hexadecimal digits; every other
/// character as itself.
pub open spec fn json_char(c: char) -> Seq<char> {
    let n = c as u32;
    if c == '"' {
        seq!['\\', '"']
    } else if c == '\\' {
        seq!['\\', '\\']
    } else if n == 0x08 {
        seq!['\\', 'b']
    } else if n == 0x09 {
        seq!['\\', 't']
    } else if n == 0x0A {
        seq!['\\', 'n']
    } else if n == 0x0C {
        seq!['\\', 'f']
    } else if n == 0x0D {
        seq!['\\', 'r']
    } else if n < 0x20 {
        seq!['\\', 'u', '0', '0', hex_digit(n as int / 16), hex_digit(n as int % 16)]
    } else {
        seq![c]
    }
}

/// The characters of `s`, each as `json_char` writes it.
pub open spec fn json_escaped(s: Seq<char>) -> Seq<char>
    decreases s.len(),
{
    if s.len() == 0 {
        Seq::<char>::empty()
    } else {
        json_escaped(s.drop_last()) + json_char(s.last())
    }
}

/// A JSON string: `s` escaped, between double quotes.
pub open spec fn json_string(s: Seq<char>) -> Seq<char> {
    seq!['"'] + json_escaped(s) + seq!['"']
}

/// Each item as a JSON string, in order.
pub open spec fn json_strings(items: Seq<Seq<char>>) -> Seq<Seq<char>>
    decreases items.len(),
{
    if items.len() == 0 {
        Seq::<Seq<char>>::empty()
    } else {
        json_strings(items.drop_last()).push(json_string(items.last()))
    }
}

/// The compact JSON text of a list of strings, as `serde_json::to_string`
/// writes it: `[`, the strings separated by `,` with no spaces, `]`.
pub open spec fn json_string_array(items: Seq<Seq<char>>) -> Seq<char> {
    seq!['['] + join(json_strings(items), seq![',']) + seq![']']
}

/// What `serde_json::from_str::<Vec<String>>` reads from `text`: `None` where
/// it fails, else the list of strings.
pub uninterp spec fn strings_of_json_text(text: Seq<char>) -> Option<Seq<Seq<char>>>;

/// `serde_json::to_string` on a `Vec<String>`, its error turned into `None`.
/// Serialising a sequence of strings into a `String` has no failing path in
/// serde_json's compact serializer, so the result is always the JSON text
/// that `json_string_array` states (begin and end of the array, a comma
/// before every value but the first, each string escaped by the `ESCAPE`
/// table of `format_escaped_str_contents`); and
/// reading that text back as a `Vec<String>` gives the same strings, since
/// every character is written either as itself or as the escape that the
/// reader turns back into it.
#[verifier::external_body]
pub(crate) fn strings_to_json(items: &Vec<String>) -> (r: Option<String>)
    ensures
        r is Some,
        r matches Some(t) ==> t@ == json_string_array(string_views(items@)),
        r matches Some(t) ==> strings_of_json_text(t@) == Some(string_views(items@)),
{
    serde_json::to_string(items).ok()
}

/// `serde_json::from_str::<Vec<String>>`, its error turned into `None`.
#[verifier::external_body]
pub(crate) fn strings_from_json(text: &str) -> (r: Option<Vec<String>>)
    ensures
        match r {
            Some(v) => strings_of_json_text(text@) == Some(string_views(v@)),
            None => strings_of_json_text(text@) is None,
        },
{
    serde_json::from_str::<Vec<String>>(text).ok()
}

} // verus!
