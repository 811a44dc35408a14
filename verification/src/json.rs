//! The pieces of JSON text that the wire formats are framed from.
//!
//! Objects are framed here, member by member, so that a contract can say
//! what goes on the wire. Escaping a string and reading a document are left
//! to `serde_json`.

use serde_json::Error as JsonError;
use vstd::prelude::*;
use vstd::string::*;

verus! {

/// The character of a hexadecimal digit, in lower case.
pub open spec fn hex_digit_char(d: int) -> char {
    if d < 10 {
        digit_char(d)
    } else if d == 10 {
        'a'
    } else if d == 11 {
        'b'
    } else if d == 12 {
        'c'
    } else if d == 13 {
        'd'
    } else if d == 14 {
        'e'
    } else {
        'f'
    }
}

/// A character as it stands inside a JSON string. The double quote and the
/// backslash get a backslash before them. The control characters below the
/// space are written as `\b`, `\t`, `\n`, `\f` and `\r` where JSON has such
/// a short form, and as `\u00` with two hexadecimal digits where it has
/// none. Every other character stands for itself.
pub open spec fn escaped_char(c: char) -> Seq<char> {
    let code = c as u32;
    if c == '"' {
        seq!['\\', '"']
    } else if c == '\\' {
        seq!['\\', '\\']
    } else if code == 0x08 {
        seq!['\\', 'b']
    } else if code == 0x09 {
        seq!['\\', 't']
    } else if code == 0x0A {
        seq!['\\', 'n']
    } else if code == 0x0C {
        seq!['\\', 'f']
    } else if code == 0x0D {
        seq!['\\', 'r']
    } else if code < 0x20 {
        seq![
            '\\',
            'u',
            '0',
            '0',
            hex_digit_char((code / 16) as int),
            hex_digit_char((code % 16) as int),
        ]
    } else {
        seq![c]
    }
}

/// The JSON text of a string: its characters as they stand inside a JSON
/// string, between double quotes.
pub open spec fn json_string_text(s: Seq<char>) -> Seq<char> {
    seq!['"'] + s.map_values(|c: char| escaped_char(c)).flatten() + seq!['"']
}

/// What `serde_json` reads from a document that is an array of arrays of
/// strings, and `None` for any other text.
pub uninterp spec fn json_string_groups(text: Seq<char>) -> Option<Seq<Seq<Seq<char>>>>;

/// Calls `serde_json::to_string` on a string slice. It writes into a byte
/// vector, which takes whatever is written, so it does not fail. What it
/// writes is the slice between double quotes, each character escaped as
/// [`escaped_char`] says.
#[verifier::external_body]
fn json_string(s: &str) -> (r: Result<String, JsonError>)
    ensures
        r is Ok,
        r matches Ok(text) ==> text@ == json_string_text(s@),
{
    serde_json::to_string(s)
}

/// Writes a string as JSON.
pub fn json_text(s: &str) -> (r: String)
    ensures
        r@ == json_string_text(s@),
{
    match json_string(s) {
        Ok(text) => text,
        Err(_) => unreached(),
    }
}

/// Calls `serde_json::from_str` for a `Vec<Vec<String>>`. Whether it
/// succeeds and what it returns depend on the text alone, so both go by the
/// name [`json_string_groups`].
#[verifier::external_body]
pub(crate) fn parse_string_groups(text: &str) -> (r: Result<Vec<Vec<String>>, JsonError>)
    ensures
        match r {
            Ok(groups) => json_string_groups(text@) == Some(groups.deep_view()),
            Err(_) => json_string_groups(text@) is None,
        },
{
    serde_json::from_str::<Vec<Vec<String>>>(text)
}

/// The character of a decimal digit.
pub open spec fn digit_char(d: int) -> char {
    if d == 0 {
        '0'
    } else if d == 1 {
        '1'
    } else if d == 2 {
        '2'
    } else if d == 3 {
        '3'
    } else if d == 4 {
        '4'
    } else if d == 5 {
        '5'
    } else if d == 6 {
        '6'
    } else if d == 7 {
        '7'
    } else if d == 8 {
        '8'
    } else {
        '9'
    }
}

/// A natural number in decimal, without leading zeros.
pub open spec fn nat_text(n: nat) -> Seq<char>
    decreases n,
{
    if n < 10 {
        seq![digit_char(n as int)]
    } else {
        nat_text(n / 10).push(digit_char((n % 10) as int))
    }
}

/// An integer in decimal: a minus sign before a negative one.
pub open spec fn int_text(n: int) -> Seq<char> {
    if n < 0 {
        seq!['-'] + nat_text((-n) as nat)
    } else {
        nat_text(n as nat)
    }
}

/// The JSON text of a boolean.
pub open spec fn bool_text(b: bool) -> Seq<char> {
    if b {
        "true"@
    } else {
        "false"@
    }
}

/// The JSON text of an optional string: `null` where there is none.
pub open spec fn optional_string_text(s: Option<Seq<char>>) -> Seq<char> {
    match s {
        Some(s) => json_string_text(s),
        None => "null"@,
    }
}

fn digit_str(d: u64) -> (r: &'static str)
    requires
        d < 10,
    ensures
        r@ == seq![digit_char(d as int)],
{
    proof {
        reveal_strlit("0");
        reveal_strlit("1");
        reveal_strlit("2");
        reveal_strlit("3");
        reveal_strlit("4");
        reveal_strlit("5");
        reveal_strlit("6");
        reveal_strlit("7");
        reveal_strlit("8");
        reveal_strlit("9");
    }
    let r = if d == 0 {
        "0"
    } else if d == 1 {
        "1"
    } else if d == 2 {
        "2"
    } else if d == 3 {
        "3"
    } else if d == 4 {
        "4"
    } else if d == 5 {
        "5"
    } else if d == 6 {
        "6"
    } else if d == 7 {
        "7"
    } else if d == 8 {
        "8"
    } else {
        "9"
    };
    assert(r@ =~= seq![digit_char(d as int)]);
    r
}

/// Writes a natural number in decimal.
pub fn nat_decimal(n: u64) -> (r: String)
    ensures
        r@ == nat_text(n as nat),
    decreases n,
{
    if n < 10 {
        digit_str(n).to_owned()
    } else {
        let mut r = nat_decimal(n / 10);
        r.append(digit_str(n % 10));
        r
    }
}

/// Writes an integer in decimal.
pub fn int_decimal(n: i64) -> (r: String)
    ensures
        r@ == int_text(n as int),
{
    if n < 0 {
        let magnitude: u64 = ((-(n + 1)) as u64) + 1;
        let mut r = "-".to_owned();
        proof {
            reveal_strlit("-");
            assert("-"@ =~= seq!['-']);
        }
        let digits = nat_decimal(magnitude);
        r.append(digits.as_str());
        r
    } else {
        nat_decimal(n as u64)
    }
}

/// Writes a boolean as JSON.
pub fn bool_json(b: bool) -> (r: &'static str)
    ensures
        r@ == bool_text(b),
{
    if b {
        "true"
    } else {
        "false"
    }
}

} // verus!
