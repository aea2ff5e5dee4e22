//! Splitting a raw response into status, meta line and body.
//!
//! A response is `<code><SP><meta>\r\n<body>`: a header line ended by the
//! first CRLF, then an opaque body. The header line is split at its first
//! space into a two-digit code and the meta text. A response comes off the
//! wire as bytes and is parsed as bytes; the same rules are offered for a
//! response that is held as text.

use vstd::prelude::*;
use vstd::utf8::{decode_utf8, valid_utf8};
use crate::bytes::{decode_text, to_owned_bytes, utf8_lossy};
use crate::status::{lemma_status_table, status_of_code, StatusCode};
use crate::text::{
    after_first, before_first, chars_of, contains_pattern, lemma_split_first, split_first,
};

verus! {

/// The line terminator that ends the header line.
pub open spec fn crlf() -> Seq<char> {
    seq!['\r', '\n']
}

/// The separator between the code and the meta text.
pub open spec fn space() -> Seq<char> {
    seq![' ']
}

/// The line terminator, as bytes.
pub open spec fn crlf_bytes() -> Seq<u8> {
    seq![0x0du8, 0x0au8]
}

/// The separator between the code and the meta text, as a byte.
pub open spec fn space_bytes() -> Seq<u8> {
    seq![0x20u8]
}

/// The meta text reported when the code is not a known status code.
pub open spec fn invalid_status_message() -> Seq<char> {
    "Server returned invalid status code!"@
}

/// Whether a character is one of the ten ASCII digits.
pub open spec fn is_ascii_digit(c: char) -> bool {
    '0' <= c <= '9'
}

/// The number an ASCII digit stands for.
pub open spec fn digit_value(c: char) -> int {
    c as int - '0' as int
}

/// Whether a byte is one of the ten ASCII digits.
pub open spec fn is_digit_byte(b: u8) -> bool {
    0x30 <= b <= 0x39
}

/// The code part of a header line: everything before its first separator,
/// or the whole line when it has none.
pub open spec fn code_part<T>(line: Seq<T>, separator: Seq<T>) -> Seq<T> {
    if contains_pattern(line, separator) {
        before_first(line, separator)
    } else {
        line
    }
}

/// The meta part of a header line: everything after its first separator,
/// or nothing when it has none.
pub open spec fn meta_part<T>(line: Seq<T>, separator: Seq<T>) -> Seq<T> {
    if contains_pattern(line, separator) {
        after_first(line, separator)
    } else {
        Seq::empty()
    }
}

/// The number a code denotes, when it is exactly two ASCII digits.
pub open spec fn two_digit_value(code: Seq<char>) -> Option<int> {
    if code.len() == 2 && is_ascii_digit(code[0]) && is_ascii_digit(code[1]) {
        Some(10 * digit_value(code[0]) + digit_value(code[1]))
    } else {
        None
    }
}

/// The number a code denotes, when it is exactly two bytes that are ASCII
/// digits.
pub open spec fn two_digit_number(code: Seq<u8>) -> Option<int> {
    if code.len() == 2 && is_digit_byte(code[0]) && is_digit_byte(code[1]) {
        Some(10 * (code[0] - 0x30) + (code[1] - 0x30))
    } else {
        None
    }
}

/// A code is accepted when it is exactly two ASCII digits that denote a
/// number from 10 to 69.
pub open spec fn is_status_code_text(code: Seq<char>) -> bool {
    two_digit_value(code) matches Some(n) && 10 <= n <= 69
}

/// A code is accepted when it is exactly two ASCII digits that denote a
/// number from 10 to 69.
pub open spec fn is_status_code(code: Seq<u8>) -> bool {
    two_digit_number(code) matches Some(n) && 10 <= n <= 69
}

/// What a raw response means: its status, meta text and body.
///
/// Without a CRLF the response is malformed: `ResponseError`, nothing else.
/// With a code that is not accepted: `StatusUnknown`, a fixed message, no
/// body. Otherwise the status the table gives for the code, the meta part
/// of the header line read as text, and everything after the first CRLF,
/// verbatim.
pub open spec fn parsed_bytes(raw: Seq<u8>) -> (StatusCode, Seq<char>, Seq<u8>) {
    if !contains_pattern(raw, crlf_bytes()) {
        (StatusCode::ResponseError, Seq::empty(), Seq::empty())
    } else {
        let line = before_first(raw, crlf_bytes());
        let code = code_part(line, space_bytes());
        if is_status_code(code) {
            (
                status_of_code(two_digit_number(code)->0),
                utf8_lossy(meta_part(line, space_bytes())),
                after_first(raw, crlf_bytes()),
            )
        } else {
            (StatusCode::StatusUnknown, invalid_status_message(), Seq::empty())
        }
    }
}

/// What a response held as text means, by the same rules.
pub open spec fn parsed_response(raw: Seq<char>) -> (StatusCode, Seq<char>, Seq<char>) {
    if !contains_pattern(raw, crlf()) {
        (StatusCode::ResponseError, Seq::empty(), Seq::empty())
    } else {
        let line = before_first(raw, crlf());
        let code = code_part(line, space());
        if is_status_code_text(code) {
            (status_of_code(two_digit_value(code)->0), meta_part(line, space()), after_first(
                raw,
                crlf(),
            ))
        } else {
            (StatusCode::StatusUnknown, invalid_status_message(), Seq::empty())
        }
    }
}

/// Reads a two-digit code; `None` unless the text is exactly two ASCII
/// digits.
pub fn read_two_digits(code: &Vec<char>) -> (r: Option<i32>)
    ensures
        r is Some <==> two_digit_value(code@) is Some,
        r matches Some(n) ==> two_digit_value(code@) == Some(n as int),
{
    if code.len() != 2 {
        return None;
    }
    let hi: char = code[0];
    let lo: char = code[1];
    if hi < '0' || hi > '9' || lo < '0' || lo > '9' {
        return None;
    }
    let h: u32 = hi as u32 - '0' as u32;
    let l: u32 = lo as u32 - '0' as u32;
    Some((10 * h + l) as i32)
}

/// Reads a two-digit code; `None` unless the bytes are exactly two ASCII
/// digits.
pub fn read_code(code: &[u8]) -> (r: Option<i32>)
    ensures
        r is Some <==> two_digit_number(code@) is Some,
        r matches Some(n) ==> two_digit_number(code@) == Some(n as int),
{
    if code.len() != 2 {
        return None;
    }
    let hi: u8 = code[0];
    let lo: u8 = code[1];
    if hi < 0x30 || hi > 0x39 || lo < 0x30 || lo > 0x39 {
        return None;
    }
    let n: i32 = 10 * ((hi - 0x30) as i32) + ((lo - 0x30) as i32);
    Some(n)
}

/// The status for a code that was read, where the code is accepted.
fn accepted_status(code: Option<i32>) -> (r: Option<StatusCode>)
    ensures
        match code {
            Some(n) => if 10 <= n <= 69 {
                r == Some(status_of_code(n as int))
            } else {
                r is None
            },
            None => r is None,
        },
{
    match code {
        Some(n) if 10 <= n && n <= 69 => Some(StatusCode::from(n)),
        _ => None,
    }
}

/// Whether a raw response has a header line with an accepted code.
pub open spec fn has_accepted_code(raw: Seq<u8>) -> bool {
    contains_pattern(raw, crlf_bytes()) && is_status_code(
        code_part(before_first(raw, crlf_bytes()), space_bytes()),
    )
}

/// The bytes of the meta text of a raw response.
pub open spec fn meta_bytes(raw: Seq<u8>) -> Seq<u8> {
    meta_part(before_first(raw, crlf_bytes()), space_bytes())
}

/// Splits a raw response into status, meta text and body. A meta text
/// that is UTF-8 comes out as the text it encodes.
pub fn parse_response(raw: &[u8]) -> (r: (StatusCode, String, Vec<u8>))
    ensures
        r.0 == parsed_bytes(raw@).0,
        r.1@ == parsed_bytes(raw@).1,
        r.2@ == parsed_bytes(raw@).2,
        has_accepted_code(raw@) && valid_utf8(meta_bytes(raw@)) ==> r.1@ == decode_utf8(
            meta_bytes(raw@),
        ),
{
    let terminator: [u8; 2] = [0x0d, 0x0a];
    let separator: [u8; 1] = [0x20];
    assert(terminator@ =~= crlf_bytes());
    assert(separator@ =~= space_bytes());
    let (line, body) = match crate::bytes::split_first(raw, terminator.as_slice()) {
        Some(parts) => parts,
        None => {
            return (StatusCode::ResponseError, String::new(), Vec::new());
        },
    };
    let (code, meta) = match crate::bytes::split_first(line, separator.as_slice()) {
        Some(parts) => parts,
        None => {
            assert(line@.subrange(0, 0) =~= Seq::<u8>::empty());
            (line, vstd::slice::slice_subrange(line, 0, 0))
        },
    };
    match accepted_status(read_code(code)) {
        Some(status) => (status, decode_text(meta), to_owned_bytes(body)),
        None => (
            StatusCode::StatusUnknown,
            "Server returned invalid status code!".to_owned(),
            Vec::new(),
        ),
    }
}

/// Splits a response held as text into status, meta text and body.
pub fn extract_response_header(response: String) -> (r: (StatusCode, String, String))
    ensures
        r.0 == parsed_response(response@).0,
        r.1@ == parsed_response(response@).1,
        r.2@ == parsed_response(response@).2,
{
    proof {
        reveal_strlit("\r\n");
        reveal_strlit(" ");
    }
    assert("\r\n"@ =~= crlf());
    assert(" "@ =~= space());
    let (line, body) = match split_first(response.as_str(), "\r\n") {
        Some(parts) => parts,
        None => {
            return (StatusCode::ResponseError, String::new(), String::new());
        },
    };
    let (code, meta) = match split_first(line.as_str(), " ") {
        Some(parts) => parts,
        None => (line, String::new()),
    };
    let code_chars = chars_of(code.as_str());
    match accepted_status(read_two_digits(&code_chars)) {
        Some(status) => (status, meta, body),
        None => (
            StatusCode::StatusUnknown,
            "Server returned invalid status code!".to_owned(),
            String::new(),
        ),
    }
}

/// A response whose code is anything but two ASCII digits, or two digits
/// that denote a number outside 10..=69, is `StatusUnknown` with the fixed
/// message for meta and an empty body.
pub proof fn lemma_rejected_code(raw: Seq<u8>)
    requires
        contains_pattern(raw, crlf_bytes()),
        ({
            let code = code_part(before_first(raw, crlf_bytes()), space_bytes());
            ||| code.len() != 2
            ||| !is_digit_byte(code[0])
            ||| !is_digit_byte(code[1])
            ||| 10 * (code[0] - 0x30) + (code[1] - 0x30) < 10
            ||| 10 * (code[0] - 0x30) + (code[1] - 0x30) > 69
        }),
    ensures
        parsed_bytes(raw) == (
            StatusCode::StatusUnknown,
            invalid_status_message(),
            Seq::<u8>::empty(),
        ),
{
}

/// The same for a response held as text.
pub proof fn lemma_rejected_code_text(raw: Seq<char>)
    requires
        contains_pattern(raw, crlf()),
        ({
            let code = code_part(before_first(raw, crlf()), space());
            ||| code.len() != 2
            ||| !is_ascii_digit(code[0])
            ||| !is_ascii_digit(code[1])
            ||| 10 * digit_value(code[0]) + digit_value(code[1]) < 10
            ||| 10 * digit_value(code[0]) + digit_value(code[1]) > 69
        }),
    ensures
        parsed_response(raw) == (
            StatusCode::StatusUnknown,
            invalid_status_message(),
            Seq::<char>::empty(),
        ),
{
}

/// A response whose code is two ASCII digits that denote a number from 10
/// to 69 has the status the table gives that number, the rest of its
/// header line as meta, and all that follows the first CRLF as body.
pub proof fn lemma_accepted_code(raw: Seq<u8>)
    requires
        contains_pattern(raw, crlf_bytes()),
        is_status_code(code_part(before_first(raw, crlf_bytes()), space_bytes())),
    ensures
        ({
            let line = before_first(raw, crlf_bytes());
            let code = code_part(line, space_bytes());
            let n = 10 * (code[0] - 0x30) + (code[1] - 0x30);
            &&& 10 <= n <= 69
            &&& parsed_bytes(raw) == (
                status_of_code(n),
                utf8_lossy(meta_part(line, space_bytes())),
                after_first(raw, crlf_bytes()),
            )
            &&& parsed_bytes(raw).0 != StatusCode::StatusUnknown
            &&& parsed_bytes(raw).0 != StatusCode::ResponseError
        }),
{
    let code = code_part(before_first(raw, crlf_bytes()), space_bytes());
    lemma_status_table(10 * (code[0] - 0x30) + (code[1] - 0x30));
}

/// A response without CRLF is a `ResponseError` with nothing else, and no
/// response with a CRLF is.
pub proof fn lemma_missing_terminator(raw: Seq<u8>)
    ensures
        !contains_pattern(raw, crlf_bytes()) <==> parsed_bytes(raw).0 == StatusCode::ResponseError,
        !contains_pattern(raw, crlf_bytes()) ==> parsed_bytes(raw) == (
            StatusCode::ResponseError,
            Seq::<char>::empty(),
            Seq::<u8>::empty(),
        ),
{
    if contains_pattern(raw, crlf_bytes()) {
        let code = code_part(before_first(raw, crlf_bytes()), space_bytes());
        if is_status_code(code) {
            lemma_accepted_code(raw);
        }
    }
}

/// The header line and the body put the response back together: nothing
/// of the input is lost at the split, and the header line holds no CRLF.
pub proof fn lemma_split_is_lossless(raw: Seq<u8>)
    requires
        contains_pattern(raw, crlf_bytes()),
    ensures
        before_first(raw, crlf_bytes()) + crlf_bytes() + after_first(raw, crlf_bytes()) == raw,
        !contains_pattern(before_first(raw, crlf_bytes()), crlf_bytes()),
{
    lemma_split_first(raw, crlf_bytes());
}

} // verus!
