//! The HTTP answers sent to a client whose login request is refused.

use vstd::prelude::*;
use vstd::string::StringSliceAdditionalSpecFns;
use vstd::utf8::encode_utf8;
use crate::headers::{HEADER_MAX_LENGTH, PAYLOAD_MAX_LENGTH};
use crate::text::{decimal, decimal_parses_back, decimal_string, parse_usize_spec};

verus! {

broadcast use vstd::string::group_string_axioms;

/// The length in bytes of the UTF-8 text `s`, as `str::len` reports it.
pub open spec fn byte_len(s: Seq<char>) -> usize {
    encode_utf8(s).len() as usize
}

/// An HTTP/1.1 response with status `code`, one extra header line `header`,
/// and `body`, whose `Content-Length` is the body's length in bytes.
pub open spec fn http_response(code: Seq<char>, body: Seq<char>, header: Seq<char>) -> Seq<char> {
    "HTTP/1.1 "@ + code + "\r\nContent-Length: "@ + decimal(byte_len(body) as nat) + "\r\n"@
        + header + "\r\n"@ + "\r\n"@ + body
}

/// Builds the response with status `code`, extra header line `header` and `body`.
pub fn response(code: &str, body: &str, header: &str) -> (r: String)
    ensures
        r@ == http_response(code@, body@, header@),
{
    let mut r = String::from_str("HTTP/1.1 ");
    r.append(code);
    r.append("\r\nContent-Length: ");
    let len = decimal_string(body.len() as u64);
    r.append(len.as_str());
    r.append("\r\n");
    r.append(header);
    r.append("\r\n");
    r.append("\r\n");
    r.append(body);
    r
}

/// The header line that every refusal carries.
pub open spec fn json_content_type() -> Seq<char> {
    "Content-Type: application/json"@
}

/// Why a login request is refused.
#[derive(PartialEq, Eq, Structural, Clone, Copy, Debug)]
pub enum Rejection {
    /// The secret differs from the stored password (403).
    IncorrectPassword,
    /// No account has this username and accounts are not created (403).
    UsernameNotRegistered,
    /// The JSON holds no `credentials.secret` that is a `u64` (400).
    NoPasswordSpecified,
    /// The JSON holds no `credentials.username` that is a string (400).
    NoUsernameSpecified,
    /// The header block is not well formed (400).
    BadlyFormattedHtml,
    /// The body is not JSON (400).
    BadlyFormattedJson,
    /// The body is not JSON of the expected content type (400).
    UnexpectedContentType,
    /// No `content-length` header (411).
    UnknownLength,
    /// The declared body is longer than `PAYLOAD_MAX_LENGTH` (413).
    PayloadTooLarge,
    /// The header block does not fit in `HEADER_MAX_LENGTH` bytes (431).
    HeadersTooLarge,
}

/// The status line text of each refusal.
pub open spec fn rejection_code(r: Rejection) -> Seq<char> {
    match r {
        Rejection::IncorrectPassword => "403 Forbidden"@,
        Rejection::UsernameNotRegistered => "403 Forbidden"@,
        Rejection::NoPasswordSpecified => "400 Bad Request"@,
        Rejection::NoUsernameSpecified => "400 Bad Request"@,
        Rejection::BadlyFormattedHtml => "400 Bad Request"@,
        Rejection::BadlyFormattedJson => "400 Bad Request"@,
        Rejection::UnexpectedContentType => "400 Bad Request"@,
        Rejection::UnknownLength => "411 Length Required"@,
        Rejection::PayloadTooLarge => "413 Payload Too Large"@,
        Rejection::HeadersTooLarge => "431 Request Header Fields Too Large"@,
    }
}

/// The JSON body of each refusal.
pub open spec fn rejection_body(r: Rejection) -> Seq<char> {
    match r {
        Rejection::IncorrectPassword => "{\"error\":\"Forbidden\",\"message\":\"Incorect password\"}"@,
        Rejection::UsernameNotRegistered => "{\"error\":\"Forbidden\",\"message\":\"Username not registered\"}"@,
        Rejection::NoPasswordSpecified => "{\"error\":\"Bad Request\",\"message\":\"No password specified\"}"@,
        Rejection::NoUsernameSpecified => "{\"error\":\"Bad Request\",\"message\":\"No username specified\"}"@,
        Rejection::BadlyFormattedHtml => "{\"error\":\"Bad Request\",\"message\":\"Badly formatted html\"}"@,
        Rejection::BadlyFormattedJson => "{\"error\":\"Bad Request\",\"message\":\"Badly formatted json\"}"@,
        Rejection::UnexpectedContentType => "{\"error\":\"Bad Request\",\"message\":\"Unexpected content type, please use json\"}"@,
        Rejection::UnknownLength => "{\"error\":\"Length Required\",\"message\":\"Unkown content length\"}"@,
        Rejection::PayloadTooLarge => "{\"error\":\"Payload Too Large\",\"message\":\"Keep the payload below "@
            + decimal(PAYLOAD_MAX_LENGTH as nat) + " bytes\"}"@,
        Rejection::HeadersTooLarge => "{\"error\":\"Request Header Fields Too Large\",\"message\":\"Keep the headers below "@
            + decimal(HEADER_MAX_LENGTH as nat) + " bytes\"}"@,
    }
}

/// The full answer for a refusal.
pub open spec fn rejection_response(r: Rejection) -> Seq<char> {
    http_response(rejection_code(r), rejection_body(r), json_content_type())
}

fn code_of(r: Rejection) -> (s: &'static str)
    ensures
        s@ == rejection_code(r),
{
    match r {
        Rejection::IncorrectPassword => "403 Forbidden",
        Rejection::UsernameNotRegistered => "403 Forbidden",
        Rejection::NoPasswordSpecified => "400 Bad Request",
        Rejection::NoUsernameSpecified => "400 Bad Request",
        Rejection::BadlyFormattedHtml => "400 Bad Request",
        Rejection::BadlyFormattedJson => "400 Bad Request",
        Rejection::UnexpectedContentType => "400 Bad Request",
        Rejection::UnknownLength => "411 Length Required",
        Rejection::PayloadTooLarge => "413 Payload Too Large",
        Rejection::HeadersTooLarge => "431 Request Header Fields Too Large",
    }
}

fn body_of(r: Rejection) -> (s: String)
    ensures
        s@ == rejection_body(r),
{
    match r {
        Rejection::IncorrectPassword => String::from_str(
            "{\"error\":\"Forbidden\",\"message\":\"Incorect password\"}",
        ),
        Rejection::UsernameNotRegistered => String::from_str(
            "{\"error\":\"Forbidden\",\"message\":\"Username not registered\"}",
        ),
        Rejection::NoPasswordSpecified => String::from_str(
            "{\"error\":\"Bad Request\",\"message\":\"No password specified\"}",
        ),
        Rejection::NoUsernameSpecified => String::from_str(
            "{\"error\":\"Bad Request\",\"message\":\"No username specified\"}",
        ),
        Rejection::BadlyFormattedHtml => String::from_str(
            "{\"error\":\"Bad Request\",\"message\":\"Badly formatted html\"}",
        ),
        Rejection::BadlyFormattedJson => String::from_str(
            "{\"error\":\"Bad Request\",\"message\":\"Badly formatted json\"}",
        ),
        Rejection::UnexpectedContentType => String::from_str(
            "{\"error\":\"Bad Request\",\"message\":\"Unexpected content type, please use json\"}",
        ),
        Rejection::UnknownLength => String::from_str(
            "{\"error\":\"Length Required\",\"message\":\"Unkown content length\"}",
        ),
        Rejection::PayloadTooLarge => {
            let mut s = String::from_str(
                "{\"error\":\"Payload Too Large\",\"message\":\"Keep the payload below ",
            );
            let n = decimal_string(PAYLOAD_MAX_LENGTH as u64);
            s.append(n.as_str());
            s.append(" bytes\"}");
            s
        },
        Rejection::HeadersTooLarge => {
            let mut s = String::from_str(
                "{\"error\":\"Request Header Fields Too Large\",\"message\":\"Keep the headers below ",
            );
            let n = decimal_string(HEADER_MAX_LENGTH as u64);
            s.append(n.as_str());
            s.append(" bytes\"}");
            s
        },
    }
}

/// The answer sent for refusal `r`.
pub fn rejection_text(r: Rejection) -> (s: String)
    ensures
        s@ == rejection_response(r),
{
    let body = body_of(r);
    response(code_of(r), body.as_str(), "Content-Type: application/json")
}


/// Every response declares, in its `Content-Length` header, the byte length of
/// the body that ends it, written so that it reads back as that number.
pub proof fn responses_declare_body_length(code: Seq<char>, body: Seq<char>, header: Seq<char>)
    ensures
        ({
            let digits = decimal(byte_len(body) as nat);
            &&& http_response(code, body, header) == "HTTP/1.1 "@ + code + "\r\nContent-Length: "@
                + digits + "\r\n"@ + header + "\r\n"@ + "\r\n"@ + body
            &&& parse_usize_spec(digits) == Some(byte_len(body))
        }),
{
    decimal_parses_back(byte_len(body));
}


/// The status of each refusal: 403 for a wrong or unknown account, 411 for a
/// missing length, 413 for a body over the limit, 431 for a header block over
/// the limit, 400 for everything else.
pub proof fn refusals_have_their_status(r: Rejection)
    ensures
        (r == Rejection::IncorrectPassword || r == Rejection::UsernameNotRegistered) ==> rejection_code(r) == "403 Forbidden"@,
        r == Rejection::UnknownLength ==> rejection_code(r) == "411 Length Required"@,
        r == Rejection::PayloadTooLarge ==> rejection_code(r) == "413 Payload Too Large"@,
        r == Rejection::HeadersTooLarge ==> rejection_code(r) == "431 Request Header Fields Too Large"@,
        (r == Rejection::NoPasswordSpecified || r == Rejection::NoUsernameSpecified || r == Rejection::BadlyFormattedHtml
            || r == Rejection::BadlyFormattedJson || r == Rejection::UnexpectedContentType)
            ==> rejection_code(r) == "400 Bad Request"@,
{
}

} // verus!
