//! The fixed header set of every HTTP response and the response's wire form:
//! the status line, each header on its own line, a blank line, the body.
use vstd::prelude::*;
use vstd::string::*;
use crate::text::{append_lines, decimal, decimal_spec, terminated_lines, texts};

verus! {

/// The local time now as an RFC 2822 date (`Tue, 1 Jul 2003 10:52:37 +0200`).
fn rfc2822_now() -> String {
    crate::text::local_time("%a, %-d %b %Y %H:%M:%S %z")
}

pub open spec fn content_type_header() -> Seq<char> {
    "content-type: text/html; charset=utf-8"@
}

pub open spec fn content_length_prefix() -> Seq<char> {
    "content-length: "@
}

pub open spec fn date_prefix() -> Seq<char> {
    "date: "@
}

/// The security headers that close the set, in order.
pub open spec fn security_headers() -> Seq<Seq<char>> {
    seq![
        "cross-origin-embedder-policy: require-corp"@,
        "cross-origin-opener-policy: cross-origin"@,
        "cross-origin-resource-policy: same-origin"@,
        "x-content-type-options: nosniff"@,
        "x-frame-options: deny"@,
        "referer-policy: no-referer"@,
        "content-security-policy: connect-src 'self'; font-src 'self'; frame-src 'self'; img-src 'self'; manifest-src 'self'; media-src 'self'; object-src 'self'; script-src 'self'; style-src 'unsafe-inline'; worker-src 'self'"@,
    ]
}

/// The ten headers of a response whose body is `len` bytes long, sent at `date`.
pub open spec fn header_set(len: nat, date: Seq<char>) -> Seq<Seq<char>> {
    seq![content_type_header(), content_length_prefix() + decimal_spec(len), date_prefix() + date]
        + security_headers()
}

/// The headers for a body of `contents_len` bytes sent at `date`.
pub fn headers_at(contents_len: usize, date: &str) -> (r: [String; 10])
    ensures
        texts(r@) == header_set(contents_len as nat, date@),
{
    let mut length = String::from_str("content-length: ");
    length.append(decimal(contents_len as u64).as_str());
    let mut when = String::from_str("date: ");
    when.append(date);
    let r = [
        String::from_str("content-type: text/html; charset=utf-8"),
        length,
        when,
        String::from_str("cross-origin-embedder-policy: require-corp"),
        String::from_str("cross-origin-opener-policy: cross-origin"),
        String::from_str("cross-origin-resource-policy: same-origin"),
        String::from_str("x-content-type-options: nosniff"),
        String::from_str("x-frame-options: deny"),
        String::from_str("referer-policy: no-referer"),
        String::from_str(
            "content-security-policy: connect-src 'self'; font-src 'self'; frame-src 'self'; img-src 'self'; manifest-src 'self'; media-src 'self'; object-src 'self'; script-src 'self'; style-src 'unsafe-inline'; worker-src 'self'",
        ),
    ];
    assert(texts(r@) =~= header_set(contents_len as nat, date@));
    r
}

/// The headers for a body of `contents_len` bytes sent now.
pub fn fetch_headers(contents_len: usize) -> (r: [String; 10])
    ensures
        exists|date: Seq<char>| texts(r@) == header_set(contents_len as nat, date),
{
    let date = rfc2822_now();
    headers_at(contents_len, date.as_str())
}

/// The wire form of a response.
pub open spec fn response_text(status: Seq<char>, h: Seq<Seq<char>>, body: Seq<char>) -> Seq<char> {
    status + "\r\n"@ + terminated_lines(h) + "\r\n"@ + body
}

/// Writes out a response: the status line, each header on its own line, a
/// blank line, the body.
pub fn assemble_response(status_line: &str, headers: &[String], contents: &str) -> (r: String)
    ensures
        r@ == response_text(status_line@, texts(headers@), contents@),
{
    let mut r = String::from_str(status_line);
    r.append("\r\n");
    append_lines(&mut r, headers);
    r.append("\r\n");
    r.append(contents);
    assert(r@ =~= response_text(status_line@, texts(headers@), contents@));
    r
}

} // verus!
