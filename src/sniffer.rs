//! Classifies a freshly accepted connection from the bytes peeked off it,
//! without consuming them: an HTTP request, or a raw session.
use vstd::prelude::*;
use crate::text::{lossy_text, texts, utf8_lossy};
use crate::validator::{request_line, request_line_words, request_words, validate_request_method};

verus! {

#[derive(PartialEq, Eq, Structural, Clone, Copy, Debug)]
pub enum Classification {
    Http,
    RawSession,
}

/// Text is an HTTP request when its first line (it must end in a line
/// terminator) has at least two white-space-delimited words, the first an
/// allowed method.
pub open spec fn is_http_text(text: Seq<char>, allowed: Seq<String>) -> bool {
    &&& request_line(text) is Some
    &&& request_words(text).len() >= 2
    &&& texts(allowed).contains(request_words(text)[0])
}

/// Classifies peeked text.
pub fn classify_text(text: &str, allowed: &Vec<String>) -> (r: Classification)
    ensures
        r == Classification::Http <==> is_http_text(text@, allowed@),
{
    match request_line_words(text) {
        Some(words) => {
            if words.len() >= 2 && validate_request_method(words[0].as_str(), allowed).is_ok() {
                Classification::Http
            } else {
                Classification::RawSession
            }
        },
        None => Classification::RawSession,
    }
}

/// Classifies a connection from the bytes peeked off it. Nothing peeked (the
/// peer closed at once) is a raw session.
pub fn classify(peeked: &[u8], allowed: &Vec<String>) -> (r: Classification)
    ensures
        r == Classification::Http <==> is_http_text(utf8_lossy(peeked@), allowed@),
        peeked@.len() == 0 ==> r == Classification::RawSession,
{
    let text = lossy_text(peeked);
    proof {
        if peeked@.len() == 0 {
            assert(crate::codec::find_from(text@, crate::text::line_break(), 0) is None);
        }
    }
    classify_text(text.as_str(), allowed)
}

} // verus!
