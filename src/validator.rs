//! Checks on an HTTP request: its request line, its method against the
//! configured allow-list, and its path against a route list.
use vstd::prelude::*;
use crate::codec::find_from;
use crate::text::{is_split, chars_of, line_break, same_text, split_of, split_on, substring, texts};

verus! {

/// The text before the first line terminator, if there is one.
pub open spec fn request_line(s: Seq<char>) -> Option<Seq<char>> {
    match find_from(s, line_break(), 0) {
        Some(i) => Some(s.take(i)),
        None => None,
    }
}

/// The request line cut at every space.
pub open spec fn request_tokens(s: Seq<char>) -> Seq<Seq<char>> {
    split_of(request_line(s)->0, ' ')
}

/// The words of the request line: method, path, version, white space aside.
pub open spec fn request_words(s: Seq<char>) -> Seq<Seq<char>> {
    crate::text::words(request_line(s)->0)
}

/// The words of the request line of `buffer`; nothing where no line
/// terminator ends it.
pub fn request_line_words(buffer: &str) -> (r: Option<Vec<String>>)
    ensures
        r is None <==> request_line(buffer@) is None,
        r matches Some(w) ==> texts(w@) == request_words(buffer@),
{
    let chars = chars_of(buffer);
    match crate::text::find_line_break(&chars) {
        Some(i) => {
            proof { crate::codec::lemma_find_from_some(buffer@, line_break(), 0, i as int); }
            let line = substring(buffer, 0, i);
            assert(line@ =~= buffer@.take(i as int));
            Some(crate::text::words_of(line.as_str()))
        },
        None => None,
    }
}

/// The characters of each string slice.
pub open spec fn str_texts(v: Seq<&str>) -> Seq<Seq<char>> {
    v.map_values(|p: &str| p@)
}

/// Whether `method` is in the allow-list.
pub fn validate_request_method(request_method: &str, allowed: &Vec<String>) -> (r: Result<
    (),
    String,
>)
    ensures
        r is Ok <==> texts(allowed@).contains(request_method@),
{
    let mut i: usize = 0;
    while i < allowed.len()
        invariant
            i <= allowed@.len(),
            forall|k: int| 0 <= k < i ==> allowed@[k]@ != request_method@,
        decreases allowed@.len() - i,
    {
        if same_text(allowed[i].as_str(), request_method) {
            assert(texts(allowed@)[i as int] == request_method@);
            return Ok(());
        }
        i = i + 1;
    }
    proof {
        if texts(allowed@).contains(request_method@) {
            let k = choose|k: int|
                0 <= k < texts(allowed@).len() && texts(allowed@)[k] == request_method@;
            assert(allowed@[k]@ == request_method@);
        }
    }
    Err(String::from_str("http-response: Invalid request method."))
}

/// Whether `route` is one of `routes`.
pub fn validate_route(route: &str, routes: &Vec<&str>) -> (r: Result<(), String>)
    ensures
        r is Ok <==> str_texts(routes@).contains(route@),
{
    let mut i: usize = 0;
    while i < routes.len()
        invariant
            i <= routes@.len(),
            forall|k: int| 0 <= k < i ==> routes@[k]@ != route@,
        decreases routes@.len() - i,
    {
        if same_text(routes[i], route) {
            assert(str_texts(routes@)[i as int] == route@);
            return Ok(());
        }
        i = i + 1;
    }
    proof {
        if str_texts(routes@).contains(route@) {
            let k = choose|k: int|
                0 <= k < str_texts(routes@).len() && str_texts(routes@)[k] == route@;
            assert(routes@[k]@ == route@);
        }
    }
    Err(String::from_str("http-response: Invalid route path."))
}

/// The request line of `buffer`, cut at every space; an error where no line
/// terminator ends it.
pub fn validate_http_request(buffer: &str) -> (r: Result<Vec<String>, String>)
    ensures
        r is Err <==> request_line(buffer@) is None,
        r matches Ok(p) ==> texts(p@) == request_tokens(buffer@),
        r matches Ok(p) ==> is_split(texts(p@), request_line(buffer@)->0, ' '),
{
    let chars = chars_of(buffer);
    match crate::text::find_line_break(&chars) {
        Some(i) => {
            proof { crate::codec::lemma_find_from_some(buffer@, line_break(), 0, i as int); }
            let line = substring(buffer, 0, i);
            assert(line@ =~= buffer@.take(i as int));
            Ok(split_on(line.as_str(), ' '))
        },
        None => Err(
            String::from_str(
                "request: Input does not consist of any newlines - not a HTTP request - skipping..",
            ),
        ),
    }
}

} // verus!
