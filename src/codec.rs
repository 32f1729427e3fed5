//! The marker-delimited file-transfer framing:
//! `>>>FILE_START>>>:<extension>\r\n<payload><<<FILE_END<<<`.
//! The frame carries no length, so a payload that holds the end marker is cut
//! short at it.
use vstd::prelude::*;
use vstd::string::*;
use vstd::utf8::encode_utf8;

verus! {

/// The bytes of `>>>FILE_START>>>:`.
pub open spec fn start_marker() -> Seq<u8> {
    seq![62u8, 62, 62, 70, 73, 76, 69, 95, 83, 84, 65, 82, 84, 62, 62, 62, 58]
}

/// The bytes of `<<<FILE_END<<<`.
pub open spec fn end_marker() -> Seq<u8> {
    seq![60u8, 60, 60, 70, 73, 76, 69, 95, 69, 78, 68, 60, 60, 60]
}

/// The bytes of a line terminator.
pub open spec fn crlf() -> Seq<u8> {
    seq![13u8, 10]
}

/// `needle` stands in `hay` from index `i` on.
pub open spec fn occurs_at<T>(hay: Seq<T>, needle: Seq<T>, i: int) -> bool {
    0 <= i && i + needle.len() <= hay.len() && hay.subrange(i, i + needle.len()) == needle
}

/// `needle` stands somewhere in `hay`.
pub open spec fn contains<T>(hay: Seq<T>, needle: Seq<T>) -> bool {
    exists|i: int| occurs_at(hay, needle, i)
}

/// The first index at or after `from` where `needle` stands in `hay`.
pub open spec fn find_from<T>(hay: Seq<T>, needle: Seq<T>, from: int) -> Option<int>
    decreases hay.len() + 1 - from,
{
    if from < 0 || from + needle.len() > hay.len() {
        None
    } else if hay.subrange(from, from + needle.len()) == needle {
        Some(from)
    } else {
        find_from(hay, needle, from + 1)
    }
}

pub fn start_marker_bytes() -> (r: Vec<u8>)
    ensures
        r@ == start_marker(),
{
    vec![62u8, 62, 62, 70, 73, 76, 69, 95, 83, 84, 65, 82, 84, 62, 62, 62, 58]
}

pub fn end_marker_bytes() -> (r: Vec<u8>)
    ensures
        r@ == end_marker(),
{
    vec![60u8, 60, 60, 70, 73, 76, 69, 95, 69, 78, 68, 60, 60, 60]
}

fn crlf_bytes() -> (r: Vec<u8>)
    ensures
        r@ == crlf(),
{
    vec![13u8, 10]
}

/// Whether `needle` stands in `hay` from index `i` on.
fn matches_at(hay: &[u8], needle: &[u8], i: usize) -> (r: bool)
    ensures
        r == occurs_at(hay@, needle@, i as int),
{
    if i > hay.len() || needle.len() > hay.len() - i {
        return false;
    }
    let mut k: usize = 0;
    while k < needle.len()
        invariant
            i + needle.len() <= hay.len(),
            k <= needle@.len(),
            forall|j: int| 0 <= j < k ==> hay@[i + j] == needle@[j],
        decreases needle@.len() - k,
    {
        if hay[i + k] != needle[k] {
            assert(hay@.subrange(i as int, i + needle@.len())[k as int] != needle@[k as int]);
            return false;
        }
        k = k + 1;
    }
    assert(hay@.subrange(i as int, i + needle@.len()) =~= needle@);
    true
}

/// The first index at or after `from` where `needle` stands in `hay`.
pub fn find(hay: &[u8], needle: &[u8], from: usize) -> (r: Option<usize>)
    ensures
        r matches Some(i) ==> find_from(hay@, needle@, from as int) == Some(i as int),
        r is None ==> find_from(hay@, needle@, from as int) is None,
{
    let mut i: usize = from;
    while i <= hay.len() && needle.len() <= hay.len() - i
        invariant
            from <= i,
            find_from(hay@, needle@, from as int) == find_from(hay@, needle@, i as int),
        decreases hay@.len() - i,
    {
        if matches_at(hay, needle, i) {
            return Some(i);
        }
        assert(needle@.len() > 0) by {
            if needle@.len() == 0 {
                assert(hay@.subrange(i as int, i as int) =~= needle@);
            }
        }
        i = i + 1;
    }
    None
}


/// The frame that carries `payload` under the file extension `ext`.
pub open spec fn frame_of(ext: Seq<u8>, payload: Seq<u8>) -> Seq<u8> {
    start_marker() + ext + crlf() + payload + end_marker()
}

/// Where the first frame header in `bytes` places its extension: from the end of
/// the first start marker to the first line terminator after it.
pub open spec fn header_span(bytes: Seq<u8>) -> Option<(int, int)> {
    match find_from(bytes, start_marker(), 0) {
        Some(s) => match find_from(bytes, crlf(), s + start_marker().len()) {
            Some(e) => Some((s + start_marker().len(), e)),
            None => None,
        },
        None => None,
    }
}

/// What a frame decodes to: its extension, and the payload from the end of the
/// header line to the first end marker after it.
pub open spec fn decoded(frame: Seq<u8>) -> Option<(Seq<u8>, Seq<u8>)> {
    match header_span(frame) {
        Some((h, e)) => match find_from(frame, end_marker(), e + 2) {
            Some(m) => Some((frame.subrange(h, e), frame.subrange(e + 2, m))),
            None => None,
        },
        None => None,
    }
}

/// A payload that survives framing: the end marker does not start inside it,
/// nor across its end into the marker that closes the frame.
pub open spec fn frames_cleanly(payload: Seq<u8>) -> bool {
    !contains(payload + end_marker().take(13), end_marker())
}

/// The bytes `s[a..b]`, appended to `v`.
pub fn append_range(v: &mut Vec<u8>, s: &[u8], a: usize, b: usize)
    requires
        a <= b <= s@.len(),
    ensures
        final(v)@ == old(v)@ + s@.subrange(a as int, b as int),
{
    let mut k: usize = a;
    while k < b
        invariant
            a <= k <= b,
            b <= s@.len(),
            v@ == old(v)@ + s@.subrange(a as int, k as int),
        decreases b - k,
    {
        v.push(s[k]);
        assert(s@.subrange(a as int, k + 1) =~= s@.subrange(a as int, k as int).push(s@[k as int]));
        k = k + 1;
    }
}

/// The bytes `s[a..b]`.
pub fn copy_range(s: &[u8], a: usize, b: usize) -> (r: Vec<u8>)
    requires
        a <= b <= s@.len(),
    ensures
        r@ == s@.subrange(a as int, b as int),
{
    let mut r: Vec<u8> = Vec::new();
    append_range(&mut r, s, a, b);
    assert(r@ =~= s@.subrange(a as int, b as int));
    r
}

/// Frames `payload` under the extension `ext`.
pub fn encode_frame(ext: &[u8], payload: &[u8]) -> (r: Vec<u8>)
    ensures
        r@ == frame_of(ext@, payload@),
{
    let mut r = start_marker_bytes();
    append_range(&mut r, ext, 0, ext.len());
    let cr = crlf_bytes();
    append_range(&mut r, cr.as_slice(), 0, 2);
    append_range(&mut r, payload, 0, payload.len());
    let end = end_marker_bytes();
    append_range(&mut r, end.as_slice(), 0, end.len());
    assert(ext@.subrange(0, ext@.len() as int) =~= ext@);
    assert(cr@.subrange(0, 2) =~= crlf());
    assert(payload@.subrange(0, payload@.len() as int) =~= payload@);
    assert(end@.subrange(0, end@.len() as int) =~= end_marker());
    r
}

/// The extension of the file a path names, as `std::path::Path` reads it.
pub uninterp spec fn path_extension(p: Seq<char>) -> Option<Seq<char>>;

/// Relies on `std::path::Path::extension`: the text after the last dot of the
/// path's file name, if it has one.
#[verifier::external_body]
fn extension_of(path: &str) -> (r: Option<String>)
    ensures
        r matches Some(e) ==> path_extension(path@) == Some(e@),
        r is None ==> path_extension(path@) is None,
{
    std::path::Path::new(path).extension()?.to_str().map(String::from)
}

/// Frames file contents under an extension.
pub fn frame_with_extension(ext: &str, contents: &[u8]) -> (r: Vec<u8>)
    ensures
        r@ == frame_of(encode_utf8(ext@), contents@),
{
    encode_frame(ext.as_bytes(), contents)
}

/// Frames the contents of the file at `path` under the path's extension;
/// nothing where the path has none.
pub fn file_frame(path: &str, contents: &[u8]) -> (r: Option<Vec<u8>>)
    ensures
        match path_extension(path@) {
            Some(e) => r matches Some(f) && f@ == frame_of(encode_utf8(e), contents@),
            None => r is None,
        },
{
    match extension_of(path) {
        Some(ext) => Some(frame_with_extension(ext.as_str(), contents)),
        None => None,
    }
}

/// Where the first frame header in `bytes` places its extension.
pub fn find_header(bytes: &[u8]) -> (r: Option<(usize, usize)>)
    ensures
        r matches Some((h, e)) ==> header_span(bytes@) == Some((h as int, e as int)),
        r is None ==> header_span(bytes@) is None,
{
    let start = start_marker_bytes();
    let cr = crlf_bytes();
    let n = bytes.len();
    match find(bytes, start.as_slice(), 0) {
        Some(s) => {
            proof {
                lemma_find_from_some(bytes@, start@, 0, s as int);
                assert(start@.len() == 17);
            }
            let h = s + 17;
            match find(bytes, cr.as_slice(), h) {
                Some(e) => Some((h, e)),
                None => None,
            }
        },
        None => None,
    }
}

/// Splits a whole frame into its extension and its payload.
pub fn decode_frame(frame: &[u8]) -> (r: Option<(Vec<u8>, Vec<u8>)>)
    ensures
        r matches Some((x, p)) ==> decoded(frame@) == Some((x@, p@)),
        r is None ==> decoded(frame@) is None,
{
    let end = end_marker_bytes();
    let n = frame.len();
    match find_header(frame) {
        Some((h, e)) => {
            proof {
                lemma_find_from_some(frame@, crlf(), h as int, e as int);
                assert(crlf().len() == 2);
            }
            match find(frame, end.as_slice(), e + 2) {
                Some(m) => {
                    proof { lemma_find_from_some(frame@, end_marker(), e + 2, m as int); }
                    Some((copy_range(frame, h, e), copy_range(frame, e + 2, m)))
                },
                None => None,
            }
        },
        None => None,
    }
}

/// What `find_from` returns is an occurrence at or after the start, with none
/// between.
pub proof fn lemma_find_from_some<T>(hay: Seq<T>, needle: Seq<T>, from: int, k: int)
    requires
        find_from(hay, needle, from) == Some(k),
    ensures
        from <= k,
        occurs_at(hay, needle, k),
        forall|j: int| from <= j < k ==> !occurs_at(hay, needle, j),
    decreases hay.len() + 1 - from,
{
    if from < 0 || from + needle.len() > hay.len() {
    } else if hay.subrange(from, from + needle.len()) == needle {
    } else {
        lemma_find_from_some::<T>(hay, needle, from + 1, k);
    }
}

/// An occurrence with none before it, from the start on, is what `find_from`
/// returns.
pub proof fn lemma_find_from_first<T>(hay: Seq<T>, needle: Seq<T>, from: int, k: int)
    requires
        0 <= from <= k,
        occurs_at(hay, needle, k),
        forall|j: int| from <= j < k ==> !occurs_at(hay, needle, j),
    ensures
        find_from(hay, needle, from) == Some(k),
    decreases k - from,
{
    if from < k {
        assert(!occurs_at(hay, needle, from));
        lemma_find_from_first::<T>(hay, needle, from + 1, k);
    }
}

/// The header of an encoded frame spans exactly its extension.
pub proof fn lemma_header_of_frame(ext: Seq<u8>, payload: Seq<u8>)
    requires
        !contains(ext, crlf()),
    ensures
        header_span(frame_of(ext, payload)) == Some((17int, 17 + ext.len() as int)),
{
    let f = frame_of(ext, payload);
    let pre = start_marker() + ext + crlf();
    let rest = payload + end_marker();
    assert(f =~= pre + rest);
    let h = 17int;
    let e = h + ext.len() as int;
    assert(f.subrange(0, 17) =~= start_marker());
    lemma_find_from_first(f, start_marker(), 0, 0);
    assert(f.subrange(e, e + 2) =~= crlf());
    assert forall|j: int| h <= j < e implies !occurs_at(f, crlf(), j) by {
        if j + 1 < e {
            if occurs_at(f, crlf(), j) {
                assert(ext.subrange(j - h, j - h + 2) =~= f.subrange(j, j + 2));
                assert(occurs_at(ext, crlf(), j - h));
            }
        } else {
            assert(f[j + 1] == pre[j + 1]);
            assert(f.subrange(j, j + 2)[1] == f[j + 1]);
        }
    }
    lemma_find_from_first(f, crlf(), h, e);
}

/// A window into the right part of a concatenation.
proof fn lemma_subrange_right(a: Seq<u8>, b: Seq<u8>, i: int, j: int)
    requires
        a.len() <= i <= j <= a.len() + b.len(),
    ensures
        (a + b).subrange(i, j) == b.subrange(i - a.len(), j - a.len()),
{
    assert((a + b).subrange(i, j) =~= b.subrange(i - a.len(), j - a.len()));
}

/// The first end marker after the header of an encoded frame is the one that
/// closes it.
pub proof fn lemma_end_of_frame(ext: Seq<u8>, payload: Seq<u8>)
    requires
        frames_cleanly(payload),
    ensures
        find_from(frame_of(ext, payload), end_marker(), 19 + ext.len() as int) == Some(
            19 + ext.len() as int + payload.len(),
        ),
{
    let f = frame_of(ext, payload);
    let pre = start_marker() + ext + crlf();
    let rest = payload + end_marker();
    assert(f =~= pre + rest);
    let b = pre.len() as int;
    let m = b + payload.len() as int;
    lemma_subrange_right(pre, rest, m, m + 14);
    lemma_subrange_right(payload, end_marker(), payload.len() as int, payload.len() as int + 14);
    assert(end_marker().subrange(0, 14) =~= end_marker());
    let tail = payload + end_marker().take(13);
    assert(tail =~= rest.subrange(0, payload.len() as int + 13));
    assert forall|j: int| b <= j < m implies !occurs_at(f, end_marker(), j) by {
        let jj = j - b;
        lemma_subrange_right(pre, rest, j, j + 14);
        assert(rest.subrange(jj, jj + 14) =~= tail.subrange(jj, jj + 14));
        if occurs_at(f, end_marker(), j) {
            assert(occurs_at(tail, end_marker(), jj));
        }
    }
    lemma_find_from_first(f, end_marker(), b, m);
}

/// Decoding an encoded frame gives back the extension and the payload, for an
/// extension without a line terminator and a payload that the end marker does
/// not cut short.
pub proof fn lemma_round_trip(ext: Seq<u8>, payload: Seq<u8>)
    requires
        !contains(ext, crlf()),
        frames_cleanly(payload),
    ensures
        decoded(frame_of(ext, payload)) == Some((ext, payload)),
{
    let f = frame_of(ext, payload);
    lemma_header_of_frame(ext, payload);
    lemma_end_of_frame(ext, payload);
    let e = 17 + ext.len() as int;
    let m = e + 2 + payload.len() as int;
    assert(f.subrange(17, e) =~= ext);
    assert(f.subrange(e + 2, m) =~= payload);
}

} // verus!
