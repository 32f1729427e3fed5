//! Text helpers shared by the request parser, the command parser and the
//! formatters: characters of a string, equality, decimal numerals, splitting.
use vstd::prelude::*;
use vstd::string::*;
use crate::codec::find_from;

verus! {

/// The characters of `s`, in order.
pub fn chars_of(s: &str) -> (r: Vec<char>)
    ensures
        r@ == s@,
{
    let mut r: Vec<char> = Vec::new();
    for c in it: s.chars()
        invariant
            r@ == it.seq().take(it.index() as int),
    {
        r.push(c);
    }
    r
}

/// Whether two strings hold the same characters.
pub fn same_text(a: &str, b: &str) -> (r: bool)
    ensures
        r == (a@ == b@),
{
    let x: String = a.to_owned();
    let y: String = b.to_owned();
    x == y
}

/// The characters `s[a..b]` as a string of their own.
pub fn substring(s: &str, a: usize, b: usize) -> (r: String)
    requires
        a <= b <= s@.len(),
    ensures
        r@ == s@.subrange(a as int, b as int),
{
    s.substring_char(a, b).to_owned()
}

/// The numeral of a decimal digit.
pub open spec fn digit_char(d: int) -> char {
    seq!['0', '1', '2', '3', '4', '5', '6', '7', '8', '9'][d]
}

/// The decimal numeral of `n`, without leading zeros.
pub open spec fn decimal_spec(n: nat) -> Seq<char>
    decreases n,
{
    if n < 10 {
        seq![digit_char(n as int)]
    } else {
        decimal_spec(n / 10).push(digit_char((n % 10) as int))
    }
}

fn digit_str(d: u64) -> (r: &'static str)
    requires
        d < 10,
    ensures
        r@ == seq![digit_char(d as int)],
{
    proof {
        reveal_strlit("0");
        reveal_strlit("1");
        reveal_strlit("2");
        reveal_strlit("3");
        reveal_strlit("4");
        reveal_strlit("5");
        reveal_strlit("6");
        reveal_strlit("7");
        reveal_strlit("8");
        reveal_strlit("9");
    }
    let r = if d == 0 {
        "0"
    } else if d == 1 {
        "1"
    } else if d == 2 {
        "2"
    } else if d == 3 {
        "3"
    } else if d == 4 {
        "4"
    } else if d == 5 {
        "5"
    } else if d == 6 {
        "6"
    } else if d == 7 {
        "7"
    } else if d == 8 {
        "8"
    } else {
        "9"
    };
    assert(r@ =~= seq![digit_char(d as int)]);
    r
}

/// The decimal numeral of `n`.
pub fn decimal(n: u64) -> (r: String)
    ensures
        r@ == decimal_spec(n as nat),
    decreases n,
{
    if n < 10 {
        String::from_str(digit_str(n))
    } else {
        let mut r = decimal(n / 10);
        r.append(digit_str(n % 10));
        r
    }
}

/// The strings of `pieces` with `sep` between each two.
pub open spec fn joined(pieces: Seq<Seq<char>>, sep: char) -> Seq<char>
    decreases pieces.len(),
{
    if pieces.len() == 0 {
        Seq::empty()
    } else if pieces.len() == 1 {
        pieces[0]
    } else {
        joined(pieces.drop_last(), sep).push(sep) + pieces.last()
    }
}

/// `pieces` is `s` cut at every `sep`: put back together with `sep` they give
/// `s`, and none holds `sep`.
pub open spec fn is_split(pieces: Seq<Seq<char>>, s: Seq<char>, sep: char) -> bool {
    &&& pieces.len() >= 1
    &&& joined(pieces, sep) == s
    &&& forall|k: int| 0 <= k < pieces.len() ==> !(#[trigger] pieces[k]).contains(sep)
}

/// The cut of `s` at every `sep` (there is exactly one, see `lemma_split_unique`).
pub open spec fn split_of(s: Seq<char>, sep: char) -> Seq<Seq<char>> {
    choose|p: Seq<Seq<char>>| is_split(p, s, sep)
}

proof fn lemma_joined_holds_sep(pieces: Seq<Seq<char>>, sep: char)
    requires
        pieces.len() >= 2,
    ensures
        joined(pieces, sep).contains(sep),
{
    let x = joined(pieces.drop_last(), sep);
    assert((x.push(sep) + pieces.last())[x.len() as int] == sep);
}

/// A string has one cut at a separator.
pub proof fn lemma_split_unique(a: Seq<Seq<char>>, b: Seq<Seq<char>>, s: Seq<char>, sep: char)
    requires
        is_split(a, s, sep),
        is_split(b, s, sep),
    ensures
        a == b,
    decreases a.len(),
{
    if a.len() == 1 || b.len() == 1 {
        if a.len() >= 2 {
            lemma_joined_holds_sep(a, sep);
            assert(!b[0].contains(sep));
        } else if b.len() >= 2 {
            lemma_joined_holds_sep(b, sep);
            assert(!a[0].contains(sep));
        } else {
            assert(a =~= b);
        }
    } else {
        let x = joined(a.drop_last(), sep);
        let y = joined(b.drop_last(), sep);
        let la = a.last();
        let lb = b.last();
        assert(!la.contains(sep)) by {
            assert(la == a[a.len() - 1]);
        }
        assert(!lb.contains(sep)) by {
            assert(lb == b[b.len() - 1]);
        }
        assert(s == x.push(sep) + la);
        assert(s == y.push(sep) + lb);
        if la.len() < lb.len() {
            let k = lb.len() - la.len() - 1;
            assert(s[x.len() as int] == sep);
            assert(s[y.len() + 1 + k] == lb[k]);
        } else if lb.len() < la.len() {
            let k = la.len() - lb.len() - 1;
            assert(s[y.len() as int] == sep);
            assert(s[x.len() + 1 + k] == la[k]);
        }
        assert(la =~= s.subrange(s.len() - la.len(), s.len() as int));
        assert(lb =~= s.subrange(s.len() - lb.len(), s.len() as int));
        assert(x =~= s.subrange(0, x.len() as int));
        assert(y =~= s.subrange(0, y.len() as int));
        assert forall|k: int| 0 <= k < a.drop_last().len() implies !(
        #[trigger] a.drop_last()[k]).contains(sep) by {
            assert(a.drop_last()[k] == a[k]);
        }
        assert forall|k: int| 0 <= k < b.drop_last().len() implies !(
        #[trigger] b.drop_last()[k]).contains(sep) by {
            assert(b.drop_last()[k] == b[k]);
        }
        lemma_split_unique(a.drop_last(), b.drop_last(), x, sep);
        assert(a =~= a.drop_last().push(la));
        assert(b =~= b.drop_last().push(lb));
    }
}

/// The characters of each string.
pub open spec fn texts(v: Seq<String>) -> Seq<Seq<char>> {
    v.map_values(|p: String| p@)
}

proof fn lemma_joined_extend(pieces: Seq<Seq<char>>, cur: Seq<char>, c: char, sep: char)
    ensures
        joined(pieces.push(cur.push(c)), sep) == joined(pieces.push(cur), sep).push(c),
{
    let a = pieces.push(cur.push(c));
    let b = pieces.push(cur);
    assert(a.drop_last() =~= pieces);
    assert(b.drop_last() =~= pieces);
    if pieces.len() == 0 {
    } else {
        assert(joined(pieces, sep).push(sep) + cur.push(c) =~= (joined(pieces, sep).push(sep)
            + cur).push(c));
    }
}

proof fn lemma_joined_cut(pieces: Seq<Seq<char>>, cur: Seq<char>, sep: char)
    ensures
        joined(pieces.push(cur).push(Seq::empty()), sep) == joined(pieces.push(cur), sep).push(sep),
{
    let a = pieces.push(cur).push(Seq::<char>::empty());
    assert(a.drop_last() =~= pieces.push(cur));
    assert(joined(pieces.push(cur), sep).push(sep) + Seq::<char>::empty() =~= joined(
        pieces.push(cur),
        sep,
    ).push(sep));
}

/// `s` cut at every `sep`.
pub fn split_on(s: &str, sep: char) -> (r: Vec<String>)
    ensures
        texts(r@) == split_of(s@, sep),
        is_split(texts(r@), s@, sep),
{
    let chars = chars_of(s);
    let n = chars.len();
    let mut pieces: Vec<String> = Vec::new();
    let mut start: usize = 0;
    let mut i: usize = 0;
    while i < n
        invariant
            n == chars@.len(),
            chars@ == s@,
            start <= i <= n,
            joined(texts(pieces@).push(s@.subrange(start as int, i as int)), sep) == s@.subrange(
                0,
                i as int,
            ),
            forall|k: int| 0 <= k < pieces@.len() ==> !(#[trigger] texts(pieces@)[k]).contains(sep),
            !s@.subrange(start as int, i as int).contains(sep),
        decreases n - i,
    {
        let ghost cur = s@.subrange(start as int, i as int);
        let ghost before = texts(pieces@);
        if chars[i] == sep {
            let piece = substring(s, start, i);
            pieces.push(piece);
            proof {
                assert(texts(pieces@) =~= before.push(cur));
                lemma_joined_cut(before, cur, sep);
                assert(s@.subrange(i + 1, i + 1) =~= Seq::<char>::empty());
                assert(s@.subrange(0, i + 1) =~= s@.subrange(0, i as int).push(sep));
                assert forall|k: int| 0 <= k < pieces@.len() implies !(#[trigger] texts(
                    pieces@,
                )[k]).contains(sep) by {
                    if k < before.len() {
                        assert(texts(pieces@)[k] == before[k]);
                    }
                }
            }
            start = i + 1;
        } else {
            proof {
                lemma_joined_extend(before, cur, chars@[i as int], sep);
                assert(s@.subrange(start as int, i + 1) =~= cur.push(chars@[i as int]));
                assert(s@.subrange(0, i + 1) =~= s@.subrange(0, i as int).push(chars@[i as int]));
                let nxt = s@.subrange(start as int, i + 1);
                assert forall|j: int| 0 <= j < nxt.len() implies nxt[j] != sep by {
                    if j < cur.len() {
                        assert(nxt[j] == cur[j]);
                    }
                }
            }
        }
        i = i + 1;
    }
    let last = substring(s, start, n);
    let ghost before = texts(pieces@);
    pieces.push(last);
    proof {
        assert(texts(pieces@) =~= before.push(s@.subrange(start as int, n as int)));
        assert(s@.subrange(0, n as int) =~= s@);
        assert forall|k: int| 0 <= k < pieces@.len() implies !(#[trigger] texts(pieces@)[k]).contains(
            sep,
        ) by {
            if k < before.len() {
                assert(texts(pieces@)[k] == before[k]);
            }
        }
        assert(is_split(texts(pieces@), s@, sep));
        lemma_split_unique(texts(pieces@), split_of(s@, sep), s@, sep);
    }
    pieces
}

/// ASCII white space: space, tab, line feed, form feed, carriage return.
pub open spec fn is_white(c: char) -> bool {
    c == ' ' || c == '\t' || c == '\n' || c == '\x0C' || c == '\r'
}

/// The words of `s`: its maximal non-empty runs of characters that are not
/// white space, in order.
pub open spec fn words(s: Seq<char>) -> Seq<Seq<char>>
    decreases s.len(),
{
    if s.len() == 0 {
        Seq::empty()
    } else {
        let w = words(s.drop_last());
        let c = s.last();
        if is_white(c) {
            w
        } else if s.len() >= 2 && !is_white(s[s.len() - 2]) && w.len() > 0 {
            w.drop_last().push(w.last().push(c))
        } else {
            w.push(seq![c])
        }
    }
}

/// The spans of `pieces` in `s`, as text.
pub open spec fn span_texts(s: Seq<char>, spans: Seq<(usize, usize)>) -> Seq<Seq<char>> {
    spans.map_values(|p: (usize, usize)| s.subrange(p.0 as int, p.1 as int))
}

proof fn lemma_words_nonempty_after_word(s: Seq<char>)
    requires
        s.len() >= 1,
        !is_white(s.last()),
    ensures
        words(s).len() > 0,
{
    let w = words(s.drop_last());
    if s.len() >= 2 && !is_white(s[s.len() - 2]) && w.len() > 0 {
        assert(w.drop_last().push(w.last().push(s.last())).len() > 0);
    }
}

/// The words of `s`.
pub fn words_of(s: &str) -> (r: Vec<String>)
    ensures
        texts(r@) == words(s@),
{
    let chars = chars_of(s);
    let n = chars.len();
    let mut spans: Vec<(usize, usize)> = Vec::new();
    let mut i: usize = 0;
    while i < n
        invariant
            n == chars@.len(),
            chars@ == s@,
            i <= n,
            span_texts(s@, spans@) == words(s@.take(i as int)),
            forall|k: int| 0 <= k < spans@.len() ==> (#[trigger] spans@[k]).0 <= spans@[k].1 <= i,
            i > 0 && !is_white(s@[i - 1]) ==> spans@.len() > 0 && spans@.last().1 == i,
        decreases n - i,
    {
        let c = chars[i];
        let ghost t = s@.take(i + 1);
        assert(t.drop_last() =~= s@.take(i as int));
        assert(t.last() == c);
        let ghost before = spans@;
        if c == ' ' || c == '\t' || c == '\n' || c == '\x0C' || c == '\r' {
        } else if i > 0 && !(chars[i - 1] == ' ' || chars[i - 1] == '\t' || chars[i - 1] == '\n'
            || chars[i - 1] == '\x0C' || chars[i - 1] == '\r') {
            let last = spans.len() - 1;
            let a = spans[last].0;
            proof {
                lemma_words_nonempty_after_word(s@.take(i as int));
                assert(t[t.len() - 2] == s@[i - 1]);
            }
            spans.set(last, (a, i + 1));
            proof {
                let w = words(s@.take(i as int));
                assert(s@.subrange(a as int, i + 1) =~= s@.subrange(a as int, i as int).push(c));
                assert(span_texts(s@, spans@) =~= w.drop_last().push(w.last().push(c)));
            }
        } else {
            spans.push((i, i + 1));
            proof {
                if i > 0 {
                    assert(t[t.len() - 2] == s@[i - 1]);
                }
                assert(s@.subrange(i as int, i + 1) =~= seq![c]);
                assert(span_texts(s@, spans@) =~= span_texts(s@, before).push(seq![c]));
            }
        }
        i = i + 1;
    }
    assert(s@.take(n as int) =~= s@);
    let mut r: Vec<String> = Vec::new();
    let mut k: usize = 0;
    while k < spans.len()
        invariant
            n == s@.len(),
            k <= spans@.len(),
            forall|j: int| 0 <= j < spans@.len() ==> (#[trigger] spans@[j]).0 <= spans@[j].1 <= n,
            texts(r@) == span_texts(s@, spans@).take(k as int),
        decreases spans@.len() - k,
    {
        let (a, b) = spans[k];
        let piece = substring(s, a, b);
        let ghost before = r@;
        r.push(piece);
        assert(span_texts(s@, spans@)[k as int] == s@.subrange(a as int, b as int));
        assert(texts(r@) =~= texts(before).push(piece@));
        assert(span_texts(s@, spans@).take(k + 1) =~= span_texts(s@, spans@).take(k as int).push(
            span_texts(s@, spans@)[k as int],
        ));
        k = k + 1;
    }
    assert(span_texts(s@, spans@).take(spans@.len() as int) =~= span_texts(s@, spans@));
    r
}

/// The line terminator.
pub open spec fn line_break() -> Seq<char> {
    seq!['\r', '\n']
}

/// Where the first line terminator in `s` stands.
pub fn find_line_break(s: &Vec<char>) -> (r: Option<usize>)
    ensures
        r matches Some(i) ==> find_from(s@, line_break(), 0) == Some(i as int),
        r is None ==> find_from(s@, line_break(), 0) is None,
{
    let n = s.len();
    let mut i: usize = 0;
    while i < n && n - i >= 2
        invariant
            n == s@.len(),
            find_from(s@, line_break(), 0) == find_from(s@, line_break(), i as int),
        decreases n - i,
    {
        if s[i] == '\r' && s[i + 1] == '\n' {
            assert(s@.subrange(i as int, i + 2) =~= line_break());
            return Some(i);
        }
        assert(s@.subrange(i as int, i + 2)[0] == s@[i as int]);
        assert(s@.subrange(i as int, i + 2)[1] == s@[i + 1]);
        i = i + 1;
    }
    None
}


/// A decimal digit character.
pub open spec fn is_digit(c: char) -> bool {
    '0' <= c && c <= '9'
}

/// The value of a digit character.
pub open spec fn digit_value(c: char) -> int {
    c as int - '0' as int
}

/// One or more decimal digits.
pub open spec fn is_numeral(s: Seq<char>) -> bool {
    s.len() >= 1 && forall|i: int| 0 <= i < s.len() ==> is_digit(#[trigger] s[i])
}

/// The value of a string of decimal digits.
pub open spec fn numeral_value(s: Seq<char>) -> int
    decreases s.len(),
{
    if s.len() == 0 {
        0
    } else {
        numeral_value(s.drop_last()) * 10 + digit_value(s.last())
    }
}

/// The digits of an unsigned numeral, after an optional leading `+`.
pub open spec fn unsigned_digits(s: Seq<char>) -> Seq<char> {
    if s.len() > 0 && s[0] == '+' {
        s.drop_first()
    } else {
        s
    }
}

/// What reading `s` as an unsigned integer not above `max` gives: digits only
/// (after an optional `+`), and a value in range.
pub open spec fn unsigned_value(s: Seq<char>, max: int) -> Option<int> {
    let d = unsigned_digits(s);
    if is_numeral(d) && numeral_value(d) <= max {
        Some(numeral_value(d))
    } else {
        None
    }
}

proof fn lemma_numeral_grows(s: Seq<char>, k: int)
    requires
        0 <= k <= s.len(),
        forall|i: int| 0 <= i < s.len() ==> is_digit(#[trigger] s[i]),
    ensures
        numeral_value(s.take(k)) <= numeral_value(s),
        0 <= numeral_value(s),
    decreases s.len(),
{
    if s.len() > 0 {
        let t = s.drop_last();
        assert forall|i: int| 0 <= i < t.len() implies is_digit(#[trigger] t[i]) by {
            assert(t[i] == s[i]);
        }
        assert(is_digit(s[s.len() - 1]));
        if k < s.len() {
            assert(s.take(k) =~= t.take(k));
            lemma_numeral_grows(t, k);
        } else {
            assert(s.take(k) =~= s);
            lemma_numeral_grows(t, 0);
        }
    } else {
        assert(s.take(k) =~= s);
    }
}

/// Reads `s` as an unsigned integer no larger than `max`.
pub fn parse_unsigned(s: &str, max: u64) -> (r: Option<u64>)
    ensures
        r matches Some(v) ==> unsigned_value(s@, max as int) == Some(v as int),
        r is None ==> unsigned_value(s@, max as int) is None,
{
    let chars = chars_of(s);
    let n = chars.len();
    let start: usize = if n > 0 && chars[0] == '+' {
        1
    } else {
        0
    };
    let ghost d = unsigned_digits(s@);
    assert(d =~= s@.subrange(start as int, n as int));
    if start >= n {
        return None;
    }
    let mut value: u64 = 0;
    let mut i: usize = start;
    while i < n
        invariant
            n == chars@.len(),
            chars@ == s@,
            start <= i <= n,
            d == s@.subrange(start as int, n as int),
            d == unsigned_digits(s@),
            forall|j: int| 0 <= j < i - start ==> is_digit(#[trigger] d[j]),
            value as int == numeral_value(d.take(i - start)),
            value <= max,
        decreases n - i,
    {
        let c = chars[i];
        if !('0' <= c && c <= '9') {
            assert(d[i - start] == c);
            assert(!is_digit(d[i - start]));
            return None;
        }
        let ghost k = i - start;
        assert(d.take(k + 1).drop_last() =~= d.take(k));
        assert(d.take(k + 1).last() == c);
        let digit: u64 = (c as u64) - ('0' as u64);
        let next = match value.checked_mul(10) {
            Some(t) => t.checked_add(digit),
            None => None,
        };
        match next {
            Some(v) if v <= max => {
                value = v;
            },
            _ => {
                proof {
                    assert(numeral_value(d.take(k + 1)) == value * 10 + digit);
                    assert(numeral_value(d.take(k + 1)) > max);
                    assert forall|j: int| 0 <= j < k + 1 implies is_digit(#[trigger] d.take(k + 1)[j]) by {
                        if j < k {
                            assert(d.take(k + 1)[j] == d[j]);
                        }
                    }
                    if is_numeral(d) {
                        lemma_numeral_grows(d, k + 1);
                    }
                }
                return None;
            },
        }
        i = i + 1;
    }
    assert(d.take(n - start) =~= d);
    Some(value)
}


/// What decoding bytes as UTF-8, with each invalid sequence replaced by
/// U+FFFD, gives.
pub uninterp spec fn utf8_lossy(b: Seq<u8>) -> Seq<char>;

/// Relies on `String::from_utf8_lossy`: the bytes as text, invalid sequences
/// replaced; valid UTF-8 is decoded as it stands, and no bytes give no text.
#[verifier::external_body]
pub(crate) fn lossy_text(b: &[u8]) -> (r: String)
    ensures
        r@ == utf8_lossy(b@),
        vstd::utf8::valid_utf8(b@) ==> r@ == vstd::utf8::decode_utf8(b@),
        b@.len() == 0 ==> r@.len() == 0,
{
    String::from_utf8_lossy(b).into_owned()
}

/// The time format of log lines and file names.
pub open spec fn stamp_format() -> Seq<char> {
    "%Y-%m-%d %H:%M:%S"@
}

/// The time format of the `date` header (RFC 2822).
pub open spec fn rfc2822_format() -> Seq<char> {
    "%a, %-d %b %Y %H:%M:%S %z"@
}

/// Relies on chrono's `Local::now` and `DateTime::format`: the local time now,
/// written in the format `fmt`, one of the two above, whose items chrono
/// formats without error. Nothing is stated of it: it is the time.
#[verifier::external_body]
pub(crate) fn local_time(fmt: &str) -> (r: String)
    requires
        fmt@ == stamp_format() || fmt@ == rfc2822_format(),
{
    chrono::Local::now().format(fmt).to_string()
}

/// The local time now, as log lines write it.
pub(crate) fn local_timestamp() -> String {
    local_time("%Y-%m-%d %H:%M:%S")
}

/// `s` with every character of `from` replaced by `to`.
pub open spec fn replace_all(s: Seq<char>, from: Seq<char>, to: char) -> Seq<char> {
    s.map_values(|c: char| if from.contains(c) { to } else { c })
}


/// Each line followed by a line terminator.
pub open spec fn terminated_lines(h: Seq<Seq<char>>) -> Seq<char>
    decreases h.len(),
{
    if h.len() == 0 {
        Seq::empty()
    } else {
        terminated_lines(h.drop_last()) + h.last() + "\r\n"@
    }
}

/// Appends each line of `lines` to `r`, each followed by a line terminator.
pub fn append_lines(r: &mut String, lines: &[String])
    ensures
        final(r)@ == old(r)@ + terminated_lines(texts(lines@)),
{
    let ghost top = r@;
    let mut i: usize = 0;
    while i < lines.len()
        invariant
            i <= lines@.len(),
            r@ == top + terminated_lines(texts(lines@).take(i as int)),
        decreases lines@.len() - i,
    {
        let ghost h = texts(lines@);
        assert(h.take(i + 1).drop_last() =~= h.take(i as int));
        assert(h.take(i + 1).last() == lines@[i as int]@);
        r.append(lines[i].as_str());
        r.append("\r\n");
        assert(r@ =~= top + terminated_lines(h.take(i + 1)));
        i = i + 1;
    }
    assert(texts(lines@).take(lines@.len() as int) =~= texts(lines@));
}

/// Unicode white space (the White_Space property), as `char::is_whitespace`
/// and `str::trim` read it.
pub open spec fn is_unicode_white(c: char) -> bool {
    ||| ('\u{9}' <= c && c <= '\u{d}')
    ||| c == ' '
    ||| c == '\u{85}'
    ||| c == '\u{a0}'
    ||| c == '\u{1680}'
    ||| ('\u{2000}' <= c && c <= '\u{200a}')
    ||| c == '\u{2028}'
    ||| c == '\u{2029}'
    ||| c == '\u{202f}'
    ||| c == '\u{205f}'
    ||| c == '\u{3000}'
}

fn unicode_white(c: char) -> (r: bool)
    ensures
        r == is_unicode_white(c),
{
    ('\u{9}' <= c && c <= '\u{d}') || c == ' ' || c == '\u{85}' || c == '\u{a0}' || c == '\u{1680}'
        || ('\u{2000}' <= c && c <= '\u{200a}') || c == '\u{2028}' || c == '\u{2029}' || c
        == '\u{202f}' || c == '\u{205f}' || c == '\u{3000}'
}

/// The first character at or after `from` that is not white space, or the end.
pub open spec fn first_non_white(s: Seq<char>, from: int) -> int
    decreases s.len() - from,
{
    if from < 0 || from >= s.len() {
        s.len() as int
    } else if !is_unicode_white(s[from]) {
        from
    } else {
        first_non_white(s, from + 1)
    }
}

/// Just past the last character before `upto` that is not white space, or the
/// start.
pub open spec fn non_white_end(s: Seq<char>, upto: int) -> int
    decreases upto,
{
    if upto <= 0 || upto > s.len() {
        0
    } else if !is_unicode_white(s[upto - 1]) {
        upto
    } else {
        non_white_end(s, upto - 1)
    }
}

/// `s` without leading and trailing white space.
pub open spec fn trimmed(s: Seq<char>) -> Seq<char> {
    let a = first_non_white(s, 0);
    if a >= s.len() {
        Seq::empty()
    } else {
        s.subrange(a, non_white_end(s, s.len() as int))
    }
}

proof fn lemma_non_white_end_after(s: Seq<char>, a: int, upto: int)
    requires
        0 <= a < upto <= s.len(),
        !is_unicode_white(s[a]),
    ensures
        a < non_white_end(s, upto) <= upto,
    decreases upto,
{
    if is_unicode_white(s[upto - 1]) {
        lemma_non_white_end_after(s, a, upto - 1);
    }
}

/// `s` without leading and trailing white space, as `str::trim` gives it.
pub fn trim_text(s: &str) -> (r: String)
    ensures
        r@ == trimmed(s@),
{
    let chars = chars_of(s);
    let n = chars.len();
    let mut a: usize = 0;
    while a < n && unicode_white(chars[a])
        invariant
            n == s@.len(),
            chars@ == s@,
            a <= n,
            first_non_white(s@, 0) == first_non_white(s@, a as int),
        decreases n - a,
    {
        a = a + 1;
    }
    if a >= n {
        return String::new();
    }
    let mut z: usize = n;
    while z > 0 && unicode_white(chars[z - 1])
        invariant
            n == s@.len(),
            chars@ == s@,
            z <= n,
            non_white_end(s@, n as int) == non_white_end(s@, z as int),
        decreases z,
    {
        z = z - 1;
    }
    proof { lemma_non_white_end_after(s@, a as int, n as int); }
    substring(s, a, z)
}

/// The text of a boolean.
pub open spec fn bool_text(b: bool) -> Seq<char> {
    if b {
        "true"@
    } else {
        "false"@
    }
}

pub fn bool_string(b: bool) -> (r: String)
    ensures
        r@ == bool_text(b),
{
    if b {
        String::from_str("true")
    } else {
        String::from_str("false")
    }
}

} // verus!
