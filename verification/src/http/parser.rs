//! HTTP/1.1 request parsing: the request line, the query string, URL
//! decoding, the header block, and the decisions taken while the head and
//! the body of a request are read from a connection.

use vstd::prelude::*;
use vstd::utf8::{valid_utf8, decode_utf8, encode_utf8};
use crate::error::{FastError, is_http_error};
use crate::http::request::{Method, Request, method_of_token};
use crate::strmap::StrMap;
use crate::text::{spec_to_lowercase, spec_to_uppercase, trim};

verus! {

/// The most bytes that the head of a request may take.
pub const MAX_HEADER_SIZE: usize = 8192;

/// The most bytes that a request body may announce.
pub const MAX_BODY_SIZE: usize = 33554432;

// ── searching and splitting ─────────────────────────────────────────────────

/// The index of the first `x` in `s`, or the length of `s` when there is none.
pub open spec fn first_index<T>(s: Seq<T>, x: T) -> int
    decreases s.len(),
{
    if s.len() == 0 {
        0
    } else if s[0] == x {
        0
    } else {
        1 + first_index(s.drop_first(), x)
    }
}

/// Where the first occurrence lies.
pub proof fn lemma_first_index<T>(s: Seq<T>, x: T)
    ensures
        0 <= first_index(s, x) <= s.len(),
        first_index(s, x) < s.len() ==> s[first_index(s, x)] == x,
        forall|j: int| 0 <= j < first_index(s, x) ==> s[j] != x,
    decreases s.len(),
{
    if s.len() > 0 && s[0] != x {
        lemma_first_index(s.drop_first(), x);
        assert forall|j: int| 0 <= j < first_index(s, x) implies s[j] != x by {
            if j > 0 {
                assert(s[j] == s.drop_first()[j - 1]);
            }
        }
    }
}

proof fn lemma_first_index_at<T>(s: Seq<T>, x: T, i: int)
    requires
        0 <= i <= s.len(),
        forall|j: int| 0 <= j < i ==> s[j] != x,
        i < s.len() ==> s[i] == x,
    ensures
        first_index(s, x) == i,
    decreases i,
{
    if i > 0 {
        lemma_first_index_at(s.drop_first(), x, i - 1);
    }
}

/// Finds the first `x` in `v[from..to]`; returns its index, or `to`.
pub(crate) fn find_char(v: &Vec<char>, from: usize, to: usize, x: char) -> (r: usize)
    requires
        from <= to <= v@.len(),
    ensures
        from <= r <= to,
        r - from == first_index(v@.subrange(from as int, to as int), x),
{
    let mut i = from;
    while i < to && v[i] != x
        invariant
            from <= i <= to,
            to <= v@.len(),
            forall|j: int| from <= j < i ==> v@[j] != x,
        decreases to - i,
    {
        i += 1;
    }
    proof {
        lemma_first_index_at(v@.subrange(from as int, to as int), x, i - from);
    }
    i
}

/// Finds the first `x` in `v[from..to]`; returns its index, or `to`.
pub(crate) fn find_byte(v: &[u8], from: usize, to: usize, x: u8) -> (r: usize)
    requires
        from <= to <= v@.len(),
    ensures
        from <= r <= to,
        r - from == first_index(v@.subrange(from as int, to as int), x),
{
    let mut i = from;
    while i < to && v[i] != x
        invariant
            from <= i <= to,
            to <= v@.len(),
            forall|j: int| from <= j < i ==> v@[j] != x,
        decreases to - i,
    {
        i += 1;
    }
    proof {
        lemma_first_index_at(v@.subrange(from as int, to as int), x, i - from);
    }
    i
}

/// The pieces of `s` between the occurrences of `x`.
pub open spec fn split_on<T>(s: Seq<T>, x: T) -> Seq<Seq<T>>
    decreases s.len(),
{
    let i = first_index(s, x);
    if i >= s.len() {
        seq![s]
    } else {
        proof {
            lemma_first_index(s, x);
        }
        seq![s.take(i)] + split_on(s.skip(i + 1), x)
    }
}

/// Whether `s` holds `\r\n` at `i`.
pub open spec fn crlf_at(s: Seq<char>, i: int) -> bool {
    0 <= i && i + 1 < s.len() && s[i] == '\r' && s[i + 1] == '\n'
}

/// The index of the first `\r\n` in `s`, or the length of `s` when there is none.
pub open spec fn line_end(s: Seq<char>) -> int
    decreases s.len(),
{
    if s.len() < 2 {
        s.len() as int
    } else if s[0] == '\r' && s[1] == '\n' {
        0
    } else {
        1 + line_end(s.drop_first())
    }
}

proof fn lemma_line_end_at(s: Seq<char>, i: int)
    requires
        0 <= i <= s.len(),
        forall|j: int| 0 <= j < i ==> !crlf_at(s, j),
        i < s.len() ==> crlf_at(s, i),
        i == s.len() || crlf_at(s, i),
    ensures
        line_end(s) == i,
    decreases i,
{
    if s.len() < 2 {
        if i < s.len() {
            assert(crlf_at(s, i));
        }
    } else if i > 0 {
        assert(!crlf_at(s, 0));
        assert forall|j: int| 0 <= j < i - 1 implies !crlf_at(s.drop_first(), j) by {
            assert(!crlf_at(s, j + 1));
        }
        if i - 1 < s.drop_first().len() {
            assert(crlf_at(s, i));
        }
        lemma_line_end_at(s.drop_first(), i - 1);
    }
}

/// The lines of `s`, split at each `\r\n`.
pub open spec fn split_lines(s: Seq<char>) -> Seq<Seq<char>>
    decreases s.len(),
{
    let e = line_end(s);
    if e >= s.len() {
        seq![s]
    } else {
        proof {
            lemma_line_end_bounds(s);
        }
        seq![s.take(e)] + split_lines(s.skip(e + 2))
    }
}

/// Where the first line ends.
pub proof fn lemma_line_end_bounds(s: Seq<char>)
    ensures
        0 <= line_end(s) <= s.len(),
        line_end(s) < s.len() ==> line_end(s) + 1 < s.len(),
    decreases s.len(),
{
    if s.len() >= 2 && !(s[0] == '\r' && s[1] == '\n') {
        lemma_line_end_bounds(s.drop_first());
    }
}

/// Finds the first `\r\n` in `v[from..]`; returns its index, or the length of `v`.
fn find_line_end(v: &Vec<char>, from: usize) -> (r: usize)
    requires
        from <= v@.len(),
    ensures
        from <= r <= v@.len(),
        r < v@.len() ==> r + 1 < v@.len(),
        r - from == line_end(v@.skip(from as int)),
{
    let n = v.len();
    let mut i = from;
    while i < n && n - i >= 2 && !(v[i] == '\r' && v[i + 1] == '\n')
        invariant
            from <= i <= n,
            n == v@.len(),
            forall|j: int| from <= j < i ==> !crlf_at(v@, j),
        decreases n - i,
    {
        i += 1;
    }
    let r = if i < n && n - i >= 2 {
        i
    } else {
        n
    };
    proof {
        let s = v@.skip(from as int);
        assert forall|j: int| 0 <= j < r - from implies !crlf_at(s, j) by {
            assert(!crlf_at(v@, j + from));
        }
        lemma_line_end_at(s, r - from);
    }
    r
}

// ── URL decoding ────────────────────────────────────────────────────────────

/// The value of a hexadecimal digit.
pub open spec fn hex_value(b: u8) -> Option<int> {
    if 48 <= b <= 57 {
        Some(b - 48)
    } else if 97 <= b <= 102 {
        Some(b - 87)
    } else if 65 <= b <= 70 {
        Some(b - 55)
    } else {
        None
    }
}

/// The byte that `%xy` stands for, as `u8::from_str_radix` reads the two
/// characters in base 16 (it also accepts a `+` sign before one digit).
pub open spec fn percent_value(x: u8, y: u8) -> Option<u8> {
    if x == 43 {
        match hex_value(y) {
            Some(v) => Some(v as u8),
            None => None,
        }
    } else {
        match (hex_value(x), hex_value(y)) {
            (Some(a), Some(b)) => Some((a * 16 + b) as u8),
            _ => None,
        }
    }
}

/// URL decoding: `+` becomes a space, `%xy` becomes the byte `xy`, and every
/// other byte stands for the character with that code.
pub open spec fn url_decode_spec(b: Seq<u8>) -> Seq<char>
    decreases b.len(),
{
    if b.len() == 0 {
        Seq::empty()
    } else if b[0] == 43 {
        seq![' '] + url_decode_spec(b.drop_first())
    } else if b[0] == 37 && b.len() > 2 && percent_value(b[1], b[2]) is Some {
        seq![(percent_value(b[1], b[2])->Some_0 as u32) as char] + url_decode_spec(b.skip(3))
    } else {
        seq![(b[0] as u32) as char] + url_decode_spec(b.drop_first())
    }
}

pub(crate) fn hex_digit(b: u8) -> (r: Option<u8>)
    ensures
        match r {
            Some(v) => hex_value(b) == Some(v as int),
            None => hex_value(b) is None,
        },
{
    if 48 <= b && b <= 57 {
        Some(b - 48)
    } else if 97 <= b && b <= 102 {
        Some(b - 87)
    } else if 65 <= b && b <= 70 {
        Some(b - 55)
    } else {
        None
    }
}

fn percent_byte(x: u8, y: u8) -> (r: Option<u8>)
    ensures
        r == percent_value(x, y),
{
    if x == 43 {
        match hex_digit(y) {
            Some(v) => Some(v),
            None => None,
        }
    } else {
        match (hex_digit(x), hex_digit(y)) {
            (Some(a), Some(b)) => Some(a * 16 + b),
            _ => None,
        }
    }
}

/// URL-decodes `b[from..to]`.
pub fn url_decode(b: &[u8], from: usize, to: usize) -> (r: String)
    requires
        from <= to <= b@.len(),
    ensures
        r@ == url_decode_spec(b@.subrange(from as int, to as int)),
{
    let mut out = String::new();
    let mut i = from;
    while i < to
        invariant
            from <= i <= to,
            to <= b@.len(),
            url_decode_spec(b@.subrange(from as int, to as int)) == out@ + url_decode_spec(
                b@.subrange(i as int, to as int),
            ),
        decreases to - i,
    {
        let ghost s = b@.subrange(i as int, to as int);
        let ghost before = out@;
        if b[i] == 43 {
            crate::text::push_char(&mut out, ' ');
            assert(s.drop_first() =~= b@.subrange(i + 1, to as int));
            i += 1;
        } else if b[i] == 37 && to - i > 2 && percent_byte(b[i + 1], b[i + 2]).is_some() {
            let v = percent_byte(b[i + 1], b[i + 2]).unwrap();
            crate::text::push_char(&mut out, v as char);
            assert(s.skip(3) =~= b@.subrange(i + 3, to as int));
            i += 3;
        } else {
            crate::text::push_char(&mut out, b[i] as char);
            assert(s.drop_first() =~= b@.subrange(i + 1, to as int));
            i += 1;
        }
        assert(out@ + url_decode_spec(b@.subrange(i as int, to as int)) =~= before
            + url_decode_spec(s));
    }
    assert(b@.subrange(to as int, to as int) =~= Seq::<u8>::empty());
    assert(out@ =~= out@ + url_decode_spec(Seq::<u8>::empty()));
    out
}

/// Whether `d` is the value of the hexadecimal digit `x`, in either case:
/// `0`-`9`, `a`-`f` or `A`-`F`.
pub open spec fn is_hex_digit_of(x: u8, d: int) -> bool {
    ||| 48 <= x <= 57 && d == x - 48
    ||| 97 <= x <= 102 && d == x - 87
    ||| 65 <= x <= 70 && d == x - 55
}

/// A percent escape `%xy` whose two characters are hexadecimal digits, in
/// upper or lower case, decodes to the one character whose code is the
/// byte they write, and decoding goes on after it.
pub proof fn law_percent_escape_decodes(x: u8, y: u8, dx: int, dy: int, rest: Seq<u8>)
    requires
        is_hex_digit_of(x, dx),
        is_hex_digit_of(y, dy),
    ensures
        url_decode_spec(seq![37u8, x, y] + rest) == seq![((16 * dx + dy) as u8 as u32) as char]
            + url_decode_spec(rest),
{
    let b = seq![37u8, x, y] + rest;
    assert(b[0] == 37 && b[1] == x && b[2] == y);
    assert(b.skip(3) =~= rest);
}

/// A `+` decodes to a space, and any other byte that does not start a
/// percent escape decodes to the character with its code.
pub proof fn law_plain_byte_decodes(c: u8, rest: Seq<u8>)
    requires
        c != 37,
    ensures
        url_decode_spec(seq![c] + rest) == if c == 43 {
            seq![' '] + url_decode_spec(rest)
        } else {
            seq![(c as u32) as char] + url_decode_spec(rest)
        },
{
    let b = seq![c] + rest;
    assert(b[0] == c);
    assert(b.drop_first() =~= rest);
}

// ── query strings ───────────────────────────────────────────────────────────

/// The parameters after reading one `key=value` pair of a query string: a
/// pair without `=` is a key with an empty value, and an empty pair is
/// skipped. A later pair with the same key wins.
pub open spec fn add_query_pair(m: Map<Seq<char>, Seq<char>>, pair: Seq<u8>) -> Map<Seq<char>, Seq<char>> {
    let eq = first_index(pair, 61u8);
    if eq < pair.len() {
        m.insert(url_decode_spec(pair.take(eq)), url_decode_spec(pair.skip(eq + 1)))
    } else if pair.len() > 0 {
        m.insert(url_decode_spec(pair), Seq::empty())
    } else {
        m
    }
}

/// The parameters after reading the pairs in order.
pub open spec fn query_fold(pairs: Seq<Seq<u8>>, m: Map<Seq<char>, Seq<char>>) -> Map<Seq<char>, Seq<char>>
    decreases pairs.len(),
{
    if pairs.len() == 0 {
        m
    } else {
        query_fold(pairs.drop_first(), add_query_pair(m, pairs[0]))
    }
}

/// The parameters of a query string (its bytes): `&`-separated pairs.
pub open spec fn query_spec(b: Seq<u8>) -> Map<Seq<char>, Seq<char>> {
    query_fold(split_on(b, 38u8), Map::empty())
}

/// Reads the query string `b[from..to]`.
pub fn parse_query_string(b: &[u8], from: usize, to: usize) -> (m: StrMap<String>)
    requires
        from <= to <= b@.len(),
    ensures
        m@ == query_spec(b@.subrange(from as int, to as int)),
{
    let ghost goal = query_spec(b@.subrange(from as int, to as int));
    let mut m: StrMap<String> = StrMap::new();
    let mut pos = from;
    let mut more = true;
    while more
        invariant
            from <= pos <= to,
            to <= b@.len(),
            more ==> query_fold(split_on(b@.subrange(pos as int, to as int), 38u8), m@) == goal,
            !more ==> m@ == goal,
        decreases (if more {
            to - pos + 1
        } else {
            0
        }),
    {
        let ghost s = b@.subrange(pos as int, to as int);
        let amp = find_byte(b, pos, to, 38u8);
        let ghost piece = b@.subrange(pos as int, amp as int);
        proof {
            lemma_first_index(s, 38u8);
            assert(s.take(amp - pos) =~= piece);
        }
        let ghost before = m@;
        let eq = find_byte(b, pos, amp, 61u8);
        if eq < amp {
            let k = url_decode(b, pos, eq);
            let v = url_decode(b, eq + 1, amp);
            proof {
                assert(piece.take(eq - pos) =~= b@.subrange(pos as int, eq as int));
                assert(piece.skip(eq - pos + 1) =~= b@.subrange(eq + 1, amp as int));
            }
            m.insert(k, v);
        } else if amp > pos {
            let k = url_decode(b, pos, amp);
            let v = String::new();
            m.insert(k, v);
        }
        assert(m@ == add_query_pair(before, piece));
        if amp >= to {
            more = false;
            assert(piece =~= s);
            assert(split_on(s, 38u8) == seq![s]);
            assert(query_fold(seq![s], before) == query_fold(
                seq![s].drop_first(),
                add_query_pair(before, s),
            ));
            assert(seq![s].drop_first() =~= Seq::<Seq<u8>>::empty());
        } else {
            assert(s.skip(amp - pos + 1) =~= b@.subrange(amp + 1, to as int));
            assert((seq![s.take(amp - pos)] + split_on(s.skip(amp - pos + 1), 38u8)).drop_first()
                =~= split_on(s.skip(amp - pos + 1), 38u8));
            pos = amp + 1;
        }
    }
    m
}

// ── the request line ────────────────────────────────────────────────────────

/// The method token and the raw target of a request line (`GET /path?query
/// HTTP/1.1`): the text before the first space, and the text between the
/// first space and the next one. `None` when the line has no space.
pub open spec fn request_line_split(line: Seq<char>) -> Option<(Seq<char>, Seq<char>)> {
    let sp = first_index(line, ' ');
    if sp >= line.len() {
        None
    } else {
        let rest = line.skip(sp + 1);
        Some((line.take(sp), rest.take(first_index(rest, ' '))))
    }
}

/// The path of a request target: its text before the first `?`, URL-decoded.
pub open spec fn decoded_path(raw: Seq<char>) -> Seq<char> {
    url_decode_spec(encode_utf8(raw.take(first_index(raw, '?'))))
}

/// The query parameters of a request target: those of its text after the
/// first `?`, or none when there is no `?`.
pub open spec fn decoded_query(raw: Seq<char>) -> Map<Seq<char>, Seq<char>> {
    let q = first_index(raw, '?');
    if q < raw.len() {
        query_spec(encode_utf8(raw.skip(q + 1)))
    } else {
        Map::empty()
    }
}

/// Reads the request line `v[from..to]`: the method, the decoded path and
/// the query parameters.
pub fn parse_request_line(v: &Vec<char>, from: usize, to: usize) -> (r: Result<
    (Method, String, StrMap<String>),
    FastError,
>)
    requires
        from <= to <= v@.len(),
    ensures
        match request_line_split(v@.subrange(from as int, to as int)) {
            Some((tok, raw)) => r matches Ok((m, p, q)) && m@ == method_of_token(
                spec_to_uppercase(tok),
            ) && p@ == decoded_path(raw) && q@ == decoded_query(raw),
            None => r matches Err(e) && is_http_error(e, "Missing path"@),
        },
{
    let ghost line = v@.subrange(from as int, to as int);
    let sp = find_char(v, from, to, ' ');
    proof {
        lemma_first_index(line, ' ');
    }
    if sp >= to {
        return Err(crate::error::http_error("Missing path"));
    }
    let tok = crate::text::string_of(v, from, sp);
    assert(tok@ =~= line.take(sp - from));
    let method = Method::from_str(tok.as_str());
    let ghost rest = line.skip(sp - from + 1);
    assert(rest =~= v@.subrange(sp + 1, to as int));
    let end = find_char(v, sp + 1, to, ' ');
    let ghost raw = rest.take(end - sp - 1);
    assert(raw =~= v@.subrange(sp + 1, end as int));
    let q = find_char(v, sp + 1, end, '?');
    proof {
        lemma_first_index(raw, '?');
    }
    let path_text = crate::text::string_of(v, sp + 1, q);
    assert(path_text@ =~= raw.take(q - sp - 1));
    let path_bytes = path_text.as_str().as_bytes();
    let path = url_decode(path_bytes, 0, path_bytes.len());
    assert(path_bytes@.subrange(0, path_bytes@.len() as int) =~= path_bytes@);
    let query = if q < end {
        let qt = crate::text::string_of(v, q + 1, end);
        assert(qt@ =~= raw.skip(q - sp - 1 + 1));
        let qb = qt.as_str().as_bytes();
        assert(qb@.subrange(0, qb@.len() as int) =~= qb@);
        parse_query_string(qb, 0, qb.len())
    } else {
        StrMap::new()
    };
    Ok((method, path, query))
}

// ── headers ─────────────────────────────────────────────────────────────────

/// The headers after reading one `Name: value` line: the name is trimmed
/// and lower-cased, the value trimmed; a line without `:` is skipped, and a
/// later line with the same name wins.
pub open spec fn add_header_line(m: Map<Seq<char>, Seq<char>>, line: Seq<char>) -> Map<Seq<char>, Seq<char>> {
    let c = first_index(line, ':');
    if c < line.len() {
        m.insert(spec_to_lowercase(trim(line.take(c))), trim(line.skip(c + 1)))
    } else {
        m
    }
}

/// The headers after reading the lines in order, up to the first empty line.
pub open spec fn header_fold(lines: Seq<Seq<char>>, m: Map<Seq<char>, Seq<char>>) -> Map<Seq<char>, Seq<char>>
    decreases lines.len(),
{
    if lines.len() == 0 {
        m
    } else if lines[0].len() == 0 {
        m
    } else {
        header_fold(lines.drop_first(), add_header_line(m, lines[0]))
    }
}

/// The first line of a head.
pub open spec fn first_line(c: Seq<char>) -> Seq<char> {
    c.take(line_end(c))
}

/// The lines of a head after its first.
pub open spec fn header_lines(c: Seq<char>) -> Seq<Seq<char>> {
    if line_end(c) < c.len() {
        split_lines(c.skip(line_end(c) + 2))
    } else {
        Seq::empty()
    }
}

/// The headers of a head.
pub open spec fn headers_spec(c: Seq<char>) -> Map<Seq<char>, Seq<char>> {
    header_fold(header_lines(c), Map::empty())
}

/// Reads the header lines of the head `v`, which start at `from`.
fn parse_headers(v: &Vec<char>, from: usize) -> (m: StrMap<String>)
    requires
        from <= v@.len(),
    ensures
        m@ == header_fold(split_lines(v@.skip(from as int)), Map::empty()),
{
    let ghost goal = header_fold(split_lines(v@.skip(from as int)), Map::empty());
    let n = v.len();
    let mut m: StrMap<String> = StrMap::new();
    let mut pos = from;
    let mut more = true;
    while more
        invariant
            from <= pos <= n,
            n == v@.len(),
            more ==> header_fold(split_lines(v@.skip(pos as int)), m@) == goal,
            !more ==> m@ == goal,
        decreases (if more {
            n - pos + 1
        } else {
            0
        }),
    {
        let ghost s = v@.skip(pos as int);
        let e = find_line_end(v, pos);
        let ghost line = v@.subrange(pos as int, e as int);
        assert(s.take(e - pos) =~= line);
        let ghost lines = split_lines(s);
        proof {
            lemma_line_end_bounds(s);
            if e < n {
                assert(s.skip(e - pos + 2) =~= v@.skip(e + 2));
                assert(lines == seq![line] + split_lines(v@.skip(e + 2)));
                assert(lines.drop_first() =~= split_lines(v@.skip(e + 2)));
            } else {
                assert(line =~= s);
                assert(lines == seq![s]);
                assert(lines.drop_first() =~= Seq::<Seq<char>>::empty());
            }
            assert(lines[0] == line);
        }
        if e == pos {
            more = false;
        } else {
            let ghost before = m@;
            let c = find_char(v, pos, e, ':');
            proof {
                lemma_first_index(line, ':');
            }
            if c < e {
                let (klo, khi) = crate::text::trim_bounds(v, pos, c);
                let (vlo, vhi) = crate::text::trim_bounds(v, c + 1, e);
                assert(v@.subrange(pos as int, c as int) =~= line.take(c - pos));
                assert(v@.subrange(c + 1, e as int) =~= line.skip(c - pos + 1));
                let raw_key = crate::text::string_of(v, klo, khi);
                let key = crate::text::to_lowercase(raw_key.as_str());
                let value = crate::text::string_of(v, vlo, vhi);
                m.insert(key, value);
            }
            assert(m@ == add_header_line(before, line));
            if e >= n {
                more = false;
                assert(header_fold(seq![line].drop_first(), m@) == m@);
            } else {
                pos = e + 2;
            }
        }
    }
    m
}

/// What the headers say of the body's length: the `content-length` header
/// read as a number, or 0 when it is missing or not a number.
pub open spec fn content_length_spec(h: Map<Seq<char>, Seq<char>>) -> int {
    if h.contains_key("content-length"@) {
        match crate::text::parse_usize_spec(h["content-length"@]) {
            Some(n) => n as int,
            None => 0,
        }
    } else {
        0
    }
}

// ── the head of a request ───────────────────────────────────────────────────

/// Whether `b` holds `\r\n\r\n` at `i`.
pub open spec fn blank_line_at(b: Seq<u8>, i: int) -> bool {
    0 <= i && i + 3 < b.len() && b[i] == 13 && b[i + 1] == 10 && b[i + 2] == 13 && b[i + 3] == 10
}

/// Finds the first `\r\n\r\n`, which ends the head of a request.
pub fn find_header_end(buf: &[u8]) -> (r: Option<usize>)
    ensures
        match r {
            Some(i) => blank_line_at(buf@, i as int) && forall|j: int|
                0 <= j < i ==> !blank_line_at(buf@, j),
            None => forall|j: int| 0 <= j < buf@.len() ==> !blank_line_at(buf@, j),
        },
{
    let n = buf.len();
    if n < 4 {
        return None;
    }
    let mut i: usize = 0;
    while i + 3 < n
        invariant
            n == buf@.len(),
            n >= 4,
            i <= n - 3,
            forall|j: int| 0 <= j < i ==> !blank_line_at(buf@, j),
        decreases n - i,
    {
        if buf[i] == 13 && buf[i + 1] == 10 && buf[i + 2] == 13 && buf[i + 3] == 10 {
            return Some(i);
        }
        i += 1;
    }
    None
}

/// What the reader does once a chunk of `n` bytes of the head has been
/// appended to `buf`: a connection that closed (`n == 0`) or a head over
/// `MAX_HEADER_SIZE` bytes is an error; otherwise the head is complete when
/// `buf` holds `\r\n\r\n` (the index of the first is returned), and more
/// must be read when it does not.
pub fn after_head_chunk(buf: &[u8], n: usize) -> (r: Result<Option<usize>, FastError>)
    ensures
        n == 0 ==> (r matches Err(e) && is_http_error(
            e,
            "Connection closed before request complete"@,
        )),
        n != 0 && buf@.len() > MAX_HEADER_SIZE ==> (r matches Err(e) && is_http_error(
            e,
            "Request header too large"@,
        )),
        n != 0 && buf@.len() <= MAX_HEADER_SIZE ==> (r matches Ok(found) && match found {
            Some(i) => blank_line_at(buf@, i as int) && forall|j: int|
                0 <= j < i ==> !blank_line_at(buf@, j),
            None => forall|j: int| 0 <= j < buf@.len() ==> !blank_line_at(buf@, j),
        }),
{
    if n == 0 {
        return Err(crate::error::http_error("Connection closed before request complete"));
    }
    if buf.len() > MAX_HEADER_SIZE {
        return Err(crate::error::http_error("Request header too large"));
    }
    Ok(find_header_end(buf))
}

/// Whether the body read so far is shorter than the length that the head
/// announced, so that reading goes on.
pub fn body_needs_more(body_len: usize, content_length: usize) -> (b: bool)
    ensures
        b == (body_len < content_length),
{
    body_len < content_length
}

fn copy_range(buf: &[u8], from: usize, to: usize) -> (r: Vec<u8>)
    requires
        from <= to <= buf@.len(),
    ensures
        r@ == buf@.subrange(from as int, to as int),
{
    let mut out: Vec<u8> = Vec::new();
    let mut i = from;
    while i < to
        invariant
            from <= i <= to,
            to <= buf@.len(),
            out@ == buf@.subrange(from as int, i as int),
        decreases to - i,
    {
        out.push(buf[i]);
        i += 1;
        assert(out@ =~= buf@.subrange(from as int, i as int));
    }
    out
}

/// Reads the head of a request whose `\r\n\r\n` starts at `header_end`: the
/// request line, then the headers; the request's body holds the bytes after
/// the blank line, the body's raw bytes read so far, which
/// `chunked::body_progress` completes and, for a chunked body, decodes.
/// Also returns the body's announced length.
///
/// The head must be UTF-8, the request line must hold a space, and the
/// announced length may not exceed `MAX_BODY_SIZE`.
pub fn parse_head(buf: &[u8], header_end: usize, remote_addr: String) -> (r: Result<
    (Request, usize),
    FastError,
>)
    requires
        header_end + 4 <= buf@.len(),
    ensures
        ({
            let hb = buf@.take(header_end as int);
            let c = decode_utf8(hb);
            match r {
                Ok((req, cl)) => {
                    &&& valid_utf8(hb)
                    &&& request_line_split(first_line(c)) matches Some((tok, raw))
                    &&& req.method@ == method_of_token(spec_to_uppercase(tok))
                    &&& req.path@ == decoded_path(raw)
                    &&& req.query@ == decoded_query(raw)
                    &&& req.headers@ == headers_spec(c)
                    &&& req.body@ == buf@.skip(header_end + 4)
                    &&& req.params@ == Map::<Seq<char>, Seq<char>>::empty()
                    &&& req.remote_addr == remote_addr
                    &&& cl == content_length_spec(headers_spec(c))
                    &&& cl <= MAX_BODY_SIZE
                },
                Err(e) => {
                    ||| !valid_utf8(hb) && is_http_error(e, "Invalid UTF-8 in headers"@)
                    ||| valid_utf8(hb) && request_line_split(first_line(c)) is None
                        && is_http_error(e, "Missing path"@)
                    ||| valid_utf8(hb) && request_line_split(first_line(c)) is Some
                        && content_length_spec(headers_spec(c)) > MAX_BODY_SIZE
                        && is_http_error(e, "Request body too large"@)
                },
            }
        }),
{
    let total = buf.len();
    let hb = copy_range(buf, 0, header_end);
    assert(hb@ =~= buf@.take(header_end as int));
    let text = match crate::http::request::utf8_string(hb) {
        Some(t) => t,
        None => {
            return Err(crate::error::http_error("Invalid UTF-8 in headers"));
        },
    };
    let v = crate::text::chars_of(text.as_str());
    let ghost c = v@;
    let n = v.len();
    let e0 = find_line_end(&v, 0);
    assert(v@.skip(0) =~= v@);
    assert(v@.subrange(0, e0 as int) =~= first_line(c));
    let (method, path, query) = match parse_request_line(&v, 0, e0) {
        Ok(t) => t,
        Err(e) => {
            return Err(e);
        },
    };
    let headers = if e0 < n {
        proof {
            lemma_line_end_bounds(c);
        }
        parse_headers(&v, e0 + 2)
    } else {
        StrMap::new()
    };
    assert(headers@ == headers_spec(c)) by {
        if e0 >= n {
            assert(header_lines(c) =~= Seq::<Seq<char>>::empty());
        }
    }
    let body = copy_range(buf, header_end + 4, total);
    assert(body@ =~= buf@.skip(header_end + 4));
    let content_length = match headers.get("content-length") {
        Some(t) => match crate::text::parse_usize(t.as_str()) {
            Some(x) => x,
            None => 0,
        },
        None => 0,
    };
    if content_length > MAX_BODY_SIZE {
        return Err(crate::error::http_error("Request body too large"));
    }
    Ok(
        (
            Request {
                method,
                path,
                query,
                headers,
                body,
                params: StrMap::new(),
                remote_addr,
            },
            content_length,
        ),
    )
}

} // verus!
