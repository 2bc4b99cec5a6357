//! Request bodies: a body announced by `Content-Length`, and a body sent
//! with `Transfer-Encoding: chunked`, which is decoded here.
//!
//! A chunked body is a run of chunks, each a size line (hexadecimal digits,
//! perhaps followed by `;` and an extension, then `\r\n`), that many bytes
//! and `\r\n`; a chunk of size 0 ends it, followed by trailer lines and an
//! empty line.

use vstd::prelude::*;
use crate::error::{FastError, is_http_error};
use crate::http::parser::{
    MAX_BODY_SIZE, first_index, lemma_first_index, find_byte, hex_value, hex_digit,
    blank_line_at, body_needs_more,
};
use crate::strmap::StrMap;
use crate::text::ascii_lower_char;

verus! {

/// What a chunked body decodes to.
pub ghost enum Dechunked {
    /// The body is complete; its data, the chunks joined.
    Complete(Seq<u8>),
    /// The bytes so far are a correct beginning, but the body is not complete.
    Incomplete,
    /// The bytes are not a chunked body.
    Malformed,
    /// The body is longer than `MAX_BODY_SIZE` bytes.
    TooLarge,
}

/// Whether every byte is a hexadecimal digit.
pub open spec fn all_hex(s: Seq<u8>) -> bool {
    forall|i: int| 0 <= i < s.len() ==> (#[trigger] hex_value(s[i])) is Some
}

/// The number that hexadecimal digits write.
pub open spec fn hex_number(s: Seq<u8>) -> int
    decreases s.len(),
{
    if s.len() == 0 {
        0
    } else {
        hex_number(s.drop_last()) * 16 + match hex_value(s.last()) {
            Some(d) => d,
            None => 0,
        }
    }
}

/// Hexadecimal digits write a number that is not negative.
pub proof fn lemma_hex_number_nonneg(s: Seq<u8>)
    ensures
        hex_number(s) >= 0,
    decreases s.len(),
{
    if s.len() > 0 {
        lemma_hex_number_nonneg(s.drop_last());
    }
}

/// The chunk size of a size line: its text before any `;`.
pub open spec fn size_field(line: Seq<u8>) -> Seq<u8> {
    line.take(first_index(line, 59u8))
}

/// Whether what follows the last chunk is complete: an empty line at once,
/// or trailer lines ended by an empty line.
pub open spec fn trailer_complete(rest: Seq<u8>) -> bool {
    ||| rest.len() >= 2 && rest[0] == 13 && rest[1] == 10
    ||| exists|j: int| #[trigger] blank_line_at(rest, j)
}

/// The decoding of a body that `p` precedes: the body grows by `p` in front,
/// and is too large when the two together exceed `MAX_BODY_SIZE`.
pub open spec fn with_prefix(p: Seq<u8>, r: Dechunked) -> Dechunked {
    match r {
        Dechunked::Complete(d) => if p.len() + d.len() > MAX_BODY_SIZE {
            Dechunked::TooLarge
        } else {
            Dechunked::Complete(p + d)
        },
        _ => r,
    }
}

/// The decoding of the chunked body `b` (the bytes after the blank line of
/// the head). Bytes after the end of the body are not looked at.
pub open spec fn dechunk(b: Seq<u8>) -> Dechunked
    decreases b.len(),
{
    let lf = first_index(b, 10u8);
    if lf >= b.len() {
        Dechunked::Incomplete
    } else if lf == 0 || b[lf - 1] != 13 {
        Dechunked::Malformed
    } else {
        let sz = size_field(b.take(lf - 1));
        if sz.len() == 0 || !all_hex(sz) {
            Dechunked::Malformed
        } else if hex_number(sz) > MAX_BODY_SIZE {
            Dechunked::TooLarge
        } else if hex_number(sz) == 0 {
            if trailer_complete(b.skip(lf + 1)) {
                Dechunked::Complete(Seq::empty())
            } else {
                Dechunked::Incomplete
            }
        } else {
            let start = lf + 1;
            let n = hex_number(sz);
            if b.len() < start + n + 2 {
                Dechunked::Incomplete
            } else if b[start + n] != 13 || b[start + n + 1] != 10 {
                Dechunked::Malformed
            } else {
                proof {
                    lemma_first_index(b, 10u8);
                    lemma_hex_number_nonneg(sz);
                }
                with_prefix(b.subrange(start, start + n), dechunk(b.skip(start + n + 2)))
            }
        }
    }
}

/// What a size field reads as.
enum SizeField {
    Size(usize),
    Malformed,
    TooLarge,
}

/// Reads the chunk size written in `b[from..to]`.
fn read_size(b: &[u8], from: usize, to: usize) -> (r: SizeField)
    requires
        from <= to <= b@.len(),
    ensures
        ({
            let s = b@.subrange(from as int, to as int);
            match r {
                SizeField::Malformed => s.len() == 0 || !all_hex(s),
                SizeField::TooLarge => s.len() > 0 && all_hex(s) && hex_number(s) > MAX_BODY_SIZE,
                SizeField::Size(n) => s.len() > 0 && all_hex(s) && n == hex_number(s) && n
                    <= MAX_BODY_SIZE,
            }
        }),
{
    if from == to {
        return SizeField::Malformed;
    }
    let mut i = from;
    let mut val: usize = 0;
    let mut over = false;
    while i < to
        invariant
            from <= i <= to <= b@.len(),
            all_hex(b@.subrange(from as int, i as int)),
            over ==> hex_number(b@.subrange(from as int, i as int)) > MAX_BODY_SIZE,
            !over ==> val == hex_number(b@.subrange(from as int, i as int)) && val
                <= MAX_BODY_SIZE,
        decreases to - i,
    {
        let ghost p = b@.subrange(from as int, i as int);
        let ghost q = b@.subrange(from as int, i + 1);
        assert(q.drop_last() =~= p);
        assert(q.last() == b@[i as int]);
        match hex_digit(b[i]) {
            None => {
                assert(!all_hex(b@.subrange(from as int, to as int))) by {
                    assert(b@.subrange(from as int, to as int)[i - from] == b@[i as int]);
                }
                return SizeField::Malformed;
            },
            Some(d) => {
                assert forall|j: int| 0 <= j < q.len() implies (#[trigger] hex_value(q[j])) is Some by {
                    if j < p.len() {
                        assert(q[j] == p[j]);
                    }
                }
                if !over {
                    let nv = val * 16 + d as usize;
                    if nv > MAX_BODY_SIZE {
                        over = true;
                    } else {
                        val = nv;
                    }
                }
            },
        }
        i += 1;
    }
    if over {
        SizeField::TooLarge
    } else {
        SizeField::Size(val)
    }
}

/// Whether what follows the last chunk, `b[from..]`, is complete.
fn trailer_done(b: &[u8], from: usize) -> (r: bool)
    requires
        from <= b@.len(),
    ensures
        r == trailer_complete(b@.skip(from as int)),
{
    let ghost rest = b@.skip(from as int);
    let n = b.len();
    if n - from >= 2 && b[from] == 13 && b[from + 1] == 10 {
        return true;
    }
    let mut j = from;
    while n - j > 3
        invariant
            from <= j <= n,
            n == b@.len(),
            rest == b@.skip(from as int),
            forall|k: int| from <= k < j ==> !blank_line_at(b@, k),
        decreases n - j,
    {
        if b[j] == 13 && b[j + 1] == 10 && b[j + 2] == 13 && b[j + 3] == 10 {
            assert(blank_line_at(rest, j - from));
            return true;
        }
        j += 1;
    }
    assert forall|k: int| !#[trigger] blank_line_at(rest, k) by {
        if blank_line_at(rest, k) {
            assert(blank_line_at(b@, k + from));
        }
    }
    false
}

/// Putting one prefix after another in front is putting both in front.
proof fn lemma_with_prefix_twice(p: Seq<u8>, q: Seq<u8>, r: Dechunked)
    ensures
        with_prefix(p, with_prefix(q, r)) == with_prefix(p + q, r),
{
    if let Dechunked::Complete(d) = r {
        assert(p + q + d =~= p + (q + d));
    }
}

/// A chunked body, decoded.
pub enum ChunkedBody {
    Complete(Vec<u8>),
    Incomplete,
    Malformed,
    TooLarge,
}

impl View for ChunkedBody {
    type V = Dechunked;

    open spec fn view(&self) -> Dechunked {
        match self {
            ChunkedBody::Complete(d) => Dechunked::Complete(d@),
            ChunkedBody::Incomplete => Dechunked::Incomplete,
            ChunkedBody::Malformed => Dechunked::Malformed,
            ChunkedBody::TooLarge => Dechunked::TooLarge,
        }
    }
}

/// Decodes the chunked body `b`.
pub fn decode_chunked(b: &[u8]) -> (r: ChunkedBody)
    ensures
        r@ == dechunk(b@),
{
    let n = b.len();
    let mut pos: usize = 0;
    let mut out: Vec<u8> = Vec::new();
    assert(b@.skip(0) =~= b@);
    assert(with_prefix(Seq::empty(), dechunk(b@)) == dechunk(b@)) by {
        if let Dechunked::Complete(d) = dechunk(b@) {
            assert(Seq::<u8>::empty() + d =~= d);
        }
    }
    loop
        invariant
            pos <= n,
            n == b@.len(),
            dechunk(b@) == with_prefix(out@, dechunk(b@.skip(pos as int))),
        decreases n - pos,
    {
        let ghost s = b@.skip(pos as int);
        assert(b@.subrange(pos as int, n as int) =~= s);
        let lf = find_byte(b, pos, n, 10u8);
        if lf >= n {
            return ChunkedBody::Incomplete;
        }
        proof {
            lemma_first_index(s, 10u8);
        }
        if lf == pos || b[lf - 1] != 13 {
            return ChunkedBody::Malformed;
        }
        let semi = find_byte(b, pos, lf - 1, 59u8);
        let ghost line = s.take(lf - pos - 1);
        assert(line =~= b@.subrange(pos as int, lf - 1));
        assert(size_field(line) =~= b@.subrange(pos as int, semi as int));
        match read_size(b, pos, semi) {
            SizeField::Malformed => {
                return ChunkedBody::Malformed;
            },
            SizeField::TooLarge => {
                return ChunkedBody::TooLarge;
            },
            SizeField::Size(sz) => {
                if sz == 0 {
                    assert(s.skip(lf - pos + 1) =~= b@.skip(lf + 1));
                    if trailer_done(b, lf + 1) {
                        assert(out@ + Seq::<u8>::empty() =~= out@);
                        if out.len() > MAX_BODY_SIZE {
                            return ChunkedBody::TooLarge;
                        }
                        return ChunkedBody::Complete(out);
                    }
                    return ChunkedBody::Incomplete;
                }
                let start = lf + 1;
                if n - start < sz || n - start - sz < 2 {
                    return ChunkedBody::Incomplete;
                }
                if b[start + sz] != 13 || b[start + sz + 1] != 10 {
                    return ChunkedBody::Malformed;
                }
                let ghost before = out@;
                let ghost data = b@.subrange(start as int, start + sz);
                assert(s.subrange(start - pos, start - pos + sz) =~= data);
                assert(s.skip(start - pos + sz + 2) =~= b@.skip(start + sz + 2));
                let mut i = start;
                while i < start + sz
                    invariant
                        start <= i <= start + sz <= n,
                        n == b@.len(),
                        out@ == before + b@.subrange(start as int, i as int),
                    decreases start + sz - i,
                {
                    out.push(b[i]);
                    i += 1;
                    assert(out@ =~= before + b@.subrange(start as int, i as int));
                }
                proof {
                    lemma_with_prefix_twice(before, data, dechunk(b@.skip(start + sz + 2)));
                }
                pos = start + sz + 2;
            },
        }
    }
}

/// Whether a `Transfer-Encoding` value names the chunked coding, in any
/// ASCII case.
pub open spec fn is_chunked_value(v: Seq<char>) -> bool {
    &&& v.len() == 7
    &&& ascii_lower_char(v[0]) == 'c'
    &&& ascii_lower_char(v[1]) == 'h'
    &&& ascii_lower_char(v[2]) == 'u'
    &&& ascii_lower_char(v[3]) == 'n'
    &&& ascii_lower_char(v[4]) == 'k'
    &&& ascii_lower_char(v[5]) == 'e'
    &&& ascii_lower_char(v[6]) == 'd'
}

/// Whether the headers announce a chunked body.
pub open spec fn is_chunked(h: Map<Seq<char>, Seq<char>>) -> bool {
    h.contains_key("transfer-encoding"@) && is_chunked_value(h["transfer-encoding"@])
}

/// Whether a `Transfer-Encoding` value names the chunked coding.
fn chunked_value(v: &str) -> (r: bool)
    ensures
        r == is_chunked_value(v@),
{
    let c = crate::text::chars_of(v);
    if c.len() != 7 {
        return false;
    }
    let want = ['c', 'h', 'u', 'n', 'k', 'e', 'd'];
    let upper = ['C', 'H', 'U', 'N', 'K', 'E', 'D'];
    let mut i: usize = 0;
    while i < 7
        invariant
            c@ == v@,
            c@.len() == 7,
            i <= 7,
            want@ == seq!['c', 'h', 'u', 'n', 'k', 'e', 'd'],
            upper@ == seq!['C', 'H', 'U', 'N', 'K', 'E', 'D'],
            forall|j: int| 0 <= j < i ==> ascii_lower_char(#[trigger] c@[j]) == want@[j],
        decreases 7 - i,
    {
        let ch = c[i];
        assert((ch == want[i as int] || ch == upper[i as int]) <==> ascii_lower_char(ch) == want@[i as int]);
        if ch != want[i] && ch != upper[i] {
            return false;
        }
        i += 1;
    }
    true
}

/// Whether the headers announce a chunked body.
pub fn has_chunked_body(headers: &StrMap<String>) -> (r: bool)
    ensures
        r == is_chunked(headers@),
{
    match headers.get("transfer-encoding") {
        Some(v) => chunked_value(v.as_str()),
        None => false,
    }
}

/// What the reader does with the body bytes read so far, `raw`, after the
/// head with the given headers and announced length: `Some` of the body
/// once it is complete, `None` while more must be read. `closed` says that
/// the connection has no more to give.
///
/// Without `Transfer-Encoding: chunked`, the body is complete once it holds
/// `content_length` bytes or the connection closed, and it is the bytes read.
/// With it, the body is the decoded chunks; a body that is not a chunked
/// body, one that decodes to more than `MAX_BODY_SIZE` bytes, and one that
/// the connection cut short are errors.
pub fn body_progress(headers: &StrMap<String>, raw: &[u8], content_length: usize, closed: bool) -> (r:
    Result<Option<Vec<u8>>, FastError>)
    ensures
        !is_chunked(headers@) ==> (r matches Ok(got) && match got {
            Some(body) => body@ == raw@ && (closed || raw@.len() >= content_length),
            None => !closed && raw@.len() < content_length,
        }),
        is_chunked(headers@) ==> match dechunk(raw@) {
            Dechunked::Complete(d) => r matches Ok(Some(body)) && body@ == d,
            Dechunked::Incomplete => if closed {
                r matches Err(e) && is_http_error(e, "Connection closed before request complete"@)
            } else {
                r matches Ok(None)
            },
            Dechunked::Malformed => r matches Err(e) && is_http_error(e, "Invalid chunked body"@),
            Dechunked::TooLarge => r matches Err(e) && is_http_error(
                e,
                "Request body too large"@,
            ),
        },
{
    if !has_chunked_body(headers) {
        if !closed && body_needs_more(raw.len(), content_length) {
            return Ok(None);
        }
        let mut body: Vec<u8> = Vec::new();
        let mut i: usize = 0;
        while i < raw.len()
            invariant
                i <= raw@.len(),
                body@ == raw@.take(i as int),
            decreases raw@.len() - i,
        {
            body.push(raw[i]);
            i += 1;
            assert(body@ =~= raw@.take(i as int));
        }
        assert(raw@.take(raw@.len() as int) =~= raw@);
        return Ok(Some(body));
    }
    match decode_chunked(raw) {
        ChunkedBody::Complete(d) => Ok(Some(d)),
        ChunkedBody::Incomplete => {
            if closed {
                Err(crate::error::http_error("Connection closed before request complete"))
            } else {
                Ok(None)
            }
        },
        ChunkedBody::Malformed => Err(crate::error::http_error("Invalid chunked body")),
        ChunkedBody::TooLarge => Err(crate::error::http_error("Request body too large")),
    }
}

} // verus!
