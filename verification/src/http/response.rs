//! HTTP responses and their HTTP/1.1 wire form.

use vstd::prelude::*;
use vstd::utf8::encode_utf8;
use crate::strmap::StrMap;
use crate::text::{decimal, push_decimal, spec_to_lowercase, to_lowercase};

verus! {

/// The reason phrase that goes with a status code.
pub open spec fn status_reason(code: u16) -> Seq<char> {
    match code {
        200 => "OK"@,
        201 => "Created"@,
        204 => "No Content"@,
        301 => "Moved Permanently"@,
        302 => "Found"@,
        304 => "Not Modified"@,
        400 => "Bad Request"@,
        401 => "Unauthorized"@,
        403 => "Forbidden"@,
        404 => "Not Found"@,
        405 => "Method Not Allowed"@,
        408 => "Request Timeout"@,
        409 => "Conflict"@,
        422 => "Unprocessable Entity"@,
        429 => "Too Many Requests"@,
        500 => "Internal Server Error"@,
        502 => "Bad Gateway"@,
        503 => "Service Unavailable"@,
        _ => "Unknown"@,
    }
}

/// The reason phrase of a status code.
pub fn status_text(code: u16) -> (r: &'static str)
    ensures
        r@ == status_reason(code),
{
    match code {
        200 => "OK",
        201 => "Created",
        204 => "No Content",
        301 => "Moved Permanently",
        302 => "Found",
        304 => "Not Modified",
        400 => "Bad Request",
        401 => "Unauthorized",
        403 => "Forbidden",
        404 => "Not Found",
        405 => "Method Not Allowed",
        408 => "Request Timeout",
        409 => "Conflict",
        422 => "Unprocessable Entity",
        429 => "Too Many Requests",
        500 => "Internal Server Error",
        502 => "Bad Gateway",
        503 => "Service Unavailable",
        _ => "Unknown",
    }
}

/// The header lines `key: value\r\n` of a list of headers, in order.
pub open spec fn header_block(s: Seq<(String, String)>) -> Seq<char>
    decreases s.len(),
{
    if s.len() == 0 {
        Seq::empty()
    } else {
        header_block(s.drop_last()) + s.last().0@ + ": "@ + s.last().1@ + "\r\n"@
    }
}

/// The header map of a body of `len` bytes with the given content type.
pub open spec fn body_headers(content_type: Seq<char>, len: nat) -> Map<Seq<char>, Seq<char>> {
    map!["content-type"@ => content_type, "content-length"@ => decimal(len)]
}

/// An HTTP response: status, headers (by lower-case name, in the order in
/// which they were first set) and body.
#[derive(Debug)]
pub struct Response {
    pub status: u16,
    pub headers: StrMap<String>,
    pub body: Vec<u8>,
}

/// The status line and header lines of a response, up to and including the
/// empty line that ends them: a `content-length` line is added when the
/// headers hold none, and `connection: close` always.
pub open spec fn response_head(r: Response) -> Seq<char> {
    "HTTP/1.1 "@ + decimal(r.status as nat) + " "@ + status_reason(r.status) + "\r\n"@
        + header_block(r.headers.entry_seq()) + (if r.headers@.contains_key("content-length"@) {
        Seq::empty()
    } else {
        "content-length: "@ + decimal(r.body@.len()) + "\r\n"@
    }) + "connection: close\r\n"@ + "\r\n"@
}

impl Response {
    /// An empty response with the given status, of type plain text.
    pub fn new(status: u16) -> (r: Response)
        ensures
            r.status == status,
            r.headers@ == map!["content-type"@ => "text/plain; charset=utf-8"@],
            r.headers.key_order() == seq!["content-type"@],
            r.body@.len() == 0,
    {
        let mut headers: StrMap<String> = StrMap::new();
        headers.insert("content-type".to_string(), "text/plain; charset=utf-8".to_string());
        assert(headers@ =~= map!["content-type"@ => "text/plain; charset=utf-8"@]);
        assert(headers.key_order() =~= seq!["content-type"@]);
        Response { status, headers, body: Vec::new() }
    }

    /// Sets a header, under the lower-case form of its name.
    pub fn set_header(&mut self, key: &str, value: &str)
        ensures
            final(self).headers@ == old(self).headers@.insert(spec_to_lowercase(key@), value@),
            old(self).headers@.contains_key(spec_to_lowercase(key@))
                ==> final(self).headers.key_order() == old(self).headers.key_order(),
            !old(self).headers@.contains_key(spec_to_lowercase(key@))
                ==> final(self).headers.key_order()
                == old(self).headers.key_order().push(spec_to_lowercase(key@)),
            final(self).status == old(self).status,
            final(self).body@ == old(self).body@,
    {
        let k = to_lowercase(key);
        self.headers.insert(k, value.to_string());
    }

    fn with_body(status: u16, content_type: &str, body: Vec<u8>) -> (r: Response)
        ensures
            r.status == status,
            r.headers@ == body_headers(content_type@, body@.len()),
            r.headers.key_order() == seq!["content-type"@, "content-length"@],
            r.body@ == body@,
    {
        let mut resp = Response::new(status);
        resp.headers.insert("content-type".to_string(), content_type.to_string());
        let mut len = String::new();
        push_decimal(&mut len, body.len() as u64);
        proof {
            reveal_strlit("content-type");
            reveal_strlit("content-length");
        }
        assert("content-type"@[8] != "content-length"@[8]);
        assert(!resp.headers@.contains_key("content-length"@));
        resp.headers.insert("content-length".to_string(), len);
        resp.body = body;
        assert(resp.headers@ =~= body_headers(content_type@, body@.len()));
        assert(resp.headers.key_order() =~= seq!["content-type"@, "content-length"@]);
        resp
    }

    /// A JSON response whose body is the serialised JSON document `body`.
    pub fn json(status: u16, body: Vec<u8>) -> (r: Response)
        ensures
            r.status == status,
            r.headers@ == body_headers("application/json; charset=utf-8"@, body@.len()),
            r.headers.key_order() == seq!["content-type"@, "content-length"@],
            r.body@ == body@,
    {
        Response::with_body(status, "application/json; charset=utf-8", body)
    }

    /// A plain-text response whose body is the UTF-8 encoding of `text`.
    pub fn text(status: u16, text: &str) -> (r: Response)
        ensures
            r.status == status,
            r.headers@ == body_headers("text/plain; charset=utf-8"@, encode_utf8(text@).len()),
            r.headers.key_order() == seq!["content-type"@, "content-length"@],
            r.body@ == encode_utf8(text@),
    {
        let body = text.as_bytes_vec();
        Response::with_body(status, "text/plain; charset=utf-8", body)
    }

    /// The response in HTTP/1.1 wire form: the UTF-8 encoding of its head,
    /// then its body.
    pub fn to_bytes(&self) -> (r: Vec<u8>)
        ensures
            r@ == encode_utf8(response_head(*self)) + self.body@,
    {
        let mut out = String::new();
        out.append("HTTP/1.1 ");
        push_decimal(&mut out, self.status as u64);
        out.append(" ");
        out.append(status_text(self.status));
        out.append("\r\n");
        let ghost start = out@;
        let ghost es = self.headers.entry_seq();
        let n = self.headers.len();
        let mut i: usize = 0;
        assert(es.take(0) =~= Seq::<(String, String)>::empty());
        assert(out@ =~= start + header_block(es.take(0)));
        while i < n
            invariant
                i <= n,
                n == self.headers.key_order().len(),
                es == self.headers.entry_seq(),
                out@ == start + header_block(es.take(i as int)),
            decreases n - i,
        {
            let (k, v) = self.headers.entry_at(i);
            out.append(k.as_str());
            out.append(": ");
            out.append(v.as_str());
            out.append("\r\n");
            proof {
                self.headers.lemma_entry_seq_len();
            }
            assert(es.take(i + 1).drop_last() =~= es.take(i as int));
            assert(es.take(i + 1).last() == es[i as int]);
            assert(out@ =~= start + header_block(es.take(i + 1)));
            i += 1;
        }
        proof {
            self.headers.lemma_entry_seq_len();
        }
        assert(es.take(n as int) =~= es);
        if !self.headers.contains_key("content-length") {
            out.append("content-length: ");
            push_decimal(&mut out, self.body.len() as u64);
            out.append("\r\n");
        }
        out.append("connection: close\r\n");
        out.append("\r\n");
        assert(out@ =~= response_head(*self));
        let mut bytes = out.as_str().as_bytes_vec();
        let ghost head = bytes@;
        bytes.extend_from_slice(self.body.as_slice());
        assert(bytes@ =~= head + self.body@);
        bytes
    }
}

/// The magnitude of an integer.
pub open spec fn magnitude(a: int) -> nat {
    if a < 0 {
        (-a) as nat
    } else {
        a as nat
    }
}

/// Integer division rounded toward zero, as Rust's `/` on signed integers.
pub open spec fn div_toward_zero(a: int, b: int) -> int {
    let q = magnitude(a) / magnitude(b);
    if (a < 0) != (b < 0) {
        -q
    } else {
        q as int
    }
}

/// The number of pages of `size` items that hold `total` items (the
/// `pages` of a paginated response): `(total + size - 1) / size`.
pub fn page_count(total: i64, size: i64) -> (r: i64)
    requires
        size != 0,
        i64::MIN <= total + size <= i64::MAX,
        i64::MIN <= total + size - 1,
        !(total + size - 1 == i64::MIN && size == -1),
    ensures
        r == div_toward_zero(total + size - 1, size as int),
{
    let n: i64 = total + size - 1;
    let neg_n = n < 0;
    let neg_s = size < 0;
    let an: u64 = if neg_n {
        (0i128 - n as i128) as u64
    } else {
        n as u64
    };
    let asz: u64 = if neg_s {
        (0i128 - size as i128) as u64
    } else {
        size as u64
    };
    assert(an == magnitude(n as int));
    assert(asz == magnitude(size as int));
    let q: u64 = an / asz;
    assert(q <= an) by (nonlinear_arith)
        requires
            q == an / asz,
            asz >= 1,
    ;
    assert(asz >= 2 ==> q <= an / 2) by (nonlinear_arith)
        requires
            q == an / asz,
            asz >= 1,
    ;
    if neg_n != neg_s {
        (0i128 - q as i128) as i64
    } else {
        q as i64
    }
}

} // verus!
