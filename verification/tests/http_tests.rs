use rustfast::error::FastError;
use rustfast::http::parser::{
    after_head_chunk, body_needs_more, find_header_end, parse_head, parse_query_string,
    parse_request_line, url_decode, MAX_BODY_SIZE, MAX_HEADER_SIZE,
};
use rustfast::http::request::{Method, Request};
use rustfast::http::response::{page_count, status_text, Response};

fn http_message(e: FastError) -> String {
    match e {
        FastError::Http(m) => m,
        other => panic!("unexpected error {:?}", other),
    }
}

#[test]
fn method_names_round_trip() {
    for name in ["GET", "POST", "PUT", "PATCH", "DELETE", "HEAD", "OPTIONS", "TRACE", "CONNECT"] {
        assert_eq!(Method::from_str(name).as_str(), name);
    }
    assert_eq!(Method::from_str("get").as_str(), "GET");
    assert_eq!(Method::from_str("Patch").as_str(), "PATCH");
    match Method::from_str("brew") {
        Method::Other(s) => assert_eq!(s, "BREW"),
        _ => panic!("expected Other"),
    }
}

#[test]
fn url_decoding() {
    let b = b"a%20b+c%2Fd%zz%";
    assert_eq!(url_decode(b, 0, b.len()), "a b c/d%zz%");
    let u = "caf%C3%A9".as_bytes();
    assert_eq!(url_decode(u, 0, u.len()), "caf\u{c3}\u{a9}");
}

#[test]
fn query_string_parsing() {
    let q = b"name=John%20Doe&age=30&flag&=x&name=Jane";
    let m = parse_query_string(q, 0, q.len());
    assert_eq!(m.get("name").map(|s| s.as_str()), Some("Jane"));
    assert_eq!(m.get("age").map(|s| s.as_str()), Some("30"));
    assert_eq!(m.get("flag").map(|s| s.as_str()), Some(""));
    assert_eq!(m.get("").map(|s| s.as_str()), Some("x"));
    assert_eq!(m.len(), 4);
}

#[test]
fn request_line_parsing() {
    let line: Vec<char> = "post /api/users%21?page=2&q=a+b HTTP/1.1".chars().collect();
    let (m, p, q) = parse_request_line(&line, 0, line.len()).ok().expect("line");
    assert_eq!(m.as_str(), "POST");
    assert_eq!(p, "/api/users!");
    assert_eq!(q.get("page").map(|s| s.as_str()), Some("2"));
    assert_eq!(q.get("q").map(|s| s.as_str()), Some("a b"));
    let bad: Vec<char> = "GARBAGE".chars().collect();
    let e = parse_request_line(&bad, 0, bad.len()).err().expect("error");
    assert_eq!(http_message(e), "Missing path");
}

#[test]
fn header_end_and_chunks() {
    let buf = b"GET / HTTP/1.1\r\nHost: x\r\n\r\nbody";
    assert_eq!(find_header_end(buf), Some(23));
    assert_eq!(find_header_end(b"GET / HTTP/1.1\r\n"), None);
    assert_eq!(after_head_chunk(buf, 5).ok(), Some(Some(23)));
    assert_eq!(
        http_message(after_head_chunk(buf, 0).err().unwrap()),
        "Connection closed before request complete"
    );
    let big = vec![b'a'; MAX_HEADER_SIZE + 1];
    assert_eq!(http_message(after_head_chunk(&big, 1).err().unwrap()), "Request header too large");
    assert!(body_needs_more(3, 10));
    assert!(!body_needs_more(10, 10));
}

#[test]
fn full_head_parsing() {
    let raw = b"GET /api/items?limit=5 HTTP/1.1\r\nHost: example.com\r\nContent-Type: application/json\r\nContent-Length: 4\r\n\r\nabcd";
    let end = find_header_end(raw).unwrap();
    let (req, cl) = parse_head(raw, end, "127.0.0.1:9".to_string()).ok().expect("request");
    assert_eq!(cl, 4);
    assert_eq!(req.method.as_str(), "GET");
    assert_eq!(req.path, "/api/items");
    assert_eq!(req.query("limit"), Some("5"));
    assert_eq!(req.header("host"), Some("example.com"));
    assert_eq!(req.header("HOST"), Some("example.com"));
    assert_eq!(req.content_type(), Some("application/json"));
    assert_eq!(req.body, b"abcd".to_vec());
    assert_eq!(req.body_string(), Some("abcd".to_string()));
    assert_eq!(req.remote_addr, "127.0.0.1:9");
    assert_eq!(req.param("id"), None);
}

#[test]
fn head_errors() {
    let bad_utf8 = b"GET /\xff HTTP/1.1\r\n\r\n";
    let end = find_header_end(bad_utf8).unwrap();
    assert_eq!(
        http_message(parse_head(bad_utf8, end, String::new()).err().unwrap()),
        "Invalid UTF-8 in headers"
    );
    let no_path = b"GET\r\n\r\n";
    let end = find_header_end(no_path).unwrap();
    assert_eq!(http_message(parse_head(no_path, end, String::new()).err().unwrap()), "Missing path");
    let huge = format!("POST / HTTP/1.1\r\nContent-Length: {}\r\n\r\n", MAX_BODY_SIZE + 1);
    let end = find_header_end(huge.as_bytes()).unwrap();
    assert_eq!(
        http_message(parse_head(huge.as_bytes(), end, String::new()).err().unwrap()),
        "Request body too large"
    );
}

#[test]
fn request_defaults() {
    let r = Request::new();
    assert_eq!(r.method.as_str(), "GET");
    assert_eq!(r.path, "/");
    assert_eq!(r.header("x"), None);
    assert_eq!(r.body_string(), Some(String::new()));
    let d = Request::default();
    assert_eq!(d.path, "/");
}

#[test]
fn body_string_rejects_invalid_utf8() {
    let mut r = Request::new();
    r.body = vec![0xff, 0xfe];
    assert_eq!(r.body_string(), None);
}

#[test]
fn status_reasons() {
    assert_eq!(status_text(200), "OK");
    assert_eq!(status_text(404), "Not Found");
    assert_eq!(status_text(422), "Unprocessable Entity");
    assert_eq!(status_text(599), "Unknown");
}

#[test]
fn text_response_wire_form() {
    let r = Response::text(200, "hi");
    assert_eq!(
        String::from_utf8(r.to_bytes()).unwrap(),
        "HTTP/1.1 200 OK\r\ncontent-type: text/plain; charset=utf-8\r\ncontent-length: 2\r\nconnection: close\r\n\r\nhi"
    );
}

#[test]
fn empty_response_gets_content_length() {
    let r = Response::new(204);
    assert_eq!(
        String::from_utf8(r.to_bytes()).unwrap(),
        "HTTP/1.1 204 No Content\r\ncontent-type: text/plain; charset=utf-8\r\ncontent-length: 0\r\nconnection: close\r\n\r\n"
    );
}

#[test]
fn headers_are_lower_cased() {
    let mut r = Response::new(201);
    r.set_header("X-Request-Id", "abc");
    r.set_header("x-request-id", "def");
    assert_eq!(r.headers.get("x-request-id").map(|s| s.as_str()), Some("def"));
    assert_eq!(r.headers.len(), 2);
}

#[test]
fn json_response_headers() {
    let r = Response::json(404, b"{\"a\":1}".to_vec());
    assert_eq!(r.status, 404);
    assert_eq!(
        r.headers.get("content-type").map(|s| s.as_str()),
        Some("application/json; charset=utf-8")
    );
    assert_eq!(r.headers.get("content-length").map(|s| s.as_str()), Some("7"));
    let bytes = r.to_bytes();
    assert!(bytes.ends_with(b"\r\n\r\n{\"a\":1}"));
}

#[test]
fn text_body_is_utf8() {
    let r = Response::text(200, "é");
    assert_eq!(r.body, vec![0xc3, 0xa9]);
    assert_eq!(r.headers.get("content-length").map(|s| s.as_str()), Some("2"));
}

#[test]
fn page_counts_round_toward_zero() {
    assert_eq!(page_count(10, 3), 4);
    assert_eq!(page_count(9, 3), 3);
    assert_eq!(page_count(0, 10), 0);
    assert_eq!(page_count(1, 10), 1);
    assert_eq!(page_count(-10, 4), -1);
    assert_eq!(page_count(7, -2), -2);
    assert_eq!(page_count(i64::MAX - 1, 1), i64::MAX - 1);
}

#[test]
fn header_values_lose_unicode_white_space() {
    let raw = "GET / HTTP/1.1\r\nX-A: \u{3000}\tv w\u{a0}\u{2009} \r\nX-B: \u{85}\u{1680}y\u{2028}\u{205f}\u{202f}\r\n\r\n";
    let end = find_header_end(raw.as_bytes()).unwrap();
    let (req, _) = parse_head(raw.as_bytes(), end, String::new()).ok().expect("request");
    assert_eq!(req.header("x-a"), Some("v w"));
    assert_eq!(req.header("x-b"), Some("y"));
}

#[test]
fn known_method_names_read_back_to_the_method() {
    let all = [
        Method::Get, Method::Post, Method::Put, Method::Patch, Method::Delete,
        Method::Head, Method::Options, Method::Trace, Method::Connect,
    ];
    for m in all.iter() {
        assert!(Method::from_str(m.as_str()).same(m));
    }
    assert!(!Method::from_str("GET").same(&Method::Post));
}
