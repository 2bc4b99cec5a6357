use rustfast::error::FastError;
use rustfast::http::chunked::{body_progress, decode_chunked, has_chunked_body, ChunkedBody};
use rustfast::http::parser::{find_header_end, parse_head, MAX_BODY_SIZE};
use rustfast::http::request::Method;

fn http_message(e: FastError) -> String {
    match e {
        FastError::Http(m) => m,
        other => panic!("unexpected error {:?}", other),
    }
}

fn complete(r: ChunkedBody) -> Vec<u8> {
    match r {
        ChunkedBody::Complete(d) => d,
        ChunkedBody::Incomplete => panic!("incomplete"),
        ChunkedBody::Malformed => panic!("malformed"),
        ChunkedBody::TooLarge => panic!("too large"),
    }
}

#[test]
fn chunked_post_is_decoded() {
    let raw = b"POST /u HTTP/1.1\r\nTransfer-Encoding: chunked\r\n\r\n3\r\nabc\r\n0\r\n\r\n";
    let end = find_header_end(raw).unwrap();
    let (mut req, cl) = parse_head(raw, end, String::new()).ok().expect("head");
    assert!(matches!(req.method, Method::Post));
    assert_eq!(req.path, "/u");
    assert!(has_chunked_body(&req.headers));
    let body = body_progress(&req.headers, &req.body, cl, true).ok().expect("body").expect("complete");
    req.body = body;
    assert_eq!(req.body, b"abc".to_vec());
}

#[test]
fn chunks_are_joined() {
    let d = complete(decode_chunked(b"4\r\nWiki\r\n5;ext=1\r\npedia\r\nE\r\n in\r\n\r\nchunks.\r\n0\r\n\r\n"));
    assert_eq!(d, b"Wikipedia in\r\n\r\nchunks.".to_vec());
    let d = complete(decode_chunked(b"a\r\n0123456789\r\n0\r\nX-Trailer: 1\r\n\r\n"));
    assert_eq!(d, b"0123456789".to_vec());
    assert_eq!(complete(decode_chunked(b"0\r\n\r\n")), Vec::<u8>::new());
}

#[test]
fn chunked_body_outcomes() {
    assert!(matches!(decode_chunked(b""), ChunkedBody::Incomplete));
    assert!(matches!(decode_chunked(b"3\r\nab"), ChunkedBody::Incomplete));
    assert!(matches!(decode_chunked(b"3\r\nabc\r\n0\r\n"), ChunkedBody::Incomplete));
    assert!(matches!(decode_chunked(b"3\r\nabcXY"), ChunkedBody::Malformed));
    assert!(matches!(decode_chunked(b"zz\r\nab\r\n"), ChunkedBody::Malformed));
    assert!(matches!(decode_chunked(b"3\nabc\r\n"), ChunkedBody::Malformed));
    assert!(matches!(decode_chunked(b"\r\n"), ChunkedBody::Malformed));
    let huge = format!("{:x}\r\n", MAX_BODY_SIZE + 1);
    assert!(matches!(decode_chunked(huge.as_bytes()), ChunkedBody::TooLarge));
}

#[test]
fn body_progress_by_length() {
    let raw = b"POST / HTTP/1.1\r\nContent-Length: 5\r\n\r\nab";
    let end = find_header_end(raw).unwrap();
    let (req, cl) = parse_head(raw, end, String::new()).ok().expect("head");
    assert!(!has_chunked_body(&req.headers));
    assert!(body_progress(&req.headers, &req.body, cl, false).ok().expect("ok").is_none());
    let got = body_progress(&req.headers, &req.body, cl, true).ok().expect("ok").expect("some");
    assert_eq!(got, b"ab".to_vec());
    let got = body_progress(&req.headers, b"abcde", cl, false).ok().expect("ok").expect("some");
    assert_eq!(got, b"abcde".to_vec());
}

#[test]
fn body_progress_chunked_errors() {
    let raw = b"POST / HTTP/1.1\r\ntransfer-encoding: CHUNKED\r\n\r\n";
    let end = find_header_end(raw).unwrap();
    let (req, cl) = parse_head(raw, end, String::new()).ok().expect("head");
    assert!(has_chunked_body(&req.headers));
    assert!(body_progress(&req.headers, b"3\r\nab", cl, false).ok().expect("ok").is_none());
    assert_eq!(
        http_message(body_progress(&req.headers, b"3\r\nab", cl, true).err().unwrap()),
        "Connection closed before request complete"
    );
    assert_eq!(
        http_message(body_progress(&req.headers, b"x\r\n", cl, false).err().unwrap()),
        "Invalid chunked body"
    );
    let huge = format!("{:x}\r\n", MAX_BODY_SIZE + 1);
    assert_eq!(
        http_message(body_progress(&req.headers, huge.as_bytes(), cl, false).err().unwrap()),
        "Request body too large"
    );
}
