use base64::Engine;
use hmac::{Hmac, KeyInit, Mac};
use rustfast::error::FastError;
use rustfast::jwt::{JwtService, HEADER_B64};
use sha2::Sha256;

fn unauthorized(e: FastError) -> String {
    match e {
        FastError::Unauthorized(m) => m,
        other => panic!("unexpected error {:?}", other),
    }
}

fn reference_signature(secret: &str, input: &str) -> String {
    let mut mac = <Hmac<Sha256> as KeyInit>::new_from_slice(secret.as_bytes()).unwrap();
    mac.update(input.as_bytes());
    base64::engine::general_purpose::URL_SAFE_NO_PAD.encode(mac.finalize().into_bytes())
}

#[test]
fn token_layout() {
    let jwt = JwtService::new("secret");
    let token = jwt.sign_payload("{}").ok().unwrap();
    let input = format!("{}.e30", HEADER_B64);
    assert_eq!(token, format!("{}.{}", input, reference_signature("secret", &input)));
}

#[test]
fn header_is_hs256() {
    let decoded = base64::engine::general_purpose::URL_SAFE_NO_PAD.decode(HEADER_B64).unwrap();
    assert_eq!(decoded, b"{\"alg\":\"HS256\",\"typ\":\"JWT\"}".to_vec());
}

#[test]
fn signed_tokens_verify() {
    let jwt = JwtService::new("k3y");
    let payload = "{\"sub\":\"u1\",\"iat\":1,\"exp\":2,\"role\":\"admin\"}";
    let token = jwt.sign_payload(payload).ok().unwrap();
    let bytes = jwt.verify_signature(&token).ok().unwrap();
    assert_eq!(bytes, payload.as_bytes().to_vec());
}

#[test]
fn other_secret_is_rejected() {
    let token = JwtService::new("a").sign_payload("{}").ok().unwrap();
    let e = JwtService::new("b").verify_signature(&token).err().unwrap();
    assert_eq!(unauthorized(e), "Invalid token signature");
}

#[test]
fn tampered_payload_is_rejected() {
    let jwt = JwtService::new("k");
    let token = jwt.sign_payload("{\"a\":1}").ok().unwrap();
    let parts: Vec<&str> = token.split('.').collect();
    let forged = format!("{}.{}.{}", parts[0], "eyJhIjoyfQ", parts[2]);
    assert_eq!(unauthorized(jwt.verify_signature(&forged).err().unwrap()), "Invalid token signature");
}

#[test]
fn malformed_tokens() {
    let jwt = JwtService::new("k");
    assert_eq!(unauthorized(jwt.verify_signature("abc").err().unwrap()), "Invalid token format");
    assert_eq!(unauthorized(jwt.verify_signature("a.b").err().unwrap()), "Invalid token format");
}

#[test]
fn bad_payload_encoding() {
    let jwt = JwtService::new("k");
    let input = format!("{}.{}", HEADER_B64, "@@@");
    let token = format!("{}.{}", input, reference_signature("k", &input));
    assert_eq!(
        unauthorized(jwt.verify_signature(&token).err().unwrap()),
        "Invalid token payload encoding"
    );
}

#[test]
fn extra_dots_belong_to_the_signature() {
    let jwt = JwtService::new("k");
    let token = jwt.sign_payload("{}").ok().unwrap();
    let longer = format!("{}.x", token);
    assert_eq!(unauthorized(jwt.verify_signature(&longer).err().unwrap()), "Invalid token signature");
}

#[test]
fn expiry_is_checked_against_the_time() {
    assert!(rustfast::jwt::check_expiry(100, 100).is_ok());
    assert!(rustfast::jwt::check_expiry(99, 100).is_ok());
    match rustfast::jwt::check_expiry(101, 100) {
        Err(rustfast::error::FastError::Unauthorized(m)) => assert_eq!(m, "Token expired"),
        _ => panic!("expected an expired token"),
    }
}
