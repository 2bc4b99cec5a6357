//! HS256 JSON Web Tokens: framing, signing and checking.
//!
//! A token is `header.payload.signature`: the fixed HS256 header and the
//! payload (the claims as JSON) in URL-safe base64 without padding, and the
//! HMAC-SHA256 of `header.payload` under the secret, in the same encoding.
//! Turning claims into JSON and back is left to the caller; this module
//! frames, signs and checks the bytes.

use vstd::prelude::*;
use vstd::utf8::encode_utf8;
use base64::Engine;
use base64::engine::general_purpose::URL_SAFE_NO_PAD;
use hmac::{Hmac, KeyInit, Mac};
use sha2::Sha256;
use crate::error::{FastError, Result};
use crate::http::parser::{first_index, lemma_first_index, find_char};
use crate::text::{chars_of, string_of};

verus! {

/// What `URL_SAFE_NO_PAD.encode` of base64 gives for the bytes.
pub uninterp spec fn spec_base64_url_encode(bytes: Seq<u8>) -> Seq<char>;

/// What `URL_SAFE_NO_PAD.decode` of base64 gives for the bytes: the decoded
/// bytes, or none when they are not valid unpadded URL-safe base64.
pub uninterp spec fn spec_base64_url_decode(bytes: Seq<u8>) -> Option<Seq<u8>>;

/// The HMAC-SHA256 tag of `data` under `key`.
pub uninterp spec fn spec_hmac_sha256(key: Seq<u8>, data: Seq<u8>) -> Seq<u8>;

/// A character of base64's URL-safe alphabet: `A`–`Z`, `a`–`z`, `0`–`9`,
/// `-` and `_`.
pub open spec fn url_safe_char(c: char) -> bool {
    ('A' <= c && c <= 'Z') || ('a' <= c && c <= 'z') || ('0' <= c && c <= '9') || c == '-' || c
        == '_'
}

/// base64's `URL_SAFE_NO_PAD.encode`. Claims: the text is named by
/// `spec_base64_url_encode` of the bytes, and every character is of the
/// URL-safe alphabet that `alphabet::URL_SAFE` defines (no padding is
/// written).
#[verifier::external_body]
fn base64_url_encode(bytes: &[u8]) -> (r: String)
    ensures
        r@ == spec_base64_url_encode(bytes@),
        forall|i: int| 0 <= i < r@.len() ==> url_safe_char(#[trigger] r@[i]),
{
    URL_SAFE_NO_PAD.encode(bytes)
}

/// base64's `URL_SAFE_NO_PAD.decode`, with the error dropped. Claims: the
/// outcome is named by `spec_base64_url_decode` of the input, and decoding
/// the (ASCII) text of an encoding of some bytes gives those bytes back, as
/// the crate documents for an engine's `encode` and `decode`.
#[verifier::external_body]
fn base64_url_decode(text: &[u8]) -> (r: Option<Vec<u8>>)
    ensures
        match r {
            Some(v) => spec_base64_url_decode(text@) == Some(v@),
            None => spec_base64_url_decode(text@) is None,
        },
        forall|x: Seq<u8>|
            text@ == encode_utf8(#[trigger] spec_base64_url_encode(x)) ==> r is Some && r->Some_0@
                == x,
{
    URL_SAFE_NO_PAD.decode(text).ok()
}

/// HMAC-SHA256 of `data` under `key`, through hmac's `Hmac<Sha256>`
/// (`new_from_slice`, `update`, `finalize`). Claims: the tag is named by
/// `spec_hmac_sha256`; and a tag always comes back, since the crate's
/// `new_from_slice` for HMAC accepts keys of any length.
#[verifier::external_body]
fn hmac_sha256_tag(key: &[u8], data: &[u8]) -> (r: Option<Vec<u8>>)
    ensures
        r is Some && r->Some_0@ == spec_hmac_sha256(key@, data@),
{
    let mut mac = match <Hmac<Sha256> as KeyInit>::new_from_slice(key) {
        Ok(m) => m,
        Err(_) => return None,
    };
    mac.update(data);
    Some(mac.finalize().into_bytes().to_vec())
}

/// The fixed header of every token: `{"alg":"HS256","typ":"JWT"}` in
/// URL-safe base64.
pub const HEADER_B64: &'static str = "eyJhbGciOiJIUzI1NiIsInR5cCI6IkpXVCJ9";

/// The three parts that `splitn(3, '.')` gives: the text before the first
/// dot, the text between the first and the second, and the rest; none when
/// there are fewer than two dots.
pub open spec fn split_token(t: Seq<char>) -> Option<(Seq<char>, Seq<char>, Seq<char>)> {
    let i = first_index(t, '.');
    if i >= t.len() {
        None
    } else {
        let rest = t.skip(i + 1);
        let j = first_index(rest, '.');
        if j >= rest.len() {
            None
        } else {
            Some((t.take(i), rest.take(j), rest.skip(j + 1)))
        }
    }
}

/// The signature part of a token whose first two parts are `signing_input`.
pub open spec fn token_signature(key: Seq<u8>, signing_input: Seq<char>) -> Seq<char> {
    spec_base64_url_encode(spec_hmac_sha256(key, encode_utf8(signing_input)))
}

/// The header and payload parts of the token of a JSON payload.
pub open spec fn signing_input(payload: Seq<char>) -> Seq<char> {
    HEADER_B64@ + "."@ + spec_base64_url_encode(encode_utf8(payload))
}

/// The token that signs a JSON payload under `key`.
pub open spec fn signed_token(key: Seq<u8>, payload: Seq<char>) -> Seq<char> {
    signing_input(payload) + "."@ + token_signature(key, signing_input(payload))
}

/// No character of the text is a dot.
pub open spec fn dot_free(s: Seq<char>) -> bool {
    forall|i: int| 0 <= i < s.len() ==> s[i] != '.'
}

/// The outcome of checking a token under `key`: its decoded payload, or the
/// message of the `Unauthorized` error.
pub open spec fn check_token(key: Seq<u8>, token: Seq<char>) -> core::result::Result<
    Seq<u8>,
    Seq<char>,
> {
    match split_token(token) {
        None => Err("Invalid token format"@),
        Some((h, p, s)) => {
            if encode_utf8(s) != encode_utf8(token_signature(key, h + "."@ + p)) {
                Err("Invalid token signature"@)
            } else {
                match spec_base64_url_decode(encode_utf8(p)) {
                    None => Err("Invalid token payload encoding"@),
                    Some(bytes) => Ok(bytes),
                }
            }
        },
    }
}

/// Whether two byte strings are equal, looking at every byte whatever the
/// outcome.
fn constant_time_eq(a: &[u8], b: &[u8]) -> (r: bool)
    ensures
        r == (a@ == b@),
{
    if a.len() != b.len() {
        return false;
    }
    let mut acc: u8 = 0;
    let mut i: usize = 0;
    while i < a.len()
        invariant
            a@.len() == b@.len(),
            i <= a@.len(),
            (acc == 0) == (forall|j: int| 0 <= j < i ==> a@[j] == b@[j]),
        decreases a@.len() - i,
    {
        let x = a[i];
        let y = b[i];
        let next = acc | (x ^ y);
        assert((next == 0) == (acc == 0 && x == y)) by (bit_vector)
            requires
                next == acc | (x ^ y),
        ;
        acc = next;
        i += 1;
        assert((acc == 0) == (forall|j: int| 0 <= j < i ==> a@[j] == b@[j])) by {
            if acc == 0 {
                assert forall|j: int| 0 <= j < i implies a@[j] == b@[j] by {
                    if j < i - 1 {
                    }
                }
            }
        }
    }
    assert((acc == 0) == (a@ =~= b@));
    acc == 0
}

/// The first dot of `a + "." + b` is the one after `a`, when `a` has none.
proof fn lemma_first_dot(a: Seq<char>, b: Seq<char>)
    requires
        forall|i: int| 0 <= i < a.len() ==> a[i] != '.',
    ensures
        first_index(a + "."@ + b, '.') == a.len(),
{
    let s = a + "."@ + b;
    reveal_strlit(".");
    lemma_first_index(s, '.');
    let k = first_index(s, '.');
    assert(s[a.len() as int] == '.');
    if k < a.len() {
        assert(s[k] == a[k]);
    }
}

/// The expiry check of a token's claims at the time `now` (both in seconds
/// since the Unix epoch): claims are refused with `Token expired` only once
/// `now` is past their `exp`.
pub fn check_expiry(now: u64, exp: u64) -> (r: Result<()>)
    ensures
        if now > exp {
            r matches Err(e) && crate::error::is_unauthorized(e, "Token expired"@)
        } else {
            r is Ok
        },
{
    if now > exp {
        Err(FastError::Unauthorized("Token expired".to_string()))
    } else {
        Ok(())
    }
}

/// How tokens are signed and checked with one secret.
pub struct JwtService {
    secret: Vec<u8>,
}

impl JwtService {
    /// The secret's bytes.
    pub closed spec fn key(&self) -> Seq<u8> {
        self.secret@
    }

    /// A service whose secret is the UTF-8 encoding of `secret`.
    pub fn new(secret: &str) -> (r: JwtService)
        ensures
            r.key() == encode_utf8(secret@),
    {
        JwtService { secret: secret.as_bytes_vec() }
    }

    fn hmac_sha256(&self, data: &[u8]) -> (r: Result<Vec<u8>>)
        ensures
            r matches Ok(t) && t@ == spec_hmac_sha256(self.key(), data@),
    {
        match hmac_sha256_tag(self.secret.as_slice(), data) {
            Some(t) => Ok(t),
            None => Err(FastError::Internal("Invalid JWT secret key".to_string())),
        }
    }

    /// Signs a JSON payload: the token `header.payload.signature`.
    pub fn sign_payload(&self, payload: &str) -> (r: Result<String>)
        ensures
            r matches Ok(t) && t@ == signed_token(self.key(), payload@),
            dot_free(spec_base64_url_encode(encode_utf8(payload@))),
    {
        let payload_b64 = base64_url_encode(payload.as_bytes());
        proof {
            reveal_strlit(".");
            assert forall|i: int| 0 <= i < payload_b64@.len() implies payload_b64@[i] != '.' by {
                assert(url_safe_char(payload_b64@[i]));
            }
        }
        let mut token = String::new();
        token.append(HEADER_B64);
        token.append(".");
        token.append(payload_b64.as_str());
        assert(token@ =~= signing_input(payload@));
        let tag = match self.hmac_sha256(token.as_str().as_bytes()) {
            Ok(t) => t,
            Err(e) => return Err(e),
        };
        let sig_b64 = base64_url_encode(tag.as_slice());
        token.append(".");
        token.append(sig_b64.as_str());
        assert(token@ =~= signed_token(self.key(), payload@));
        Ok(token)
    }

    /// Checks a token's form and signature and decodes its payload; the
    /// payload's bytes are the JSON of the claims. A token signed by this
    /// service is accepted and gives back the payload it was signed with.
    pub fn verify_signature(&self, token: &str) -> (r: Result<Vec<u8>>)
        ensures
            match check_token(self.key(), token@) {
                Ok(bytes) => r matches Ok(v) && v@ == bytes,
                Err(msg) => r matches Err(e) && crate::error::is_unauthorized(e, msg),
            },
            forall|p: Seq<char>|
                token@ == #[trigger] signed_token(self.key(), p) && dot_free(
                    spec_base64_url_encode(encode_utf8(p)),
                ) ==> (r matches Ok(v) && v@ == encode_utf8(p)),
    {
        let v = chars_of(token);
        let n = v.len();
        let i = find_char(&v, 0, n, '.');
        assert(v@.subrange(0, n as int) =~= v@);
        if i == n {
            proof {
                self.lemma_signed_split(token@);
            }
            return Err(FastError::Unauthorized("Invalid token format".to_string()));
        }
        let j = find_char(&v, i + 1, n, '.');
        assert(v@.subrange(i + 1, n as int) =~= v@.skip(i + 1));
        if j == n {
            proof {
                self.lemma_signed_split(token@);
            }
            return Err(FastError::Unauthorized("Invalid token format".to_string()));
        }
        let header = string_of(&v, 0, i);
        let payload = string_of(&v, i + 1, j);
        let signature = string_of(&v, j + 1, n);
        assert(header@ =~= split_token(token@)->Some_0.0);
        assert(payload@ =~= split_token(token@)->Some_0.1);
        assert(signature@ =~= split_token(token@)->Some_0.2);
        let mut input = String::new();
        input.append(header.as_str());
        input.append(".");
        input.append(payload.as_str());
        let tag = match self.hmac_sha256(input.as_str().as_bytes()) {
            Ok(t) => t,
            Err(e) => return Err(e),
        };
        let expected = base64_url_encode(tag.as_slice());
        proof {
            self.lemma_signed_split(token@);
        }
        if !constant_time_eq(signature.as_str().as_bytes(), expected.as_str().as_bytes()) {
            return Err(FastError::Unauthorized("Invalid token signature".to_string()));
        }
        match base64_url_decode(payload.as_str().as_bytes()) {
            Some(bytes) => Ok(bytes),
            None => Err(FastError::Unauthorized("Invalid token payload encoding".to_string())),
        }
    }

    /// A signed token splits into the header, the payload's encoding and the
    /// signature.
    proof fn lemma_signed_split(&self, t: Seq<char>)
        ensures
            forall|p: Seq<char>|
                t == #[trigger] signed_token(self.key(), p) && dot_free(
                    spec_base64_url_encode(encode_utf8(p)),
                ) ==> split_token(t) == Some(
                    (
                        HEADER_B64@,
                        spec_base64_url_encode(encode_utf8(p)),
                        token_signature(self.key(), signing_input(p)),
                    ),
                ),
    {
        assert forall|p: Seq<char>|
            t == #[trigger] signed_token(self.key(), p) && dot_free(
                spec_base64_url_encode(encode_utf8(p)),
            ) implies split_token(t) == Some(
            (
                HEADER_B64@,
                spec_base64_url_encode(encode_utf8(p)),
                token_signature(self.key(), signing_input(p)),
            ),
        ) by {
            reveal_strlit("eyJhbGciOiJIUzI1NiIsInR5cCI6IkpXVCJ9");
            reveal_strlit(".");
            let h = HEADER_B64@;
            let b = spec_base64_url_encode(encode_utf8(p));
            let s = token_signature(self.key(), signing_input(p));
            assert forall|i: int| 0 <= i < h.len() implies h[i] != '.' by {
            }
            lemma_first_dot(h, b + "."@ + s);
            assert(t =~= h + "."@ + (b + "."@ + s));
            assert(t.skip(h.len() as int + 1) =~= b + "."@ + s);
            lemma_first_dot(b, s);
            assert(t.take(h.len() as int) =~= h);
            assert((b + "."@ + s).take(b.len() as int) =~= b);
            assert((b + "."@ + s).skip(b.len() as int + 1) =~= s);
        }
    }
}

} // verus!
