//! The signature the gateway attaches to every request it forwards, so that
//! upstream services can tell that the request passed through the gateway.

use vstd::prelude::*;
use vstd::utf8::encode_utf8;
use ring::signature::Ed25519KeyPair;
use crate::text::push_char;

verus! {

broadcast use vstd::string::group_string_axioms;

/// `ring::signature::Ed25519KeyPair`, declared so that a key pair can be held;
/// nothing is seen inside it.
#[verifier::external_type_specification]
#[verifier::external_body]
pub struct ExEd25519KeyPair(Ed25519KeyPair);

/// The SHA-256 digest of `data` (computed by `ring`).
pub uninterp spec fn sha256_of(data: Seq<u8>) -> Seq<u8>;

/// Whether `ring` accepts `document` as an unencrypted PKCS#8 (v1 or v2)
/// Ed25519 private key.
pub uninterp spec fn pkcs8_accepted(document: Seq<u8>) -> bool;

/// The Ed25519 signature of `message` under the key pair that `ring` reads
/// from the PKCS#8 document `document`.
pub uninterp spec fn ed25519_signature(document: Seq<u8>, message: Seq<u8>) -> Seq<u8>;

/// `ring::digest::digest` with `SHA256`: the digest of `data`, 32 bytes long.
#[verifier::external_body]
fn sha256(data: &[u8]) -> (r: Vec<u8>)
    ensures
        r@ == sha256_of(data@),
        r@.len() == 32,
{
    ring::digest::digest(&ring::digest::SHA256, data).as_ref().to_vec()
}

/// `Ed25519KeyPair::from_pkcs8_maybe_unchecked`: the key pair of a PKCS#8
/// document, or the rejection rendered as text. Which of the two comes back
/// depends on the document alone; the text of a rejection is not stated.
#[verifier::external_body]
fn ed25519_from_pkcs8(document: &[u8]) -> (r: Result<Ed25519KeyPair, String>)
    ensures
        r is Ok <==> pkcs8_accepted(document@),
{
    match Ed25519KeyPair::from_pkcs8_maybe_unchecked(document) {
        Ok(pair) => Ok(pair),
        Err(e) => Err(e.to_string()),
    }
}

/// `Ed25519KeyPair::sign`: the 64-byte signature of `message`. Ed25519 signing
/// is deterministic, so the signature is a function of the key document the
/// pair was read from and of the message.
#[verifier::external_body]
fn ed25519_sign(key: &GatewaySigningKey, message: &[u8]) -> (r: Vec<u8>)
    ensures
        r@ == ed25519_signature(key.document(), message@),
        r@.len() == 64,
{
    key.pair.sign(message).as_ref().to_vec()
}

/// `base64::engine::general_purpose::STANDARD.encode`: the standard padded
/// Base64 encoding of `bytes` (RFC 4648, section 4).
#[verifier::external_body]
fn base64_standard(bytes: &[u8]) -> (r: String)
    requires
        bytes@.len() <= usize::MAX / 2,
    ensures
        r@ == base64_encode(bytes@),
{
    base64::Engine::encode(&base64::engine::general_purpose::STANDARD, bytes)
}

/// The RFC 3339 text (UTC, `+00:00`) that `chrono` writes for the time
/// `secs` seconds and `nanos` nanoseconds after the Unix epoch, or `None`
/// when `chrono` cannot represent that time.
pub uninterp spec fn rfc3339_text(secs: i64, nanos: u32) -> Option<Seq<char>>;

/// `SystemTime::now().duration_since(UNIX_EPOCH)`: the time on the system
/// clock as whole seconds and the nanoseconds past them, or `None` when the
/// clock reads before the epoch. What the clock reads is not stated; the
/// nanoseconds of a `Duration` are below one second.
#[verifier::external_body]
fn unix_time_now() -> (r: Option<(u64, u32)>)
    ensures
        r matches Some(t) ==> t.1 < 1_000_000_000,
{
    match std::time::SystemTime::now().duration_since(std::time::UNIX_EPOCH) {
        Ok(d) => Some((d.as_secs(), d.subsec_nanos())),
        Err(_) => None,
    }
}

/// `chrono::DateTime::<Utc>::from_timestamp` followed by `to_rfc3339`: the
/// RFC 3339 text of a time given as seconds and nanoseconds since the epoch,
/// `None` when the time is out of `chrono`'s range. Neither call panics, and
/// the text depends on the two numbers alone.
#[verifier::external_body]
fn rfc3339_utc(secs: i64, nanos: u32) -> (r: Option<String>)
    ensures
        match r {
            Some(t) => rfc3339_text(secs, nanos) == Some(t@),
            None => rfc3339_text(secs, nanos) is None,
        },
{
    match chrono::DateTime::<chrono::Utc>::from_timestamp(secs, nanos) {
        Some(t) => Some(t.to_rfc3339()),
        None => None,
    }
}

/// The character of a six-bit value in the standard Base64 alphabet.
pub open spec fn base64_char(v: int) -> char {
    if v < 26 {
        (65 + v) as char
    } else if v < 52 {
        (97 + v - 26) as char
    } else if v < 62 {
        (48 + v - 52) as char
    } else if v == 62 {
        '+'
    } else {
        '/'
    }
}

/// The standard Base64 encoding of `b`, padded with `=` to a multiple of four.
pub open spec fn base64_encode(b: Seq<u8>) -> Seq<char>
    decreases b.len(),
{
    if b.len() == 0 {
        Seq::empty()
    } else if b.len() == 1 {
        seq![base64_char((b[0] / 4) as int), base64_char((b[0] % 4) * 16), '=', '=']
    } else if b.len() == 2 {
        seq![
            base64_char((b[0] / 4) as int),
            base64_char((b[0] % 4) * 16 + b[1] / 16),
            base64_char((b[1] % 16) * 4),
            '=',
        ]
    } else {
        seq![
            base64_char((b[0] / 4) as int),
            base64_char((b[0] % 4) * 16 + b[1] / 16),
            base64_char((b[1] % 16) * 4 + b[2] / 64),
            base64_char((b[2] % 64) as int),
        ] + base64_encode(b.skip(3))
    }
}

/// The lowercase hexadecimal digit of `d` (`d < 16`).
pub open spec fn hex_digit(d: int) -> char {
    if d < 10 {
        (48 + d) as char
    } else {
        (97 + d - 10) as char
    }
}

/// `b` in lowercase hexadecimal, two digits per byte.
pub open spec fn hex_lower(b: Seq<u8>) -> Seq<char>
    decreases b.len(),
{
    if b.len() == 0 {
        Seq::empty()
    } else {
        seq![hex_digit((b[0] / 16) as int), hex_digit((b[0] % 16) as int)] + hex_lower(b.skip(1))
    }
}

/// The text that is signed for a request: method, path, timestamp and the
/// hexadecimal SHA-256 digest of the body, joined by colons.
pub open spec fn signed_text(
    method: Seq<char>,
    path: Seq<char>,
    timestamp: Seq<char>,
    body: Seq<u8>,
) -> Seq<char> {
    method + ":"@ + path + ":"@ + timestamp + ":"@ + hex_lower(sha256_of(body))
}

/// An Ed25519 key pair, with the PKCS#8 document it was read from.
pub struct GatewaySigningKey {
    pair: Ed25519KeyPair,
    document: Vec<u8>,
}

impl GatewaySigningKey {
    /// The PKCS#8 document the key pair was read from.
    pub closed spec fn document(&self) -> Seq<u8> {
        self.document@
    }

    /// The key pair of an unencrypted PKCS#8 (v1 or v2) Ed25519 private key
    /// document; the rejection as text when `ring` does not accept it.
    pub fn from_pkcs8(document: &[u8]) -> (r: Result<GatewaySigningKey, String>)
        ensures
            r is Ok <==> pkcs8_accepted(document@),
            r matches Ok(k) ==> k.document() == document@,
    {
        match ed25519_from_pkcs8(document) {
            Ok(pair) => {
                let mut kept: Vec<u8> = Vec::new();
                let mut i: usize = 0;
                while i < document.len()
                    invariant
                        i <= document.len(),
                        kept@ == document@.take(i as int),
                    decreases document.len() - i,
                {
                    kept.push(document[i]);
                    i = i + 1;
                    assert(kept@ =~= document@.take(i as int));
                }
                assert(document@.take(document@.len() as int) =~= document@);
                Ok(GatewaySigningKey { pair, document: kept })
            },
            Err(e) => Err(e),
        }
    }
}

/// Appends `b` in lowercase hexadecimal to `s`.
pub fn push_hex(s: &mut String, b: &[u8])
    ensures
        final(s)@ == old(s)@ + hex_lower(b@),
{
    let mut i: usize = 0;
    while i < b.len()
        invariant
            i <= b.len(),
            s@ == old(s)@ + hex_lower(b@.take(i as int)),
        decreases b.len() - i,
    {
        let hi = b[i] / 16;
        let lo = b[i] % 16;
        let c_hi = if hi < 10 { (48 + hi) as char } else { (87 + hi) as char };
        let c_lo = if lo < 10 { (48 + lo) as char } else { (87 + lo) as char };
        push_char(s, c_hi);
        push_char(s, c_lo);
        proof {
            lemma_hex_lower_append(b@, i as int);
        }
        i = i + 1;
    }
    assert(b@.take(b@.len() as int) =~= b@);
}

proof fn lemma_hex_lower_append(b: Seq<u8>, i: int)
    requires
        0 <= i < b.len(),
    ensures
        hex_lower(b.take(i + 1)) == hex_lower(b.take(i)) + seq![
            hex_digit((b[i] / 16) as int),
            hex_digit((b[i] % 16) as int),
        ],
    decreases i,
{
    let t = b.take(i + 1);
    if i == 0 {
        assert(t.skip(1) =~= Seq::<u8>::empty());
        assert(b.take(0) =~= Seq::<u8>::empty());
        assert(hex_lower(t) =~= hex_lower(b.take(i)) + seq![
            hex_digit((b[i] / 16) as int),
            hex_digit((b[i] % 16) as int),
        ]);
    } else {
        lemma_hex_lower_append(b.skip(1), i - 1);
        assert(b.skip(1).take(i) =~= t.skip(1));
        assert(b.skip(1).take(i - 1) =~= b.take(i).skip(1));
        assert(hex_lower(t) =~= hex_lower(b.take(i)) + seq![
            hex_digit((b[i] / 16) as int),
            hex_digit((b[i] % 16) as int),
        ]);
    }
}

/// The text that is signed for a request whose body has the SHA-256 digest
/// `digest`: method, path, timestamp and the digest in hexadecimal, joined by
/// colons.
pub fn signed_text_with_digest(method: &str, path: &str, timestamp: &str, digest: &[u8]) -> (r:
    String)
    ensures
        r@ == method@ + ":"@ + path@ + ":"@ + timestamp@ + ":"@ + hex_lower(digest@),
{
    let mut s = String::from_str(method);
    s.append(":");
    s.append(path);
    s.append(":");
    s.append(timestamp);
    s.append(":");
    push_hex(&mut s, digest);
    s
}

/// The text that is signed for a request with the given method, path,
/// timestamp and body.
pub fn signature_payload(method: &str, path: &str, timestamp: &str, body: &[u8]) -> (r: String)
    ensures
        r@ == signed_text(method@, path@, timestamp@, body@),
{
    let digest = sha256(body);
    signed_text_with_digest(method, path, timestamp, digest.as_slice())
}

/// The signature header value for a request signed at `timestamp`: the
/// Base64 text of the Ed25519 signature of the signed text.
pub fn sign_request_at(
    key: &GatewaySigningKey,
    method: &str,
    path: &str,
    timestamp: &str,
    body: &[u8],
) -> (r: String)
    ensures
        r@ == base64_encode(
            ed25519_signature(key.document(), encode_utf8(signed_text(method@, path@, timestamp@, body@))),
        ),
        r@.len() == 88,
{
    let payload = signature_payload(method, path, timestamp, body);
    let sig = ed25519_sign(key, payload.as_str().as_bytes());
    proof {
        law_base64_length(sig@);
    }
    base64_standard(sig.as_slice())
}

/// The RFC 3339 text of the time `secs` seconds and `nanos` nanoseconds after
/// the Unix epoch; `None` when `secs` is beyond `i64` or the time is beyond
/// what `chrono` represents.
pub fn timestamp_text(secs: u64, nanos: u32) -> (r: Option<String>)
    ensures
        match r {
            Some(t) => secs <= i64::MAX && rfc3339_text(secs as i64, nanos) == Some(t@),
            None => secs > i64::MAX || rfc3339_text(secs as i64, nanos) is None,
        },
{
    if secs > 9223372036854775807u64 {
        return None;
    }
    rfc3339_utc(secs as i64, nanos)
}

/// Signs a request at the current time: the signature header value and the
/// timestamp that was signed, the RFC 3339 text of the time on the clock.
/// `None` when the clock cannot be read as such a time.
pub fn sign_request(key: &GatewaySigningKey, method: &str, path: &str, body: &[u8]) -> (r: Option<
    (String, String),
>)
    ensures
        r matches Some(p) ==> {
            &&& p.0@ == base64_encode(
                ed25519_signature(key.document(), encode_utf8(signed_text(method@, path@, p.1@, body@))),
            )
            &&& p.0@.len() == 88
            &&& exists|secs: i64, nanos: u32|
                nanos < 1_000_000_000 && #[trigger] rfc3339_text(secs, nanos) == Some(p.1@)
        },
{
    sign_request_at_reading(key, method, path, body, unix_time_now())
}

/// Signs a request at the time `reading` gives, as whole seconds and
/// nanoseconds since the Unix epoch (`None`: the clock could not be read):
/// the signature header value and the timestamp that was signed, which is
/// the RFC 3339 text of exactly that time. `None` when there is no reading
/// or the time has no RFC 3339 text.
pub fn sign_request_at_reading(
    key: &GatewaySigningKey,
    method: &str,
    path: &str,
    body: &[u8],
    reading: Option<(u64, u32)>,
) -> (r: Option<(String, String)>)
    ensures
        match reading {
            None => r is None,
            Some((secs, nanos)) => if secs <= i64::MAX && rfc3339_text(secs as i64, nanos) is Some {
                r matches Some(p) && {
                    &&& Some(p.1@) == rfc3339_text(secs as i64, nanos)
                    &&& p.0@ == base64_encode(
                        ed25519_signature(
                            key.document(),
                            encode_utf8(signed_text(method@, path@, p.1@, body@)),
                        ),
                    )
                    &&& p.0@.len() == 88
                }
            } else {
                r is None
            },
        },
{
    match reading {
        None => None,
        Some((secs, nanos)) => match timestamp_text(secs, nanos) {
            None => None,
            Some(timestamp) => {
                let signature = sign_request_at(key, method, path, timestamp.as_str(), body);
                Some((signature, timestamp))
            },
        },
    }
}

/// Hexadecimal text has two digits per byte.
pub proof fn law_hex_length(b: Seq<u8>)
    ensures
        hex_lower(b).len() == 2 * b.len(),
    decreases b.len(),
{
    if b.len() > 0 {
        law_hex_length(b.skip(1));
    }
}

/// Padded Base64 text has four characters per started group of three bytes.
pub proof fn law_base64_length(b: Seq<u8>)
    ensures
        base64_encode(b).len() == 4 * ((b.len() + 2) / 3),
    decreases b.len(),
{
    if b.len() > 2 {
        law_base64_length(b.skip(3));
    }
}

} // verus!
