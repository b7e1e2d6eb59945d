//! Request signing for the upstream API: HMAC-SHA256 over a canonical text,
//! hex-encoded, then base64-encoded, with a fresh nonce and timestamp.
use vstd::prelude::*;
use vstd::utf8::encode_utf8;
use base64::Engine;
use hmac::Mac;
use crate::text::{int_text, u64_text};

verus! {

/// HMAC-SHA256 of a message under a key.
pub uninterp spec fn hmac_sha256_of(key: Seq<u8>, msg: Seq<u8>) -> Seq<u8>;

/// Standard base64 text (with padding) of a byte sequence.
pub uninterp spec fn base64_of(bytes: Seq<u8>) -> Seq<char>;

/// ASCII code of the lowercase hex digit of a value below 16.
pub open spec fn hex_digit(v: int) -> u8 {
    if v < 10 {
        (48 + v) as u8
    } else {
        (87 + v) as u8
    }
}

/// Lowercase hex text of bytes, as ASCII codes: two digits per byte, the
/// high half first.
pub open spec fn hex_bytes(b: Seq<u8>) -> Seq<u8>
    decreases b.len(),
{
    if b.len() == 0 {
        Seq::empty()
    } else {
        hex_bytes(b.drop_last()) + seq![hex_digit(b.last() as int / 16), hex_digit(b.last() as int % 16)]
    }
}

/// ASCII code of a lowercase hex digit.
pub open spec fn is_hex_code(c: u8) -> bool {
    (48 <= c <= 57) || (97 <= c <= 102)
}

/// The header part of the text to sign.
pub open spec fn header_text(secret_id: Seq<char>, nonce: Seq<char>, timestamp: int) -> Seq<char> {
    "X-TC-Key="@ + secret_id + "&X-TC-Nonce="@ + nonce + "&X-TC-Timestamp="@ + int_text(timestamp)
}

/// The text to sign: method, header part, URI and body, one per line.
pub open spec fn canonical_text(
    secret_id: Seq<char>,
    method: Seq<char>,
    uri: Seq<char>,
    timestamp: int,
    nonce: Seq<char>,
    body: Seq<char>,
) -> Seq<char> {
    method + "\n"@ + header_text(secret_id, nonce, timestamp) + "\n"@ + uri + "\n"@ + body
}

/// The signature of a request: base64 of the hex text of the HMAC.
pub open spec fn signature_of(
    secret_id: Seq<char>,
    secret_key: Seq<char>,
    method: Seq<char>,
    uri: Seq<char>,
    timestamp: int,
    nonce: Seq<char>,
    body: Seq<char>,
) -> Seq<char> {
    base64_of(
        hex_bytes(
            hmac_sha256_of(
                encode_utf8(secret_key),
                encode_utf8(canonical_text(secret_id, method, uri, timestamp, nonce, body)),
            ),
        ),
    )
}

/// Relies on hmac's `Hmac::<Sha256>::new_from_slice`, `update` and
/// `finalize`: the MAC depends on key and message alone and has 32 bytes.
/// A key of any length is accepted.
#[verifier::external_body]
fn hmac_sha256(key: &[u8], msg: &[u8]) -> (r: Vec<u8>)
    ensures
        r@ == hmac_sha256_of(key@, msg@),
        r@.len() == 32,
{
    let mut mac = hmac::Hmac::<sha2::Sha256>::new_from_slice(key).unwrap();
    mac.update(msg);
    mac.finalize().into_bytes().to_vec()
}

/// Relies on `hex::encode`: two lowercase hex digits per byte.
#[verifier::external_body]
fn hex_encode(b: &[u8]) -> (r: Vec<u8>)
    ensures
        r@ == hex_bytes(b@),
{
    hex::encode(b).into_bytes()
}

/// Relies on base64's `STANDARD` engine `encode`: its output depends on the
/// bytes alone.
#[verifier::external_body]
fn base64_encode(b: &[u8]) -> (r: String)
    ensures
        r@ == base64_of(b@),
{
    base64::engine::general_purpose::STANDARD.encode(b)
}

/// Relies on rand's `thread_rng().gen_range(lo..hi)`: a value in `lo..hi`;
/// the range must not be empty.
#[verifier::external_body]
fn random_below(lo: u64, hi: u64) -> (r: u64)
    requires
        lo < hi,
    ensures
        lo <= r < hi,
{
    rand::Rng::gen_range(&mut rand::thread_rng(), lo..hi)
}

proof fn lemma_hex_bytes(b: Seq<u8>)
    ensures
        hex_bytes(b).len() == 2 * b.len(),
        forall|i: int| 0 <= i < hex_bytes(b).len() ==> is_hex_code(#[trigger] hex_bytes(b)[i]),
    decreases b.len(),
{
    if b.len() > 0 {
        lemma_hex_bytes(b.drop_last());
        let prev = hex_bytes(b.drop_last());
        let pair = seq![hex_digit(b.last() as int / 16), hex_digit(b.last() as int % 16)];
        assert forall|i: int| 0 <= i < hex_bytes(b).len() implies is_hex_code(#[trigger] hex_bytes(b)[i]) by {
            if i < prev.len() {
                assert(hex_bytes(b)[i] == prev[i]);
            } else {
                assert(hex_bytes(b)[i] == pair[i - prev.len()]);
            }
        }
    }
}

/// Authentication helpers of the upstream API.
#[derive(Debug)]
pub struct TencentAuth;

impl TencentAuth {
    /// An 8-digit decimal nonce drawn from `10000000..=99999999`.
    pub fn generate_nonce() -> (r: String)
        ensures
            exists|n: int| 10000000 <= n <= 99999999 && r@ == int_text(n),
            r@.len() == 8,
    {
        let n = random_below(10000000, 100000000);
        proof {
            lemma_dec_digits_len8(n as nat);
        }
        let r = u64_text(n);
        assert(r@ == int_text(n as int));
        r
    }

    /// The current Unix time in seconds.
    pub fn get_timestamp() -> (r: i64) {
        crate::instant::now_seconds()
    }

    /// The signature of a request: the lowercase hex text of
    /// HMAC-SHA256(secret_key, canonical text), encoded in base64.
    pub fn generate_signature(
        secret_id: &str,
        secret_key: &str,
        method: &str,
        uri: &str,
        timestamp: i64,
        nonce: &str,
        body: &str,
    ) -> (r: String)
        ensures
            r@ == signature_of(secret_id@, secret_key@, method@, uri@, timestamp as int, nonce@, body@),
            exists|hex: Seq<u8>|
                hex.len() == 64 && (forall|i: int| 0 <= i < 64 ==> is_hex_code(#[trigger] hex[i])) && r@ == base64_of(hex),
    {
        let content = canonical_message(secret_id, method, uri, timestamp, nonce, body);
        let mac = hmac_sha256(secret_key.as_bytes(), content.as_str().as_bytes());
        let hex = hex_encode(mac.as_slice());
        proof {
            lemma_hex_bytes(mac@);
        }
        base64_encode(hex.as_slice())
    }
}

/// The text that is signed for a request.
pub fn canonical_message(
    secret_id: &str,
    method: &str,
    uri: &str,
    timestamp: i64,
    nonce: &str,
    body: &str,
) -> (r: String)
    ensures
        r@ == canonical_text(secret_id@, method@, uri@, timestamp as int, nonce@, body@),
{
    let ts = crate::text::i64_text(timestamp);
    let mut s = String::from_str(method);
    s.append("\nX-TC-Key=");
    s.append(secret_id);
    s.append("&X-TC-Nonce=");
    s.append(nonce);
    s.append("&X-TC-Timestamp=");
    s.append(ts.as_str());
    s.append("\n");
    s.append(uri);
    s.append("\n");
    s.append(body);
    proof {
        reveal_strlit("\nX-TC-Key=");
        reveal_strlit("X-TC-Key=");
        reveal_strlit("&X-TC-Nonce=");
        reveal_strlit("&X-TC-Timestamp=");
        reveal_strlit("\n");
        assert(s@ =~= canonical_text(secret_id@, method@, uri@, timestamp as int, nonce@, body@));
    }
    s
}

proof fn lemma_dec_digits_len8(n: nat)
    requires
        10000000 <= n < 100000000,
    ensures
        crate::text::dec_digits(n).len() == 8,
{
    reveal_with_fuel(crate::text::dec_digits, 9);
}

/// The signature of a request is fixed by its inputs.
pub proof fn lemma_signature_deterministic(
    secret_id: Seq<char>,
    secret_key: Seq<char>,
    method: Seq<char>,
    uri: Seq<char>,
    timestamp: int,
    nonce: Seq<char>,
    body: Seq<char>,
    r1: Seq<char>,
    r2: Seq<char>,
)
    requires
        r1 == signature_of(secret_id, secret_key, method, uri, timestamp, nonce, body),
        r2 == signature_of(secret_id, secret_key, method, uri, timestamp, nonce, body),
    ensures
        r1 == r2,
{
}

/// A signature is the base64 text of 64 ASCII lowercase hex digits.
pub proof fn lemma_signature_is_hex(
    secret_id: Seq<char>,
    secret_key: Seq<char>,
    method: Seq<char>,
    uri: Seq<char>,
    timestamp: int,
    nonce: Seq<char>,
    body: Seq<char>,
    mac: Seq<u8>,
)
    requires
        mac == hmac_sha256_of(encode_utf8(secret_key), encode_utf8(canonical_text(secret_id, method, uri, timestamp, nonce, body))),
        mac.len() == 32,
    ensures
        signature_of(secret_id, secret_key, method, uri, timestamp, nonce, body) == base64_of(hex_bytes(mac)),
        hex_bytes(mac).len() == 64,
        forall|i: int| 0 <= i < 64 ==> is_hex_code(#[trigger] hex_bytes(mac)[i]),
{
    lemma_hex_bytes(mac);
}

} // verus!
