use base64::engine::{general_purpose, Engine};
use hmac::Mac;
use tencent_meeting_service::auth::{canonical_message, TencentAuth};

fn sign(id: &str, key: &str, method: &str, uri: &str, ts: i64, nonce: &str, body: &str) -> String {
    TencentAuth::generate_signature(id, key, method, uri, ts, nonce, body)
}

#[test]
fn test_generate_signature() {
    let signature = sign("test_secret_id", "test_secret_key", "GET", "/v1/test", 1677721600, "12345678", "");
    assert!(!signature.is_empty());
    assert!(general_purpose::STANDARD.decode(&signature).is_ok());
}

#[test]
fn test_generate_nonce() {
    let nonce = TencentAuth::generate_nonce();
    assert!(nonce.len() == 8);
    assert!(nonce.parse::<u64>().is_ok());
}

#[test]
fn test_get_timestamp() {
    let timestamp = TencentAuth::get_timestamp();
    assert!(timestamp > 0);
}

#[test]
fn signature_is_deterministic() {
    let a = sign("id", "key", "POST", "/v1/meetings", 1700000000, "12345678", "{}");
    let b = sign("id", "key", "POST", "/v1/meetings", 1700000000, "12345678", "{}");
    assert_eq!(a, b);
}

#[test]
fn signature_decodes_to_hex_of_length_64() {
    let s = sign("id", "key", "GET", "/v1/meeting-rooms?page=1", 1679452800, "12345678", "");
    let raw = general_purpose::STANDARD.decode(&s).unwrap();
    assert_eq!(raw.len(), 64);
    assert!(raw.iter().all(|b| b.is_ascii_digit() || (b'a'..=b'f').contains(b)));
}

#[test]
fn signature_matches_hmac_of_canonical_text() {
    let text = canonical_message("id", "GET", "/v1/x", -5, "87654321", "body");
    assert_eq!(text, "GET\nX-TC-Key=id&X-TC-Nonce=87654321&X-TC-Timestamp=-5\n/v1/x\nbody");
    let mut mac = hmac::Hmac::<sha2::Sha256>::new_from_slice(b"key").unwrap();
    mac.update(text.as_bytes());
    let hex = hex::encode(mac.finalize().into_bytes());
    let expected = general_purpose::STANDARD.encode(hex.as_bytes());
    assert_eq!(sign("id", "key", "GET", "/v1/x", -5, "87654321", "body"), expected);
}

#[test]
fn signature_changes_with_any_input() {
    let base = sign("id", "key", "GET", "/v1/x", 1, "12345678", "b");
    assert_ne!(base, sign("iD", "key", "GET", "/v1/x", 1, "12345678", "b"));
    assert_ne!(base, sign("id", "kez", "GET", "/v1/x", 1, "12345678", "b"));
    assert_ne!(base, sign("id", "key", "PUT", "/v1/x", 1, "12345678", "b"));
    assert_ne!(base, sign("id", "key", "GET", "/v1/y", 1, "12345678", "b"));
    assert_ne!(base, sign("id", "key", "GET", "/v1/x", 2, "12345678", "b"));
    assert_ne!(base, sign("id", "key", "GET", "/v1/x", 1, "12345679", "b"));
    assert_ne!(base, sign("id", "key", "GET", "/v1/x", 1, "12345678", "c"));
}

#[test]
fn nonce_is_in_range() {
    for _ in 0..50 {
        let n: u64 = TencentAuth::generate_nonce().parse().unwrap();
        assert!((10000000..99999999).contains(&n));
    }
}
