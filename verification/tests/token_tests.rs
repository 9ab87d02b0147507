use auth_core::token::AuthError;
use auth_core::token::IssueError;
use auth_core::token::TOKEN_TTL_SECONDS;
use auth_core::token::generate_token;
use auth_core::token::verify_token;

const SECRET: &[u8] = b"process-wide-test-secret";
const NOW: i64 = 1_700_000_000;

#[test]
fn issued_token_validates_immediately_with_same_subject() {
    let t = generate_token(42, NOW, SECRET).unwrap();
    let c = verify_token(&t, SECRET, NOW).unwrap();
    assert_eq!(c.sub, 42);
    assert_eq!(c.exp as i64, NOW + TOKEN_TTL_SECONDS);
}

#[test]
fn negative_subject_round_trips() {
    let t = generate_token(-7, NOW, SECRET).unwrap();
    let c = verify_token(&t, SECRET, NOW).unwrap();
    assert_eq!(c.sub, -7);
}

#[test]
fn token_expires_once_ttl_has_elapsed() {
    let t = generate_token(42, NOW, SECRET).unwrap();
    assert_eq!(verify_token(&t, SECRET, NOW + TOKEN_TTL_SECONDS - 1).unwrap().sub, 42);
    assert_eq!(verify_token(&t, SECRET, NOW + TOKEN_TTL_SECONDS), Err(AuthError::Expired));
    assert_eq!(verify_token(&t, SECRET, NOW + 10 * TOKEN_TTL_SECONDS), Err(AuthError::Expired));
}

#[test]
fn flipped_signature_bit_is_signature_invalid() {
    let t = generate_token(42, NOW, SECRET).unwrap();
    let dot = t.rfind('.').unwrap();
    let mut bytes = t.clone().into_bytes();
    // flip the low bit of the first signature byte: stays ASCII, not a dot
    bytes[dot + 1] ^= 1;
    let tampered = String::from_utf8(bytes).unwrap();
    assert_ne!(tampered, t);
    assert_eq!(verify_token(&tampered, SECRET, NOW), Err(AuthError::SignatureInvalid));
}

#[test]
fn every_single_char_change_in_signature_is_rejected() {
    let t = generate_token(9, NOW, SECRET).unwrap();
    let dot = t.rfind('.').unwrap();
    let bytes = t.as_bytes();
    for i in (dot + 1)..bytes.len() {
        let mut b = bytes.to_vec();
        b[i] = if b[i] == b'A' { b'B' } else { b'A' };
        if b == bytes {
            continue;
        }
        let tampered = String::from_utf8(b).unwrap();
        let r = verify_token(&tampered, SECRET, NOW);
        assert_eq!(r, Err(AuthError::SignatureInvalid));
    }
}

#[test]
fn truncated_signature_is_signature_invalid() {
    let t = generate_token(42, NOW, SECRET).unwrap();
    let dot = t.rfind('.').unwrap();
    let truncated = &t[..dot + 1];
    assert_eq!(verify_token(truncated, SECRET, NOW), Err(AuthError::SignatureInvalid));
}

#[test]
fn dot_injected_into_signature_is_malformed() {
    let t = generate_token(42, NOW, SECRET).unwrap();
    let mut bytes = t.clone().into_bytes();
    let last = bytes.len() - 1;
    bytes[last] = b'.';
    let tampered = String::from_utf8(bytes).unwrap();
    assert_eq!(verify_token(&tampered, SECRET, NOW), Err(AuthError::Malformed));
}

#[test]
fn wrong_secret_is_signature_invalid() {
    let t = generate_token(42, NOW, SECRET).unwrap();
    assert_eq!(verify_token(&t, b"another-secret", NOW), Err(AuthError::SignatureInvalid));
}

#[test]
fn structurally_broken_tokens_are_malformed() {
    assert_eq!(verify_token("", SECRET, NOW), Err(AuthError::Malformed));
    assert_eq!(verify_token("abc", SECRET, NOW), Err(AuthError::Malformed));
    assert_eq!(verify_token("a.b", SECRET, NOW), Err(AuthError::Malformed));
    assert_eq!(verify_token("a.b.c.d", SECRET, NOW), Err(AuthError::Malformed));
    assert_eq!(verify_token("ü.b.c", SECRET, NOW), Err(AuthError::Malformed));
}

#[test]
fn issuance_rejects_unusable_clock() {
    assert_eq!(generate_token(1, -5, SECRET), Err(IssueError::ClockOutOfRange));
    assert_eq!(generate_token(1, i64::MAX - 10, SECRET), Err(IssueError::ClockOutOfRange));
}

#[test]
fn two_issuances_at_one_instant_are_each_valid() {
    let t1 = generate_token(7, NOW, SECRET).unwrap();
    let t2 = generate_token(7, NOW, SECRET).unwrap();
    assert_eq!(verify_token(&t1, SECRET, NOW).unwrap().sub, 7);
    assert_eq!(verify_token(&t2, SECRET, NOW).unwrap().sub, 7);
}

#[test]
fn token_decodes_with_the_jwt_crate() {
    // interop: the compact form is a standard HS256 JWT
    let now = chrono::Utc::now().timestamp();
    let t = generate_token(42, now, SECRET).unwrap();
    let key = jsonwebtoken::DecodingKey::from_secret(SECRET);
    let validation = jsonwebtoken::Validation::new(jsonwebtoken::Algorithm::HS256);
    let data = jsonwebtoken::decode::<serde_json::Value>(&t, &key, &validation).unwrap();
    assert_eq!(data.claims["sub"], serde_json::Value::from(42));
    assert_eq!(data.claims["exp"], serde_json::Value::from(now + TOKEN_TTL_SECONDS));
}

#[test]
fn tampered_token_rejected_by_the_jwt_crate_too() {
    let now = chrono::Utc::now().timestamp();
    let t = generate_token(42, now, SECRET).unwrap();
    let dot = t.rfind('.').unwrap();
    let mut bytes = t.into_bytes();
    bytes[dot + 1] ^= 1;
    let tampered = String::from_utf8(bytes).unwrap();
    let key = jsonwebtoken::DecodingKey::from_secret(SECRET);
    let validation = jsonwebtoken::Validation::new(jsonwebtoken::Algorithm::HS256);
    assert!(jsonwebtoken::decode::<serde_json::Value>(&tampered, &key, &validation).is_err());
}
