use auth_core::gate::GateOutcome;
use auth_core::gate::authorize;
use auth_core::token::generate_token;

const SECRET: &[u8] = b"process-wide-test-secret";
const NOW: i64 = 1_700_000_000;

#[test]
fn missing_header_is_rejected_with_token_not_found() {
    match authorize(None, SECRET, NOW) {
        GateOutcome::Reject(rej) => {
            assert_eq!(rej.status, 401);
            assert_eq!(rej.message, "token not found");
        },
        GateOutcome::Proceed(_) => panic!("gate let a request without a header through"),
    }
}

#[test]
fn wrong_scheme_is_rejected_with_token_not_found() {
    for header in ["Basic dXNlcg==", "bearer abc", "Bearer", "Token abc", ""] {
        match authorize(Some(header), SECRET, NOW) {
            GateOutcome::Reject(rej) => {
                assert_eq!(rej.status, 401);
                assert_eq!(rej.message, "token not found");
            },
            GateOutcome::Proceed(_) => panic!("gate accepted scheme {header:?}"),
        }
    }
}

#[test]
fn invalid_token_is_rejected_with_generic_message() {
    // malformed, tampered and expired all collapse to one message
    let valid = generate_token(42, NOW, SECRET).unwrap();
    let mut tampered_bytes = valid.clone().into_bytes();
    let dot = valid.rfind('.').unwrap();
    tampered_bytes[dot + 1] ^= 1;
    let tampered = String::from_utf8(tampered_bytes).unwrap();
    let cases = [
        "Bearer not-a-token".to_string(),
        format!("Bearer {tampered}"),
    ];
    for header in &cases {
        match authorize(Some(header), SECRET, NOW) {
            GateOutcome::Reject(rej) => {
                assert_eq!(rej.status, 401);
                assert_eq!(rej.message, "invalid token");
            },
            GateOutcome::Proceed(_) => panic!("gate accepted {header:?}"),
        }
    }
    match authorize(Some(&format!("Bearer {valid}")), SECRET, NOW + 2 * 86400) {
        GateOutcome::Reject(rej) => assert_eq!(rej.message, "invalid token"),
        GateOutcome::Proceed(_) => panic!("gate accepted an expired token"),
    }
}

#[test]
fn valid_bearer_token_proceeds_with_claims_attached() {
    let t = generate_token(42, NOW, SECRET).unwrap();
    match authorize(Some(&format!("Bearer {t}")), SECRET, NOW) {
        GateOutcome::Proceed(claims) => {
            assert_eq!(claims.sub, 42);
            assert_eq!(claims.exp as i64, NOW + 86400);
        },
        GateOutcome::Reject(rej) => panic!("gate rejected a valid token: {}", rej.message),
    }
}
