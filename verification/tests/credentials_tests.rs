use auth_core::credentials::CredentialError;
use auth_core::credentials::hash_password;
use auth_core::credentials::verify_password;

#[test]
fn hash_then_verify_accepts_same_password() {
    let h = hash_password("hunter22").unwrap();
    assert_eq!(verify_password("hunter22", &h).unwrap(), true);
}

#[test]
fn verify_rejects_different_password() {
    let h = hash_password("hunter22").unwrap();
    assert_eq!(verify_password("hunter23", &h).unwrap(), false);
    assert_eq!(verify_password("", &h).unwrap(), false);
}

#[test]
fn two_hashes_of_one_password_differ_but_both_verify() {
    let h1 = hash_password("swordfish1").unwrap();
    let h2 = hash_password("swordfish1").unwrap();
    assert_ne!(h1, h2);
    assert!(verify_password("swordfish1", &h1).unwrap());
    assert!(verify_password("swordfish1", &h2).unwrap());
}

#[test]
fn malformed_stored_hash_is_an_error_not_a_mismatch() {
    let r = verify_password("anything", "not-a-bcrypt-hash");
    assert_eq!(r, Err(CredentialError::StoredHashInvalid));
}

#[test]
fn hash_output_is_a_bcrypt_string() {
    let h = hash_password("topsecret9").unwrap();
    assert!(h.starts_with("$2"));
}
