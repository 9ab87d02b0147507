use auth_core::credentials::hash_password;
use auth_core::flows::CredentialRecord;
use auth_core::flows::IdLookup;
use auth_core::flows::LookupOutcome;
use auth_core::flows::ReplyData;
use auth_core::flows::RowLookup;
use auth_core::flows::WriteOutcome;
use auth_core::flows::destroy_on_delete;
use auth_core::flows::email_conflict_check;
use auth_core::flows::index_reply;
use auth_core::flows::login_finish;
use auth_core::flows::login_validate;
use auth_core::flows::register_on_fetch;
use auth_core::flows::register_on_insert;
use auth_core::flows::register_validate;
use auth_core::flows::show_reply;
use auth_core::flows::store_on_fetch;
use auth_core::flows::store_on_insert;
use auth_core::flows::update_on_write;
use auth_core::flows::update_password_hash;
use auth_core::flows::update_on_fetch;
use auth_core::flows::update_validate;
use auth_core::flows::user_exists_check;
use auth_core::models::User;
use auth_core::schemas::login_schema::LoginRequest;
use auth_core::schemas::register_schema::RegisterRequest;
use auth_core::schemas::user_schema::UserUpdateRequest;
use auth_core::token::verify_token;
use auth_core::credentials::verify_password;

const SECRET: &[u8] = b"process-wide-test-secret";
const NOW: i64 = 1_700_000_000;

fn sample_user() -> User {
    User {
        id: 3,
        name: "Alice".to_string(),
        email: "alice@example.com".to_string(),
        created_at: Some("2024-01-01 00:00:00".to_string()),
        updated_at: None,
    }
}

#[test]
fn valid_login_request_bypasses_the_422_path() {
    let req = LoginRequest {
        email: "user@example.com".to_string(),
        password: "secret123".to_string(),
    };
    assert!(login_validate(&req).is_none());
}

#[test]
fn invalid_login_request_is_422_with_all_errors() {
    let req = LoginRequest { email: "bad".to_string(), password: "123".to_string() };
    let rep = login_validate(&req).unwrap();
    assert_eq!(rep.status, 422);
    assert!(!rep.body.status);
    assert_eq!(rep.body.message, "Validasi Gagal");
    match rep.body.data {
        Some(ReplyData::Errors(e)) => assert_eq!(e.entries.len(), 2),
        _ => panic!("422 reply without the error set"),
    }
}

#[test]
fn unknown_email_and_wrong_password_are_indistinguishable() {
    let req = LoginRequest {
        email: "user@example.com".to_string(),
        password: "wrongpass".to_string(),
    };
    let not_found = login_finish(&req, LookupOutcome::NotFound, SECRET, NOW);
    let hash = hash_password("rightpass").unwrap();
    let rec = CredentialRecord {
        id: 1,
        name: "U".to_string(),
        email: "user@example.com".to_string(),
        password_hash: hash,
    };
    let wrong_pw = login_finish(&req, LookupOutcome::Found(rec), SECRET, NOW);
    assert_eq!(not_found.status, 401);
    assert_eq!(wrong_pw.status, 401);
    assert_eq!(not_found.body.message, wrong_pw.body.message);
    assert_eq!(not_found.body.message, "Email atau Password Anda Salah");
}

#[test]
fn successful_login_returns_user_and_valid_token() {
    let req = LoginRequest {
        email: "user@example.com".to_string(),
        password: "rightpass".to_string(),
    };
    let hash = hash_password("rightpass").unwrap();
    let rec = CredentialRecord {
        id: 5,
        name: "U".to_string(),
        email: "user@example.com".to_string(),
        password_hash: hash,
    };
    let rep = login_finish(&req, LookupOutcome::Found(rec), SECRET, NOW);
    assert_eq!(rep.status, 200);
    assert!(rep.body.status);
    assert_eq!(rep.body.message, "Login Berhasil");
    match rep.body.data {
        Some(ReplyData::Login(l)) => {
            assert_eq!(l.user.id, 5);
            assert_eq!(l.user.email, "user@example.com");
            let claims = verify_token(&l.token, SECRET, NOW).unwrap();
            assert_eq!(claims.sub, 5);
        },
        _ => panic!("login reply without login data"),
    }
}

#[test]
fn login_lookup_failure_is_a_500() {
    let req = LoginRequest {
        email: "user@example.com".to_string(),
        password: "whatever1".to_string(),
    };
    let rep = login_finish(&req, LookupOutcome::Failure, SECRET, NOW);
    assert_eq!(rep.status, 500);
    assert_eq!(rep.body.message, "Terjadi kesalahan sistem");
}

#[test]
fn register_validation_and_conflict_path() {
    let bad = RegisterRequest {
        name: "x".to_string(),
        email: "x".to_string(),
        password: "1".to_string(),
    };
    assert_eq!(register_validate(&bad).unwrap().status, 422);
    match register_on_insert(WriteOutcome::Conflict) {
        Err(rep) => {
            assert_eq!(rep.status, 409);
            assert_eq!(rep.body.message, "Email sudah terdaftar");
        },
        Ok(_) => panic!("conflict treated as created"),
    }
    assert_eq!(register_on_insert(WriteOutcome::Done(12)).unwrap(), 12);
    match register_on_insert(WriteOutcome::Failure) {
        Err(rep) => {
            assert_eq!(rep.status, 500);
            assert_eq!(rep.body.message, "Register Gagal!");
        },
        Ok(_) => panic!("failure treated as created"),
    }
}

#[test]
fn register_fetch_reports_the_row() {
    let rep = register_on_fetch(Some(sample_user()));
    assert_eq!(rep.status, 201);
    assert_eq!(rep.body.message, "Register Berhasil!");
    match rep.body.data {
        Some(ReplyData::Register(r)) => {
            assert_eq!(r.id, 3);
            assert_eq!(r.name, "Alice");
            assert_eq!(r.created_at, Some("2024-01-01 00:00:00".to_string()));
        },
        _ => panic!("register reply without the row"),
    }
    assert_eq!(register_on_fetch(None).status, 500);
}

#[test]
fn store_pipeline_mirrors_register_with_its_own_messages() {
    match store_on_insert(WriteOutcome::Failure) {
        Err(rep) => assert_eq!(rep.body.message, "Gagal menambahkan user"),
        Ok(_) => panic!("failure treated as created"),
    }
    let rep = store_on_fetch(Some(sample_user()));
    assert_eq!(rep.status, 201);
    assert_eq!(rep.body.message, "User berhasil ditambahkan");
}

#[test]
fn index_lists_all_rows() {
    let rep = index_reply(Some(vec![sample_user()]));
    assert_eq!(rep.status, 200);
    assert_eq!(rep.body.message, "List user");
    match rep.body.data {
        Some(ReplyData::Users(us)) => assert_eq!(us.len(), 1),
        _ => panic!("index reply without rows"),
    }
    assert_eq!(index_reply(None).status, 500);
}

#[test]
fn show_covers_found_missing_and_failure() {
    assert_eq!(show_reply(RowLookup::Row(sample_user())).status, 200);
    let missing = show_reply(RowLookup::Missing);
    assert_eq!(missing.status, 404);
    assert_eq!(missing.body.message, "User tidak ditemukan");
    assert_eq!(show_reply(RowLookup::Failure).status, 500);
}

#[test]
fn update_pipeline_steps() {
    let req = UserUpdateRequest {
        name: "Bob".to_string(),
        email: "bob@example.com".to_string(),
        password: Some("newpass1".to_string()),
    };
    assert!(update_validate(&req).is_none());
    assert_eq!(user_exists_check(IdLookup::Found(9)).unwrap(), 9);
    match user_exists_check(IdLookup::Missing) {
        Err(rep) => assert_eq!(rep.status, 404),
        Ok(_) => panic!("missing row treated as found"),
    }
    assert!(email_conflict_check(false).is_none());
    assert_eq!(email_conflict_check(true).unwrap().status, 409);
    let hashed = update_password_hash(&req).unwrap().unwrap();
    assert!(verify_password("newpass1", &hashed).unwrap());
    let keep = UserUpdateRequest {
        name: "Bob".to_string(),
        email: "bob@example.com".to_string(),
        password: None,
    };
    assert!(update_password_hash(&keep).unwrap().is_none());
    assert!(update_on_write(true).is_none());
    assert_eq!(update_on_write(false).unwrap().status, 500);
    let rep = update_on_fetch(Some(sample_user()));
    assert_eq!(rep.status, 200);
    assert_eq!(rep.body.message, "User berhasil diperbarui");
    let failed = update_on_fetch(None);
    assert_eq!(failed.status, 500);
    assert!(failed.body.data.is_none());
}

#[test]
fn destroy_reports_null_payload_on_success() {
    let rep = destroy_on_delete(true);
    assert_eq!(rep.status, 200);
    assert_eq!(rep.body.message, "User berhasil dihapus");
    assert!(matches!(rep.body.data, Some(ReplyData::Null)));
    assert_eq!(destroy_on_delete(false).status, 500);
}
