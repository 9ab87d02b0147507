use auth_core::schemas::login_schema::LoginRequest;
use auth_core::schemas::register_schema::RegisterRequest;
use auth_core::schemas::user_schema::UserStoreRequest;
use auth_core::schemas::user_schema::UserUpdateRequest;

#[test]
fn register_collects_all_three_violations_at_once() {
    let req = RegisterRequest {
        name: "a".to_string(),
        email: "not-an-email".to_string(),
        password: "123".to_string(),
    };
    let errors = req.validate();
    assert_eq!(errors.entries.len(), 3);
    assert_eq!(errors.entries[0].field, "name");
    assert_eq!(errors.entries[0].messages, vec!["Nama minimal 3 karakter".to_string()]);
    assert_eq!(errors.entries[1].field, "email");
    assert_eq!(errors.entries[1].messages, vec!["Email tidak valid".to_string()]);
    assert_eq!(errors.entries[2].field, "password");
    assert_eq!(errors.entries[2].messages, vec!["Password minimal 6 karakter".to_string()]);
}

#[test]
fn register_valid_input_yields_empty_set() {
    let req = RegisterRequest {
        name: "Alice".to_string(),
        email: "alice@example.com".to_string(),
        password: "secret123".to_string(),
    };
    let errors = req.validate();
    assert!(errors.is_empty());
    assert_eq!(errors.entries.len(), 0);
}

#[test]
fn login_invalid_email_only() {
    let req = LoginRequest { email: "nope".to_string(), password: "longenough".to_string() };
    let errors = req.validate();
    assert_eq!(errors.entries.len(), 1);
    assert_eq!(errors.entries[0].field, "email");
}

#[test]
fn login_valid_input_yields_empty_set() {
    let req = LoginRequest {
        email: "user@example.com".to_string(),
        password: "secret123".to_string(),
    };
    assert!(req.validate().is_empty());
}

#[test]
fn store_short_password_only() {
    let req = UserStoreRequest {
        name: "Bob".to_string(),
        email: "bob@example.com".to_string(),
        password: "123".to_string(),
    };
    let errors = req.validate();
    assert_eq!(errors.entries.len(), 1);
    assert_eq!(errors.entries[0].field, "password");
}

#[test]
fn update_absent_password_not_validated() {
    let req = UserUpdateRequest {
        name: "Bob".to_string(),
        email: "bob@example.com".to_string(),
        password: None,
    };
    assert!(req.validate().is_empty());
}

#[test]
fn update_empty_password_not_validated() {
    let req = UserUpdateRequest {
        name: "Bob".to_string(),
        email: "bob@example.com".to_string(),
        password: Some("".to_string()),
    };
    assert!(req.validate().is_empty());
}

#[test]
fn update_short_password_violates() {
    let req = UserUpdateRequest {
        name: "Bob".to_string(),
        email: "bob@example.com".to_string(),
        password: Some("123".to_string()),
    };
    let errors = req.validate();
    assert_eq!(errors.entries.len(), 1);
    assert_eq!(errors.entries[0].field, "password");
    assert_eq!(errors.entries[0].messages, vec!["Password minimal 6 karakter".to_string()]);
}

#[test]
fn update_long_password_passes() {
    let req = UserUpdateRequest {
        name: "Bob".to_string(),
        email: "bob@example.com".to_string(),
        password: Some("123456".to_string()),
    };
    assert!(req.validate().is_empty());
}

#[test]
fn errors_render_as_json_object() {
    let req = RegisterRequest {
        name: "a".to_string(),
        email: "not-an-email".to_string(),
        password: "123".to_string(),
    };
    let errors = req.validate();
    let out = errors.to_json();
    let v: serde_json::Value = serde_json::from_str(&out).unwrap();
    let obj = v.as_object().unwrap();
    assert_eq!(obj.len(), 3);
    assert_eq!(v["name"][0], serde_json::Value::String("Nama minimal 3 karakter".to_string()));
    assert_eq!(v["email"][0], serde_json::Value::String("Email tidak valid".to_string()));
    assert_eq!(
        v["password"][0],
        serde_json::Value::String("Password minimal 6 karakter".to_string())
    );
}

#[test]
fn empty_errors_render_as_empty_object() {
    let req = LoginRequest {
        email: "user@example.com".to_string(),
        password: "secret123".to_string(),
    };
    assert_eq!(req.validate().to_json(), "{}");
}

#[test]
fn email_check_matches_outside_validator() {
    // both outcomes of the email rule, through the public validate path
    let good = LoginRequest {
        email: "a.b-c@sub.example.org".to_string(),
        password: "secret123".to_string(),
    };
    assert!(good.validate().is_empty());
    let bad = LoginRequest { email: "a@b@c".to_string(), password: "secret123".to_string() };
    assert_eq!(bad.validate().entries.len(), 1);
}
