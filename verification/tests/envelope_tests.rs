use auth_core::envelope::ApiResponse;
use auth_core::envelope::render_envelope;

#[test]
fn success_envelope_shape() {
    let r = ApiResponse::success("Login Berhasil", 5i32);
    assert!(r.status);
    assert_eq!(r.message, "Login Berhasil");
    assert_eq!(r.data, Some(5));
}

#[test]
fn error_envelope_shape() {
    let r: ApiResponse<i32> = ApiResponse::error("Terjadi kesalahan sistem");
    assert!(!r.status);
    assert_eq!(r.message, "Terjadi kesalahan sistem");
    assert_eq!(r.data, None);
}

#[test]
fn success_render_carries_data() {
    let out = render_envelope(true, "ok", Some("{\"id\":7}"));
    let v: serde_json::Value = serde_json::from_str(&out).unwrap();
    assert_eq!(v["status"], serde_json::Value::Bool(true));
    assert_eq!(v["message"], serde_json::Value::String("ok".to_string()));
    assert_eq!(v["data"]["id"], serde_json::Value::from(7));
}

#[test]
fn error_render_omits_data_entirely() {
    let out = render_envelope(false, "Gagal", None);
    assert_eq!(out, "{\"status\":false,\"message\":\"Gagal\"}");
    let v: serde_json::Value = serde_json::from_str(&out).unwrap();
    let obj = v.as_object().unwrap();
    assert!(!obj.contains_key("data"));
    assert_eq!(obj.len(), 2);
}

#[test]
fn render_escapes_message() {
    let out = render_envelope(false, "a \"b\" \\ c\nd\te", None);
    let v: serde_json::Value = serde_json::from_str(&out).unwrap();
    assert_eq!(v["message"], serde_json::Value::String("a \"b\" \\ c\nd\te".to_string()));
}

#[test]
fn render_escapes_control_chars() {
    let out = render_envelope(true, "x\u{1}y", Some("null"));
    let v: serde_json::Value = serde_json::from_str(&out).unwrap();
    assert_eq!(v["message"], serde_json::Value::String("x\u{1}y".to_string()));
    assert!(v["data"].is_null());
}
