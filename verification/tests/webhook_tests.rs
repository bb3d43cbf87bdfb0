use base64::engine::general_purpose::STANDARD as BASE64;
use base64::Engine;
use email_cli::webhook::{
    check_startup, constant_time_eq, email_id, event_type, header_value, is_public_bind,
    received_email_to_fetch, resolve_secret, secret_source, shared_secret_ok, verify_svix,
    JsonField, SecretSource, WebhookEvent,
};
use hmac::{Hmac, Mac};
use sha2::Sha256;

type HmacSha256 = Hmac<Sha256>;

#[test]
fn public_bind_detects_wildcard_v4() {
    assert!(is_public_bind("0.0.0.0"));
}

#[test]
fn public_bind_detects_wildcard_v6() {
    assert!(is_public_bind("::"));
}

#[test]
fn public_bind_allows_loopback_v4() {
    assert!(!is_public_bind("127.0.0.1"));
    assert!(!is_public_bind("127.1.2.3"));
}

#[test]
fn public_bind_allows_loopback_v6() {
    assert!(!is_public_bind("::1"));
    assert!(!is_public_bind("[::1]"));
}

#[test]
fn public_bind_allows_localhost_hostname() {
    assert!(!is_public_bind("localhost"));
    assert!(!is_public_bind("LOCALHOST"));
}

#[test]
fn public_bind_flags_unknown_host() {
    assert!(is_public_bind("mybox.lan"));
    assert!(is_public_bind("192.168.1.10"));
}

#[test]
fn public_bind_reads_other_loopback_spellings() {
    assert!(!is_public_bind("0:0:0:0:0:0:0:1"));
    assert!(!is_public_bind("::0:1"));
    assert!(!is_public_bind("0000::0001"));
    assert!(!is_public_bind("  127.0.0.1\n"));
    assert!(is_public_bind("::2"));
    assert!(is_public_bind("::ffff:127.0.0.1"));
    assert!(is_public_bind("127.0.0.01"));
    assert!(is_public_bind("127.0.0.256"));
    assert!(is_public_bind("1:2:3:4:5:6::1.2.3.4"));
    assert!(is_public_bind(""));
}

#[test]
fn constant_time_eq_matches_on_equal() {
    assert!(constant_time_eq(b"shh-secret", b"shh-secret"));
}

#[test]
fn constant_time_eq_rejects_length_mismatch() {
    assert!(!constant_time_eq(b"short", b"shorter"));
}

#[test]
fn constant_time_eq_rejects_different_payload() {
    assert!(!constant_time_eq(b"aaaaaaa", b"aaaaaab"));
}

#[test]
fn resolve_secret_reads_env_var() {
    let var = "EMAIL_CLI_TEST_WEBHOOK_SECRET_OK";
    let got = resolve_secret(Some(var), None, Some(" hunter2\n".to_string())).unwrap();
    assert_eq!(got.as_deref(), Some("hunter2"));
}

#[test]
fn resolve_secret_errors_when_env_missing() {
    let var = "EMAIL_CLI_TEST_WEBHOOK_SECRET_MISSING";
    assert!(resolve_secret(Some(var), None, None).is_err());
}

#[test]
fn resolve_secret_none_when_unset() {
    assert!(resolve_secret(None, None, None).unwrap().is_none());
}

#[test]
fn resolve_secret_error_texts() {
    assert_eq!(
        resolve_secret(Some("X"), Some("/f"), None).unwrap_err(),
        "--secret-env references environment variable `X` but it is not set"
    );
    assert_eq!(
        resolve_secret(Some("X"), None, Some("  \n".to_string())).unwrap_err(),
        "environment variable `X` is empty"
    );
    assert_eq!(
        resolve_secret(None, Some("/f"), None).unwrap_err(),
        "failed to read --secret-file /f"
    );
    assert_eq!(
        resolve_secret(None, Some("/f"), Some(" ".to_string())).unwrap_err(),
        "--secret-file /f is empty"
    );
    assert_eq!(
        resolve_secret(None, Some("/f"), Some("s3cret\n".to_string())).unwrap(),
        Some("s3cret".to_string())
    );
    assert!(matches!(secret_source(Some("E"), Some("F")), SecretSource::Env(v) if v == "E"));
    assert!(matches!(secret_source(None, Some("F")), SecretSource::File(v) if v == "F"));
    assert!(matches!(secret_source(None, None), SecretSource::Unset));
}

#[test]
fn startup_refuses_public_bind_without_auth() {
    let err = check_startup("0.0.0.0", false, false).unwrap_err();
    assert!(err.starts_with("refusing to start: --host 0.0.0.0 exposes the webhook"));
    assert!(check_startup("0.0.0.0", true, false).is_ok());
    assert!(check_startup("0.0.0.0", false, true).is_ok());
    assert!(check_startup("127.0.0.1", false, false).is_ok());
}

#[test]
fn shared_secret_gate() {
    assert!(shared_secret_ok(None, None));
    assert!(shared_secret_ok(Some("k"), Some("k")));
    assert!(!shared_secret_ok(Some("k"), Some("K")));
    assert!(!shared_secret_ok(Some("k"), None));
}

#[test]
fn header_lookup_ignores_case() {
    let headers = vec![
        ("Content-Type".to_string(), "json".to_string()),
        ("SVIX-ID".to_string(), "msg_1".to_string()),
        ("svix-id".to_string(), "msg_2".to_string()),
    ];
    assert_eq!(header_value(&headers, "svix-id"), Some("msg_1".to_string()));
    assert_eq!(header_value(&headers, "svix-timestamp"), None);
}

fn test_secret() -> String {
    format!("whsec_{}", BASE64.encode(b"super-secret-signing-key"))
}

fn sign(secret: &str, id: &str, ts: &str, body: &str) -> String {
    let key_part = secret.strip_prefix("whsec_").unwrap();
    let key = BASE64.decode(key_part).unwrap();
    let mut mac = HmacSha256::new_from_slice(&key).unwrap();
    mac.update(format!("{id}.{ts}.{body}").as_bytes());
    format!("v1,{}", BASE64.encode(mac.finalize().into_bytes()))
}

#[test]
fn svix_accepts_valid_signature() {
    let secret = test_secret();
    let (id, ts, body) = ("msg_1", "1700000000", r#"{"type":"email.received"}"#);
    let sig = sign(&secret, id, ts, body);
    assert!(verify_svix(&secret, id, ts, &sig, body, 1700000000));
}

#[test]
fn svix_rejects_tampered_body() {
    let secret = test_secret();
    let (id, ts, body) = ("msg_1", "1700000000", r#"{"type":"email.received"}"#);
    let sig = sign(&secret, id, ts, body);
    assert!(!verify_svix(&secret, id, ts, &sig, r#"{"type":"forged"}"#, 1700000000));
}

#[test]
fn svix_rejects_stale_timestamp() {
    let secret = test_secret();
    let (id, ts, body) = ("msg_1", "1700000000", "{}");
    let sig = sign(&secret, id, ts, body);
    assert!(!verify_svix(&secret, id, ts, &sig, body, 1700000000 + 3600));
}

#[test]
fn svix_rejects_wrong_secret() {
    let good = test_secret();
    let (id, ts, body) = ("msg_1", "1700000000", "{}");
    let sig = sign(&good, id, ts, body);
    let other = format!("whsec_{}", BASE64.encode(b"a-different-key-entirely"));
    assert!(!verify_svix(&other, id, ts, &sig, body, 1700000000));
}

#[test]
fn svix_accepts_when_one_of_several_signatures_matches() {
    let secret = test_secret();
    let (id, ts, body) = ("msg_1", "1700000000", "{}");
    let valid = sign(&secret, id, ts, body);
    let header = format!("v1,bogussignature {valid}");
    assert!(verify_svix(&secret, id, ts, &header, body, 1700000000));
}

#[test]
fn svix_tolerance_edges_and_bad_inputs() {
    let secret = test_secret();
    let (id, ts, body) = ("msg_1", "1700000000", "{}");
    let sig = sign(&secret, id, ts, body);
    assert!(verify_svix(&secret, id, ts, &sig, body, 1700000000 + 300));
    assert!(verify_svix(&secret, id, ts, &sig, body, 1700000000 - 300));
    assert!(!verify_svix(&secret, id, ts, &sig, body, 1700000000 + 301));
    assert!(!verify_svix(&secret, id, "not-a-number", &sig, body, 1700000000));
    assert!(!verify_svix("whsec_***", id, ts, &sig, body, 1700000000));
    // The key may also be given without the prefix.
    let bare = BASE64.encode(b"super-secret-signing-key");
    assert!(verify_svix(&bare, id, ts, &sig, body, 1700000000));
}

fn event(t: JsonField, email: JsonField, id: JsonField) -> WebhookEvent {
    WebhookEvent { event_type: t, email_id: email, id }
}

#[test]
fn event_fields_fall_back_to_unknown() {
    let e = event(
        JsonField::Str("email.received".into()),
        JsonField::Missing,
        JsonField::Str("re_1".into()),
    );
    assert_eq!(event_type(&e), "email.received");
    assert_eq!(email_id(&e), "re_1");
    assert_eq!(received_email_to_fetch(&e), Some("re_1".to_string()));
    let e = event(JsonField::Other, JsonField::Other, JsonField::Str("x".into()));
    assert_eq!(event_type(&e), "unknown");
    assert_eq!(email_id(&e), "unknown");
    assert_eq!(received_email_to_fetch(&e), None);
    let e = event(
        JsonField::Str("email.sent".into()),
        JsonField::Str("em_9".into()),
        JsonField::Str("x".into()),
    );
    assert_eq!(email_id(&e), "em_9");
    assert_eq!(received_email_to_fetch(&e), None);
}
