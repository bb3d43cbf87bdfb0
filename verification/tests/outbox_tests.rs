use email_cli::models::{SendAttachment, SendEmailRequest};
use email_cli::outbox::{sorted_texts, stable_idempotency_key};
use sha2::{Digest, Sha256};

fn base_request() -> SendEmailRequest {
    SendEmailRequest {
        from: "a@example.com".into(),
        to: vec!["b@example.com".into()],
        cc: vec![],
        bcc: vec![],
        reply_to: vec![],
        subject: "hello".into(),
        text: Some("hi".into()),
        html: None,
        headers: None,
        attachments: vec![],
        scheduled_at: None,
    }
}

#[test]
fn key_differs_when_cc_differs() {
    let r1 = base_request();
    let mut r2 = base_request();
    r2.cc = vec!["c@example.com".into()];
    assert_ne!(stable_idempotency_key(&r1), stable_idempotency_key(&r2));
}

#[test]
fn key_differs_when_bcc_differs() {
    let r1 = base_request();
    let mut r2 = base_request();
    r2.bcc = vec!["d@example.com".into()];
    assert_ne!(stable_idempotency_key(&r1), stable_idempotency_key(&r2));
}

#[test]
fn key_differs_when_attachment_added() {
    let r1 = base_request();
    let mut r2 = base_request();
    r2.attachments.push(SendAttachment {
        filename: "x.pdf".into(),
        content: "AAAA".into(),
    });
    assert_ne!(stable_idempotency_key(&r1), stable_idempotency_key(&r2));
}

#[test]
fn key_differs_when_attachment_content_differs() {
    let mut r1 = base_request();
    r1.attachments.push(SendAttachment {
        filename: "x.pdf".into(),
        content: "AAAA".into(),
    });
    let mut r2 = base_request();
    r2.attachments.push(SendAttachment {
        filename: "x.pdf".into(),
        content: "BBBB".into(),
    });
    assert_ne!(stable_idempotency_key(&r1), stable_idempotency_key(&r2));
}

#[test]
fn key_differs_when_headers_differ() {
    let r1 = base_request();
    let mut r2 = base_request();
    r2.headers = Some(vec![(
        "In-Reply-To".into(),
        "<message-a@example.com>".into(),
    )]);
    assert_ne!(stable_idempotency_key(&r1), stable_idempotency_key(&r2));
}

#[test]
fn key_stable_regardless_of_recipient_order() {
    let mut r1 = base_request();
    r1.to = vec!["a@e.com".into(), "b@e.com".into()];
    r1.cc = vec!["x@e.com".into(), "y@e.com".into()];
    r1.bcc = vec!["m@e.com".into(), "n@e.com".into()];
    let mut r2 = base_request();
    r2.to = vec!["b@e.com".into(), "a@e.com".into()];
    r2.cc = vec!["y@e.com".into(), "x@e.com".into()];
    r2.bcc = vec!["n@e.com".into(), "m@e.com".into()];
    assert_eq!(stable_idempotency_key(&r1), stable_idempotency_key(&r2));
}

#[test]
fn key_matches_for_identical_requests() {
    assert_eq!(
        stable_idempotency_key(&base_request()),
        stable_idempotency_key(&base_request())
    );
}

#[test]
fn key_is_prefixed_lower_hex_sha256() {
    let key = stable_idempotency_key(&base_request());
    assert!(key.starts_with("email-cli-"));
    let hex = &key["email-cli-".len()..];
    assert_eq!(hex.len(), 64);
    assert!(hex.chars().all(|c| c.is_ascii_digit() || ('a'..='f').contains(&c)));
    // SHA-256 of the concatenation "a@example.comb@example.comhellohi".
    let expected = Sha256::digest(b"a@example.comb@example.comhellohi");
    let expected_hex: String = expected.iter().map(|b| format!("{:02x}", b)).collect();
    assert_eq!(hex, expected_hex);
}

#[test]
fn header_order_does_not_change_the_key() {
    let mut r1 = base_request();
    r1.headers = Some(vec![("B".into(), "2".into()), ("A".into(), "1".into())]);
    let mut r2 = base_request();
    r2.headers = Some(vec![("A".into(), "1".into()), ("B".into(), "2".into())]);
    assert_eq!(stable_idempotency_key(&r1), stable_idempotency_key(&r2));
}

#[test]
fn texts_sort_by_code_point() {
    let v = vec!["b".to_string(), "B".to_string(), "ab".to_string(), "a".to_string(), "é".to_string()];
    assert_eq!(sorted_texts(&v), vec!["B", "a", "ab", "b", "é"]);
}
