use email_cli::helpers::{normalize_email, reply_subject, sanitize_filename};

#[test]
fn normalizes_display_name_addresses() {
    assert_eq!(normalize_email("  Alice <Alice@Example.COM> "), "alice@example.com");
    assert_eq!(normalize_email("\"bob@x.io\""), "bob@x.io");
}

#[test]
fn reply_subject_adds_prefix_once() {
    assert_eq!(reply_subject("Hello"), "Re: Hello");
    assert_eq!(reply_subject("RE: Hello"), "RE: Hello");
}

#[test]
fn sanitize_keeps_basename() {
    assert_eq!(sanitize_filename("../etc/pass wd.txt", "attachment.bin"), "pass_wd.txt");
    assert_eq!(sanitize_filename("..", "attachment.bin"), "attachment.bin");
}
