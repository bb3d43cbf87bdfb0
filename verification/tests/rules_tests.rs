use email_cli::account::{
    account_domain, added_fields, added_is_default, check_domain, check_removal,
    plan_account_edit, replacement_default, require_updated, saved_account_text,
};
use email_cli::args::{
    check_subscription, check_topic_options, contact_name, parse_topics_arg, segment_refs,
    split_csv, split_csv_opt,
};
use email_cli::attachments::{
    attachment_source, candidate_file_name, export_dir, needs_download, no_free_name,
    preferred_filename, prefetch_summary, AttachmentSource,
};
use email_cli::autostart::{
    bundle_warning, gui_domain, log_path, plist_path, render_plist, service_target, status_label,
    xml_escape,
};
use email_cli::bundle::{ensure_installed, install, installed_bundle_path};
use email_cli::cli::{parse_resend_limit, DraftEditArgs};
use email_cli::daemon::{account_label, badge_title, poll_ticks, status_line, tick_action, TickAction};
use email_cli::draft::{draft_edit_update, require_deleted};
use email_cli::error::{classify, CliError, ErrorKind};
use email_cli::http::{
    api_error_message, backoff, detail_retry_millis, extract_error_message, gave_up_message,
    next_step, retry_delay, Delay, Outcome, Step, MAX_ATTEMPTS,
};
use email_cli::keychain::{
    delete, is_available, is_sentinel, load, resolve_stored_key, storage_label, store,
    value_to_store, KEYCHAIN_SENTINEL,
};
use email_cli::models::{AccountRecord, AttachmentRecord, Domain, DomainCapabilities, DraftRecord};
use email_cli::num::{int_error_message, parse_i64, parse_u64, IntError};
use email_cli::output::Format;
use email_cli::profile::{check_profile_name, check_profile_removal, domain_line, update_status, version_of_tag};
use email_cli::sync::{
    new_mail_notification, next_page_after, profile_count, require_accounts, scan_page, summarize,
    sync_progress, AccountOutcome, SyncProgress,
};

fn s(v: &str) -> String {
    v.to_string()
}

#[test]
fn error_kinds_map_to_exit_codes() {
    let cases = [
        (CliError::InvalidInput(s("x")), 3, "invalid_input", "Check arguments with --help"),
        (CliError::ConfigError(s("x")), 2, "config_error", "Run profile add / account add to configure"),
        (CliError::Transient(s("x")), 1, "transient_error", "Retry the command"),
        (CliError::RateLimited(s("x")), 4, "rate_limited", "Wait a moment and retry"),
        (CliError::Internal(s("x")), 1, "internal_error", "Retry or report the issue"),
    ];
    for (e, code, name, hint) in cases.iter() {
        assert_eq!(e.exit_code(), *code);
        assert_eq!(e.error_code(), *name);
        assert_eq!(e.suggestion(), *hint);
        assert_eq!(e.message(), "x");
    }
}

#[test]
fn failures_are_classified_by_message() {
    assert_eq!(classify("account x not found"), ErrorKind::InvalidInput);
    assert_eq!(classify("http 404"), ErrorKind::InvalidInput);
    assert_eq!(classify("connection refused"), ErrorKind::Transient);
    assert_eq!(classify("operation timed out"), ErrorKind::Transient);
    assert_eq!(classify("disk full"), ErrorKind::Internal);
    let e = CliError::from_message(s("Profile NOT FOUND"));
    assert_eq!(e.exit_code(), 3);
    assert_eq!(e.message(), "Profile NOT FOUND");
    assert_eq!(CliError::from_message(s("DNS error")).error_code(), "transient_error");
}

#[test]
fn setup_and_rate_limit_failures_have_their_own_codes() {
    let e = CliError::from_message(s("no default account configured"));
    assert_eq!(e.error_code(), "config_error");
    assert_eq!(e.exit_code(), 2);
    assert_eq!(e.message(), "no default account configured");
    assert_eq!(e.suggestion(), "Run profile add / account add to configure");
    assert_eq!(classify("no profiles configured — run: email-cli profile add"), ErrorKind::ConfigError);
    assert_eq!(classify("no accounts configured"), ErrorKind::ConfigError);
    let r = CliError::from_message(s("Resend API kept rate limiting for /emails"));
    assert_eq!(r.error_code(), "rate_limited");
    assert_eq!(r.exit_code(), 4);
    assert_eq!(classify("resend api 429: too many requests"), ErrorKind::RateLimited);
    assert_eq!(classify("profile work not found"), ErrorKind::InvalidInput);
}

#[test]
fn format_detection() {
    assert_eq!(Format::detect(true, true), Format::Json);
    assert_eq!(Format::detect(false, false), Format::Json);
    assert_eq!(Format::detect(false, true), Format::Human);
    assert!(Format::Json.is_json());
    assert!(!Format::Human.is_json());
}

#[test]
fn backoff_and_retry_delay() {
    assert_eq!(backoff(0), 700);
    assert_eq!(backoff(4), 3500);
    assert_eq!(retry_delay(Some("3"), 0), Delay::Seconds(3));
    assert_eq!(retry_delay(Some("soon"), 1), Delay::Millis(1400));
    assert_eq!(retry_delay(None, 2), Delay::Millis(2100));
    assert_eq!(detail_retry_millis(2), 900);
}

#[test]
fn retry_steps() {
    assert_eq!(next_step(0, &Outcome::Failed { retryable: true }), Step::Wait(Delay::Millis(700)));
    assert_eq!(next_step(0, &Outcome::Failed { retryable: false }), Step::Fail);
    assert_eq!(
        next_step(1, &Outcome::Answered { status: 429, retry_after: Some(s("2")) }),
        Step::Wait(Delay::Seconds(2))
    );
    assert_eq!(
        next_step(2, &Outcome::Answered { status: 503, retry_after: None }),
        Step::Wait(Delay::Millis(2100))
    );
    assert_eq!(next_step(0, &Outcome::Answered { status: 200, retry_after: None }), Step::Decode);
    assert_eq!(next_step(0, &Outcome::Answered { status: 404, retry_after: None }), Step::Decode);
    assert_eq!(
        next_step(MAX_ATTEMPTS - 1, &Outcome::Answered { status: 429, retry_after: None }),
        Step::GiveUp
    );
    assert_eq!(gave_up_message("/emails"), "Resend API kept rate limiting for /emails");
}

#[test]
fn api_error_texts_prefer_json_message() {
    assert_eq!(extract_error_message(r#"{"message":"bad key","name":"x"}"#), "bad key");
    assert_eq!(extract_error_message("plain failure"), "plain failure");
    assert_eq!(extract_error_message(r#"{"message":5}"#), r#"{"message":5}"#);
    assert_eq!(
        api_error_message("401 Unauthorized", r#"{"message":"API key is invalid"}"#),
        "Resend API 401 Unauthorized: API key is invalid"
    );
}

#[test]
fn integer_parsing_matches_std() {
    assert_eq!(parse_i64("-42"), Ok(-42));
    assert_eq!(parse_i64("+7"), Ok(7));
    assert_eq!(parse_i64(""), Err(IntError::Empty));
    assert_eq!(parse_i64("-"), Err(IntError::InvalidDigit));
    assert_eq!(parse_i64("9223372036854775808"), Err(IntError::PosOverflow));
    assert_eq!(parse_i64("-9223372036854775809"), Err(IntError::NegOverflow));
    assert_eq!(parse_u64("-1"), Err(IntError::InvalidDigit));
    for raw in ["", "x", "99999999999999999999", "-1"] {
        let ours = parse_u64(raw).map_err(int_error_message);
        let std = raw.parse::<u64>().map_err(|e| e.to_string());
        assert_eq!(ours, std);
    }
}

#[test]
fn resend_limit_range() {
    assert_eq!(parse_resend_limit("1"), Ok(1));
    assert_eq!(parse_resend_limit("100"), Ok(100));
    assert_eq!(parse_resend_limit("0"), Err(s("must be a number between 1 and 100, got 0")));
    assert_eq!(parse_resend_limit("101"), Err(s("must be a number between 1 and 100, got 101")));
    assert_eq!(parse_resend_limit("ten"), Err(s("invalid digit found in string")));
}

#[test]
fn keychain_is_unavailable_here() {
    assert!(!is_available());
    assert_eq!(
        store("p", "re_key").unwrap_err(),
        "Keychain storage is macOS only; use --api-key-env or --api-key-file instead"
    );
    assert_eq!(load("p").unwrap_err(), "Keychain storage is macOS only");
    assert!(delete("p").is_ok());
    assert!(is_sentinel(KEYCHAIN_SENTINEL));
    assert_eq!(resolve_stored_key("p", s("re_abc")), Ok(s("re_abc")));
    assert!(resolve_stored_key("p", s("__keychain__")).is_err());
    let stored = value_to_store("p", s("re_abc")).unwrap();
    assert_eq!(resolve_stored_key("p", stored), Ok(s("re_abc")));
    assert_eq!(storage_label("__keychain__"), "keychain");
    assert_eq!(storage_label("re_abc"), "sqlite");
}

#[test]
fn bundle_paths() {
    assert_eq!(
        installed_bundle_path(Some("/home/u/.local/share"), true),
        Some(s("/home/u/.local/share/email-cli/EmailCLI.app"))
    );
    assert_eq!(installed_bundle_path(Some("/d"), false), None);
    assert_eq!(installed_bundle_path(None, true), None);
    assert_eq!(install().unwrap_err(), "notification bundle is macOS-only");
    assert_eq!(ensure_installed().unwrap_err(), "notification bundle is macOS-only");
}

#[test]
fn sync_paging_and_summary() {
    let ids = vec![s("c"), s("b"), s("a")];
    assert_eq!(scan_page(Some("b"), &ids), (1, true));
    assert_eq!(scan_page(Some("z"), &ids), (3, false));
    assert_eq!(scan_page(None, &ids), (3, false));
    assert_eq!(next_page_after(true, false, Some(true), Some(s("a"))), None);
    assert_eq!(next_page_after(false, true, Some(true), Some(s("a"))), None);
    assert_eq!(next_page_after(false, false, None, Some(s("a"))), None);
    assert_eq!(next_page_after(false, false, Some(true), Some(s("a"))), Some(s("a")));
    let ok = vec![
        AccountOutcome { email: s("a@x"), result: Ok((2, 3)) },
        AccountOutcome { email: s("b@x"), result: Ok((1, 0)) },
    ];
    let sum = summarize(2, &ok);
    assert_eq!((sum.profiles, sum.sent_messages, sum.received_messages), (2, 3, 3));
    assert!(sum.errors.is_empty());
    let bad = vec![
        AccountOutcome { email: s("a@x"), result: Err(s("boom")) },
        AccountOutcome { email: s("b@x"), result: Ok((1, 0)) },
        AccountOutcome { email: s("c@x"), result: Err(s("bang")) },
    ];
    let partial = summarize(1, &bad);
    assert_eq!((partial.profiles, partial.sent_messages, partial.received_messages), (1, 1, 0));
    assert_eq!(partial.errors, vec![s("a@x: boom"), s("c@x: bang")]);
    assert_eq!(profile_count(vec![s("p"), s("q"), s("p")]), 2);
    assert_eq!(require_accounts(0).unwrap_err(), "no accounts configured");
    assert_eq!(
        new_mail_notification("me@x", "you@y", "Hi"),
        (s("New email to me@x"), s("From: you@y\nHi"))
    );
    let mut p = SyncProgress::new();
    p.set_progress(0, 3);
    p.inc_done();
    assert_eq!(sync_progress(&p), (1, 3));
    p.set_progress(2, 5);
    p.inc_done();
    p.inc_done();
    p.inc_done();
    assert_eq!(sync_progress(&p), (5, 5));
    p.set_progress(usize::MAX, 1);
    p.inc_done();
    assert_eq!(sync_progress(&p), (0, 1));
}

fn domain(name: &str, sending: Option<&str>) -> Domain {
    Domain {
        name: s(name),
        status: Some(s("verified")),
        region: None,
        capabilities: Some(DomainCapabilities { sending: sending.map(s), receiving: None }),
    }
}

fn account(email: &str, profile: &str) -> AccountRecord {
    AccountRecord {
        email: s(email),
        profile_name: s(profile),
        display_name: Some(s("Existing Name")),
        signature: s("Existing signature"),
        is_default: false,
        created_at: s("t"),
        updated_at: s("t"),
    }
}

#[test]
fn account_domain_checks() {
    assert_eq!(account_domain("a@Example.com"), Ok(s("Example.com")));
    assert_eq!(account_domain("nobody").unwrap_err(), "invalid email: nobody");
    assert_eq!(account_domain("a@").unwrap_err(), "invalid email: a@");
    let domains = vec![domain("other.com", Some("enabled")), domain("example.com", Some("disabled"))];
    assert!(check_domain(&domains, "OTHER.com", "default").is_ok());
    assert_eq!(
        check_domain(&domains, "example.com", "default").unwrap_err(),
        "domain example.com is not send-enabled in profile default"
    );
    assert_eq!(
        check_domain(&domains, "missing.com", "default").unwrap_err(),
        "domain missing.com is not present in profile default"
    );
    let unknown = vec![Domain { name: s("x.com"), status: None, region: None, capabilities: None }];
    assert!(check_domain(&unknown, "x.com", "p").is_err());
}

#[test]
fn add_conflict_preserves_omitted_identity_fields_and_allows_explicit_clear() {
    let existing = account("agent@example.com", "other");
    let kept = added_fields(Some(&existing), None, None);
    assert_eq!(kept.display_name, Some(s("Existing Name")));
    assert_eq!(kept.signature, "Existing signature");
    let cleared = added_fields(Some(&existing), Some(s("")), Some(s("")));
    assert_eq!(cleared.display_name, Some(s("")));
    assert_eq!(cleared.signature, "");
    let fresh = added_fields(None, None, None);
    assert_eq!(fresh.display_name, None);
    assert_eq!(fresh.signature, "");
    assert!(added_is_default(false, false, false));
    assert!(!added_is_default(false, false, true));
    assert!(added_is_default(false, true, true));
    assert_eq!(saved_account_text("a@x", "p", true), "saved account a@x on profile p (default)");
    assert_eq!(saved_account_text("a@x", "p", false), "saved account a@x on profile p");
}

#[test]
fn local_name_edit_and_noop_do_not_need_remote_access() {
    let existing = account("agent@example.com", "default");
    let edit = plan_account_edit(&existing, Some("Local Name"), None).unwrap();
    assert_eq!(edit.display_name, Some(s("Local Name")));
    assert_eq!(edit.profile_name, "default");
    assert!(!edit.check_profile);
    let same = plan_account_edit(&existing, None, Some("default")).unwrap();
    assert!(!same.check_profile);
    let moved = plan_account_edit(&existing, Some(""), Some("other")).unwrap();
    assert!(moved.check_profile);
    assert_eq!(moved.display_name, None);
    assert_eq!(
        plan_account_edit(&existing, None, Some("  ")).err(),
        Some(s("profile name must not be blank"))
    );
    assert_eq!(require_updated("m@x", 0).unwrap_err(), "account m@x not found");
}

#[test]
fn removal_rules_and_alphabetical_default() {
    assert_eq!(check_removal(false, true, "a@x", 0).unwrap_err(), "--yes is required to remove an account");
    assert_eq!(check_removal(true, false, "a@x", 0).unwrap_err(), "account a@x not found");
    assert_eq!(
        check_removal(true, true, "a@x", 2).unwrap_err(),
        "account a@x has 2 unsent outbox item(s); send or resolve them before removal"
    );
    assert!(check_removal(true, true, "a@x", 0).is_ok());
    let remaining = vec![s("z@example.com"), s("B@example.com"), s("a@example.com")];
    assert_eq!(replacement_default(true, &remaining), Some(s("a@example.com")));
    assert_eq!(replacement_default(false, &remaining), None);
    assert_eq!(replacement_default(true, &vec![]), None);
}

fn draft() -> DraftRecord {
    DraftRecord {
        id: s("d1"),
        account_email: s("agent@example.com"),
        to: vec![s("to@example.com")],
        cc: vec![],
        bcc: vec![],
        subject: s("orig-subject"),
        text_body: Some(s("body")),
        html_body: Some(s("<p>Rich</p>")),
        reply_to: vec![],
        reply_to_message_id: None,
        scheduled_at: Some(s("2026-12-01T09:30:00Z")),
        attachment_paths: vec![s("/tmp/attached.txt")],
        created_at: s("t"),
        updated_at: s("t"),
    }
}

fn edit() -> DraftEditArgs {
    DraftEditArgs {
        id: s("d1"),
        subject: None,
        text: None,
        html: None,
        to: None,
        cc: None,
        bcc: None,
        reply_to: None,
        scheduled_at: None,
        clear_html: false,
        clear_schedule: false,
        account: None,
        attachments: vec![],
        clear_attachments: false,
    }
}

#[test]
fn draft_edit_keeps_and_replaces_fields() {
    let u = draft_edit_update(draft(), edit());
    assert_eq!(u.subject, "orig-subject");
    assert_eq!(u.to, vec![s("to@example.com")]);
    assert_eq!(u.scheduled_at, Some(s("2026-12-01T09:30:00Z")));
    assert!(!u.replace_attachments);
    let mut e = edit();
    e.subject = Some(s("new-subject"));
    e.to = Some(vec![]);
    e.clear_html = true;
    e.scheduled_at = Some(s("   "));
    e.reply_to = Some(vec![s("Support <support@example.com>")]);
    e.account = Some(s(" Other@Example.com "));
    e.clear_attachments = true;
    let u = draft_edit_update(draft(), e);
    assert_eq!(u.subject, "new-subject");
    assert!(u.to.is_empty());
    assert_eq!(u.html_body, None);
    assert_eq!(u.scheduled_at, None);
    assert_eq!(u.reply_to, vec![s("support@example.com")]);
    assert_eq!(u.account_email, "other@example.com");
    assert!(u.replace_attachments);
    assert_eq!(require_deleted("d9", 0).unwrap_err(), "draft d9 not found");
}

#[test]
fn draft_edit_blank_recipient_clears_the_list() {
    let mut e = edit();
    e.to = Some(vec![s("")]);
    e.cc = Some(vec![s("  "), s("Ann <ANN@example.com>")]);
    e.text = Some(s(""));
    let u = draft_edit_update(draft(), e);
    assert!(u.to.is_empty());
    assert_eq!(u.cc, vec![s("ann@example.com")]);
    assert_eq!(u.text_body, Some(s("")));
    assert_eq!(u.bcc, Vec::<String>::new());
}

#[test]
fn csv_and_topics() {
    assert_eq!(split_csv(Some(s(" a, ,b ,"))), vec![s("a"), s("b")]);
    assert!(split_csv(None).is_empty());
    assert_eq!(split_csv_opt(Some(s(""))), Some(vec![]));
    assert_eq!(split_csv_opt(None), None);
    let t = parse_topics_arg(Some(s("t1:opt_in, t2 : opt_out"))).unwrap().unwrap();
    assert_eq!((t[0].id.as_str(), t[0].subscription.as_str()), ("t1", "opt_in"));
    assert_eq!((t[1].id.as_str(), t[1].subscription.as_str()), ("t2", "opt_out"));
    assert!(parse_topics_arg(Some(s(" , "))).unwrap().is_none());
    assert!(parse_topics_arg(None).unwrap().is_none());
    assert_eq!(
        parse_topics_arg(Some(s("t1"))).err(),
        Some(s("--topics entries must be 'topic_id:opt_in' or 'topic_id:opt_out', got 't1'"))
    );
    assert_eq!(
        parse_topics_arg(Some(s("t1:maybe"))).err(),
        Some(s("--topics subscription must be 'opt_in' or 'opt_out', got 'maybe'"))
    );
    assert!(check_topic_options(&Some(s("opt_in")), &Some(s("public"))).is_ok());
    assert!(check_topic_options(&Some(s("yes")), &None).is_err());
    assert_eq!(
        check_topic_options(&None, &Some(s("secret"))).err(),
        Some(s("--visibility must be 'public' or 'private', got 'secret'"))
    );
    assert!(check_subscription("opt_out").is_ok());
    assert!(check_subscription("on").is_err());
    assert_eq!(contact_name(&Some(s("Ada")), &Some(s("L"))), "Ada L");
    assert_eq!(contact_name(&None, &Some(s("L"))), "L");
    assert!(segment_refs(vec![]).is_none());
    assert_eq!(segment_refs(vec![s("s1")]).unwrap()[0].id, "s1");
}

#[test]
fn autostart_files() {
    assert_eq!(xml_escape("a&b<c>d"), "a&amp;b&lt;c&gt;d");
    assert_eq!(gui_domain(501), "gui/501");
    assert_eq!(service_target(501), "gui/501/ai.paperfoot.email-cli.daemon");
    assert_eq!(plist_path("/Users/me"), "/Users/me/Library/LaunchAgents/ai.paperfoot.email-cli.daemon.plist");
    assert_eq!(log_path("/Users/me"), "/Users/me/Library/Logs/email-cli/daemon.log");
    let plist = render_plist("/bin/email-cli", Some("me@x"), 60, "/tmp/l&g");
    assert!(plist.contains("        <string>/bin/email-cli</string>\n        <string>daemon</string>\n"));
    assert!(plist.contains("<string>--account</string>\n        <string>me@x</string>"));
    assert!(plist.contains("<string>--interval</string>\n        <string>60</string>"));
    assert!(plist.contains("<key>StandardErrorPath</key>\n    <string>/tmp/l&amp;g</string>"));
    assert!(plist.ends_with("</dict>\n</plist>\n"));
    assert!(bundle_warning("/Applications/X.app/Contents/MacOS/email-cli").is_some());
    assert!(bundle_warning("/usr/local/bin/email-cli").is_none());
    assert_eq!(status_label(true, false), "installed but not loaded");
}

#[test]
fn attachment_names() {
    assert_eq!(candidate_file_name("report.pdf", 0), "report.pdf");
    assert_eq!(candidate_file_name("report.pdf", 1), "report-1.pdf");
    assert_eq!(candidate_file_name("a.tar.gz", 2), "a.tar-2.gz");
    assert_eq!(candidate_file_name(".bashrc", 3), ".bashrc-3");
    assert_eq!(candidate_file_name("README", 4), "README-4");
    assert_eq!(no_free_name("x"), "failed to allocate a safe filename for x");
    assert_eq!(preferred_filename(&None, "att"), "attachment-att");
    assert!(needs_download(&None, &Some(s("https://x"))));
    assert!(!needs_download(&Some(s("/p")), &Some(s("https://x"))));
    assert_eq!(prefetch_summary(0, 0), "no attachments to prefetch");
    assert_eq!(prefetch_summary(2, 1), "prefetched 2 attachment(s); 1 error(s)");
    assert_eq!(export_dir(&None, &Some(s("o")), "d"), "o");
    assert_eq!(attachment_source("sent"), Ok(AttachmentSource::Sent));
    assert_eq!(
        attachment_source("draft").unwrap_err(),
        "attachments are not supported for draft messages"
    );
    let rec = AttachmentRecord {
        id: 42,
        message_id: 7,
        remote_attachment_id: None,
        filename: Some(s("f.pdf")),
        content_type: None,
        size: Some(3),
        download_url: None,
        local_path: Some(s("/cache/f.pdf")),
    };
    assert_eq!(rec.stable_id(), "42");
    let view = rec.into_view();
    assert_eq!(view.id, "42");
    assert!(view.downloaded);
}

#[test]
fn daemon_display() {
    assert_eq!(badge_title(0, false), "");
    assert_eq!(badge_title(7, false), " 7 ");
    assert_eq!(badge_title(42, false), "42");
    assert_eq!(badge_title(100, false), "99+");
    assert_eq!(badge_title(5, true), " \u{21BB} ");
    assert_eq!(account_label(None), "All accounts");
    assert_eq!(status_line(3, false, "All accounts"), "3 unread \u{00b7} All accounts");
    assert_eq!(status_line(3, true, "me@x"), "Syncing\u{2026} \u{00b7} me@x");
    assert_eq!(poll_ticks(60), 240);
    assert_eq!(tick_action(true, true), TickAction::SyncNow);
    assert_eq!(tick_action(false, true), TickAction::MarkAllRead);
}

#[test]
fn profile_rules() {
    assert_eq!(check_profile_name("   ").unwrap_err(), "profile name must not be blank");
    assert_eq!(
        check_profile_removal(true, "used", true, 1).unwrap_err(),
        "profile used is used by 1 account(s); move or remove those accounts first"
    );
    assert_eq!(check_profile_removal(false, "x", true, 0).unwrap_err(), "--yes is required to remove a profile");
    assert!(check_profile_removal(true, "unused", true, 0).is_ok());
    assert_eq!(
        domain_line(&domain("x.com", Some("enabled"))),
        "x.com status=verified sending=enabled receiving=unknown"
    );
    assert_eq!(version_of_tag("v1.2.3"), "1.2.3");
    assert_eq!(update_status("1.2.3", "1.2.3", true), "up_to_date");
    assert_eq!(update_status("1.2.3", "1.3.0", true), "update_available");
    assert_eq!(update_status("1.2.3", "1.3.0", false), "updated");
}

#[test]
fn prefetch_tally_counts_and_skips() {
    let mut t = email_cli::attachments::PrefetchTally::new();
    t.record(email_cli::attachments::PrefetchOutcome::Downloaded);
    t.record(email_cli::attachments::PrefetchOutcome::Skipped);
    t.record(email_cli::attachments::PrefetchOutcome::Failed);
    t.record(email_cli::attachments::PrefetchOutcome::Downloaded);
    assert_eq!((t.downloaded, t.errors), (2, 1));
    let mut full = email_cli::attachments::PrefetchTally { downloaded: u64::MAX, errors: 0 };
    full.record(email_cli::attachments::PrefetchOutcome::Downloaded);
    assert_eq!(full.downloaded, u64::MAX);
}
