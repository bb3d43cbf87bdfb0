use email_cli::subject::normalize_subject;
use email_cli::compose::{
    apply_reply_defaults, fallback_sent_detail, outgoing_header_list, read_optional_content,
    require_body, resolve_api_key, send_attachment, send_request, sent_upsert, signed_bodies,
};
use email_cli::crypto::hex_lower;
use email_cli::helpers::{
    escape_html, forward_subject, reply_headers_for_message, reply_subject, sanitize_filename,
    stable_dedup,
};
use email_cli::models::{AccountRecord, MessageRecord, ReplyHeaders, ResolvedCompose, SentEmail};
use email_cli::received::{
    effective_received_cc, effective_received_to, extract_list_unsubscribe, header_email_list,
    header_string, header_values, received_email_matches_account, received_upsert, HeaderEntry,
    ReceivedEmail,
};
use email_cli::timestamps::normalize_timestamp;

fn s(v: &str) -> String {
    v.to_string()
}

fn header(name: &str, leaves: &[&str]) -> HeaderEntry {
    HeaderEntry {
        name: s(name),
        leaves: leaves.iter().map(|l| s(l)).collect(),
        text: if leaves.len() == 1 { Some(s(leaves[0])) } else { None },
        unsubscribe_url: None,
        unsubscribe_mail: None,
    }
}

fn received(headers: Option<Vec<HeaderEntry>>) -> ReceivedEmail {
    ReceivedEmail {
        id: s("re_1"),
        from: Some(s("Bob <bob@x.com>")),
        to: vec![s("Team <team@x.com>")],
        cc: vec![],
        bcc: vec![],
        reply_to: vec![],
        subject: Some(s("Hello")),
        created_at: None,
        message_id: None,
        html: None,
        text: Some(s("hi")),
        attachments: vec![],
        headers,
    }
}

fn account(email: &str) -> AccountRecord {
    AccountRecord {
        email: s(email),
        profile_name: s("default"),
        display_name: Some(s("Agent")),
        signature: s("Cheers"),
        is_default: true,
        created_at: s("t"),
        updated_at: s("t"),
    }
}

#[test]
fn header_readers() {
    let headers = vec![
        header("References", &["<a@x> <b@x>"]),
        header("to", &["Alice <Alice@X.com>, \"Doe, J\" <j@x.com>"]),
        header("x-list", &["[\"p\",\"q\"]"]),
    ];
    assert_eq!(header_values(&headers, "references", true), vec![s("<a@x>"), s("<b@x>")]);
    assert_eq!(header_values(&headers, "REFERENCES", false), vec![s("<a@x> <b@x>")]);
    assert_eq!(header_values(&headers, "x-list", false), vec![s("p"), s("q")]);
    assert_eq!(header_string(&headers, "missing"), None);
    assert_eq!(header_email_list(&headers, "to"), vec![s("alice@x.com"), s("j@x.com")]);
}

#[test]
fn received_mail_is_matched_to_accounts_by_visible_headers_too() {
    let plain = received(None);
    assert!(received_email_matches_account(&plain, "TEAM@x.com"));
    assert!(!received_email_matches_account(&plain, "me@x.com"));
    let with_cc = received(Some(vec![header("Cc", &["Me <me@x.com>"])]));
    assert!(received_email_matches_account(&with_cc, "me@x.com"));
    assert_eq!(effective_received_to(&with_cc), vec![s("team@x.com")]);
    assert_eq!(effective_received_cc(&with_cc), vec![s("me@x.com")]);
}

#[test]
fn list_unsubscribe_forms() {
    let flat = vec![header("List-Unsubscribe", &["<https://u>"])];
    assert_eq!(extract_list_unsubscribe(&flat), Some(s("<https://u>")));
    let nested_text = vec![header("list", &[r#"{"unsubscribe":{"url":"https://u","mail":"m@x"}}"#])];
    assert_eq!(extract_list_unsubscribe(&nested_text), Some(s("<https://u>, <mailto:m@x>")));
    let nested_object = vec![HeaderEntry {
        name: s("LIST"),
        leaves: vec![s("https://u")],
        text: None,
        unsubscribe_url: None,
        unsubscribe_mail: Some(s("m@x")),
    }];
    assert_eq!(extract_list_unsubscribe(&nested_object), Some(s("<mailto:m@x>")));
    assert_eq!(extract_list_unsubscribe(&vec![]), None);
}

#[test]
fn received_rows() {
    let e = received(Some(vec![
        header("in-reply-to", &["<p@x>"]),
        header("message-id", &["<m@x>"]),
        header("references", &["<o@x> <p@x>"]),
    ]));
    let row = received_upsert(&account("team@x.com"), &e, s("2026-01-01T00:00:00.000Z"), s("{}"));
    assert_eq!(row.direction, "received");
    assert_eq!(row.from_addr, "Bob <bob@x.com>");
    assert_eq!(row.to, vec![s("team@x.com")]);
    assert_eq!(row.rfc_message_id, Some(s("<m@x>")));
    assert_eq!(row.in_reply_to, Some(s("<p@x>")));
    assert_eq!(row.references, vec![s("<o@x>"), s("<p@x>")]);
    assert!(!row.is_read);
    assert_eq!(row.last_event, Some(s("received")));
}

#[test]
fn timestamps_are_normalised_to_utc_millis() {
    assert_eq!(normalize_timestamp(Some("2026-01-01T10:00:00+02:00"), "NOW"), "2026-01-01T08:00:00.000Z");
    assert_eq!(normalize_timestamp(Some("2026-01-01 10:00:00.5+02"), "NOW"), "2026-01-01T08:00:00.500Z");
    assert_eq!(normalize_timestamp(Some("  "), "NOW"), "NOW");
    assert_eq!(normalize_timestamp(None, "NOW"), "NOW");
    assert_eq!(normalize_timestamp(Some("2026-13-01T00:00:00Z"), "NOW"), "NOW");
    assert_eq!(normalize_timestamp(Some("yesterday"), "NOW"), "NOW");
}

#[test]
fn hex_digests() {
    assert_eq!(hex_lower(&[0x00, 0x0f, 0xa0, 0xff]), "000fa0ff");
    assert_eq!(hex_lower(&[]), "");
}

#[test]
fn subjects_do_not_stack_prefixes() {
    let once = reply_subject("Hello");
    assert_eq!(reply_subject(&once), once);
    let f = forward_subject("Hello");
    assert_eq!(f, "Fwd: Hello");
    assert_eq!(forward_subject(&f), f);
    assert_eq!(escape_html("<a href='x'>\"&"), "&lt;a href=&#39;x&#39;&gt;&quot;&amp;");
    assert_eq!(escape_html("&lt;"), "&amp;lt;");
    assert_eq!(sanitize_filename("a/b/../..", "attachment.bin"), "attachment.bin");
    assert_eq!(stable_dedup(vec![s("a"), s("b"), s("a")]), vec![s("a"), s("b")]);
}

fn message(rfc: Option<&str>, irt: Option<&str>, refs: &[&str]) -> MessageRecord {
    MessageRecord {
        id: 5,
        remote_id: s("r"),
        direction: s("received"),
        account_email: s("me@x.com"),
        from_addr: s("Bob <bob@x.com>"),
        to: vec![s("me@x.com")],
        cc: vec![],
        bcc: vec![],
        reply_to: vec![],
        subject: s("Plans"),
        text_body: None,
        html_body: None,
        rfc_message_id: rfc.map(s),
        in_reply_to: irt.map(s),
        references: refs.iter().map(|r| s(r)).collect(),
        last_event: None,
        is_read: false,
        created_at: s("t"),
        synced_at: s("t"),
        archived: false,
        starred: false,
        snoozed_until: None,
        list_unsubscribe: None,
    }
}

#[test]
fn reply_headers_name_the_parent() {
    let h = reply_headers_for_message(&message(Some("<m@x>"), Some("<p@x>"), &[]));
    assert_eq!(h.in_reply_to, Some(s("<m@x>")));
    assert_eq!(h.references, vec![s("<p@x>"), s("<m@x>")]);
    let h = reply_headers_for_message(&message(Some("<m@x>"), None, &["<a@x>", "<m@x>"]));
    assert_eq!(h.references, vec![s("<a@x>"), s("<m@x>")]);
}

fn compose() -> ResolvedCompose {
    ResolvedCompose {
        account: account("me@x.com"),
        to: vec![],
        cc: vec![s("c@x.com")],
        bcc: vec![],
        reply_to: vec![],
        subject: s(""),
        text: Some(s("Body\n")),
        html: None,
        attachments: vec![],
        scheduled_at: None,
    }
}

#[test]
fn outgoing_requests() {
    let reply = ReplyHeaders { in_reply_to: Some(s("<m@x>")), references: vec![s("<a@x>"), s("<m@x>")] };
    let headers = outgoing_header_list("<new@x.com>", Some(&reply));
    assert_eq!(
        headers,
        vec![
            (s("Message-ID"), s("<new@x.com>")),
            (s("In-Reply-To"), s("<m@x>")),
            (s("References"), s("<a@x> <m@x>")),
        ]
    );
    assert_eq!(outgoing_header_list("<n@x>", None).len(), 1);
    let (t, h) = signed_bodies(&Some(s("Body\n")), &None, "Cheers");
    assert_eq!(t, Some(s("Body\n\n-- \nCheers")));
    assert_eq!(h, None);
    let (t, _) = signed_bodies(&Some(s("Body")), &None, "  ");
    assert_eq!(t, Some(s("Body")));
    let mut c = compose();
    c.to = vec![s("t@x.com")];
    let r = send_request(&c, "<new@x.com>", None, vec![]);
    assert_eq!(r.from, "Agent <me@x.com>");
    assert_eq!(r.text, Some(s("Body\n\n-- \nCheers")));
    assert_eq!(r.headers.as_ref().unwrap()[0].0, "Message-ID");
    let detail = fallback_sent_detail("em_1", &r, "NOW");
    assert_eq!(detail.created_at, Some(s("NOW")));
    assert_eq!(detail.last_event, Some(s("sent")));
    let row = sent_upsert(&c.account, &detail, Some(&reply), Some("<new@x.com>"), s("NOW"), s("{}"));
    assert!(row.is_read);
    assert_eq!(row.rfc_message_id, Some(s("<new@x.com>")));
    assert_eq!(row.in_reply_to, Some(s("<m@x>")));
}

#[test]
fn reply_defaults_fill_subject_and_recipients() {
    let target = message(Some("<m@x>"), None, &[]);
    let mut c = compose();
    apply_reply_defaults(&mut c, &target).unwrap();
    assert_eq!(c.subject, "Re: Plans");
    assert_eq!(c.to, vec![s("bob@x.com")]);
}

#[test]
fn inputs_from_files_and_variables() {
    assert_eq!(read_optional_content(Some(s("t")), None, None), Ok(Some(s("t"))));
    assert_eq!(read_optional_content(None, Some(s("/f")), Some(s("c"))), Ok(Some(s("c"))));
    assert_eq!(read_optional_content(None, Some(s("/f")), None), Err(s("failed to read /f")));
    assert_eq!(read_optional_content(None, None, None), Ok(None));
    assert_eq!(
        read_optional_content(Some(s("t")), Some(s("/f")), None),
        Err(s("use either inline content or a file, not both"))
    );
    assert!(require_body(&None, &None).is_err());
    assert!(require_body(&None, &Some(s("<p/>"))).is_ok());
    assert_eq!(resolve_api_key(Some(s(" \"re_1\" ")), None, None, None, None, "RESEND_API_KEY"), Ok(s("re_1")));
    assert_eq!(
        resolve_api_key(Some(s("  ")), Some(s("K")), None, None, None, "RESEND_API_KEY"),
        Err(s("environment variable K is not set"))
    );
    assert_eq!(
        resolve_api_key(None, None, None, Some(s("/k")), Some(s("A=1\nRESEND_API_KEY = 're_2'\n")), "RESEND_API_KEY"),
        Ok(s("re_2"))
    );
    assert_eq!(
        resolve_api_key(None, None, None, Some(s("/k")), Some(s("A=1\n")), "RESEND_API_KEY"),
        Err(s("RESEND_API_KEY not found in /k"))
    );
    assert_eq!(
        resolve_api_key(None, None, None, None, None, "RESEND_API_KEY"),
        Err(s("provide one of --api-key, --api-key-env, or --api-key-file"))
    );
    let a = send_attachment("/tmp/x/report.pdf", b"hi").unwrap();
    assert_eq!((a.filename.as_str(), a.content.as_str()), ("report.pdf", "aGk="));
    assert_eq!(send_attachment("/tmp/x/..", b"").err(), Some(s("invalid attachment path /tmp/x/..")));
}

#[test]
fn sent_email_rows_use_account_when_sender_missing() {
    let e = SentEmail {
        id: s("em"),
        from: None,
        to: vec![],
        cc: vec![],
        bcc: vec![],
        reply_to: vec![],
        subject: None,
        created_at: None,
        last_event: None,
        html: None,
        text: None,
    };
    let row = sent_upsert(&account("me@x.com"), &e, None, None, s("T"), s("{}"));
    assert_eq!(row.from_addr, "me@x.com");
    assert_eq!(row.subject, "");
    assert!(row.references.is_empty());
}

#[test]
fn subject_normalisation_strips_prefixes_and_tags() {
    assert_eq!(normalize_subject("[EXT] RE: Fwd: Re[2]: Budget"), "budget");
    assert_eq!(normalize_subject("回复: Re²: Hello"), "hello");
    assert_eq!(normalize_subject("AW: WG: Treffen"), "treffen");
    assert_eq!(normalize_subject("  Re(3): Plan  "), "plan");
    assert_eq!(normalize_subject("Re: "), "");
    for raw in ["[EXT] RE: Fwd: Re[2]: Budget", "Fw :  [x] Mixed Case", "re no colon"] {
        let once = normalize_subject(raw);
        assert_eq!(normalize_subject(&once), once);
    }
}
