use email_cli::inbox::{mailbox_stats, MessageFlags};
use email_cli::cli::{InboxListArgs, InboxSearchArgs};
use email_cli::inbox::{
    cursor_not_found, is_after_cursor, merge_thread_messages, paginate, parse_wake_spec,
    partition_ids, snooze_time_error, wake_spec, WakeSpec,
};
use email_cli::models::MessageSummary;
use email_cli::query::{inbox_list_plan, inbox_search_plan, placeholders, SqlParam};

fn summary(id: i64, created_at: &str) -> MessageSummary {
    MessageSummary {
        id,
        remote_id: format!("remote-{id}"),
        direction: "received".into(),
        account_email: "agent@example.com".into(),
        from_addr: "sender@example.com".into(),
        to: vec!["agent@example.com".into()],
        cc: vec![],
        subject: format!("remote-{id}"),
        rfc_message_id: None,
        in_reply_to: None,
        last_event: None,
        is_read: false,
        created_at: created_at.into(),
        archived: false,
        text_preview: None,
        starred: false,
        snoozed_until: None,
        list_unsubscribe: None,
        has_attachments: false,
    }
}

/// The mailbox query: rows after the cursor, newest first (ties by id),
/// `limit + 1` of them, then the page.
fn page(rows: &[MessageSummary], limit: usize, after: Option<i64>) -> Result<(Vec<i64>, bool, Option<i64>), String> {
    let mut sorted: Vec<MessageSummary> = rows.to_vec();
    sorted.sort_by(|a, b| b.created_at.cmp(&a.created_at).then(b.id.cmp(&a.id)));
    let selected: Vec<MessageSummary> = match after {
        Some(c) => {
            let cursor = rows.iter().find(|m| m.id == c).ok_or_else(|| cursor_not_found(c))?;
            sorted
                .into_iter()
                .filter(|m| is_after_cursor(&m.created_at, m.id, &cursor.created_at, c))
                .collect()
        }
        None => sorted,
    };
    let fetched: Vec<MessageSummary> = selected.into_iter().take(limit + 1).collect();
    let p = paginate(fetched, limit);
    Ok((p.messages.iter().map(|m| m.id).collect(), p.has_more, p.next_cursor))
}

#[test]
fn inbox_cursor_follows_created_at_then_id_order() {
    let rows = vec![
        summary(10, "2026-01-03T00:00:00Z"),
        summary(30, "2026-01-02T00:00:00Z"),
        summary(20, "2026-01-02T00:00:00Z"),
        summary(40, "2026-01-01T00:00:00Z"),
    ];
    let (ids, more, cursor) = page(&rows, 2, None).unwrap();
    assert_eq!(ids, vec![10, 30]);
    assert!(more);
    assert_eq!(cursor, Some(30));
    let (ids, more, cursor) = page(&rows, 2, cursor).unwrap();
    assert_eq!(ids, vec![20, 40]);
    assert!(!more);
    assert_eq!(cursor, Some(40));
}

#[test]
fn inbox_cursor_handles_empty_and_last_pages() {
    let empty: Vec<MessageSummary> = vec![];
    let (ids, more, cursor) = page(&empty, 5, None).unwrap();
    assert!(ids.is_empty());
    assert!(!more);
    assert_eq!(cursor, None);
    let rows = vec![summary(7, "2026-01-01T00:00:00Z")];
    let (_, more, cursor) = page(&rows, 5, None).unwrap();
    assert_eq!(cursor, Some(7));
    assert!(!more);
    let (ids, more, cursor) = page(&rows, 5, cursor).unwrap();
    assert!(ids.is_empty());
    assert!(!more);
    assert_eq!(cursor, None);
}

#[test]
fn inbox_cursor_rejects_missing_message() {
    let rows: Vec<MessageSummary> = vec![];
    let error = page(&rows, 5, Some(999)).unwrap_err();
    assert!(error.contains("inbox cursor message 999 not found"));
}

#[test]
fn cursor_order_is_strict() {
    assert!(!is_after_cursor("2026-01-02", 5, "2026-01-02", 5));
    assert!(is_after_cursor("2026-01-02", 4, "2026-01-02", 5));
    assert!(is_after_cursor("2026-01-01", 9, "2026-01-02", 5));
    assert!(!is_after_cursor("2026-01-03", 1, "2026-01-02", 5));
}

#[test]
fn partition_reports_every_id_once() {
    let (hit, miss) = partition_ids(&[3, 1, 4, 1, 5], &[1, 5, 9]);
    assert_eq!(hit, vec![1, 1, 5]);
    assert_eq!(miss, vec![3, 4]);
    assert_eq!(hit.len() + miss.len(), 5);
}

#[test]
fn thread_merge_orders_by_time_and_skips_known_ids() {
    let messages = vec![summary(2, "2026-01-02"), summary(1, "2026-01-03")];
    let extras = vec![summary(3, "2026-01-01"), summary(2, "2026-01-02"), summary(4, "2026-01-02")];
    let merged = merge_thread_messages(messages, extras);
    let ids: Vec<i64> = merged.iter().map(|m| m.id).collect();
    assert_eq!(ids, vec![3, 2, 4, 1]);
}

#[test]
fn wake_specs() {
    assert_eq!(wake_spec("tonight"), WakeSpec::Tonight);
    assert_eq!(wake_spec("tomorrow"), WakeSpec::Tomorrow);
    assert_eq!(wake_spec("next-week"), WakeSpec::NextWeek);
    assert_eq!(wake_spec("nextweek"), WakeSpec::NextWeek);
    assert_eq!(wake_spec("4h"), WakeSpec::Hours(4));
    assert_eq!(wake_spec("2d"), WakeSpec::Days(2));
    assert_eq!(wake_spec("1w"), WakeSpec::Weeks(1));
    assert_eq!(wake_spec("-3h"), WakeSpec::Hours(-3));
    assert_eq!(wake_spec("h"), WakeSpec::Timestamp);
    assert_eq!(wake_spec("2026-01-01T09:00:00Z"), WakeSpec::Timestamp);
    assert_eq!(parse_wake_spec("  TONIGHT \n"), WakeSpec::Tonight);
    assert_eq!(parse_wake_spec(" 12H"), WakeSpec::Hours(12));
    assert_eq!(
        snooze_time_error("soon"),
        "couldn't parse snooze time 'soon' — try tomorrow, tonight, 4h, 2d, or an ISO timestamp"
    );
}

fn list_args(after: Option<i64>) -> InboxListArgs {
    InboxListArgs {
        account: Some(" Agent@Example.com ".into()),
        limit: 5,
        unread: true,
        archived: false,
        starred: false,
        snoozed: false,
        after,
    }
}

fn text(p: &SqlParam) -> String {
    match p {
        SqlParam::Text(t) => t.clone(),
        SqlParam::Int(i) => format!("#{i}"),
    }
}

#[test]
fn list_plan_binds_in_order() {
    let plan = inbox_list_plan(&list_args(Some(30)), "NOW", Some("2026-01-02"));
    assert_eq!(
        plan.conditions,
        vec![
            "m.archived = ?",
            "m.account_email = ?",
            "m.is_read = 0",
            "(m.snoozed_until IS NULL OR m.snoozed_until <= ?)",
            "(m.created_at < ? OR (m.created_at = ? AND m.id < ?))",
        ]
    );
    let params: Vec<String> = plan.params.iter().map(text).collect();
    assert_eq!(params, vec!["#0", "agent@example.com", "NOW", "2026-01-02", "2026-01-02", "#30"]);
}

#[test]
fn search_plan_needs_a_filter() {
    let mut args = InboxSearchArgs {
        query: "  ".into(),
        account: None,
        limit: 10,
        from: None,
        to: None,
        subject: None,
        has_attachment: false,
        unread: false,
        starred: false,
    };
    assert!(inbox_search_plan(&args).unwrap_err().starts_with("inbox search needs a query"));
    args.query = " invoice ".into();
    args.from = Some("bob".into());
    args.has_attachment = true;
    let plan = inbox_search_plan(&args).unwrap();
    assert_eq!(
        plan.conditions,
        vec![
            "messages_fts MATCH ?",
            "m.from_addr LIKE ?",
            "EXISTS (SELECT 1 FROM attachments a WHERE a.message_id = m.id)",
        ]
    );
    let params: Vec<String> = plan.params.iter().map(text).collect();
    assert_eq!(params, vec!["invoice", "%bob%"]);
}

#[test]
fn placeholder_lists() {
    assert_eq!(placeholders(0, 1), "");
    assert_eq!(placeholders(3, 1), "?1,?2,?3");
    assert_eq!(placeholders(2, 2), "?2,?3");
}

#[test]
fn stats_count_received_unarchived_as_inbox() {

    let rows = vec![
        MessageFlags { received: true, archived: false, read: false },
        MessageFlags { received: false, archived: true, read: true },
    ];
    let st = mailbox_stats(&rows);
    assert_eq!((st.total, st.inbox, st.unread, st.archived, st.sent), (2, 1, 1, 1, 1));
    let more = vec![
        MessageFlags { received: true, archived: true, read: false },
        MessageFlags { received: true, archived: false, read: true },
        MessageFlags { received: false, archived: false, read: true },
    ];
    let st = mailbox_stats(&more);
    assert_eq!((st.total, st.inbox, st.unread, st.archived, st.sent), (3, 1, 0, 1, 1));
}
