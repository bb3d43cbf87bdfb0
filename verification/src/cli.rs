//! Arguments of the command-line subcommands, as plain data.
//!
//! The front end parses the command line into these; the library's
//! decision functions take them as input.
use vstd::prelude::*;

use crate::num;
use crate::text;

verus! {

pub enum ProfileCommand {
    Add(ProfileAddArgs),
    List,
    Test(ProfileTestArgs),
}

pub struct ProfileAddArgs {
    pub name: String,
    pub api_key: Option<String>,
    pub api_key_env: Option<String>,
    pub api_key_file: Option<String>,
    pub api_key_name: String,
}

pub struct ProfileTestArgs {
    pub name: String,
}

pub enum AccountCommand {
    Add(AccountAddArgs),
    List,
    Use(AccountUseArgs),
}

pub struct AccountAddArgs {
    pub email: String,
    pub profile: String,
    pub name: Option<String>,
    pub signature: Option<String>,
    pub default: bool,
}

pub struct AccountUseArgs {
    pub email: String,
}

pub enum SignatureCommand {
    Update(SignatureSetArgs),
    Show(SignatureShowArgs),
}

pub struct SignatureSetArgs {
    pub account: String,
    pub text: String,
}

pub struct SignatureShowArgs {
    pub account: String,
}

pub struct ComposeArgs {
    pub account: Option<String>,
    pub to: Vec<String>,
    pub cc: Vec<String>,
    pub bcc: Vec<String>,
    pub subject: String,
    /// Thread this email as a reply to a local message ID
    pub reply_to_msg: Option<i64>,
    pub text: Option<String>,
    pub text_file: Option<String>,
    pub html: Option<String>,
    pub html_file: Option<String>,
    pub attachments: Vec<String>,
}

pub struct SendArgs {
    pub compose: ComposeArgs,
}

pub struct ReplyArgs {
    pub message_id: i64,
    pub account: Option<String>,
    /// Reply to all recipients (preserves CC)
    pub all: bool,
    /// Additional CC recipients (merged with --all's computed CC, deduped)
    pub cc: Vec<String>,
    /// BCC recipients
    pub bcc: Vec<String>,
    pub text: Option<String>,
    pub text_file: Option<String>,
    pub html: Option<String>,
    pub html_file: Option<String>,
    pub attachments: Vec<String>,
}

pub struct LogArgs {
    /// Number of entries to show
    pub limit: usize,
}

pub struct DaemonArgs {
    /// Account to monitor (default: all accounts)
    pub account: Option<String>,
    /// Poll interval in seconds
    pub interval: u64,
}

pub enum AutostartCommand {
    /// Install LaunchAgent and load it now
    Install(AutostartInstallArgs),
    /// Remove the LaunchAgent
    Uninstall,
    /// Show LaunchAgent state
    Status(AutostartStatusArgs),
}

pub struct AutostartInstallArgs {
    /// Account to monitor (default: all accounts)
    pub account: Option<String>,
    /// Daemon poll interval in seconds
    pub interval: u64,
}

pub struct AutostartStatusArgs {}

pub struct ForwardArgs {
    pub message_id: i64,
    pub account: Option<String>,
    pub to: Vec<String>,
    pub cc: Vec<String>,
    pub bcc: Vec<String>,
    /// Optional preamble text before the forwarded content
    pub text: Option<String>,
}

pub enum DraftCommand {
    Create(DraftCreateArgs),
    List(DraftListArgs),
    Show(DraftShowArgs),
    Send(DraftSendArgs),
    Edit(DraftEditArgs),
    Delete(DraftDeleteArgs),
}

pub struct DraftEditArgs {
    pub id: String,
    pub subject: Option<String>,
    pub text: Option<String>,
    pub html: Option<String>,
    pub to: Option<Vec<String>>,
    pub cc: Option<Vec<String>>,
    pub bcc: Option<Vec<String>>,
    /// Change the sending account for an existing draft. Passed from Minimail
    /// when the user picks a different From in the compose dropdown — without
    /// this, reopening the draft would reset the sender to its original
    /// value. Omit to keep the stored account_email.
    pub reply_to: Option<Vec<String>>,
    pub scheduled_at: Option<String>,
    pub clear_html: bool,
    pub clear_schedule: bool,
    pub account: Option<String>,
    /// Path to attachment; repeat for multiple. Passing any --attach REPLACES
    /// the draft's existing attachment list; omit entirely to keep what's stored.
    pub attachments: Vec<String>,
    /// Drop all existing attachments without adding new ones. Mutually exclusive
    /// with --attach (which already replaces the list).
    pub clear_attachments: bool,
}

pub struct DraftDeleteArgs {
    pub id: String,
}

pub struct DraftCreateArgs {
    pub compose: ComposeArgs,
    pub reply_to: Option<i64>,
}

pub struct DraftListArgs {
    pub account: Option<String>,
}

pub struct DraftShowArgs {
    pub id: String,
}

pub struct DraftSendArgs {
    pub id: String,
}

pub struct SyncArgs {
    pub account: Option<String>,
    pub limit: usize,
    /// Watch for new messages continuously
    pub watch: bool,
    /// Poll interval in seconds (requires --watch)
    pub interval: Option<u64>,
    /// Send desktop notifications for new messages
    pub notify: bool,
}

pub enum InboxCommand {
    List(InboxListArgs),
    /// Sync messages from Resend (shortcut for top-level sync)
    Sync(InboxSyncArgs),
    Read(InboxReadArgs),
    /// Mark messages as read or unread
    Mark(InboxMarkArgs),
    Delete(InboxDeleteArgs),
    Archive(InboxArchiveArgs),
    Unarchive(InboxUnarchiveArgs),
    /// Show all messages in a conversation thread
    Thread(InboxThreadArgs),
    Search(InboxSearchArgs),
    Purge(InboxPurgeArgs),
    /// Mailbox counts for sidebar / dashboard
    Stats(InboxStatsArgs),
    /// Star / flag messages for quick follow-up
    Star(InboxStarArgs),
    /// Remove the star on messages
    Unstar(InboxStarArgs),
    /// Snooze messages until a future time (they disappear from the inbox
    /// until then, then reappear as unread).
    Snooze(InboxSnoozeArgs),
    /// Cancel a pending snooze so the message reappears now
    Unsnooze(InboxUnsnoozeArgs),
    /// Surface the List-Unsubscribe URL / mailto for a received message so a
    /// client can one-click unsubscribe from marketing mail
    Unsubscribe(InboxUnsubscribeArgs),
}

pub struct InboxSyncArgs {
    pub account: Option<String>,
    pub limit: usize,
}

pub struct InboxListArgs {
    pub account: Option<String>,
    pub limit: usize,
    pub unread: bool,
    pub archived: bool,
    /// Show only starred / flagged messages
    pub starred: bool,
    /// Show only messages currently snoozed into the future. Without this
    /// flag, the list hides snoozed messages until their wake time passes.
    pub snoozed: bool,
    /// Cursor for pagination: return messages with id < this value
    pub after: Option<i64>,
}

pub struct InboxReadArgs {
    pub id: i64,
    /// Mark message as read (default: true, use --no-mark-read to skip)
    pub mark_read: bool,
    pub raw: bool,
}

pub struct InboxMarkArgs {
    /// Message IDs to mark
    pub ids: Vec<i64>,
    /// Mark as read
    pub read: bool,
    /// Mark as unread
    pub unread: bool,
}

pub struct InboxDeleteArgs {
    /// Message IDs to delete (one or more)
    pub ids: Vec<i64>,
}

pub struct InboxArchiveArgs {
    /// Message IDs to archive (one or more)
    pub ids: Vec<i64>,
}

pub struct InboxUnarchiveArgs {
    /// Message IDs to unarchive (one or more)
    pub ids: Vec<i64>,
}

pub struct InboxThreadArgs {
    /// Any message ID in the thread
    pub id: i64,
}

pub struct InboxSearchArgs {
    /// Free-text query (matched against subject + body via FTS). Empty string
    /// is allowed when you rely on filter flags only.
    pub query: String,
    pub account: Option<String>,
    pub limit: usize,
    /// Filter to messages from this sender (substring match on from_addr)
    pub from: Option<String>,
    /// Filter to messages sent to this address (substring match on to_json)
    pub to: Option<String>,
    /// Filter by subject substring
    pub subject: Option<String>,
    /// Only messages that have at least one attachment
    pub has_attachment: bool,
    /// Only unread messages
    pub unread: bool,
    /// Only starred messages
    pub starred: bool,
}

pub struct InboxStatsArgs {
    pub account: Option<String>,
}

pub struct InboxPurgeArgs {
    /// Delete messages older than this date (YYYY-MM-DD)
    pub before: String,
    pub account: Option<String>,
}

pub struct InboxStarArgs {
    /// Message IDs (one or more)
    pub ids: Vec<i64>,
}

pub struct InboxSnoozeArgs {
    /// Message IDs to snooze
    pub ids: Vec<i64>,
    /// When to wake the message back up. Accepts: `tomorrow`, `tonight`,
    /// `next-week`, `1h`, `4h`, `2d`, `1w`, or ISO-8601 timestamp.
    pub until: String,
}

pub struct InboxUnsnoozeArgs {
    pub ids: Vec<i64>,
}

pub struct InboxUnsubscribeArgs {
    pub id: i64,
}

pub enum AttachmentsCommand {
    List(AttachmentListArgs),
    Get(AttachmentGetArgs),
    /// Eagerly cache all uncached attachments to disk. Refreshes Resend's
    /// signed URLs (which expire) before downloading. Safe to run repeatedly.
    Prefetch(AttachmentPrefetchArgs),
}

pub struct AttachmentListArgs {
    pub message_id: i64,
}

pub struct AttachmentGetArgs {
    pub message_id: i64,
    pub attachment_id: String,
    pub output: Option<String>,
}

pub struct AttachmentPrefetchArgs {
    /// Only prefetch attachments for messages in this account.
    pub account: Option<String>,
    /// Maximum number of attachments to fetch in one run. Iterates newest-first.
    pub limit: usize,
}

pub enum SkillAction {
    /// Write skill file to all detected agent platforms
    Install,
    /// Check which platforms have the skill installed
    Status,
}

pub enum DomainCommand {
    List,
    Get(DomainGetArgs),
    Create(DomainCreateArgs),
    Verify(DomainVerifyArgs),
    Delete(DomainDeleteArgs),
    Update(DomainUpdateArgs),
}

pub struct DomainGetArgs {
    pub id: String,
}

pub struct DomainCreateArgs {
    pub name: String,
    pub region: Option<String>,
}

pub struct DomainVerifyArgs {
    pub id: String,
}

pub struct DomainDeleteArgs {
    pub id: String,
}

pub struct DomainUpdateArgs {
    pub id: String,
    pub open_tracking: Option<bool>,
    pub click_tracking: Option<bool>,
}

pub enum ContactCommand {
    List(ContactListArgs),
    Get(ContactGetArgs),
    Create(ContactCreateArgs),
    Update(ContactUpdateArgs),
    Delete(ContactDeleteArgs),
}

pub struct ContactListArgs {
    /// Number of contacts to return (1-100). Defaults to 50.
    pub limit: usize,
    /// Cursor: return contacts after this contact id.
    pub after: Option<String>,
}

pub struct ContactGetArgs {
    /// Contact id or email address.
    pub id_or_email: String,
}

pub struct ContactCreateArgs {
    pub email: String,
    pub first_name: Option<String>,
    pub last_name: Option<String>,
    pub unsubscribed: Option<bool>,
    /// Custom contact properties as a JSON object (e.g. '{"company":"Acme","plan":"pro"}').
    /// Property keys must be defined first via `email-cli contact-property create`.
    pub properties: Option<String>,
    /// Comma-separated segment ids to add this contact to at create time
    /// (e.g. --segments seg_abc123,seg_def456).
    pub segments: Option<String>,
    /// Comma-separated topic subscriptions to set at create time, each formatted as
    /// `topic_id:opt_in` or `topic_id:opt_out` (e.g. --topics top_xxx:opt_in,top_yyy:opt_out).
    pub topics: Option<String>,
}

pub struct ContactUpdateArgs {
    /// Contact id or email address.
    pub id_or_email: String,
    pub first_name: Option<String>,
    pub last_name: Option<String>,
    pub unsubscribed: Option<bool>,
    /// Custom contact properties as a JSON object. Replaces existing values for the keys present.
    pub properties: Option<String>,
}

pub struct ContactDeleteArgs {
    /// Contact id or email address.
    pub id_or_email: String,
}

pub enum BatchCommand {
    Send(BatchSendArgs),
}

pub struct BatchSendArgs {
    /// Path to a JSON file containing an array of email objects
    pub file: String,
}

pub enum ApiKeyCommand {
    List,
    Create(ApiKeyCreateArgs),
    Delete(ApiKeyDeleteArgs),
}

pub struct ApiKeyCreateArgs {
    pub name: String,
    /// full-access or sending-access
    pub permission: String,
}

pub struct ApiKeyDeleteArgs {
    pub id: String,
}

pub enum OutboxCommand {
    List,
    Retry(OutboxRetryArgs),
    Flush,
}

pub struct OutboxRetryArgs {
    pub id: String,
}

pub enum WebhookCommand {
    Listen(WebhookListenArgs),
}

pub struct WebhookListenArgs {
    pub port: u16,
    /// Send desktop notifications for new messages
    pub notify: bool,
    /// Interface to bind. Defaults to 127.0.0.1 so the listener is not
    /// reachable from the LAN. Pass 0.0.0.0 only if you have a shared
    /// secret configured; the server refuses to start on 0.0.0.0 without
    /// one.
    pub host: String,
    /// Name of an environment variable holding the shared secret. Incoming
    /// requests must carry a matching `X-Webhook-Secret` header or they get
    /// 401. Preferred over `--secret-file` when both are set.
    pub secret_env: Option<String>,
    /// Path to a file whose trimmed contents are the shared secret. Used
    /// only if `--secret-env` is not set.
    pub secret_file: Option<String>,
}

pub enum EventsCommand {
    List(EventsListArgs),
}

pub struct EventsListArgs {
    pub message: Option<i64>,
    pub limit: usize,
}

pub enum EmailCommand {
    /// List sent emails. Each row includes `last_event` for poll-based status checks.
    List(EmailListArgs),
}

pub struct EmailListArgs {
    /// Number of emails to return (1-100). Defaults to 20.
    pub limit: usize,
    /// Cursor: return emails created after this email id.
    pub after: Option<String>,
}

pub enum BroadcastCommand {
    List,
    Get(BroadcastGetArgs),
    Create(BroadcastCreateArgs),
    Update(BroadcastUpdateArgs),
    Send(BroadcastSendArgs),
    Delete(BroadcastDeleteArgs),
}

pub struct BroadcastUpdateArgs {
    pub id: String,
    /// Change the target segment.
    pub segment_id: Option<String>,
    pub from: Option<String>,
    pub subject: Option<String>,
    pub html: Option<String>,
    pub text: Option<String>,
    pub name: Option<String>,
    /// Reply-to address(es), comma-separated.
    pub reply_to: Option<String>,
    /// Topic ID for per-recipient unsubscribe wiring.
    pub topic_id: Option<String>,
}

pub struct BroadcastGetArgs {
    pub id: String,
}

pub struct BroadcastCreateArgs {
    /// Segment ID to send to. Accepts a segment id or (legacy) audience id.
    pub segment_id: String,
    /// Sender address (e.g. "Name <sender@example.com>").
    pub from: String,
    pub subject: String,
    /// HTML body. Use `{{{RESEND_UNSUBSCRIBE_URL}}}` for the auto-injected unsubscribe link.
    pub html: Option<String>,
    /// Plain text body.
    pub text: Option<String>,
    /// Internal name for the broadcast (not shown to recipients).
    pub name: Option<String>,
    /// Reply-to address(es), comma-separated.
    pub reply_to: Option<String>,
    /// Topic ID to scope this broadcast to (drives per-recipient unsubscribe URL).
    pub topic_id: Option<String>,
    /// Schedule send (ISO-8601 / RFC-3339 timestamp, or natural language per Resend).
    pub scheduled_at: Option<String>,
    /// Send the broadcast immediately after creation (single API call).
    pub send: bool,
}

pub struct BroadcastSendArgs {
    pub id: String,
    /// Optional ISO-8601 / RFC-3339 timestamp to schedule the send.
    pub scheduled_at: Option<String>,
}

pub struct BroadcastDeleteArgs {
    pub id: String,
}

pub enum ContactPropertyCommand {
    List,
    Get(ContactPropertyGetArgs),
    Create(ContactPropertyCreateArgs),
    Update(ContactPropertyUpdateArgs),
    Delete(ContactPropertyDeleteArgs),
}

pub struct ContactPropertyUpdateArgs {
    pub id: String,
    /// New fallback value. Pass numbers as their text representation; we'll send them as
    /// numbers when `--as-number` is set, otherwise as strings.
    pub fallback: Option<String>,
    /// Treat `--fallback` as a number rather than a string.
    pub as_number: bool,
}

pub struct ContactPropertyGetArgs {
    pub id: String,
}

pub struct ContactPropertyCreateArgs {
    /// Property key. Alphanumeric and underscores only, max 50 chars.
    pub key: String,
    /// Property type: "string" or "number".
    pub property_type: String,
    /// Optional fallback value when the property is not set on a contact (must match type).
    pub fallback: Option<String>,
}

pub struct ContactPropertyDeleteArgs {
    pub id: String,
}

pub enum TopicCommand {
    List,
    Get(TopicGetArgs),
    Create(TopicCreateArgs),
    Update(TopicUpdateArgs),
    Delete(TopicDeleteArgs),
    /// Subscribe / unsubscribe a contact to a topic
    ContactSet(TopicContactSetArgs),
    /// List a contact's topic subscriptions
    ContactList(TopicContactListArgs),
}

pub struct TopicUpdateArgs {
    pub id: String,
    pub name: Option<String>,
    pub description: Option<String>,
    /// Default subscription state for new contacts: "opt_in" or "opt_out".
    pub default_subscription: Option<String>,
    /// "public" or "private" — controls visibility on the hosted preference page.
    pub visibility: Option<String>,
}

pub struct TopicContactListArgs {
    /// Contact id or email
    pub contact: String,
}

pub struct TopicGetArgs {
    pub id: String,
}

pub struct TopicCreateArgs {
    pub name: String,
    pub description: Option<String>,
    /// Default subscription state for new contacts: "opt_in" or "opt_out".
    pub default_subscription: Option<String>,
    /// "public" or "private" — controls visibility on the hosted preference page.
    pub visibility: Option<String>,
}

pub struct TopicDeleteArgs {
    pub id: String,
}

pub struct TopicContactSetArgs {
    /// Contact id or email
    pub contact: String,
    /// Topic id
    pub topic: String,
    /// Subscription state: "opt_in" or "opt_out".
    pub subscription: String,
}

pub enum SegmentCommand {
    List,
    Get(SegmentGetArgs),
    Create(SegmentCreateArgs),
    Delete(SegmentDeleteArgs),
    /// Add a contact to a segment
    ContactAdd(SegmentContactArgs),
    /// Remove a contact from a segment
    ContactRemove(SegmentContactArgs),
    /// List the segments a contact belongs to
    ContactList(SegmentContactListArgs),
    /// List the contacts in a segment
    Contacts(SegmentContactsArgs),
}

pub struct SegmentContactsArgs {
    /// Segment id
    pub id: String,
}

pub struct SegmentGetArgs {
    pub id: String,
}

pub struct SegmentCreateArgs {
    pub name: String,
}

pub struct SegmentDeleteArgs {
    pub id: String,
}

pub struct SegmentContactArgs {
    /// Contact id or email
    pub contact: String,
    /// Segment id
    pub segment: String,
}

pub struct SegmentContactListArgs {
    /// Contact id or email
    pub contact: String,
}


/// The outcome of reading a `--limit` value: a number from 1 to 100.
pub open spec fn resend_limit_result(raw: Seq<char>) -> Result<int, Seq<char>> {
    match num::parse_int(raw, 0, usize::MAX as int) {
        Err(e) => Err(num::int_error_text(e)),
        Ok(v) => if 1 <= v <= 100 {
            Ok(v)
        } else {
            Err("must be a number between 1 and 100, got "@ + text::digits(v as nat))
        },
    }
}

/// Validates that a limit is within Resend's documented range (1-100).
pub fn parse_resend_limit(raw: &str) -> (res: Result<usize, String>)
    ensures
        match res {
            Ok(v) => resend_limit_result(raw@) == Ok::<int, Seq<char>>(v as int),
            Err(e) => resend_limit_result(raw@) == Err::<int, Seq<char>>(e@),
        },
{
    let value = match num::parse_usize(raw) {
        Ok(v) => v,
        Err(e) => return Err(num::int_error_message(e)),
    };
    if value < 1 || value > 100 {
        let mut m = text::copy_str("must be a number between 1 and 100, got ");
        text::push_u64(&mut m, value as u64);
        return Err(m);
    }
    Ok(value)
}

} // verus!
