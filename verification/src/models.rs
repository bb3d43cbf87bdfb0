//! Records kept in the local mailbox and shapes exchanged with the Resend API.
//!
//! These are plain data: the library's functions build and read them, and the
//! command-line front end converts them to and from JSON.
use vstd::prelude::*;

verus! {

#[derive(Clone, Debug)]
pub struct ProfileRecord {
    pub name: String,
    pub created_at: String,
}

#[derive(Clone, Debug)]
pub struct AccountRecord {
    pub email: String,
    pub profile_name: String,
    pub display_name: Option<String>,
    pub signature: String,
    pub is_default: bool,
    pub created_at: String,
    pub updated_at: String,
}

#[derive(Clone, Debug)]
pub struct MessageRecord {
    pub id: i64,
    pub remote_id: String,
    pub direction: String,
    pub account_email: String,
    pub from_addr: String,
    pub to: Vec<String>,
    pub cc: Vec<String>,
    pub bcc: Vec<String>,
    pub reply_to: Vec<String>,
    pub subject: String,
    pub text_body: Option<String>,
    pub html_body: Option<String>,
    pub rfc_message_id: Option<String>,
    pub in_reply_to: Option<String>,
    pub references: Vec<String>,
    pub last_event: Option<String>,
    pub is_read: bool,
    pub created_at: String,
    pub synced_at: String,
    pub archived: bool,
    pub starred: bool,
    pub snoozed_until: Option<String>,
    pub list_unsubscribe: Option<String>,
}

#[derive(Clone, Debug)]
pub struct MessageSummary {
    pub id: i64,
    pub remote_id: String,
    pub direction: String,
    pub account_email: String,
    pub from_addr: String,
    pub to: Vec<String>,
    pub cc: Vec<String>,
    pub subject: String,
    pub rfc_message_id: Option<String>,
    pub in_reply_to: Option<String>,
    pub last_event: Option<String>,
    pub is_read: bool,
    pub created_at: String,
    pub archived: bool,
    pub text_preview: Option<String>,
    pub starred: bool,
    /// ISO 8601 timestamp in UTC — messages are hidden from the default inbox
    /// list until their snoozed_until passes.
    pub snoozed_until: Option<String>,
    /// Raw `List-Unsubscribe` header value (URL or mailto:) from the original
    /// email, suitable for a one-click unsubscribe button in the UI.
    pub list_unsubscribe: Option<String>,
    /// Whether the message has any attachments. Lets UIs show a paperclip
    /// icon without a second round-trip.
    pub has_attachments: bool,
}

#[derive(Clone, Debug)]
pub struct DraftRecord {
    pub id: String,
    pub account_email: String,
    pub to: Vec<String>,
    pub cc: Vec<String>,
    pub bcc: Vec<String>,
    pub subject: String,
    pub text_body: Option<String>,
    pub html_body: Option<String>,
    pub reply_to: Vec<String>,
    pub reply_to_message_id: Option<i64>,
    pub scheduled_at: Option<String>,
    pub attachment_paths: Vec<String>,
    pub created_at: String,
    pub updated_at: String,
}

#[derive(Clone, Debug)]
pub struct AttachmentRecord {
    pub id: i64,
    pub message_id: i64,
    pub remote_attachment_id: Option<String>,
    pub filename: Option<String>,
    pub content_type: Option<String>,
    pub size: Option<i64>,
    pub download_url: Option<String>,
    pub local_path: Option<String>,
}

#[derive(Clone, Debug)]
pub struct AttachmentView {
    /// Stable identifier accepted by `attachments get`.
    ///
    /// Prefer the provider attachment id when present. Locally snapshotted
    /// sent attachments can exist before Resend's attachment-list endpoint has
    /// been queried, so their fallback id is the SQLite row id as a string.
    pub id: String,
    pub row_id: i64,
    pub message_id: i64,
    pub remote_attachment_id: Option<String>,
    pub filename: Option<String>,
    pub content_type: Option<String>,
    pub size: Option<i64>,
    pub download_url: Option<String>,
    pub local_path: Option<String>,
    pub downloaded: bool,
}

#[derive(Clone, Debug)]
pub struct SyncSummary {
    pub profiles: usize,
    pub sent_messages: usize,
    pub received_messages: usize,
    /// Per-account failures on a partial sync ("email: error"). Empty on a
    /// fully-successful run. Omitted from JSON when empty so the existing wire
    /// shape is unchanged for the common case.
    pub errors: Vec<String>,
}

// ── Resend API types ───────────────────────────────────────────────────────

#[derive(Clone, Debug)]
pub struct DomainList {
    pub data: Vec<Domain>,
}

#[derive(Clone, Debug)]
pub struct Domain {
    pub name: String,
    pub status: Option<String>,
    pub region: Option<String>,
    pub capabilities: Option<DomainCapabilities>,
}

#[derive(Clone, Debug)]
pub struct DomainCapabilities {
    pub sending: Option<String>,
    pub receiving: Option<String>,
}

#[derive(Clone, Debug)]
pub struct SendEmailRequest {
    pub from: String,
    pub to: Vec<String>,
    pub cc: Vec<String>,
    pub bcc: Vec<String>,
    /// Optional Reply-To override. Resend forwards this as the RFC-5322
    /// Reply-To header so recipient clients route Reply to a different
    /// mailbox than the sender. Skipped from the wire payload when empty
    /// to keep the JSON tidy and idempotency-keys stable for prior versions.
    pub reply_to: Vec<String>,
    pub subject: String,
    pub text: Option<String>,
    pub html: Option<String>,
    /// Extra headers as (name, value) pairs; names are distinct.
    pub headers: Option<Vec<(String, String)>>,
    pub attachments: Vec<SendAttachment>,
    /// RFC-3339 or natural-language ("in 1 min", "tomorrow at 9am") send
    /// time. Resend honours this server-side — the email stays in their
    /// queue until the wake moment, so the local app can exit immediately.
    pub scheduled_at: Option<String>,
}

#[derive(Clone, Debug)]
pub struct SendAttachment {
    pub filename: String,
    pub content: String,
}

#[derive(Clone, Debug)]
pub struct SendEmailResponse {
    pub id: String,
}

#[derive(Clone, Debug)]
pub struct ListResponse<T> {
    pub data: Vec<T>,
    pub has_more: Option<bool>,
}

#[derive(Clone, Debug)]
pub struct SentEmail {
    pub id: String,
    pub from: Option<String>,
    pub to: Vec<String>,
    pub cc: Vec<String>,
    pub bcc: Vec<String>,
    pub reply_to: Vec<String>,
    pub subject: Option<String>,
    pub created_at: Option<String>,
    pub last_event: Option<String>,
    pub html: Option<String>,
    pub text: Option<String>,
}

#[derive(Clone, Debug)]
pub struct ReceivedAttachment {
    pub id: Option<String>,
    pub filename: Option<String>,
    pub content_type: Option<String>,
    pub size: Option<i64>,
    pub download_url: Option<String>,
}

// ── Domain detail ──────────────────────────────────────────────────────────

#[derive(Clone, Debug)]
pub struct DomainDetail {
    pub id: String,
    pub name: String,
    pub status: Option<String>,
    pub region: Option<String>,
    pub records: Vec<DnsRecord>,
    pub created_at: Option<String>,
}

#[derive(Clone, Debug)]
pub struct DnsRecord {
    pub record: Option<String>,
    pub name: Option<String>,
    pub record_type: Option<String>,
    pub value: Option<String>,
    pub status: Option<String>,
    pub ttl: Option<String>,
    pub priority: Option<i64>,
}

#[derive(Clone, Debug)]
pub struct CreateDomainRequest {
    pub name: String,
    pub region: Option<String>,
}

#[derive(Clone, Debug)]
pub struct CreateDomainResponse {
    pub id: String,
    pub name: String,
}

#[derive(Clone, Debug)]
pub struct UpdateDomainRequest {
    pub open_tracking: Option<bool>,
    pub click_tracking: Option<bool>,
}

#[derive(Clone, Debug)]
pub struct DeleteResponse {
    pub deleted: bool,
}

#[derive(Clone, Debug)]
pub struct IdResponse {
    pub id: String,
}

#[derive(Clone, Debug)]
pub struct SegmentRef {
    pub id: String,
}

#[derive(Clone, Debug)]
pub struct TopicRef {
    pub id: String,
    /// "opt_in" or "opt_out"
    pub subscription: String,
}

// ── Contact types ──────────────────────────────────────────────────────────

#[derive(Clone, Debug)]
pub struct CreateContactResponse {
    pub id: String,
}

#[derive(Clone, Debug)]
pub struct BatchSendResponse {
    pub data: Vec<BatchSendItem>,
}

#[derive(Clone, Debug)]
pub struct BatchSendItem {
    pub id: String,
}

// ── API key types ──────────────────────────────────────────────────────────

#[derive(Clone, Debug)]
pub struct ApiKey {
    pub id: String,
    pub name: String,
    pub created_at: Option<String>,
}

#[derive(Clone, Debug)]
pub struct ApiKeyList {
    pub data: Vec<ApiKey>,
}

#[derive(Clone, Debug)]
pub struct CreateApiKeyRequest {
    pub name: String,
    pub permission: Option<String>,
}

#[derive(Clone, Debug)]
pub struct CreateApiKeyResponse {
    pub id: String,
    pub token: String,
}

// ── Internal types ─────────────────────────────────────────────────────────

#[derive(Clone, Debug)]
pub struct ResolvedCompose {
    pub account: AccountRecord,
    pub to: Vec<String>,
    pub cc: Vec<String>,
    pub bcc: Vec<String>,
    /// Optional Reply-To override resolved from `--reply-to` flags or
    /// draft persistence. Empty Vec = inherit account's identity (default).
    pub reply_to: Vec<String>,
    pub subject: String,
    pub text: Option<String>,
    pub html: Option<String>,
    pub attachments: Vec<String>,
    /// Optional Resend `scheduled_at` value. Not persisted to drafts — the
    /// user picks a schedule at send time, then Resend queues the email.
    pub scheduled_at: Option<String>,
}

#[derive(Clone, Debug)]
pub struct ReplyHeaders {
    pub in_reply_to: Option<String>,
    pub references: Vec<String>,
}

#[derive(Clone, Debug)]
pub struct MessageUpsert {
    pub remote_id: String,
    pub direction: String,
    pub account_email: String,
    pub from_addr: String,
    pub to: Vec<String>,
    pub cc: Vec<String>,
    pub bcc: Vec<String>,
    pub reply_to: Vec<String>,
    pub subject: String,
    pub text_body: Option<String>,
    pub html_body: Option<String>,
    pub rfc_message_id: Option<String>,
    pub in_reply_to: Option<String>,
    pub references: Vec<String>,
    pub last_event: Option<String>,
    pub is_read: bool,
    pub created_at: String,
    pub raw_json: String,
    /// Raw `List-Unsubscribe` header captured from the original mail, if any.
    /// Used by `inbox unsubscribe` + client UIs for one-click unsubscribe.
    pub list_unsubscribe: Option<String>,
}

// ── Command log ───────────────────────────────────────────────────────────

#[derive(Clone, Debug)]
pub struct CommandLogEntry {
    pub id: i64,
    pub command: String,
    pub args: String,
    pub exit_code: Option<i32>,
    pub created_at: String,
}

// ── Segment types (Audiences renamed to Segments in November 2025) ────────

#[derive(Clone, Debug)]
pub struct Segment {
    pub id: String,
    pub name: String,
    pub created_at: Option<String>,
}

#[derive(Clone, Debug)]
pub struct SegmentList {
    pub data: Vec<Segment>,
}

#[derive(Clone, Debug)]
pub struct CreateSegmentRequest {
    pub name: String,
}

#[derive(Clone, Debug)]
pub struct CreateSegmentResponse {
    pub id: String,
    pub name: String,
}

#[derive(Clone, Debug)]
pub struct ContactSegmentResponse {
    pub id: String,
    pub deleted: bool,
}

// ── Broadcast types ────────────────────────────────────────────────────────

#[derive(Clone, Debug)]
pub struct Broadcast {
    pub id: String,
    pub name: Option<String>,
    /// Resend uses segment_id on the new API; the legacy field name was audience_id.
    /// Some endpoints/responses may still echo audience_id, so we accept both.
    pub segment_id: Option<String>,
    pub from: Option<String>,
    pub subject: Option<String>,
    pub reply_to: Vec<String>,
    pub topic_id: Option<String>,
    pub html: Option<String>,
    pub text: Option<String>,
    pub preview_text: Option<String>,
    pub status: Option<String>,
    pub created_at: Option<String>,
    pub scheduled_at: Option<String>,
    pub sent_at: Option<String>,
}

#[derive(Clone, Debug)]
pub struct BroadcastList {
    pub data: Vec<Broadcast>,
}

#[derive(Clone, Debug)]
pub struct CreateBroadcastRequest {
    pub segment_id: String,
    pub from: String,
    pub subject: String,
    pub html: Option<String>,
    pub text: Option<String>,
    pub name: Option<String>,
    pub reply_to: Option<Vec<String>>,
    pub topic_id: Option<String>,
    pub scheduled_at: Option<String>,
    /// If true, send the broadcast immediately after creation (single API call).
    pub send: Option<bool>,
}

#[derive(Clone, Debug)]
pub struct CreateBroadcastResponse {
    pub id: String,
}

#[derive(Clone, Debug)]
pub struct UpdateBroadcastRequest {
    pub segment_id: Option<String>,
    pub from: Option<String>,
    pub subject: Option<String>,
    pub html: Option<String>,
    pub text: Option<String>,
    pub name: Option<String>,
    pub reply_to: Option<Vec<String>>,
    pub topic_id: Option<String>,
}

#[derive(Clone, Debug)]
pub struct SendBroadcastRequest {
    pub scheduled_at: Option<String>,
}

#[derive(Clone, Debug)]
pub struct SendBroadcastResponse {
    pub id: String,
}

// ── Contact property schema types ──────────────────────────────────────────

#[derive(Clone, Debug)]
pub struct CreateContactPropertyResponse {
    pub id: String,
}

#[derive(Clone, Debug)]
pub struct Topic {
    pub id: String,
    pub name: String,
    pub description: Option<String>,
    pub default_subscription: Option<String>,
    /// "public" or "private" — controls whether the topic is shown on the hosted preference page.
    pub visibility: Option<String>,
    pub created_at: Option<String>,
}

#[derive(Clone, Debug)]
pub struct TopicList {
    pub data: Vec<Topic>,
}

#[derive(Clone, Debug)]
pub struct CreateTopicRequest {
    pub name: String,
    pub description: Option<String>,
    /// "opt_in" or "opt_out"
    pub default_subscription: Option<String>,
    /// "public" or "private"
    pub visibility: Option<String>,
}

#[derive(Clone, Debug)]
pub struct CreateTopicResponse {
    pub id: String,
}

#[derive(Clone, Debug)]
pub struct UpdateTopicRequest {
    pub name: Option<String>,
    pub description: Option<String>,
    pub default_subscription: Option<String>,
    pub visibility: Option<String>,
}

#[derive(Clone, Debug)]
pub struct ContactTopicSubscription {
    pub id: String,
    /// "opt_in" or "opt_out"
    pub subscription: String,
}

#[derive(Clone, Debug)]
pub struct UpdateContactTopicsRequest {
    pub topics: Vec<ContactTopicSubscription>,
}

#[derive(Clone, Debug)]
pub struct ContactTopicView {
    pub id: String,
    pub name: Option<String>,
    pub description: Option<String>,
    pub subscription: Option<String>,
    pub created_at: Option<String>,
}

#[derive(Clone, Debug)]
pub struct ContactTopicList {
    pub data: Vec<ContactTopicView>,
}


pub open spec fn opt_text_view(o: Option<String>) -> Option<Seq<char>> {
    match o {
        Some(s) => Some(s@),
        None => None,
    }
}

/// The id `attachments get` accepts for a stored attachment: the provider's
/// attachment id when known, else the local row id in decimal.
pub open spec fn stable_id_of(a: AttachmentRecord) -> Seq<char> {
    match a.remote_attachment_id {
        Some(r) => r@,
        None => crate::text::int_text(a.id as int),
    }
}

impl AttachmentRecord {
    pub fn stable_id(&self) -> (res: String)
        ensures
            res@ == stable_id_of(*self),
    {
        match &self.remote_attachment_id {
            Some(r) => crate::text::copy_str(r.as_str()),
            None => crate::text::i64_to_string(self.id),
        }
    }

    /// The listing shape of a stored attachment; it counts as downloaded when
    /// a local copy is recorded.
    pub fn into_view(self) -> (res: AttachmentView)
        ensures
            res.id@ == stable_id_of(self),
            res.row_id == self.id,
            res.message_id == self.message_id,
            opt_text_view(res.remote_attachment_id) == opt_text_view(self.remote_attachment_id),
            opt_text_view(res.filename) == opt_text_view(self.filename),
            opt_text_view(res.content_type) == opt_text_view(self.content_type),
            res.size == self.size,
            opt_text_view(res.download_url) == opt_text_view(self.download_url),
            opt_text_view(res.local_path) == opt_text_view(self.local_path),
            res.downloaded == self.local_path is Some,
    {
        let id = self.stable_id();
        let downloaded = self.local_path.is_some();
        AttachmentView {
            id,
            row_id: self.id,
            message_id: self.message_id,
            remote_attachment_id: self.remote_attachment_id,
            filename: self.filename,
            content_type: self.content_type,
            size: self.size,
            download_url: self.download_url,
            downloaded,
            local_path: self.local_path,
        }
    }
}

} // verus!
