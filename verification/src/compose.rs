//! Turning a composed message into the request sent to Resend, and the
//! sent message into the row stored locally: signatures, threading
//! headers, attachments, and the inputs read from files and variables.
use vstd::prelude::*;

use crate::crypto;
use crate::helpers;
use crate::models::{
    AccountRecord, MessageRecord, MessageUpsert, ReplyHeaders, ResolvedCompose, SendAttachment,
    SendEmailRequest, SentEmail,
};
use crate::text;

verus! {

fn copy_opt(o: &Option<String>) -> (res: Option<String>)
    ensures
        text::opt_view(res) == text::opt_view(*o),
{
    match o {
        Some(s) => Some(text::copy_str(s.as_str())),
        None => None,
    }
}

fn copy_list(v: &Vec<String>) -> (res: Vec<String>)
    ensures
        text::views(res@) == text::views(v@),
{
    let mut out: Vec<String> = Vec::new();
    let mut i: usize = 0;
    while i < v.len()
        invariant
            i <= v.len(),
            text::views(out@) == text::views(v@).take(i as int),
        decreases v.len() - i,
    {
        let ghost before = text::views(out@);
        out.push(text::copy_str(v[i].as_str()));
        proof {
            assert(text::views(out@) =~= before.push(v@[i as int]@));
            assert(text::views(v@).take(i + 1) =~= text::views(v@).take(i as int).push(v@[i as int]@));
        }
        i = i + 1;
    }
    proof {
        assert(text::views(v@).take(v.len() as int) =~= text::views(v@));
    }
    out
}

// ── Inputs ─────────────────────────────────────────────────────────────────

/// Inline content or a file's content, not both. `file_content` is what
/// reading `path` gave (`None` when it could not be read).
pub open spec fn optional_content(
    value: Option<Seq<char>>,
    path: Option<Seq<char>>,
    file_content: Option<Seq<char>>,
) -> Result<Option<Seq<char>>, Seq<char>> {
    match (value, path) {
        (Some(t), None) => Ok(Some(t)),
        (None, Some(p)) => match file_content {
            Some(c) => Ok(Some(c)),
            None => Err("failed to read "@ + p),
        },
        (None, None) => Ok(None),
        (Some(_), Some(_)) => Err("use either inline content or a file, not both"@),
    }
}

pub open spec fn content_view(r: Result<Option<String>, String>) -> Result<Option<Seq<char>>, Seq<char>> {
    match r {
        Ok(o) => Ok(text::opt_view(o)),
        Err(e) => Err(e@),
    }
}

pub fn read_optional_content(value: Option<String>, path: Option<String>, file_content: Option<String>) -> (res:
    Result<Option<String>, String>)
    ensures
        content_view(res) == optional_content(text::opt_view(value), text::opt_view(path), text::opt_view(file_content)),
{
    match (value, path) {
        (Some(t), None) => Ok(Some(t)),
        (None, Some(p)) => match file_content {
            Some(c) => Ok(Some(c)),
            None => {
                let mut m = text::copy_str("failed to read ");
                text::push_str(&mut m, p.as_str());
                Err(m)
            },
        },
        (None, None) => Ok(None),
        (Some(_), Some(_)) => Err(text::copy_str("use either inline content or a file, not both")),
    }
}

/// A message needs a text or an HTML body.
pub fn require_body(text_body: &Option<String>, html: &Option<String>) -> (res: Result<(), String>)
    ensures
        res is Ok <==> (text_body is Some || html is Some),
        res matches Err(m) ==> m@ == "one of --text/--text-file or --html/--html-file is required"@,
{
    if text_body.is_none() && html.is_none() {
        return Err(text::copy_str("one of --text/--text-file or --html/--html-file is required"));
    }
    Ok(())
}

/// The value of `NAME=value` in a key file's lines, the first line whose
/// trimmed name is `name`.
pub open spec fn key_file_value(lines: Seq<Seq<char>>, name: Seq<char>) -> Option<Seq<char>>
    decreases lines.len(),
{
    if lines.len() == 0 {
        None
    } else {
        match text::split_once(lines[0], '=') {
            Some((n, v)) => if text::trim(n) == name {
                Some(v)
            } else {
                key_file_value(lines.drop_first(), name)
            },
            None => key_file_value(lines.drop_first(), name),
        }
    }
}

/// The API key a profile is saved with: the key given directly (when it is
/// not empty once cleaned up), else the environment variable, else the
/// `NAME=value` line of the key file. `env_value` and `file_content` are
/// what reading the variable and the file gave.
pub open spec fn api_key_result(
    direct: Option<Seq<char>>,
    env_var: Option<Seq<char>>,
    env_value: Option<Seq<char>>,
    file: Option<Seq<char>>,
    file_content: Option<Seq<char>>,
    env_name: Seq<char>,
) -> Result<Seq<char>, Seq<char>> {
    if direct is Some && helpers::cleaned_env_value(direct->0).len() > 0 {
        Ok(helpers::cleaned_env_value(direct->0))
    } else {
        match env_var {
            Some(name) => match env_value {
                None => Err("environment variable "@ + name + " is not set"@),
                Some(v) => if helpers::cleaned_env_value(v).len() == 0 {
                    Err("environment variable "@ + name + " is empty"@)
                } else {
                    Ok(helpers::cleaned_env_value(v))
                },
            },
            None => match file {
                Some(path) => match file_content {
                    None => Err("failed to read "@ + path),
                    Some(c) => match key_file_value(text::lines(c), env_name) {
                        Some(v) => if helpers::cleaned_env_value(v).len() == 0 {
                            Err(env_name + " in "@ + path + " is empty"@)
                        } else {
                            Ok(helpers::cleaned_env_value(v))
                        },
                        None => Err(env_name + " not found in "@ + path),
                    },
                },
                None => Err("provide one of --api-key, --api-key-env, or --api-key-file"@),
            },
        }
    }
}

pub open spec fn key_view(r: Result<String, String>) -> Result<Seq<char>, Seq<char>> {
    match r {
        Ok(k) => Ok(k@),
        Err(e) => Err(e@),
    }
}

fn find_key_line(lines: &Vec<String>, name: &str) -> (res: Option<String>)
    ensures
        text::opt_view(res) == key_file_value(text::views(lines@), name@),
{
    let ghost lv = text::views(lines@);
    let mut i: usize = 0;
    proof {
        assert(lv.skip(0) =~= lv);
    }
    while i < lines.len()
        invariant
            i <= lines.len(),
            lv == text::views(lines@),
            key_file_value(lv, name@) == key_file_value(lv.skip(i as int), name@),
        decreases lines.len() - i,
    {
        proof {
            assert(lv.skip(i as int)[0] == lines@[i as int]@);
            assert(lv.skip(i as int).drop_first() =~= lv.skip(i + 1));
        }
        match text::split_once_str(lines[i].as_str(), '=') {
            Some((n, v)) => {
                let t = text::trim_str(n.as_str());
                if text::seq_eq(t.as_str(), name) {
                    return Some(v);
                }
            },
            None => {},
        }
        i = i + 1;
    }
    proof {
        assert(lv.skip(lines.len() as int) =~= Seq::<Seq<char>>::empty());
    }
    None
}

pub fn resolve_api_key(
    direct: Option<String>,
    env_var: Option<String>,
    env_value: Option<String>,
    file: Option<String>,
    file_content: Option<String>,
    env_name: &str,
) -> (res: Result<String, String>)
    ensures
        key_view(res) == api_key_result(
            text::opt_view(direct),
            text::opt_view(env_var),
            text::opt_view(env_value),
            text::opt_view(file),
            text::opt_view(file_content),
            env_name@,
        ),
{
    match &direct {
        Some(key) => {
            let trimmed = helpers::cleanup_env_value(key.as_str());
            if !trimmed.as_str().is_empty() {
                return Ok(trimmed);
            }
        },
        None => {},
    }
    match env_var {
        Some(name) => {
            return match env_value {
                None => {
                    let mut m = text::copy_str("environment variable ");
                    text::push_str(&mut m, name.as_str());
                    text::push_str(&mut m, " is not set");
                    Err(m)
                },
                Some(v) => {
                    let cleaned = helpers::cleanup_env_value(v.as_str());
                    if cleaned.as_str().is_empty() {
                        let mut m = text::copy_str("environment variable ");
                        text::push_str(&mut m, name.as_str());
                        text::push_str(&mut m, " is empty");
                        Err(m)
                    } else {
                        Ok(cleaned)
                    }
                },
            };
        },
        None => {},
    }
    match file {
        Some(path) => match file_content {
            None => {
                let mut m = text::copy_str("failed to read ");
                text::push_str(&mut m, path.as_str());
                Err(m)
            },
            Some(c) => {
                let lines = text::lines_of(c.as_str());
                match find_key_line(&lines, env_name) {
                    Some(v) => {
                        let cleaned = helpers::cleanup_env_value(v.as_str());
                        if cleaned.as_str().is_empty() {
                            let mut m = text::copy_str(env_name);
                            text::push_str(&mut m, " in ");
                            text::push_str(&mut m, path.as_str());
                            text::push_str(&mut m, " is empty");
                            Err(m)
                        } else {
                            Ok(cleaned)
                        }
                    },
                    None => {
                        let mut m = text::copy_str(env_name);
                        text::push_str(&mut m, " not found in ");
                        text::push_str(&mut m, path.as_str());
                        Err(m)
                    },
                }
            },
        },
        None => Err(text::copy_str("provide one of --api-key, --api-key-env, or --api-key-file")),
    }
}

// ── The request ────────────────────────────────────────────────────────────

/// A body with the account's signature added, when the signature is not
/// blank and the body is there at all.
pub open spec fn with_signature_text(body: Option<Seq<char>>, signature: Seq<char>) -> Option<Seq<char>> {
    if text::trim(signature).len() > 0 && body is Some {
        Some(helpers::signed_text(body, signature))
    } else {
        body
    }
}

pub open spec fn with_signature_html(body: Option<Seq<char>>, signature: Seq<char>) -> Option<Seq<char>> {
    if text::trim(signature).len() > 0 && body is Some {
        Some(helpers::signed_html(body, signature))
    } else {
        body
    }
}

/// `x + y` ends with `y` and starts with `x`.
proof fn lemma_concat_ends(x: Seq<char>, y: Seq<char>)
    ensures
        text::ends_with(x + y, y),
        text::starts_with(x + y, x),
{
    assert((x + y).skip((x + y).len() - y.len()) =~= y);
    assert((x + y).take(x.len() as int) =~= x);
}

/// With a non-blank account signature, an HTML body goes out as the body
/// (trailing whitespace removed), then `<br><br>-- <br>`, then the
/// signature HTML-escaped with its line breaks as `<br>`; a blank body
/// becomes the escaped signature alone. Without an HTML body, or with a
/// blank signature, the HTML is left as it was.
pub proof fn law_signature_closes_html(body: Option<Seq<char>>, signature: Seq<char>)
    ensures
        (text::trim(signature).len() == 0 || body is None) ==> with_signature_html(body, signature) == body,
        text::trim(signature).len() > 0 && body is Some ==> ({
            let b = text::trim_end(body.unwrap());
            let e = text::replace_all(helpers::escaped(signature), "\n"@, "<br>"@);
            &&& with_signature_html(body, signature) is Some
            &&& text::ends_with(with_signature_html(body, signature).unwrap(), e)
            &&& text::starts_with(with_signature_html(body, signature).unwrap(), b)
            &&& b.len() > 0 ==> text::ends_with(
                with_signature_html(body, signature).unwrap(),
                "<br><br>-- <br>"@ + e,
            )
            &&& with_signature_html(body, signature).unwrap().len() == b.len() + e.len() + (if b.len() > 0 {
                "<br><br>-- <br>"@.len()
            } else {
                0
            })
        }),
{
    if text::trim(signature).len() > 0 && body is Some {
        let b = text::trim_end(body.unwrap());
        let e = text::replace_all(helpers::escaped(signature), "\n"@, "<br>"@);
        let sep = "<br><br>-- <br>"@;
        if b.len() > 0 {
            assert(b + sep + e =~= b + (sep + e));
            lemma_concat_ends(b, sep + e);
            lemma_concat_ends(b + sep, e);
        } else {
            assert(Seq::<char>::empty() + e =~= e);
            lemma_concat_ends(Seq::empty(), e);
            assert(b =~= Seq::<char>::empty());
        }
    }
}

/// With a non-blank account signature, a text body goes out as the body
/// (trailing whitespace removed), then `\n\n-- \n`, then the trimmed
/// signature; a blank body becomes the trimmed signature alone. Without a
/// text body, or with a blank signature, the text is left as it was.
pub proof fn law_signature_closes_text(body: Option<Seq<char>>, signature: Seq<char>)
    ensures
        (text::trim(signature).len() == 0 || body is None) ==> with_signature_text(body, signature) == body,
        text::trim(signature).len() > 0 && body is Some ==> ({
            let b = text::trim_end(body.unwrap());
            let s = text::trim(signature);
            &&& with_signature_text(body, signature) is Some
            &&& text::ends_with(with_signature_text(body, signature).unwrap(), s)
            &&& text::starts_with(with_signature_text(body, signature).unwrap(), b)
            &&& b.len() > 0 ==> text::ends_with(
                with_signature_text(body, signature).unwrap(),
                "\n\n-- \n"@ + s,
            )
            &&& with_signature_text(body, signature).unwrap().len() == b.len() + s.len() + (if b.len() > 0 {
                "\n\n-- \n"@.len()
            } else {
                0
            })
        }),
{
    if text::trim(signature).len() > 0 && body is Some {
        let b = text::trim_end(body.unwrap());
        let s = text::trim(signature);
        let sep = "\n\n-- \n"@;
        if b.len() > 0 {
            assert(b + sep + s =~= b + (sep + s));
            lemma_concat_ends(b, sep + s);
            lemma_concat_ends(b + sep, s);
        } else {
            lemma_concat_ends(Seq::empty(), s);
            assert(Seq::<char>::empty() + s =~= s);
            assert(b =~= Seq::<char>::empty());
        }
    }
}

pub fn signed_bodies(text_body: &Option<String>, html: &Option<String>, signature: &str) -> (res: (
    Option<String>,
    Option<String>,
))
    ensures
        text::opt_view(res.0) == with_signature_text(text::opt_view(*text_body), signature@),
        text::opt_view(res.1) == with_signature_html(text::opt_view(*html), signature@),
{
    let sig = text::trim_str(signature);
    if sig.as_str().is_empty() {
        return (copy_opt(text_body), copy_opt(html));
    }
    let t = match text_body {
        Some(b) => Some(helpers::append_signature_text(Some(b.as_str()), signature)),
        None => None,
    };
    let h = match html {
        Some(b) => Some(helpers::append_signature_html(Some(b.as_str()), signature)),
        None => None,
    };
    (t, h)
}

/// The custom headers of an outgoing message: its Message-ID, and for a
/// reply In-Reply-To (when known) and the References joined by spaces
/// (when there are any).
pub open spec fn outgoing_headers(message_id: Seq<char>, reply: Option<ReplyHeaders>) -> Seq<(Seq<char>, Seq<char>)> {
    let base = seq![("Message-ID"@, message_id)];
    match reply {
        None => base,
        Some(r) => {
            let with_irt = match r.in_reply_to {
                Some(i) => base.push(("In-Reply-To"@, i@)),
                None => base,
            };
            if r.references@.len() > 0 {
                with_irt.push(("References"@, text::join(text::views(r.references@), " "@)))
            } else {
                with_irt
            }
        },
    }
}

pub fn outgoing_header_list(message_id: &str, reply: Option<&ReplyHeaders>) -> (res: Vec<(String, String)>)
    ensures
        crate::outbox::pair_views(res@) == outgoing_headers(
            message_id@,
            match reply {
                Some(r) => Some(*r),
                None => None,
            },
        ),
{
    let mut out: Vec<(String, String)> = Vec::new();
    out.push((text::copy_str("Message-ID"), text::copy_str(message_id)));
    proof {
        assert(crate::outbox::pair_views(out@) =~= seq![("Message-ID"@, message_id@)]);
    }
    match reply {
        None => {},
        Some(r) => {
            match &r.in_reply_to {
                Some(i) => {
                    let ghost before = crate::outbox::pair_views(out@);
                    out.push((text::copy_str("In-Reply-To"), text::copy_str(i.as_str())));
                    proof {
                        assert(crate::outbox::pair_views(out@) =~= before.push(("In-Reply-To"@, i@)));
                    }
                },
                None => {},
            }
            if r.references.len() > 0 {
                let ghost before = crate::outbox::pair_views(out@);
                let joined = text::join_strings(r.references.as_slice(), " ");
                out.push((text::copy_str("References"), joined));
                proof {
                    assert(crate::outbox::pair_views(out@) =~= before.push(("References"@, joined@)));
                }
            }
        },
    }
    out
}

/// What a path contributes as an attachment: its file name and its bytes in
/// Base64. A path without a file name is refused.
pub open spec fn attachment_of(path: Seq<char>, bytes: Seq<u8>) -> Result<(Seq<char>, Seq<char>), Seq<char>> {
    match helpers::file_name(path) {
        Some(n) => Ok((n, crypto::base64_encoded(bytes))),
        None => Err("invalid attachment path "@ + path),
    }
}

pub fn send_attachment(path: &str, bytes: &[u8]) -> (res: Result<SendAttachment, String>)
    requires
        bytes@.len() <= usize::MAX / 2,
    ensures
        match res {
            Ok(a) => attachment_of(path@, bytes@) == Ok::<(Seq<char>, Seq<char>), Seq<char>>((a.filename@, a.content@)),
            Err(e) => attachment_of(path@, bytes@) == Err::<(Seq<char>, Seq<char>), Seq<char>>(e@),
        },
{
    match helpers::path_file_name(path) {
        Some(n) => Ok(SendAttachment { filename: n, content: crypto::base64_encode(bytes) }),
        None => {
            let mut m = text::copy_str("invalid attachment path ");
            text::push_str(&mut m, path);
            Err(m)
        },
    }
}

/// The request sent for a composed message.
pub open spec fn request_ok(
    r: SendEmailRequest,
    c: ResolvedCompose,
    message_id: Seq<char>,
    reply: Option<ReplyHeaders>,
    attachments: Seq<SendAttachment>,
) -> bool {
    &&& r.from@ == helpers::sender_text(text::opt_view(c.account.display_name), c.account.email@)
    &&& text::views(r.to@) == text::views(c.to@)
    &&& text::views(r.cc@) == text::views(c.cc@)
    &&& text::views(r.bcc@) == text::views(c.bcc@)
    &&& text::views(r.reply_to@) == text::views(c.reply_to@)
    &&& r.subject@ == c.subject@
    &&& text::opt_view(r.text) == with_signature_text(text::opt_view(c.text), c.account.signature@)
    &&& text::opt_view(r.html) == with_signature_html(text::opt_view(c.html), c.account.signature@)
    &&& r.headers matches Some(h) && crate::outbox::pair_views(h@) == outgoing_headers(message_id, reply)
    &&& r.attachments@ == attachments
    &&& text::opt_view(r.scheduled_at) == text::opt_view(c.scheduled_at)
}

pub fn send_request(
    c: &ResolvedCompose,
    message_id: &str,
    reply: Option<&ReplyHeaders>,
    attachments: Vec<SendAttachment>,
) -> (res: SendEmailRequest)
    ensures
        request_ok(
            res,
            *c,
            message_id@,
            match reply {
                Some(r) => Some(*r),
                None => None,
            },
            attachments@,
        ),
{
    let (t, h) = signed_bodies(&c.text, &c.html, c.account.signature.as_str());
    let from = match &c.account.display_name {
        Some(n) => helpers::format_sender(Some(n.as_str()), c.account.email.as_str()),
        None => helpers::format_sender(None, c.account.email.as_str()),
    };
    SendEmailRequest {
        from,
        to: copy_list(&c.to),
        cc: copy_list(&c.cc),
        bcc: copy_list(&c.bcc),
        reply_to: copy_list(&c.reply_to),
        subject: text::copy_str(c.subject.as_str()),
        text: t,
        html: h,
        headers: Some(outgoing_header_list(message_id, reply)),
        attachments,
        scheduled_at: copy_opt(&c.scheduled_at),
    }
}

/// When the sent message's details cannot be fetched, they are taken from
/// the request itself, stamped with `now`.
pub fn fallback_sent_detail(response_id: &str, r: &SendEmailRequest, now: &str) -> (res: SentEmail)
    ensures
        res.id@ == response_id@,
        text::opt_view(res.from) == Some(r.from@),
        text::views(res.to@) == text::views(r.to@),
        text::views(res.cc@) == text::views(r.cc@),
        text::views(res.bcc@) == text::views(r.bcc@),
        res.reply_to@.len() == 0,
        text::opt_view(res.subject) == Some(r.subject@),
        text::opt_view(res.created_at) == Some(now@),
        text::opt_view(res.last_event) == Some("sent"@),
        text::opt_view(res.html) == text::opt_view(r.html),
        text::opt_view(res.text) == text::opt_view(r.text),
{
    SentEmail {
        id: text::copy_str(response_id),
        from: Some(text::copy_str(r.from.as_str())),
        to: copy_list(&r.to),
        cc: copy_list(&r.cc),
        bcc: copy_list(&r.bcc),
        reply_to: Vec::new(),
        subject: Some(text::copy_str(r.subject.as_str())),
        created_at: Some(text::copy_str(now)),
        last_event: Some(text::copy_str("sent")),
        html: copy_opt(&r.html),
        text: copy_opt(&r.text),
    }
}

/// The row stored for a sent message: read, from the account unless the
/// provider says otherwise, threaded by the reply headers it answered, and
/// carrying the Message-ID generated for it.
pub open spec fn sent_row_ok(
    row: MessageUpsert,
    account: AccountRecord,
    e: SentEmail,
    reply: Option<ReplyHeaders>,
    generated: Option<Seq<char>>,
    created_at: Seq<char>,
    raw_json: Seq<char>,
) -> bool {
    &&& row.remote_id@ == e.id@
    &&& row.direction@ == "sent"@
    &&& row.account_email@ == account.email@
    &&& row.from_addr@ == match e.from {
        Some(f) => f@,
        None => account.email@,
    }
    &&& text::views(row.to@) == text::views(e.to@)
    &&& text::views(row.cc@) == text::views(e.cc@)
    &&& text::views(row.bcc@) == text::views(e.bcc@)
    &&& text::views(row.reply_to@) == text::views(e.reply_to@)
    &&& row.subject@ == match e.subject {
        Some(s) => s@,
        None => Seq::empty(),
    }
    &&& text::opt_view(row.text_body) == text::opt_view(e.text)
    &&& text::opt_view(row.html_body) == text::opt_view(e.html)
    &&& text::opt_view(row.rfc_message_id) == generated
    &&& text::opt_view(row.in_reply_to) == match reply {
        Some(r) => text::opt_view(r.in_reply_to),
        None => None,
    }
    &&& text::views(row.references@) == match reply {
        Some(r) => text::views(r.references@),
        None => Seq::empty(),
    }
    &&& text::opt_view(row.last_event) == text::opt_view(e.last_event)
    &&& row.is_read
    &&& row.created_at@ == created_at
    &&& row.raw_json@ == raw_json
    &&& row.list_unsubscribe is None
}

pub fn sent_upsert(
    account: &AccountRecord,
    e: &SentEmail,
    reply: Option<&ReplyHeaders>,
    generated: Option<&str>,
    created_at: String,
    raw_json: String,
) -> (res: MessageUpsert)
    ensures
        sent_row_ok(
            res,
            *account,
            *e,
            match reply {
                Some(r) => Some(*r),
                None => None,
            },
            text::opt_str_view(generated),
            created_at@,
            raw_json@,
        ),
{
    let (in_reply_to, references) = match reply {
        Some(r) => (copy_opt(&r.in_reply_to), copy_list(&r.references)),
        None => {
            let v: Vec<String> = Vec::new();
            proof {
                assert(text::views(v@) =~= Seq::<Seq<char>>::empty());
            }
            (None, v)
        },
    };
    MessageUpsert {
        remote_id: text::copy_str(e.id.as_str()),
        direction: text::copy_str("sent"),
        account_email: text::copy_str(account.email.as_str()),
        from_addr: match &e.from {
            Some(f) => text::copy_str(f.as_str()),
            None => text::copy_str(account.email.as_str()),
        },
        to: copy_list(&e.to),
        cc: copy_list(&e.cc),
        bcc: copy_list(&e.bcc),
        reply_to: copy_list(&e.reply_to),
        subject: match &e.subject {
            Some(s) => text::copy_str(s.as_str()),
            None => String::new(),
        },
        text_body: copy_opt(&e.text),
        html_body: copy_opt(&e.html),
        rfc_message_id: match generated {
            Some(g) => Some(text::copy_str(g)),
            None => None,
        },
        in_reply_to,
        references,
        last_event: copy_opt(&e.last_event),
        is_read: true,
        created_at,
        raw_json,
        list_unsubscribe: None,
    }
}

/// Replying with `send --reply-to-msg`: an empty subject becomes the reply
/// subject of the target, and an empty recipient list the target's reply
/// recipients.
pub fn apply_reply_defaults(c: &mut ResolvedCompose, target: &MessageRecord) -> (res: Result<(), String>)
    ensures
        final(c).subject@ == (if old(c).subject@.len() == 0 {
            helpers::reply_subject_text(target.subject@)
        } else {
            old(c).subject@
        }),
        res is Ok ==> text::views(final(c).to@) == (if old(c).to@.len() == 0 {
            helpers::reply_targets(*target)
        } else {
            text::views(old(c).to@)
        }),
        res is Err <==> (old(c).to@.len() == 0 && helpers::reply_targets(*target).len() == 0),
{
    if c.subject.as_str().is_empty() {
        c.subject = helpers::reply_subject(target.subject.as_str());
    }
    if c.to.len() == 0 {
        let to = helpers::reply_recipients(target)?;
        c.to = to;
    }
    Ok(())
}

} // verus!
