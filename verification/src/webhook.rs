//! The webhook listener's decisions: which bind addresses are public, how
//! the shared secret and Svix signatures are checked, and what an incoming
//! event is about. Sockets, clocks and files stay with the caller, which
//! hands in what it read.
use vstd::prelude::*;

use crate::crypto;
use crate::inbox;
use crate::ipaddr;
use crate::num;
use crate::text::{self, CharClass};

verus! {

/// Header the listener checks against the configured shared secret.
pub const WEBHOOK_SECRET_HEADER: &'static str = "X-Webhook-Secret";

/// Largest accepted clock skew for a Svix-signed delivery, in seconds.
pub const SVIX_TOLERANCE_SECS: i64 = 300;

// ── Bind addresses ─────────────────────────────────────────────────────────

/// A host that peers on the network can reach: anything but `localhost`
/// (any case), `::1`, `[::1]`, a loopback IPv4 address (`127.x.y.z`) or the
/// IPv6 loopback address. Unknown host names count as public.
pub open spec fn public_bind(host: Seq<char>) -> bool {
    let h = text::trim(host);
    if inbox::same_ignoring_ascii_case(h, "localhost"@) {
        false
    } else if h == "::1"@ || h == "[::1]"@ {
        false
    } else {
        match ipaddr::ipv4_octets(h) {
            Some(o) => o[0] != 127,
            None => match ipaddr::ipv6_groups(h) {
                Some(g) => g != ipaddr::ipv6_loopback(),
                None => true,
            },
        }
    }
}

pub fn is_public_bind(host: &str) -> (res: bool)
    ensures
        res == public_bind(host@),
{
    let h = text::trim_str(host);
    if inbox::eq_ignore_ascii_case(h.as_str(), "localhost") {
        return false;
    }
    if text::seq_eq(h.as_str(), "::1") || text::seq_eq(h.as_str(), "[::1]") {
        return false;
    }
    match ipaddr::parse_ipv4(h.as_str()) {
        Some(o) => {
            return o[0] != 127;
        },
        None => {},
    }
    match ipaddr::parse_ipv6(h.as_str()) {
        Some(g) => !ipaddr::is_loopback_v6(&g),
        None => true,
    }
}

// ── Secrets ────────────────────────────────────────────────────────────────

proof fn lemma_or_zero(d: u8, x: u8, y: u8)
    ensures
        (d | (x ^ y)) == 0 <==> (d == 0 && x == y),
{
    assert((d | (x ^ y)) == 0 <==> (d == 0 && x == y)) by (bit_vector);
}

/// Byte-for-byte equality that looks at every byte whatever it finds, so
/// the time taken does not tell how much of a secret matched.
pub fn constant_time_eq(a: &[u8], b: &[u8]) -> (res: bool)
    ensures
        res == (a@ == b@),
{
    if a.len() != b.len() {
        return false;
    }
    let mut diff: u8 = 0;
    let mut i: usize = 0;
    while i < a.len()
        invariant
            a.len() == b.len(),
            i <= a.len(),
            diff == 0 <==> forall|j: int| 0 <= j < i ==> a@[j] == b@[j],
        decreases a.len() - i,
    {
        proof {
            lemma_or_zero(diff, a@[i as int], b@[i as int]);
        }
        diff = diff | (a[i] ^ b[i]);
        i = i + 1;
    }
    proof {
        if diff == 0 {
            assert(a@ =~= b@);
        }
    }
    diff == 0
}

/// Strings compared through their UTF-8 bytes, in constant time.
fn constant_time_eq_str(a: &str, b: &str) -> (res: bool)
    ensures
        res == (a@ == b@),
{
    let r = constant_time_eq(a.as_bytes(), b.as_bytes());
    proof {
        vstd::utf8::encode_utf8_decode_utf8(a@);
        vstd::utf8::encode_utf8_decode_utf8(b@);
    }
    r
}

/// Where a secret comes from: an environment variable (preferred), a file,
/// or nowhere when no authentication is asked for.
#[derive(Clone, Debug)]
pub enum SecretSource {
    Env(String),
    File(String),
    Unset,
}

/// The environment variable wins over the file.
pub fn secret_source(secret_env: Option<&str>, secret_file: Option<&str>) -> (res: SecretSource)
    ensures
        match secret_env {
            Some(v) => res matches SecretSource::Env(x) && x@ == v@,
            None => match secret_file {
                Some(p) => res matches SecretSource::File(x) && x@ == p@,
                None => res is Unset,
            },
        },
{
    match secret_env {
        Some(v) => SecretSource::Env(text::copy_str(v)),
        None => match secret_file {
            Some(p) => SecretSource::File(text::copy_str(p)),
            None => SecretSource::Unset,
        },
    }
}

/// The outcome of resolving a secret: `env` and `file` are the names given
/// on the command line, `fetched` the variable's value or the file's
/// contents (`None` when the variable is not set or the file could not be
/// read). The variable wins over the file; surrounding whitespace is
/// dropped and an empty secret is refused.
pub open spec fn secret_result(
    env: Option<Seq<char>>,
    file: Option<Seq<char>>,
    fetched: Option<Seq<char>>,
) -> Result<Option<Seq<char>>, Seq<char>> {
    match env {
        Some(var) => match fetched {
            None => Err(
                "--secret-env references environment variable `"@ + var + "` but it is not set"@,
            ),
            Some(v) => if text::trim(v).len() == 0 {
                Err("environment variable `"@ + var + "` is empty"@)
            } else {
                Ok(Some(text::trim(v)))
            },
        },
        None => match file {
            Some(path) => match fetched {
                None => Err("failed to read --secret-file "@ + path),
                Some(v) => if text::trim(v).len() == 0 {
                    Err("--secret-file "@ + path + " is empty"@)
                } else {
                    Ok(Some(text::trim(v)))
                },
            },
            None => Ok(None),
        },
    }
}

pub open spec fn secret_view(r: Result<Option<String>, String>) -> Result<
    Option<Seq<char>>,
    Seq<char>,
> {
    match r {
        Ok(o) => Ok(text::opt_view(o)),
        Err(e) => Err(e@),
    }
}

fn trimmed_secret(v: String) -> (res: Option<String>)
    ensures
        match res {
            Some(t) => t@ == text::trim(v@) && t@.len() > 0,
            None => text::trim(v@).len() == 0,
        },
{
    let t = text::trim_str(v.as_str());
    if t.as_str().is_empty() {
        None
    } else {
        Some(t)
    }
}

/// Resolves the secret the listener requires (see `secret_result`).
pub fn resolve_secret(secret_env: Option<&str>, secret_file: Option<&str>, fetched: Option<String>) -> (res:
    Result<Option<String>, String>)
    ensures
        secret_view(res) == secret_result(
            text::opt_str_view(secret_env),
            text::opt_str_view(secret_file),
            text::opt_view(fetched),
        ),
{
    match secret_env {
        Some(var) => match fetched {
            None => {
                let mut m = text::copy_str("--secret-env references environment variable `");
                text::push_str(&mut m, var);
                text::push_str(&mut m, "` but it is not set");
                Err(m)
            },
            Some(v) => match trimmed_secret(v) {
                Some(t) => Ok(Some(t)),
                None => {
                    let mut m = text::copy_str("environment variable `");
                    text::push_str(&mut m, var);
                    text::push_str(&mut m, "` is empty");
                    Err(m)
                },
            },
        },
        None => match secret_file {
            Some(path) => match fetched {
                None => {
                    let mut m = text::copy_str("failed to read --secret-file ");
                    text::push_str(&mut m, path);
                    Err(m)
                },
                Some(v) => match trimmed_secret(v) {
                    Some(t) => Ok(Some(t)),
                    None => {
                        let mut m = text::copy_str("--secret-file ");
                        text::push_str(&mut m, path);
                        text::push_str(&mut m, " is empty");
                        Err(m)
                    },
                },
            },
            None => Ok(None),
        },
    }
}

/// A public bind with no authentication at all is refused at start-up.
pub open spec fn startup_refused(host: Seq<char>, has_secret: bool, has_signing: bool) -> bool {
    public_bind(host) && !has_secret && !has_signing
}

pub fn check_startup(host: &str, has_secret: bool, has_signing: bool) -> (res: Result<(), String>)
    ensures
        res is Err <==> startup_refused(host@, has_secret, has_signing),
        res matches Err(m) ==> m@ == "refusing to start: --host "@ + host@
            + " exposes the webhook to the LAN but no auth is set. Pass --signing-secret-env <VAR> (Resend whsec_... signing secret) to verify signatures, or --secret-env <VAR> for a shared-secret header."@,
{
    if is_public_bind(host) && !has_secret && !has_signing {
        let mut m = text::copy_str("refusing to start: --host ");
        text::push_str(&mut m, host);
        text::push_str(
            &mut m,
            " exposes the webhook to the LAN but no auth is set. Pass --signing-secret-env <VAR> (Resend whsec_... signing secret) to verify signatures, or --secret-env <VAR> for a shared-secret header.",
        );
        Err(m)
    } else {
        Ok(())
    }
}

/// The shared-secret gate: passes when no secret is configured, else only
/// when the header was sent with exactly the secret.
pub fn shared_secret_ok(expected: Option<&str>, provided: Option<&str>) -> (res: bool)
    ensures
        res == match expected {
            None => true,
            Some(e) => match provided {
                Some(p) => p@ == e@,
                None => false,
            },
        },
{
    match expected {
        None => true,
        Some(e) => match provided {
            Some(p) => constant_time_eq_str(p, e),
            None => false,
        },
    }
}

// ── Headers ────────────────────────────────────────────────────────────────

pub open spec fn header_names_match(h: (String, String), name: Seq<char>) -> bool {
    inbox::same_ignoring_ascii_case(h.0@, name)
}

/// The value of the first header whose name equals `name` ignoring ASCII case.
pub open spec fn header_lookup(headers: Seq<(String, String)>, name: Seq<char>) -> Option<Seq<char>>
    decreases headers.len(),
{
    if headers.len() == 0 {
        None
    } else if header_names_match(headers[0], name) {
        Some(headers[0].1@)
    } else {
        header_lookup(headers.drop_first(), name)
    }
}

pub fn header_value(headers: &Vec<(String, String)>, name: &str) -> (res: Option<String>)
    ensures
        text::opt_view(res) == header_lookup(headers@, name@),
{
    let mut i: usize = 0;
    proof {
        assert(headers@.skip(0) =~= headers@);
    }
    while i < headers.len()
        invariant
            i <= headers.len(),
            header_lookup(headers@, name@) == header_lookup(headers@.skip(i as int), name@),
        decreases headers.len() - i,
    {
        proof {
            assert(headers@.skip(i as int)[0] == headers@[i as int]);
            assert(headers@.skip(i as int).drop_first() =~= headers@.skip(i + 1));
        }
        if inbox::eq_ignore_ascii_case(headers[i].0.as_str(), name) {
            return Some(text::copy_str(headers[i].1.as_str()));
        }
        i = i + 1;
    }
    None
}

// ── Svix signatures ────────────────────────────────────────────────────────

/// The secret's key text: without a leading `whsec_`, trimmed.
pub open spec fn svix_key_text(secret: Seq<char>) -> Seq<char> {
    if text::starts_with(secret, "whsec_"@) {
        text::trim(secret.skip(6))
    } else {
        text::trim(secret)
    }
}

/// The signature a genuine delivery carries: Base64 of the HMAC-SHA256 of
/// `{id}.{timestamp}.{body}` under the Base64-decoded key; `None` when the
/// key is not Base64.
pub open spec fn expected_signature(secret: Seq<char>, id: Seq<char>, ts: Seq<char>, body: Seq<char>) -> Option<
    Seq<char>,
> {
    match crypto::base64_decoded(vstd::utf8::encode_utf8(svix_key_text(secret))) {
        Some(key) => Some(
            crypto::base64_encoded(
                crypto::hmac_sha256_tag(
                    key,
                    vstd::utf8::encode_utf8(id + "."@ + ts + "."@ + body),
                ),
            ),
        ),
        None => None,
    }
}

/// The signature part of one `svix-signature` entry: what follows the first
/// comma (`v1,<sig>`), or the whole entry when there is none.
pub open spec fn entry_signature(entry: Seq<char>) -> Seq<char> {
    match text::split_once(entry, ',') {
        Some((_, sig)) => sig,
        None => entry,
    }
}

/// Some space-separated entry of the header carries `expected`.
pub open spec fn header_carries(header: Seq<char>, expected: Seq<char>) -> bool {
    let entries = text::split_by(header, CharClass::Only(' '));
    exists|i: int| 0 <= i < entries.len() && entry_signature(#[trigger] entries[i]) == expected
}

pub open spec fn abs(x: int) -> int {
    if x < 0 {
        -x
    } else {
        x
    }
}

/// A delivery is genuine when its timestamp (trimmed) is an `i64` within
/// the tolerance of `now`, the key decodes, and one of the header's entries
/// carries the expected signature.
pub open spec fn svix_valid(
    secret: Seq<char>,
    id: Seq<char>,
    ts: Seq<char>,
    sig: Seq<char>,
    body: Seq<char>,
    now: int,
) -> bool {
    match num::parse_int(text::trim(ts), i64::MIN as int, i64::MAX as int) {
        Ok(t) => abs(now - t) <= SVIX_TOLERANCE_SECS && match expected_signature(
            secret,
            id,
            ts,
            body,
        ) {
            Some(e) => header_carries(sig, e),
            None => false,
        },
        Err(_) => false,
    }
}

fn entry_sig(entry: &str) -> (res: String)
    ensures
        res@ == entry_signature(entry@),
{
    match text::split_once_str(entry, ',') {
        Some((_, s)) => s,
        None => text::copy_str(entry),
    }
}

/// Whether some entry of the `svix-signature` header carries `expected`.
pub fn signature_matches(header: &str, expected: &str) -> (res: bool)
    ensures
        res == header_carries(header@, expected@),
{
    let entries = text::split_class(header, CharClass::Only(' '));
    let ghost ev = text::split_by(header@, CharClass::Only(' '));
    let mut i: usize = 0;
    while i < entries.len()
        invariant
            i <= entries.len(),
            text::views(entries@) == ev,
            ev == text::split_by(header@, CharClass::Only(' ')),
            forall|j: int| 0 <= j < i ==> entry_signature(#[trigger] ev[j]) != expected@,
        decreases entries.len() - i,
    {
        let s = entry_sig(entries[i].as_str());
        proof {
            assert(ev[i as int] == entries@[i as int]@);
        }
        if constant_time_eq_str(s.as_str(), expected) {
            return true;
        }
        i = i + 1;
    }
    false
}

/// The signature a genuine delivery carries, once the key is decoded.
fn signature_for(key: &[u8], id: &str, ts: &str, body: &str) -> (res: String)
    ensures
        res@ == crypto::base64_encoded(
            crypto::hmac_sha256_tag(key@, vstd::utf8::encode_utf8(id@ + "."@ + ts@ + "."@ + body@)),
        ),
{
    let mut signed = text::copy_str(id);
    text::push_str(&mut signed, ".");
    text::push_str(&mut signed, ts);
    text::push_str(&mut signed, ".");
    text::push_str(&mut signed, body);
    let tag = match crypto::hmac_sha256(key, signed.as_str().as_bytes()) {
        Some(t) => t,
        None => Vec::new(),
    };
    crypto::base64_encode(tag.as_slice())
}

/// Checks a Svix-signed delivery, the scheme Resend signs webhooks with.
pub fn verify_svix(secret: &str, svix_id: &str, svix_timestamp: &str, svix_signature: &str, body: &str, now: i64) -> (res: bool)
    ensures
        res == svix_valid(secret@, svix_id@, svix_timestamp@, svix_signature@, body@, now as int),
{
    let ts_text = text::trim_str(svix_timestamp);
    let ts: i64 = match num::parse_i64(ts_text.as_str()) {
        Ok(t) => t,
        Err(_) => return false,
    };
    let skew: i128 = (now as i128) - (ts as i128);
    if skew > 300 || skew < -300 {
        return false;
    }
    let key_part = if text::str_starts_with(secret, "whsec_") {
        let v = text::chars_of(secret);
        proof {
            reveal_strlit("whsec_");
        }
        text::string_from(&v, 6, v.len())
    } else {
        text::copy_str(secret)
    };
    let key_text = text::trim_str(key_part.as_str());
    let key = match crypto::base64_decode(key_text.as_str().as_bytes()) {
        Some(k) => k,
        None => return false,
    };
    let expected = signature_for(key.as_slice(), svix_id, svix_timestamp, body);
    proof {
        if text::starts_with(secret@, "whsec_"@) {
            assert(key_part@ =~= secret@.skip(6));
        }
    }
    signature_matches(svix_signature, expected.as_str())
}

// ── Events ─────────────────────────────────────────────────────────────────

/// One field of a JSON document as the event handler reads it.
#[derive(Clone, Debug)]
pub enum JsonField {
    Missing,
    Str(String),
    /// Present, but not a string.
    Other,
}

/// The fields of a webhook payload that the handler looks at: `type`,
/// `data.email_id` and `data.id`.
#[derive(Clone, Debug)]
pub struct WebhookEvent {
    pub event_type: JsonField,
    pub email_id: JsonField,
    pub id: JsonField,
}

pub open spec fn field_text(f: JsonField) -> Option<Seq<char>> {
    match f {
        JsonField::Str(s) => Some(s@),
        _ => None,
    }
}

/// The event's type, or "unknown".
pub open spec fn event_type_of(e: WebhookEvent) -> Seq<char> {
    match field_text(e.event_type) {
        Some(t) => t,
        None => "unknown"@,
    }
}

/// The email the event is about: `data.email_id` when present (it must then
/// be a string), else `data.id`; "unknown" otherwise.
pub open spec fn event_email_id(e: WebhookEvent) -> Seq<char> {
    let f = if e.email_id is Missing {
        e.id
    } else {
        e.email_id
    };
    match field_text(f) {
        Some(t) => t,
        None => "unknown"@,
    }
}

fn field_or_unknown(f: &JsonField) -> (res: String)
    ensures
        res@ == match field_text(*f) {
            Some(t) => t,
            None => "unknown"@,
        },
{
    match f {
        JsonField::Str(s) => text::copy_str(s.as_str()),
        _ => text::copy_str("unknown"),
    }
}

pub fn event_type(e: &WebhookEvent) -> (res: String)
    ensures
        res@ == event_type_of(*e),
{
    field_or_unknown(&e.event_type)
}

pub fn email_id(e: &WebhookEvent) -> (res: String)
    ensures
        res@ == event_email_id(*e),
{
    match e.email_id {
        JsonField::Missing => field_or_unknown(&e.id),
        _ => field_or_unknown(&e.email_id),
    }
}

/// For an `email.received` event with a string `data.id`, the id of the
/// received email to fetch and store.
pub fn received_email_to_fetch(e: &WebhookEvent) -> (res: Option<String>)
    ensures
        text::opt_view(res) == (if event_type_of(*e) == "email.received"@ {
            field_text(e.id)
        } else {
            None
        }),
{
    let t = event_type(e);
    if text::seq_eq(t.as_str(), "email.received") {
        match &e.id {
            JsonField::Str(s) => Some(text::copy_str(s.as_str())),
            _ => None,
        }
    } else {
        None
    }
}


// ── Per-request decisions ──────────────────────────────────────────────────

/// The reply owed before the body is read: 405 for anything but POST, 401
/// when the shared secret is configured and the request does not carry it.
/// `None`: read the body and go on.
pub fn early_reply(is_post: bool, expected: Option<&str>, provided: Option<&str>) -> (res: Option<
    (u16, &'static str),
>)
    ensures
        !is_post ==> (res matches Some(r) && r.0 == 405 && r.1@ == "method not allowed"@),
        is_post && !shared_secret_ok_spec(text::opt_str_view(expected), text::opt_str_view(provided)) ==> (res matches Some(r) && r.0 == 401
            && r.1@ == "unauthorized"@),
        is_post && shared_secret_ok_spec(text::opt_str_view(expected), text::opt_str_view(provided)) ==> res is None,
{
    if !is_post {
        return Some((405, "method not allowed"));
    }
    if !shared_secret_ok(expected, provided) {
        return Some((401, "unauthorized"));
    }
    None
}

pub open spec fn shared_secret_ok_spec(expected: Option<Seq<char>>, provided: Option<Seq<char>>) -> bool {
    match expected {
        None => true,
        Some(e) => match provided {
            Some(p) => p == e,
            None => false,
        },
    }
}

/// With a signing secret configured, a delivery passes only when it carries
/// all three Svix headers and they verify; without one, every delivery passes.
pub fn signature_ok(
    signing: Option<&str>,
    svix_id: Option<&str>,
    svix_timestamp: Option<&str>,
    svix_signature: Option<&str>,
    body: &str,
    now: i64,
) -> (res: bool)
    ensures
        res == match signing {
            None => true,
            Some(s) => match (svix_id, svix_timestamp, svix_signature) {
                (Some(i), Some(t), Some(g)) => svix_valid(s@, i@, t@, g@, body@, now as int),
                _ => false,
            },
        },
{
    match signing {
        None => true,
        Some(s) => match (svix_id, svix_timestamp, svix_signature) {
            (Some(i), Some(t), Some(g)) => verify_svix(s, i, t, g, body, now),
            _ => false,
        },
    }
}

/// The reply after the event was handled: 200 "ok", or 500 "error".
pub fn event_reply(handled: bool) -> (res: (u16, &'static str))
    ensures
        handled ==> res.0 == 200 && res.1@ == "ok"@,
        !handled ==> res.0 == 500 && res.1@ == "error"@,
{
    if handled {
        (200, "ok")
    } else {
        (500, "error")
    }
}


// ── Laws of signature checking ─────────────────────────────────────────────

/// A delivery whose timestamp is off by more than the tolerance is refused,
/// whatever it carries.
pub proof fn law_svix_rejects_stale(
    secret: Seq<char>,
    id: Seq<char>,
    ts: Seq<char>,
    sig: Seq<char>,
    body: Seq<char>,
    now: int,
    t: int,
)
    requires
        num::parse_int(text::trim(ts), i64::MIN as int, i64::MAX as int) == Ok::<int, num::IntError>(t),
        abs(now - t) > SVIX_TOLERANCE_SECS,
    ensures
        !svix_valid(secret, id, ts, sig, body, now),
{
}

proof fn lemma_split_without_separator(s: Seq<char>, sep: char)
    requires
        forall|i: int| 0 <= i < s.len() ==> s[i] != sep,
    ensures
        text::split_by(s, CharClass::Only(sep)) == seq![s],
    decreases s.len(),
{
    if s.len() > 0 {
        lemma_split_without_separator(s.drop_last(), sep);
        assert(s.drop_last().push(s.last()) =~= s);
    } else {
        assert(s =~= Seq::<char>::empty());
    }
}

/// A delivery signed with the secret, within the tolerance, and carrying
/// the signature as a `v1,` entry is accepted. (The signature is Base64
/// text, so it holds no space or comma.)
pub proof fn law_svix_accepts_signed(
    secret: Seq<char>,
    id: Seq<char>,
    ts: Seq<char>,
    body: Seq<char>,
    now: int,
    t: int,
)
    requires
        num::parse_int(text::trim(ts), i64::MIN as int, i64::MAX as int) == Ok::<int, num::IntError>(t),
        abs(now - t) <= SVIX_TOLERANCE_SECS,
        expected_signature(secret, id, ts, body) is Some,
        forall|i: int|
            0 <= i < expected_signature(secret, id, ts, body)->0.len() ==> crypto::is_base64_char(
                #[trigger] expected_signature(secret, id, ts, body)->0[i],
            ),
    ensures
        svix_valid(secret, id, ts, "v1,"@ + expected_signature(secret, id, ts, body)->0, body, now),
{
    reveal_strlit("v1,");
    let e = expected_signature(secret, id, ts, body)->0;
    let header = "v1,"@ + e;
    assert forall|i: int| 0 <= i < header.len() implies header[i] != ' ' by {
        if i >= 3 {
            assert(header[i] == e[i - 3]);
            assert(crypto::is_base64_char(e[i - 3]));
        }
    }
    lemma_split_without_separator(header, ' ');
    assert(header[2] == ',');
    assert(text::is_first(header, ',', 2));
    text::lemma_find_char(header, ',', 2);
    assert(header.skip(3) =~= e);
    assert(entry_signature(header) == e);
    let entries = text::split_by(header, CharClass::Only(' '));
    assert(entries[0] == header);
    assert(header_carries(header, e));
}

} // verus!
