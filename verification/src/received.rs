//! Received mail as the provider reports it, and how it is filed: which
//! recipients count, whether it belongs to an account, and the row stored
//! for it.
//!
//! A header's JSON value is held by its string leaves (depth first; a
//! string value is its own single leaf), which is all the header readers
//! look at; for the `list` header, the `unsubscribe.url` and
//! `unsubscribe.mail` strings of an object value are kept as well.
use vstd::prelude::*;

use crate::helpers;
use crate::models::{AccountRecord, MessageUpsert, ReceivedAttachment};
use crate::text::{self, CharClass};

verus! {

/// One provider header: its name and what its value holds.
#[derive(Clone, Debug)]
pub struct HeaderEntry {
    pub name: String,
    /// The value's string leaves, depth first.
    pub leaves: Vec<String>,
    /// The value itself when it is a string.
    pub text: Option<String>,
    /// `unsubscribe.url` of an object value, when a string.
    pub unsubscribe_url: Option<String>,
    /// `unsubscribe.mail` of an object value, when a string.
    pub unsubscribe_mail: Option<String>,
}

/// An inbound email's details.
#[derive(Clone, Debug)]
pub struct ReceivedEmail {
    pub id: String,
    pub from: Option<String>,
    pub to: Vec<String>,
    pub cc: Vec<String>,
    pub bcc: Vec<String>,
    pub reply_to: Vec<String>,
    pub subject: Option<String>,
    pub created_at: Option<String>,
    pub message_id: Option<String>,
    pub html: Option<String>,
    pub text: Option<String>,
    pub attachments: Vec<ReceivedAttachment>,
    pub headers: Option<Vec<HeaderEntry>>,
}

// ── JSON texts inside header values ────────────────────────────────────────

/// The strings of `text` read as a JSON array of strings, when it is one.
pub uninterp spec fn json_string_list(text: Seq<char>) -> Option<Seq<Seq<char>>>;

/// `serde_json::from_str::<Vec<String>>(text)`, the error dropped. The
/// result is named by `json_string_list`.
#[verifier::external_body]
fn parse_string_list(text: &str) -> (res: Option<Vec<String>>)
    ensures
        match res {
            Some(v) => json_string_list(text@) == Some(text::views(v@)),
            None => json_string_list(text@) is None,
        },
{
    serde_json::from_str::<Vec<String>>(text).ok()
}

/// `unsubscribe.url` and `unsubscribe.mail` of the JSON document in `text`,
/// each when it is a string; both `None` when `text` does not parse.
pub uninterp spec fn json_unsubscribe_fields(text: Seq<char>) -> (Option<Seq<char>>, Option<Seq<char>>);

/// Parses `text` with `serde_json::from_str::<Value>` and picks the
/// `unsubscribe.url` and `unsubscribe.mail` strings. The result is named by
/// `json_unsubscribe_fields`.
#[verifier::external_body]
fn parse_unsubscribe_fields(text: &str) -> (res: (Option<String>, Option<String>))
    ensures
        (text::opt_view(res.0), text::opt_view(res.1)) == json_unsubscribe_fields(text@),
{
    match serde_json::from_str::<serde_json::Value>(text) {
        Ok(v) => (
            v.get("unsubscribe").and_then(|u| u.get("url")).and_then(|x| x.as_str()).map(|x| x.to_string()),
            v.get("unsubscribe").and_then(|u| u.get("mail")).and_then(|x| x.as_str()).map(|x| x.to_string()),
        ),
        Err(_) => (None, None),
    }
}

// ── Reading headers ────────────────────────────────────────────────────────

/// `str::split_whitespace`: the non-empty runs between whitespace.
pub open spec fn words(s: Seq<char>) -> Seq<Seq<char>> {
    text::split_by(s, CharClass::Whitespace).filter(|w: Seq<char>| w.len() > 0)
}

/// The strings one leaf contributes: a JSON array of strings is read as its
/// items; otherwise the leaf is split into words, or kept whole.
pub open spec fn leaf_strings(leaf: Seq<char>, split_whitespace: bool) -> Seq<Seq<char>> {
    match json_string_list(leaf) {
        Some(v) => v,
        None => if split_whitespace {
            words(leaf)
        } else {
            seq![leaf]
        },
    }
}

pub open spec fn leaves_strings(leaves: Seq<Seq<char>>, split_whitespace: bool) -> Seq<Seq<char>>
    decreases leaves.len(),
{
    if leaves.len() == 0 {
        Seq::empty()
    } else {
        leaves_strings(leaves.drop_last(), split_whitespace) + leaf_strings(leaves.last(), split_whitespace)
    }
}

/// Index of the first header named `key`, ignoring ASCII case.
pub open spec fn find_header(headers: Seq<HeaderEntry>, key: Seq<char>) -> Option<int>
    decreases headers.len(),
{
    if headers.len() == 0 {
        None
    } else {
        match find_header(headers.drop_last(), key) {
            Some(i) => Some(i),
            None => if crate::inbox::same_ignoring_ascii_case(headers.last().name@, key) {
                Some(headers.len() - 1)
            } else {
                None
            },
        }
    }
}

/// The strings of the first header named `key`; empty when there is none.
pub open spec fn header_strings(headers: Seq<HeaderEntry>, key: Seq<char>, split_whitespace: bool) -> Seq<Seq<char>> {
    match find_header(headers, key) {
        Some(i) => leaves_strings(text::views(headers[i].leaves@), split_whitespace),
        None => Seq::empty(),
    }
}

fn words_of(s: &str) -> (res: Vec<String>)
    ensures
        text::views(res@) == words(s@),
{
    let parts = text::split_class(s, CharClass::Whitespace);
    let ghost pv = text::split_by(s@, CharClass::Whitespace);
    let ghost keep = |w: Seq<char>| w.len() > 0;
    let mut out: Vec<String> = Vec::new();
    let mut i: usize = 0;
    while i < parts.len()
        invariant
            i <= parts.len(),
            text::views(parts@) == pv,
            keep == (|w: Seq<char>| w.len() > 0),
            text::views(out@) == pv.take(i as int).filter(keep),
        decreases parts.len() - i,
    {
        proof {
            assert(pv[i as int] == parts@[i as int]@);
            assert(pv.take(i + 1).drop_last() =~= pv.take(i as int));
            reveal(Seq::filter);
        }
        if !parts[i].as_str().is_empty() {
            let ghost before = text::views(out@);
            out.push(text::copy_str(parts[i].as_str()));
            proof {
                assert(text::views(out@) =~= before.push(pv[i as int]));
            }
        }
        i = i + 1;
    }
    proof {
        assert(pv.take(parts.len() as int) =~= pv);
        assert(pv.len() == parts@.len());
    }
    out
}

fn append_all(out: &mut Vec<String>, items: Vec<String>)
    ensures
        text::views(final(out)@) == text::views(old(out)@) + text::views(items@),
{
    let ghost start = text::views(out@);
    let mut i: usize = 0;
    while i < items.len()
        invariant
            i <= items.len(),
            text::views(out@) == start + text::views(items@).take(i as int),
        decreases items.len() - i,
    {
        let ghost before = text::views(out@);
        out.push(text::copy_str(items[i].as_str()));
        proof {
            assert(text::views(out@) =~= before.push(items@[i as int]@));
            assert(text::views(items@).take(i + 1) =~= text::views(items@).take(i as int).push(
                items@[i as int]@,
            ));
        }
        i = i + 1;
    }
    proof {
        assert(text::views(items@).take(items.len() as int) =~= text::views(items@));
    }
}

fn leaf_values(leaf: &str, split_whitespace: bool) -> (res: Vec<String>)
    ensures
        text::views(res@) == leaf_strings(leaf@, split_whitespace),
{
    match parse_string_list(leaf) {
        Some(v) => v,
        None => if split_whitespace {
            words_of(leaf)
        } else {
            let v = vec![text::copy_str(leaf)];
            proof {
                assert(text::views(v@) =~= seq![leaf@]);
            }
            v
        },
    }
}

fn find_header_index(headers: &Vec<HeaderEntry>, key: &str) -> (res: Option<usize>)
    ensures
        match res {
            Some(i) => find_header(headers@, key@) == Some(i as int) && i < headers.len(),
            None => find_header(headers@, key@) is None,
        },
{
    let mut i: usize = 0;
    proof {
        assert(headers@.take(0) =~= Seq::<HeaderEntry>::empty());
    }
    while i < headers.len()
        invariant
            i <= headers.len(),
            find_header(headers@.take(i as int), key@) is None,
        decreases headers.len() - i,
    {
        proof {
            assert(headers@.take(i + 1).drop_last() =~= headers@.take(i as int));
        }
        if crate::inbox::eq_ignore_ascii_case(headers[i].name.as_str(), key) {
            proof {
                lemma_find_header_prefix(headers@, key@, i as int);
            }
            return Some(i);
        }
        i = i + 1;
    }
    proof {
        assert(headers@.take(headers.len() as int) =~= headers@);
    }
    None
}

/// A match found in a prefix is the match of the whole list.
proof fn lemma_find_header_prefix(headers: Seq<HeaderEntry>, key: Seq<char>, i: int)
    requires
        0 <= i < headers.len(),
        find_header(headers.take(i), key) is None,
        crate::inbox::same_ignoring_ascii_case(headers[i].name@, key),
    ensures
        find_header(headers, key) == Some(i),
    decreases headers.len() - i,
{
    assert(headers.take(i + 1).drop_last() =~= headers.take(i));
    assert(find_header(headers.take(i + 1), key) == Some(i));
    lemma_find_extend(headers, key, i + 1, i);
}

proof fn lemma_find_extend(headers: Seq<HeaderEntry>, key: Seq<char>, k: int, i: int)
    requires
        0 <= i < k <= headers.len(),
        find_header(headers.take(k), key) == Some(i),
    ensures
        find_header(headers, key) == Some(i),
    decreases headers.len() - k,
{
    if k < headers.len() {
        assert(headers.take(k + 1).drop_last() =~= headers.take(k));
        lemma_find_extend(headers, key, k + 1, i);
    } else {
        assert(headers.take(k) =~= headers);
    }
}

/// `header_values`: the strings of the first header named `key`.
pub fn header_values(headers: &Vec<HeaderEntry>, key: &str, split_whitespace: bool) -> (res: Vec<String>)
    ensures
        text::views(res@) == header_strings(headers@, key@, split_whitespace),
{
    let mut out: Vec<String> = Vec::new();
    let i = match find_header_index(headers, key) {
        Some(i) => i,
        None => {
            proof {
                assert(text::views(out@) =~= Seq::<Seq<char>>::empty());
            }
            return out;
        },
    };
    let leaves = &headers[i].leaves;
    let ghost lv = text::views(leaves@);
    let mut k: usize = 0;
    proof {
        assert(text::views(out@) =~= Seq::<Seq<char>>::empty());
        assert(lv.take(0) =~= Seq::<Seq<char>>::empty());
    }
    while k < leaves.len()
        invariant
            k <= leaves.len(),
            lv == text::views(leaves@),
            text::views(out@) == leaves_strings(lv.take(k as int), split_whitespace),
        decreases leaves.len() - k,
    {
        let vals = leaf_values(leaves[k].as_str(), split_whitespace);
        append_all(&mut out, vals);
        proof {
            assert(lv.take(k + 1).drop_last() =~= lv.take(k as int));
            assert(lv.take(k + 1).last() == leaves@[k as int]@);
        }
        k = k + 1;
    }
    proof {
        assert(lv.take(leaves.len() as int) =~= lv);
    }
    out
}

/// The first string of the header named `key`.
pub fn header_string(headers: &Vec<HeaderEntry>, key: &str) -> (res: Option<String>)
    ensures
        match res {
            Some(s) => header_strings(headers@, key@, false).len() > 0 && s@ == header_strings(
                headers@,
                key@,
                false,
            )[0],
            None => header_strings(headers@, key@, false).len() == 0,
        },
{
    let v = header_values(headers, key, false);
    proof {
        assert(text::views(v@).len() == v@.len());
    }
    if v.len() > 0 {
        proof {
            assert(text::views(v@)[0] == v@[0]@);
        }
        Some(text::copy_str(v[0].as_str()))
    } else {
        None
    }
}

/// The addresses in the header named `key`, each normalised, empty ones left
/// out.
pub open spec fn header_addresses(headers: Seq<HeaderEntry>, key: Seq<char>) -> Seq<Seq<char>> {
    flat_addresses(header_strings(headers, key, false))
}

pub open spec fn flat_addresses(values: Seq<Seq<char>>) -> Seq<Seq<char>>
    decreases values.len(),
{
    if values.len() == 0 {
        Seq::empty()
    } else {
        flat_addresses(values.drop_last()) + helpers::normalized_all(
            helpers::address_list(values.last()),
        ).filter(|a: Seq<char>| a.len() > 0)
    }
}

fn normalized_nonempty(parts: &Vec<String>) -> (res: Vec<String>)
    ensures
        text::views(res@) == helpers::normalized_all(text::views(parts@)).filter(
            |a: Seq<char>| a.len() > 0,
        ),
{
    let ghost nv = helpers::normalized_all(text::views(parts@));
    let ghost keep = |a: Seq<char>| a.len() > 0;
    let mut out: Vec<String> = Vec::new();
    let mut i: usize = 0;
    while i < parts.len()
        invariant
            i <= parts.len(),
            nv == helpers::normalized_all(text::views(parts@)),
            keep == (|a: Seq<char>| a.len() > 0),
            text::views(out@) == nv.take(i as int).filter(keep),
        decreases parts.len() - i,
    {
        let n = helpers::normalize_email(parts[i].as_str());
        proof {
            assert(nv[i as int] == n@);
            assert(nv.take(i + 1).drop_last() =~= nv.take(i as int));
            reveal(Seq::filter);
        }
        if !n.as_str().is_empty() {
            let ghost before = text::views(out@);
            out.push(n);
            proof {
                assert(text::views(out@) =~= before.push(nv[i as int]));
            }
        }
        i = i + 1;
    }
    proof {
        assert(nv.take(parts.len() as int) =~= nv);
    }
    out
}

/// `header_email_list`: every address of the header, normalised.
pub fn header_email_list(headers: &Vec<HeaderEntry>, key: &str) -> (res: Vec<String>)
    ensures
        text::views(res@) == header_addresses(headers@, key@),
{
    let values = header_values(headers, key, false);
    let ghost vv = text::views(values@);
    let mut out: Vec<String> = Vec::new();
    let mut i: usize = 0;
    proof {
        assert(text::views(out@) =~= Seq::<Seq<char>>::empty());
        assert(vv.take(0) =~= Seq::<Seq<char>>::empty());
    }
    while i < values.len()
        invariant
            i <= values.len(),
            vv == text::views(values@),
            text::views(out@) == flat_addresses(vv.take(i as int)),
        decreases values.len() - i,
    {
        let parts = helpers::split_address_header(values[i].as_str());
        let addrs = normalized_nonempty(&parts);
        append_all(&mut out, addrs);
        proof {
            assert(vv.take(i + 1).drop_last() =~= vv.take(i as int));
            assert(vv.take(i + 1).last() == values@[i as int]@);
        }
        i = i + 1;
    }
    proof {
        assert(vv.take(values.len() as int) =~= vv);
    }
    out
}

pub open spec fn headers_of(e: ReceivedEmail) -> Seq<HeaderEntry> {
    match e.headers {
        Some(h) => h@,
        None => Seq::empty(),
    }
}

/// The addresses an email's header `key` lists (none without headers).
pub fn email_header_addresses(e: &ReceivedEmail, key: &str) -> (res: Vec<String>)
    ensures
        text::views(res@) == header_addresses(headers_of(*e), key@),
{
    match &e.headers {
        Some(h) => header_email_list(h, key),
        None => {
            let v: Vec<String> = Vec::new();
            proof {
                assert(header_strings(Seq::<HeaderEntry>::empty(), key@, false) =~= Seq::<Seq<char>>::empty());
                assert(text::views(v@) =~= header_addresses(Seq::<HeaderEntry>::empty(), key@));
            }
            v
        },
    }
}

/// An email belongs to an account when the account is among its `to`,
/// `cc` or `bcc` recipients, either as the provider lists them or as the
/// visible headers do.
pub open spec fn belongs_to(e: ReceivedEmail, account: Seq<char>) -> bool {
    helpers::addressed_to(text::views(e.to@), text::views(e.cc@), text::views(e.bcc@), account)
        || helpers::addressed_to(
        header_addresses(headers_of(e), "to"@),
        header_addresses(headers_of(e), "cc"@),
        header_addresses(headers_of(e), "bcc"@),
        account,
    )
}

/// An address found in one of three recipient lists is found in them
/// taken together.
proof fn lemma_in_recipients(to: Seq<Seq<char>>, cc: Seq<Seq<char>>, bcc: Seq<Seq<char>>, a: Seq<char>)
    requires
        to.contains(a) || cc.contains(a) || bcc.contains(a),
    ensures
        (to + cc + bcc).contains(a),
{
    let all = to + cc + bcc;
    if to.contains(a) {
        let j = choose|j: int| 0 <= j < to.len() && to[j] == a;
        assert(all[j] == a);
    } else if cc.contains(a) {
        let j = choose|j: int| 0 <= j < cc.len() && cc[j] == a;
        assert(all[to.len() + j] == a);
    } else {
        let j = choose|j: int| 0 <= j < bcc.len() && bcc[j] == a;
        assert(all[to.len() + cc.len() + j] == a);
    }
}

/// A received email belongs to every account that one of its `to`, `cc`
/// or `bcc` recipients, as the provider lists them, normalises to: a
/// blind-copied account receives the email too.
pub proof fn law_listed_recipient_owns_email(e: ReceivedEmail, account: Seq<char>, a: Seq<char>)
    requires
        text::views(e.to@).contains(a) || text::views(e.cc@).contains(a) || text::views(
            e.bcc@,
        ).contains(a),
        helpers::normalized_email(a) == helpers::normalized_email(account),
    ensures
        belongs_to(e, account),
{
    lemma_in_recipients(text::views(e.to@), text::views(e.cc@), text::views(e.bcc@), a);
}

/// The same for the recipients the email's own `To`, `Cc` and `Bcc`
/// headers list.
pub proof fn law_header_recipient_owns_email(e: ReceivedEmail, account: Seq<char>, a: Seq<char>)
    requires
        header_addresses(headers_of(e), "to"@).contains(a) || header_addresses(headers_of(e), "cc"@).contains(a)
            || header_addresses(headers_of(e), "bcc"@).contains(a),
        helpers::normalized_email(a) == helpers::normalized_email(account),
    ensures
        belongs_to(e, account),
{
    lemma_in_recipients(
        header_addresses(headers_of(e), "to"@),
        header_addresses(headers_of(e), "cc"@),
        header_addresses(headers_of(e), "bcc"@),
        a,
    );
}

/// An email belongs to an account only through one of those recipients.
pub proof fn law_owner_is_a_recipient(e: ReceivedEmail, account: Seq<char>)
    requires
        belongs_to(e, account),
    ensures
        exists|a: Seq<char>|
            (text::views(e.to@) + text::views(e.cc@) + text::views(e.bcc@) + header_addresses(
                headers_of(e),
                "to"@,
            ) + header_addresses(headers_of(e), "cc"@) + header_addresses(headers_of(e), "bcc"@)).contains(a)
                && helpers::normalized_email(a) == helpers::normalized_email(account),
{
    let p = text::views(e.to@) + text::views(e.cc@) + text::views(e.bcc@);
    let h = header_addresses(headers_of(e), "to"@) + header_addresses(headers_of(e), "cc"@)
        + header_addresses(headers_of(e), "bcc"@);
    let all = text::views(e.to@) + text::views(e.cc@) + text::views(e.bcc@) + header_addresses(
        headers_of(e),
        "to"@,
    ) + header_addresses(headers_of(e), "cc"@) + header_addresses(headers_of(e), "bcc"@);
    assert(all =~= p + h);
    if helpers::addressed_to(text::views(e.to@), text::views(e.cc@), text::views(e.bcc@), account) {
        let a = choose|a: Seq<char>| p.contains(a) && helpers::normalized_email(a) == helpers::normalized_email(account);
        let j = choose|j: int| 0 <= j < p.len() && p[j] == a;
        assert(all[j] == a);
    } else {
        let a = choose|a: Seq<char>| h.contains(a) && helpers::normalized_email(a) == helpers::normalized_email(account);
        let j = choose|j: int| 0 <= j < h.len() && h[j] == a;
        assert(all[p.len() + j] == a);
    }
}

pub fn received_email_matches_account(e: &ReceivedEmail, account_email: &str) -> (res: bool)
    ensures
        res == belongs_to(*e, account_email@),
{
    proof {
        reveal_strlit("to");
        reveal_strlit("cc");
        reveal_strlit("bcc");
    }
    let vt = email_header_addresses(e, "to");
    let vc = email_header_addresses(e, "cc");
    let vb = email_header_addresses(e, "bcc");
    helpers::matching_account_email(e.to.as_slice(), e.cc.as_slice(), e.bcc.as_slice(), account_email)
        || helpers::matching_account_email(vt.as_slice(), vc.as_slice(), vb.as_slice(), account_email)
}

/// The recipients to store: the visible header's addresses when it lists
/// any, else the provider's list, normalised.
pub open spec fn effective_list(header: Seq<Seq<char>>, listed: Seq<Seq<char>>) -> Seq<Seq<char>> {
    if header.len() == 0 {
        helpers::normalized_all(listed)
    } else {
        header
    }
}

fn effective(header: Vec<String>, listed: &Vec<String>) -> (res: Vec<String>)
    ensures
        text::views(res@) == effective_list(text::views(header@), text::views(listed@)),
{
    proof {
        assert(text::views(header@).len() == header@.len());
    }
    if header.len() == 0 {
        helpers::normalize_emails(listed.as_slice())
    } else {
        header
    }
}

pub fn effective_received_to(e: &ReceivedEmail) -> (res: Vec<String>)
    ensures
        text::views(res@) == effective_list(header_addresses(headers_of(*e), "to"@), text::views(e.to@)),
{
    proof {
        reveal_strlit("to");
    }
    effective(email_header_addresses(e, "to"), &e.to)
}

pub fn effective_received_cc(e: &ReceivedEmail) -> (res: Vec<String>)
    ensures
        text::views(res@) == effective_list(header_addresses(headers_of(*e), "cc"@), text::views(e.cc@)),
{
    proof {
        reveal_strlit("cc");
    }
    effective(email_header_addresses(e, "cc"), &e.cc)
}

pub fn effective_received_bcc(e: &ReceivedEmail) -> (res: Vec<String>)
    ensures
        text::views(res@) == effective_list(header_addresses(headers_of(*e), "bcc"@), text::views(e.bcc@)),
{
    proof {
        reveal_strlit("bcc");
    }
    effective(email_header_addresses(e, "bcc"), &e.bcc)
}

// ── List-Unsubscribe ───────────────────────────────────────────────────────

/// `<url>` and `<mailto:mail>`, joined with ", "; `None` when neither is there.
pub open spec fn unsubscribe_value(url: Option<Seq<char>>, mail: Option<Seq<char>>) -> Option<Seq<char>> {
    match (url, mail) {
        (Some(u), Some(m)) => Some("<"@ + u + ">, <mailto:"@ + m + ">"@),
        (Some(u), None) => Some("<"@ + u + ">"@),
        (None, Some(m)) => Some("<mailto:"@ + m + ">"@),
        (None, None) => None,
    }
}

/// The nested `list` header's unsubscribe fields: parsed from its text when
/// the value is a string, read from the object otherwise.
pub open spec fn list_fields(h: HeaderEntry) -> (Option<Seq<char>>, Option<Seq<char>>) {
    match h.text {
        Some(t) => json_unsubscribe_fields(t@),
        None => (text::opt_view(h.unsubscribe_url), text::opt_view(h.unsubscribe_mail)),
    }
}

/// A flat `list-unsubscribe` header when there is one; else the nested
/// `list.unsubscribe` form Resend sends, rebuilt as `<url>, <mailto:...>`.
pub open spec fn list_unsubscribe_of(headers: Seq<HeaderEntry>) -> Option<Seq<char>> {
    let flat = header_strings(headers, "list-unsubscribe"@, false);
    if flat.len() > 0 {
        Some(flat[0])
    } else {
        match find_header(headers, "list"@) {
            Some(i) => unsubscribe_value(list_fields(headers[i]).0, list_fields(headers[i]).1),
            None => None,
        }
    }
}

fn unsubscribe_text(url: Option<String>, mail: Option<String>) -> (res: Option<String>)
    ensures
        text::opt_view(res) == unsubscribe_value(text::opt_view(url), text::opt_view(mail)),
{
    match (url, mail) {
        (Some(u), Some(m)) => {
            let mut v = text::copy_str("<");
            text::push_str(&mut v, u.as_str());
            text::push_str(&mut v, ">, <mailto:");
            text::push_str(&mut v, m.as_str());
            text::push_str(&mut v, ">");
            Some(v)
        },
        (Some(u), None) => {
            let mut v = text::copy_str("<");
            text::push_str(&mut v, u.as_str());
            text::push_str(&mut v, ">");
            Some(v)
        },
        (None, Some(m)) => {
            let mut v = text::copy_str("<mailto:");
            text::push_str(&mut v, m.as_str());
            text::push_str(&mut v, ">");
            Some(v)
        },
        (None, None) => None,
    }
}

fn copy_opt(o: &Option<String>) -> (res: Option<String>)
    ensures
        text::opt_view(res) == text::opt_view(*o),
{
    match o {
        Some(s) => Some(text::copy_str(s.as_str())),
        None => None,
    }
}

pub fn extract_list_unsubscribe(headers: &Vec<HeaderEntry>) -> (res: Option<String>)
    ensures
        text::opt_view(res) == list_unsubscribe_of(headers@),
{
    match header_string(headers, "list-unsubscribe") {
        Some(flat) => return Some(flat),
        None => {},
    }
    match find_header_index(headers, "list") {
        Some(i) => {
            let h = &headers[i];
            let (url, mail) = match &h.text {
                Some(t) => parse_unsubscribe_fields(t.as_str()),
                None => (copy_opt(&h.unsubscribe_url), copy_opt(&h.unsubscribe_mail)),
            };
            unsubscribe_text(url, mail)
        },
        None => None,
    }
}

// ── The stored row ─────────────────────────────────────────────────────────

/// The row stored for a received email: unread, its visible recipients,
/// threading headers from the message and its headers, and `created_at`
/// already normalised by the caller.
pub open spec fn received_row_ok(
    r: MessageUpsert,
    account: AccountRecord,
    e: ReceivedEmail,
    created_at: Seq<char>,
    raw_json: Seq<char>,
) -> bool {
    let h = headers_of(e);
    &&& r.remote_id@ == e.id@
    &&& r.direction@ == "received"@
    &&& r.account_email@ == account.email@
    &&& r.from_addr@ == match e.from {
        Some(f) => f@,
        None => Seq::empty(),
    }
    &&& text::views(r.to@) == effective_list(header_addresses(h, "to"@), text::views(e.to@))
    &&& text::views(r.cc@) == effective_list(header_addresses(h, "cc"@), text::views(e.cc@))
    &&& text::views(r.bcc@) == effective_list(header_addresses(h, "bcc"@), text::views(e.bcc@))
    &&& text::views(r.reply_to@) == text::views(e.reply_to@)
    &&& r.subject@ == match e.subject {
        Some(s) => s@,
        None => Seq::empty(),
    }
    &&& text::opt_view(r.text_body) == text::opt_view(e.text)
    &&& text::opt_view(r.html_body) == text::opt_view(e.html)
    &&& text::opt_view(r.rfc_message_id) == match e.message_id {
        Some(m) => Some(m@),
        None => {
            let v = header_strings(h, "message-id"@, false);
            if v.len() > 0 {
                Some(v[0])
            } else {
                None
            }
        },
    }
    &&& text::opt_view(r.in_reply_to) == {
        let v = header_strings(h, "in-reply-to"@, false);
        if v.len() > 0 {
            Some(v[0])
        } else {
            None
        }
    }
    &&& text::views(r.references@) == header_strings(h, "references"@, true)
    &&& text::opt_view(r.last_event) == Some("received"@)
    &&& !r.is_read
    &&& r.created_at@ == created_at
    &&& r.raw_json@ == raw_json
    &&& text::opt_view(r.list_unsubscribe) == list_unsubscribe_of(h)
}

fn copy_list(v: &Vec<String>) -> (res: Vec<String>)
    ensures
        text::views(res@) == text::views(v@),
{
    let mut out: Vec<String> = Vec::new();
    append_all(&mut out, copy_all(v));
    proof {
        assert(text::views(out@) =~= text::views(v@));
    }
    out
}

fn copy_all(v: &Vec<String>) -> (res: Vec<String>)
    ensures
        text::views(res@) == text::views(v@),
{
    let mut out: Vec<String> = Vec::new();
    let mut i: usize = 0;
    while i < v.len()
        invariant
            i <= v.len(),
            text::views(out@) == text::views(v@).take(i as int),
        decreases v.len() - i,
    {
        let ghost before = text::views(out@);
        out.push(text::copy_str(v[i].as_str()));
        proof {
            assert(text::views(out@) =~= before.push(v@[i as int]@));
            assert(text::views(v@).take(i + 1) =~= text::views(v@).take(i as int).push(v@[i as int]@));
        }
        i = i + 1;
    }
    proof {
        assert(text::views(v@).take(v.len() as int) =~= text::views(v@));
    }
    out
}

fn empty_headers() -> (res: Vec<HeaderEntry>)
    ensures
        res@ == Seq::<HeaderEntry>::empty(),
{
    Vec::new()
}

/// The row to store for a received email.
pub fn received_upsert(account: &AccountRecord, e: &ReceivedEmail, created_at: String, raw_json: String) -> (res:
    MessageUpsert)
    ensures
        received_row_ok(res, *account, *e, created_at@, raw_json@),
{
    proof {
        reveal_strlit("to");
        reveal_strlit("cc");
        reveal_strlit("bcc");
    }
    let none = empty_headers();
    let h: &Vec<HeaderEntry> = match &e.headers {
        Some(h) => h,
        None => &none,
    };
    let references = header_values(h, "references", true);
    let in_reply_to = header_string(h, "in-reply-to");
    let list_unsubscribe = extract_list_unsubscribe(h);
    let to = effective_received_to(e);
    let cc = effective_received_cc(e);
    let bcc = effective_received_bcc(e);
    let rfc_message_id = match &e.message_id {
        Some(m) => Some(text::copy_str(m.as_str())),
        None => header_string(h, "message-id"),
    };
    MessageUpsert {
        remote_id: text::copy_str(e.id.as_str()),
        direction: text::copy_str("received"),
        account_email: text::copy_str(account.email.as_str()),
        from_addr: match &e.from {
            Some(f) => text::copy_str(f.as_str()),
            None => String::new(),
        },
        to,
        cc,
        bcc,
        reply_to: copy_list(&e.reply_to),
        subject: match &e.subject {
            Some(s) => text::copy_str(s.as_str()),
            None => String::new(),
        },
        text_body: copy_opt(&e.text),
        html_body: copy_opt(&e.html),
        rfc_message_id,
        in_reply_to,
        references,
        last_event: Some(text::copy_str("received")),
        is_read: false,
        created_at,
        raw_json,
        list_unsubscribe,
    }
}


/// The unsubscribe value recovered from a stored message's headers: the
/// first `list-unsubscribe` header's string value, else the nested `list`
/// form as `extract_list_unsubscribe` reads it.
pub open spec fn stored_unsubscribe(headers: Seq<HeaderEntry>) -> Option<Seq<char>> {
    let flat = match find_header(headers, "list-unsubscribe"@) {
        Some(i) => text::opt_view(headers[i].text),
        None => None,
    };
    match flat {
        Some(v) => Some(v),
        None => match find_header(headers, "list"@) {
            Some(i) => unsubscribe_value(list_fields(headers[i]).0, list_fields(headers[i]).1),
            None => None,
        },
    }
}

pub fn backfill_unsubscribe(headers: &Vec<HeaderEntry>) -> (res: Option<String>)
    ensures
        text::opt_view(res) == stored_unsubscribe(headers@),
{
    match find_header_index(headers, "list-unsubscribe") {
        Some(i) => match &headers[i].text {
            Some(t) => return Some(text::copy_str(t.as_str())),
            None => {},
        },
        None => {},
    }
    match find_header_index(headers, "list") {
        Some(i) => {
            let h = &headers[i];
            let (url, mail) = match &h.text {
                Some(t) => parse_unsubscribe_fields(t.as_str()),
                None => (copy_opt(&h.unsubscribe_url), copy_opt(&h.unsubscribe_mail)),
            };
            unsubscribe_text(url, mail)
        },
        None => None,
    }
}

} // verus!
