//! Address, subject and body helpers used when composing, replying to and
//! forwarding mail.
use vstd::prelude::*;

use crate::models::{AccountRecord, MessageRecord, ReplyHeaders};
use crate::text;

verus! {

// ── Addresses ──────────────────────────────────────────────────────────────

/// The bare, lower-cased address inside `Name <addr>` (the last `<`, up to
/// the next `>`), or the whole trimmed value without surrounding quotes.
pub open spec fn normalized_email(v: Seq<char>) -> Seq<char> {
    let t = text::trim(v);
    let fallback = text::lower(text::trim_by(t, text::CharClass::Only('"')));
    match text::rfind_char(t, '<') {
        Some(st) => match text::find_char(t.skip(st + 1), '>') {
            Some(e) => text::lower(text::trim(t.subrange(st + 1, st + 1 + e))),
            None => fallback,
        },
        None => fallback,
    }
}

pub fn normalize_email(value: &str) -> (res: String)
    ensures
        res@ == normalized_email(value@),
{
    let t = text::trim_str(value);
    let v = text::chars_of(t.as_str());
    match text::rfind_in(&v, '<') {
        Some(st) => {
            match text::find_in(&v, st + 1, '>') {
                Some(e) => {
                    proof {
                        assert(v@.skip(st + 1).take(e as int) =~= v@.subrange(
                            st + 1,
                            st + 1 + e,
                        ));
                    }
                    let (a, b) = text::trim_bounds(&v, st + 1, st + 1 + e, text::CharClass::Whitespace);
                    let inner = text::string_from(&v, a, b);
                    return text::to_ascii_lower(inner.as_str());
                },
                None => {},
            }
        },
        None => {},
    }
    let unquoted = text::trim_class(t.as_str(), text::CharClass::Only('"'));
    text::to_ascii_lower(unquoted.as_str())
}

pub open spec fn normalized_all(values: Seq<Seq<char>>) -> Seq<Seq<char>> {
    values.map_values(|v: Seq<char>| normalized_email(v))
}

pub fn normalize_emails(values: &[String]) -> (res: Vec<String>)
    ensures
        text::views(res@) == normalized_all(text::views(values@)),
{
    let mut res: Vec<String> = Vec::new();
    let mut i: usize = 0;
    while i < values.len()
        invariant
            i <= values.len(),
            text::views(res@) == normalized_all(text::views(values@).take(i as int)),
        decreases values.len() - i,
    {
        let n = normalize_email(values[i].as_str());
        let ghost before = res@;
        res.push(n);
        proof {
            assert(text::views(res@) =~= text::views(before).push(n@));
            assert(text::views(values@).take(i + 1) =~= text::views(values@).take(i as int).push(
                values@[i as int]@,
            ));
            assert(normalized_all(text::views(values@).take(i + 1)) =~= normalized_all(
                text::views(values@).take(i as int),
            ).push(normalized_email(values@[i as int]@)));
        }
        i = i + 1;
    }
    proof {
        assert(text::views(values@).take(values.len() as int) =~= text::views(values@));
    }
    res
}

/// `Name <email>` when a non-blank display name is given, else the address.
pub open spec fn sender_text(name: Option<Seq<char>>, email: Seq<char>) -> Seq<char> {
    match name {
        Some(n) => if text::trim(n).len() > 0 {
            text::trim(n) + " <"@ + email + ">"@
        } else {
            email
        },
        None => email,
    }
}

pub fn format_sender(display_name: Option<&str>, email: &str) -> (res: String)
    ensures
        res@ == sender_text(text::opt_str_view(display_name), email@),
{
    match display_name {
        Some(name) => {
            let n = text::trim_str(name);
            if !n.as_str().is_empty() {
                let mut r = n;
                text::push_str(&mut r, " <");
                text::push_str(&mut r, email);
                text::push_str(&mut r, ">");
                return r;
            }
        },
        None => {},
    }
    text::copy_str(email)
}

// ── Bodies and signatures ──────────────────────────────────────────────────

/// The HTML entity for the five characters `escape_html` rewrites.
pub open spec fn escape_char(c: char) -> Seq<char> {
    if c == '&' {
        "&amp;"@
    } else if c == '<' {
        "&lt;"@
    } else if c == '>' {
        "&gt;"@
    } else if c == '"' {
        "&quot;"@
    } else if c == '\'' {
        "&#39;"@
    } else {
        seq![c]
    }
}

pub open spec fn escaped(s: Seq<char>) -> Seq<char>
    decreases s.len(),
{
    if s.len() == 0 {
        Seq::empty()
    } else {
        escaped(s.drop_last()) + escape_char(s.last())
    }
}

pub fn escape_html(value: &str) -> (res: String)
    ensures
        res@ == escaped(value@),
{
    let v = text::chars_of(value);
    let mut res = String::new();
    let mut i: usize = 0;
    while i < v.len()
        invariant
            i <= v.len(),
            res@ == escaped(v@.take(i as int)),
        decreases v.len() - i,
    {
        let c = v[i];
        let ghost pre = v@.take(i as int);
        if c == '&' {
            text::push_str(&mut res, "&amp;");
        } else if c == '<' {
            text::push_str(&mut res, "&lt;");
        } else if c == '>' {
            text::push_str(&mut res, "&gt;");
        } else if c == '"' {
            text::push_str(&mut res, "&quot;");
        } else if c == '\'' {
            text::push_str(&mut res, "&#39;");
        } else {
            text::push_char(&mut res, c);
        }
        proof {
            let post = v@.take(i + 1);
            assert(post.drop_last() =~= pre);
            assert(post.last() == c);
            assert(res@ =~= escaped(pre) + escape_char(c));
        }
        i = i + 1;
    }
    proof {
        assert(v@.take(v.len() as int) =~= value@);
    }
    res
}

pub open spec fn body_or_empty(body: Option<Seq<char>>) -> Seq<char> {
    match body {
        Some(b) => b,
        None => Seq::empty(),
    }
}

/// Plain-text body with the signature after the standard `-- ` delimiter.
pub open spec fn signed_text(body: Option<Seq<char>>, signature: Seq<char>) -> Seq<char> {
    let b = text::trim_end(body_or_empty(body));
    let s = text::trim(signature);
    if b.len() == 0 {
        s
    } else {
        b + "\n\n-- \n"@ + s
    }
}

pub fn append_signature_text(body: Option<&str>, signature: &str) -> (res: String)
    ensures
        res@ == signed_text(text::opt_str_view(body), signature@),
{
    let b = match body {
        Some(b) => text::trim_end_str(b),
        None => {
            let e = String::new();
            proof {
                assert(text::trim_end(Seq::<char>::empty()).len() == 0) by {
                    text::lemma_lead_trail_exist(Seq::<char>::empty(), text::CharClass::Whitespace);
                }
            }
            e
        },
    };
    proof {
        if body is None {
            text::lemma_lead_trail_exist(Seq::<char>::empty(), text::CharClass::Whitespace);
            assert(b@ =~= text::trim_end(Seq::<char>::empty()));
        }
    }
    let s = text::trim_str(signature);
    if b.as_str().is_empty() {
        s
    } else {
        let mut r = b;
        text::push_str(&mut r, "\n\n-- \n");
        text::push_str(&mut r, s.as_str());
        r
    }
}

/// HTML body with the escaped signature (newlines as `<br>`) after `-- `.
pub open spec fn signed_html(body: Option<Seq<char>>, signature: Seq<char>) -> Seq<char> {
    let b = text::trim_end(body_or_empty(body));
    let e = text::replace_all(escaped(signature), "\n"@, "<br>"@);
    if b.len() == 0 {
        e
    } else {
        b + "<br><br>-- <br>"@ + e
    }
}

pub fn append_signature_html(body: Option<&str>, signature: &str) -> (res: String)
    ensures
        res@ == signed_html(text::opt_str_view(body), signature@),
{
    let b = match body {
        Some(b) => text::trim_end_str(b),
        None => String::new(),
    };
    proof {
        if body is None {
            text::lemma_lead_trail_exist(Seq::<char>::empty(), text::CharClass::Whitespace);
            assert(b@ =~= text::trim_end(Seq::<char>::empty()));
        }
    }
    let escaped_signature = escape_html(signature);
    let e = text::replace_str(escaped_signature.as_str(), "\n", "<br>");
    if b.as_str().is_empty() {
        e
    } else {
        let mut r = b;
        text::push_str(&mut r, "<br><br>-- <br>");
        text::push_str(&mut r, e.as_str());
        r
    }
}

// ── Subjects ───────────────────────────────────────────────────────────────

/// `Re: ` is added unless the subject already starts with `re:` in any case.
pub open spec fn reply_subject_text(subject: Seq<char>) -> Seq<char> {
    if text::starts_with(text::lower(subject), "re:"@) {
        subject
    } else {
        "Re: "@ + subject
    }
}

pub fn reply_subject(subject: &str) -> (res: String)
    ensures
        res@ == reply_subject_text(subject@),
{
    let l = text::to_ascii_lower(subject);
    if text::str_starts_with(l.as_str(), "re:") {
        text::copy_str(subject)
    } else {
        let mut r = text::copy_str("Re: ");
        text::push_str(&mut r, subject);
        r
    }
}

/// `Fwd: ` is added unless the subject already starts with `fwd:` in any case.
pub open spec fn forward_subject_text(subject: Seq<char>) -> Seq<char> {
    if text::starts_with(text::lower(subject), "fwd:"@) {
        subject
    } else {
        "Fwd: "@ + subject
    }
}

pub fn forward_subject(subject: &str) -> (res: String)
    ensures
        res@ == forward_subject_text(subject@),
{
    let l = text::to_ascii_lower(subject);
    if text::str_starts_with(l.as_str(), "fwd:") {
        text::copy_str(subject)
    } else {
        let mut r = text::copy_str("Fwd: ");
        text::push_str(&mut r, subject);
        r
    }
}

// ── Short forms ────────────────────────────────────────────────────────────

/// Up to two targets joined by `, `; longer lists show the first two and
/// `+N` for the rest.
pub open spec fn compact_text(values: Seq<Seq<char>>) -> Seq<char> {
    if values.len() <= 2 {
        text::join(values, ", "@)
    } else {
        values[0] + ", "@ + values[1] + " +"@ + text::digits((values.len() - 2) as nat)
    }
}

pub fn compact_targets(values: &[String]) -> (res: String)
    ensures
        res@ == compact_text(text::views(values@)),
{
    if values.len() <= 2 {
        text::join_strings(values, ", ")
    } else {
        let mut r = values[0].clone();
        text::push_str(&mut r, ", ");
        text::push_str(&mut r, values[1].as_str());
        text::push_str(&mut r, " +");
        let extra = values.len() - 2;
        text::push_u64(&mut r, extra as u64);
        r
    }
}

/// The value ends in a sign and two digits, like `+05` (an offset missing
/// its minutes).
pub open spec fn short_offset(s: Seq<char>) -> bool {
    s.len() >= 3 && (s[s.len() - 3] == '+' || s[s.len() - 3] == '-') && text::is_ascii_digit(
        s[s.len() - 2],
    ) && text::is_ascii_digit(s[s.len() - 1])
}

pub fn has_short_numeric_offset(value: &str) -> (res: bool)
    ensures
        res == short_offset(value@),
{
    let v = text::chars_of(value);
    let n = v.len();
    if n < 3 {
        return false;
    }
    let sign = v[n - 3];
    (sign == '+' || sign == '-') && text::ascii_digit(v[n - 2]) && text::ascii_digit(v[n - 1])
}

/// A pair of `q` quotes around at least nothing is removed.
pub open spec fn unquote(s: Seq<char>, q: char) -> Seq<char> {
    if s.len() >= 2 && s[0] == q && s.last() == q {
        s.subrange(1, s.len() - 1)
    } else {
        s
    }
}

/// A pasted secret: trimmed, one layer of double then single quotes removed,
/// literal `\n` sequences dropped, trimmed again.
pub open spec fn cleaned_env_value(v: Seq<char>) -> Seq<char> {
    text::trim(text::replace_all(unquote(unquote(text::trim(v), '"'), '\''), "\\n"@, ""@))
}

fn unquote_string(s: String, q: char) -> (res: String)
    ensures
        res@ == unquote(s@, q),
{
    let v = text::chars_of(s.as_str());
    if v.len() >= 2 && v[0] == q && v[v.len() - 1] == q {
        text::string_from(&v, 1, v.len() - 1)
    } else {
        s
    }
}

pub fn cleanup_env_value(value: &str) -> (res: String)
    ensures
        res@ == cleaned_env_value(value@),
{
    let t = text::trim_str(value);
    let a = unquote_string(t, '"');
    let b = unquote_string(a, '\'');
    let c = text::replace_str(b.as_str(), "\\n", "");
    text::trim_str(c.as_str())
}


// ── Lists of addresses ─────────────────────────────────────────────────────

/// Keep the first occurrence of each value, in order.
pub open spec fn dedup(s: Seq<Seq<char>>) -> Seq<Seq<char>>
    decreases s.len(),
{
    if s.len() == 0 {
        s
    } else {
        let d = dedup(s.drop_last());
        if d.contains(s.last()) {
            d
        } else {
            d.push(s.last())
        }
    }
}

/// `dedup` keeps exactly the values that occur in its input.
pub proof fn law_dedup_same_values(s: Seq<Seq<char>>)
    ensures
        forall|x: Seq<char>| dedup(s).contains(x) <==> s.contains(x),
    decreases s.len(),
{
    if s.len() > 0 {
        let t = s.drop_last();
        let l = s.last();
        let d = dedup(t);
        law_dedup_same_values(t);
        assert forall|x: Seq<char>| dedup(s).contains(x) implies s.contains(x) by {
            if d.contains(x) {
                assert(t.contains(x));
                let i = choose|i: int| 0 <= i < t.len() && t[i] == x;
                assert(s[i] == x);
            } else {
                let i = choose|i: int| 0 <= i < dedup(s).len() && dedup(s)[i] == x;
                assert(dedup(s) == d.push(l));
                assert(i == d.len());
                assert(s[s.len() - 1] == x);
            }
        }
        assert forall|x: Seq<char>| s.contains(x) implies dedup(s).contains(x) by {
            let i = choose|i: int| 0 <= i < s.len() && s[i] == x;
            if i < s.len() - 1 {
                assert(t[i] == x);
                assert(t.contains(x));
                assert(d.contains(x));
                let k = choose|k: int| 0 <= k < d.len() && d[k] == x;
                if !d.contains(l) {
                    assert(d.push(l)[k] == x);
                }
            } else {
                assert(x == l);
                if !d.contains(l) {
                    assert(d.push(l)[d.len() as int] == x);
                }
            }
        }
    }
}

/// `dedup` never returns a value twice.
pub proof fn law_dedup_no_duplicates(s: Seq<Seq<char>>)
    ensures
        dedup(s).no_duplicates(),
    decreases s.len(),
{
    if s.len() > 0 {
        law_dedup_no_duplicates(s.drop_last());
        let d = dedup(s.drop_last());
        if !d.contains(s.last()) {
            assert forall|i: int, j: int| 0 <= i < d.len() + 1 && 0 <= j < d.len() + 1 && i != j implies
                d.push(s.last())[i] != d.push(s.last())[j] by {
                if i == d.len() {
                    assert(d[j] != s.last());
                } else if j == d.len() {
                    assert(d[i] != s.last());
                }
            }
        }
    }
}

proof fn lemma_dedup_of_distinct(s: Seq<Seq<char>>)
    requires
        s.no_duplicates(),
    ensures
        dedup(s) == s,
    decreases s.len(),
{
    if s.len() > 0 {
        let t = s.drop_last();
        assert(t.no_duplicates());
        lemma_dedup_of_distinct(t);
        law_dedup_same_values(t);
        if t.contains(s.last()) {
            let i = choose|i: int| 0 <= i < t.len() && t[i] == s.last();
            assert(s[i] == s[s.len() - 1]);
        }
        assert(s =~= t.push(s.last()));
    }
}

/// Deduplicating twice is the same as deduplicating once.
pub proof fn law_dedup_idempotent(s: Seq<Seq<char>>)
    ensures
        dedup(dedup(s)) == dedup(s),
{
    law_dedup_no_duplicates(s);
    lemma_dedup_of_distinct(dedup(s));
}

/// Whether some element of `v` has the same characters as `x`.
pub fn contains_string(v: &Vec<String>, x: &str) -> (res: bool)
    ensures
        res == text::views(v@).contains(x@),
{
    let mut i: usize = 0;
    while i < v.len()
        invariant
            i <= v.len(),
            forall|j: int| 0 <= j < i ==> v@[j]@ != x@,
        decreases v.len() - i,
    {
        if text::seq_eq(v[i].as_str(), x) {
            proof {
                assert(text::views(v@)[i as int] == x@);
            }
            return true;
        }
        i = i + 1;
    }
    proof {
        if text::views(v@).contains(x@) {
            let j = choose|j: int| 0 <= j < text::views(v@).len() && text::views(v@)[j] == x@;
            assert(v@[j]@ == x@);
        }
    }
    false
}

pub fn stable_dedup(values: Vec<String>) -> (res: Vec<String>)
    ensures
        text::views(res@) == dedup(text::views(values@)),
{
    let mut res: Vec<String> = Vec::new();
    let mut i: usize = 0;
    while i < values.len()
        invariant
            i <= values.len(),
            text::views(res@) == dedup(text::views(values@).take(i as int)),
        decreases values.len() - i,
    {
        let ghost pre = text::views(values@).take(i as int);
        proof {
            assert(text::views(values@).take(i + 1).drop_last() =~= pre);
        }
        if !contains_string(&res, values[i].as_str()) {
            let ghost before = res@;
            res.push(values[i].clone());
            proof {
                assert(text::views(res@) =~= text::views(before).push(values@[i as int]@));
            }
        }
        i = i + 1;
    }
    proof {
        assert(text::views(values@).take(values.len() as int) =~= text::views(values@));
    }
    res
}

/// Some address of `to`, `cc` or `bcc` normalises to the account address.
pub open spec fn addressed_to(
    to: Seq<Seq<char>>,
    cc: Seq<Seq<char>>,
    bcc: Seq<Seq<char>>,
    account_email: Seq<char>,
) -> bool {
    exists|a: Seq<char>|
        (to + cc + bcc).contains(a) && normalized_email(a) == normalized_email(account_email)
}

fn any_normalizes_to(list: &[String], target: &String) -> (res: bool)
    ensures
        res == exists|j: int|
            0 <= j < list@.len() && normalized_email(#[trigger] list@[j]@) == target@,
{
    let mut i: usize = 0;
    while i < list.len()
        invariant
            i <= list.len(),
            forall|j: int| 0 <= j < i ==> normalized_email(#[trigger] list@[j]@) != target@,
        decreases list.len() - i,
    {
        let n = normalize_email(list[i].as_str());
        if text::seq_eq(n.as_str(), target.as_str()) {
            return true;
        }
        i = i + 1;
    }
    false
}

pub fn matching_account_email(to: &[String], cc: &[String], bcc: &[String], account_email: &str) -> (res:
    bool)
    ensures
        res == addressed_to(
            text::views(to@),
            text::views(cc@),
            text::views(bcc@),
            account_email@,
        ),
{
    let target = normalize_email(account_email);
    let r = any_normalizes_to(to, &target) || any_normalizes_to(cc, &target) || any_normalizes_to(
        bcc,
        &target,
    );
    proof {
        let all = text::views(to@) + text::views(cc@) + text::views(bcc@);
        if r {
            if exists|j: int| 0 <= j < to@.len() && normalized_email(#[trigger] to@[j]@) == target@ {
                let j = choose|j: int|
                    0 <= j < to@.len() && normalized_email(#[trigger] to@[j]@) == target@;
                assert(all[j] == to@[j]@);
                assert(all.contains(to@[j]@));
            } else if exists|j: int|
                0 <= j < cc@.len() && normalized_email(#[trigger] cc@[j]@) == target@ {
                let j = choose|j: int|
                    0 <= j < cc@.len() && normalized_email(#[trigger] cc@[j]@) == target@;
                assert(all[to@.len() + j] == cc@[j]@);
                assert(all.contains(cc@[j]@));
            } else {
                let j = choose|j: int|
                    0 <= j < bcc@.len() && normalized_email(#[trigger] bcc@[j]@) == target@;
                assert(all[to@.len() + cc@.len() + j] == bcc@[j]@);
                assert(all.contains(bcc@[j]@));
            }
        } else {
            assert forall|a: Seq<char>| all.contains(a) implies normalized_email(a)
                != normalized_email(account_email@) by {
                let j = choose|j: int| 0 <= j < all.len() && all[j] == a;
                if j < to@.len() {
                    assert(a == to@[j]@);
                } else if j < to@.len() + cc@.len() {
                    assert(a == cc@[j - to@.len()]@);
                } else {
                    assert(a == bcc@[j - to@.len() - cc@.len()]@);
                }
            }
        }
    }
    r
}

// ── Replying ───────────────────────────────────────────────────────────────

/// Who a reply goes to: the original recipients of a sent message, else the
/// Reply-To addresses, else the sender; all normalised.
pub open spec fn reply_targets(m: MessageRecord) -> Seq<Seq<char>> {
    if m.direction@ == "sent"@ {
        normalized_all(text::views(m.to@))
    } else if m.reply_to@.len() > 0 {
        normalized_all(text::views(m.reply_to@))
    } else {
        seq![normalized_email(m.from_addr@)]
    }
}

fn reply_targets_exec(message: &MessageRecord) -> (res: Vec<String>)
    ensures
        text::views(res@) == reply_targets(*message),
{
    if text::seq_eq(message.direction.as_str(), "sent") {
        normalize_emails(message.to.as_slice())
    } else if message.reply_to.len() > 0 {
        normalize_emails(message.reply_to.as_slice())
    } else {
        let mut v: Vec<String> = Vec::new();
        v.push(normalize_email(message.from_addr.as_str()));
        proof {
            assert(text::views(v@) =~= seq![normalized_email(message.from_addr@)]);
        }
        v
    }
}

pub open spec fn no_recipient_message(id: i64) -> Seq<char> {
    "message "@ + text::int_text(id as int) + " has no reply recipient"@
}

pub fn reply_recipients(message: &MessageRecord) -> (res: Result<Vec<String>, String>)
    ensures
        match res {
            Ok(v) => text::views(v@) == reply_targets(*message) && v@.len() > 0,
            Err(e) => reply_targets(*message).len() == 0 && e@ == no_recipient_message(message.id),
        },
{
    let recipients = reply_targets_exec(message);
    if recipients.len() == 0 {
        let mut e = text::copy_str("message ");
        let id = text::i64_to_string(message.id);
        text::push_str(&mut e, id.as_str());
        text::push_str(&mut e, " has no reply recipient");
        return Err(e);
    }
    Ok(recipients)
}

pub open spec fn kept_for_reply_all(a: Seq<char>, me: Seq<char>) -> bool {
    a.len() > 0 && a != me
}

/// Reply-all `To`: the reply targets without empty entries and without the
/// replying account.
pub open spec fn reply_all_to(m: MessageRecord, self_email: Seq<char>) -> Seq<Seq<char>> {
    let me = normalized_email(self_email);
    reply_targets(m).filter(|a: Seq<char>| kept_for_reply_all(a, me))
}

/// Reply-all `Cc`: the original To and Cc, normalised, without empties, the
/// account itself, anyone already in `To`, and repeats.
pub open spec fn reply_all_cc(m: MessageRecord, self_email: Seq<char>) -> Seq<Seq<char>> {
    let me = normalized_email(self_email);
    let to = reply_all_to(m, self_email);
    dedup(
        normalized_all(text::views(m.to@) + text::views(m.cc@)).filter(
            |a: Seq<char>| kept_for_reply_all(a, me) && !to.contains(a),
        ),
    )
}

pub fn reply_all_recipients(message: &MessageRecord, self_email: &str) -> (res: (
    Vec<String>,
    Vec<String>,
))
    ensures
        text::views(res.0@) == reply_all_to(*message, self_email@),
        text::views(res.1@) == reply_all_cc(*message, self_email@),
{
    let me = normalize_email(self_email);
    let raw = reply_targets_exec(message);
    let ghost keep_to = |a: Seq<char>| kept_for_reply_all(a, me@);
    let mut to: Vec<String> = Vec::new();
    let mut i: usize = 0;
    while i < raw.len()
        invariant
            i <= raw.len(),
            me@ == normalized_email(self_email@),
            text::views(to@) == text::views(raw@).take(i as int).filter(keep_to),
            keep_to == (|a: Seq<char>| kept_for_reply_all(a, me@)),
        decreases raw.len() - i,
    {
        proof {
            assert(text::views(raw@).take(i + 1) =~= text::views(raw@).take(i as int).push(
                raw@[i as int]@,
            ));
            text::views(raw@).take(i as int).lemma_filter_push(raw@[i as int]@, keep_to);
        }
        let a = &raw[i];
        if !a.as_str().is_empty() && !text::seq_eq(a.as_str(), me.as_str()) {
            let ghost before = to@;
            to.push(a.clone());
            proof {
                assert(text::views(to@) =~= text::views(before).push(raw@[i as int]@));
            }
        }
        i = i + 1;
    }
    proof {
        assert(text::views(raw@).take(raw.len() as int) =~= text::views(raw@));
    }
    let to_norm = normalize_emails(message.to.as_slice());
    let cc_norm = normalize_emails(message.cc.as_slice());
    let ghost all = normalized_all(text::views(message.to@) + text::views(message.cc@));
    let mut combined: Vec<String> = Vec::new();
    let mut j: usize = 0;
    while j < to_norm.len()
        invariant
            j <= to_norm.len(),
            text::views(combined@) == text::views(to_norm@).take(j as int),
        decreases to_norm.len() - j,
    {
        let ghost before = combined@;
        let r = to_norm[j].clone();
        combined.push(r);
        proof {
            assert(text::views(combined@) =~= text::views(before).push(r@));
            assert(text::views(combined@) =~= text::views(to_norm@).take(j + 1));
        }
        j = j + 1;
    }
    j = 0;
    proof {
        assert(text::views(to_norm@).take(to_norm.len() as int) =~= text::views(to_norm@));
    }
    while j < cc_norm.len()
        invariant
            j <= cc_norm.len(),
            text::views(combined@) == text::views(to_norm@) + text::views(cc_norm@).take(j as int),
        decreases cc_norm.len() - j,
    {
        let ghost before = combined@;
        let r = cc_norm[j].clone();
        combined.push(r);
        proof {
            assert(text::views(combined@) =~= text::views(before).push(r@));
            assert(text::views(combined@) =~= text::views(to_norm@) + text::views(cc_norm@).take(
                j + 1,
            ));
        }
        j = j + 1;
    }
    proof {
        assert(text::views(cc_norm@).take(cc_norm.len() as int) =~= text::views(cc_norm@));
        assert(all =~= text::views(combined@));
    }
    let ghost keep_cc = |a: Seq<char>| kept_for_reply_all(a, me@) && !text::views(to@).contains(a);
    let mut cc: Vec<String> = Vec::new();
    let mut k: usize = 0;
    while k < combined.len()
        invariant
            k <= combined.len(),
            all == text::views(combined@),
            text::views(cc@) == all.take(k as int).filter(keep_cc),
            keep_cc == (|a: Seq<char>| kept_for_reply_all(a, me@) && !text::views(to@).contains(a)),
        decreases combined.len() - k,
    {
        let a: &String = &combined[k];
        proof {
            assert(all[k as int] == a@);
            assert(all.take(k + 1) =~= all.take(k as int).push(a@));
            all.take(k as int).lemma_filter_push(a@, keep_cc);
        }
        if !a.as_str().is_empty() && !text::seq_eq(a.as_str(), me.as_str()) && !contains_string(
            &to,
            a.as_str(),
        ) {
            let ghost before = cc@;
            cc.push(a.clone());
            proof {
                assert(text::views(cc@) =~= text::views(before).push(a@));
            }
        }
        k = k + 1;
    }
    proof {
        assert(all.take(all.len() as int) =~= all);
    }
    let cc = stable_dedup(cc);
    (to, cc)
}

/// Threading headers for a reply: `In-Reply-To` is the parent's Message-ID;
/// `References` is the parent's references (or its In-Reply-To when it has
/// none), then the parent's Message-ID, without repeats.
pub open spec fn reply_refs(m: MessageRecord) -> Seq<Seq<char>> {
    let base = text::views(m.references@);
    let with_parent = if base.len() == 0 && m.in_reply_to is Some {
        base.push(m.in_reply_to->0@)
    } else {
        base
    };
    let all = match m.rfc_message_id {
        Some(id) => with_parent.push(id@),
        None => with_parent,
    };
    dedup(all)
}

pub fn reply_headers_for_message(message: &MessageRecord) -> (res: ReplyHeaders)
    ensures
        text::opt_view(res.in_reply_to) == text::opt_view(message.rfc_message_id),
        text::views(res.references@) == reply_refs(*message),
{
    let mut refs: Vec<String> = Vec::new();
    let mut i: usize = 0;
    while i < message.references.len()
        invariant
            i <= message.references.len(),
            text::views(refs@) == text::views(message.references@).take(i as int),
        decreases message.references.len() - i,
    {
        let ghost before = refs@;
        let r = message.references[i].clone();
        refs.push(r);
        proof {
            assert(text::views(refs@) =~= text::views(before).push(r@));
            assert(text::views(refs@) =~= text::views(message.references@).take(i + 1));
        }
        i = i + 1;
    }
    proof {
        assert(text::views(message.references@).take(message.references.len() as int)
            =~= text::views(message.references@));
    }
    if refs.len() == 0 {
        match &message.in_reply_to {
            Some(irt) => {
                let ghost before = refs@;
                refs.push(irt.clone());
                proof {
                    assert(text::views(refs@) =~= text::views(before).push(irt@));
                }
            },
            None => {},
        }
    }
    let in_reply_to = match &message.rfc_message_id {
        Some(id) => {
            let ghost before = refs@;
            refs.push(id.clone());
            proof {
                assert(text::views(refs@) =~= text::views(before).push(id@));
            }
            Some(id.clone())
        },
        None => None,
    };
    ReplyHeaders { in_reply_to, references: stable_dedup(refs) }
}

pub open spec fn wrong_account_message(id: i64, owner: Seq<char>, other: Seq<char>) -> Seq<char> {
    "message "@ + text::int_text(id as int) + " belongs to "@ + owner + ", not "@ + other
}

pub fn ensure_reply_account_matches(message: &MessageRecord, account: &AccountRecord) -> (res:
    Result<(), String>)
    ensures
        match res {
            Ok(()) => message.account_email@ == account.email@,
            Err(e) => message.account_email@ != account.email@ && e@ == wrong_account_message(
                message.id,
                message.account_email@,
                account.email@,
            ),
        },
{
    if !text::seq_eq(message.account_email.as_str(), account.email.as_str()) {
        let mut e = text::copy_str("message ");
        let id = text::i64_to_string(message.id);
        text::push_str(&mut e, id.as_str());
        text::push_str(&mut e, " belongs to ");
        text::push_str(&mut e, message.account_email.as_str());
        text::push_str(&mut e, ", not ");
        text::push_str(&mut e, account.email.as_str());
        return Err(e);
    }
    Ok(())
}


// ── Address headers ────────────────────────────────────────────────────────

/// Scanning state after reading `s`: finished entries, the entry being
/// read, and whether a `"` quote is open.
pub open spec fn address_scan(s: Seq<char>) -> (Seq<Seq<char>>, Seq<char>, bool)
    decreases s.len(),
{
    if s.len() == 0 {
        (Seq::empty(), Seq::empty(), false)
    } else {
        let (r, cur, q) = address_scan(s.drop_last());
        let c = s.last();
        if c == '"' {
            (r, cur.push(c), !q)
        } else if c == ',' && !q {
            if text::trim(cur).len() > 0 {
                (r.push(text::trim(cur)), Seq::empty(), q)
            } else {
                (r, Seq::empty(), q)
            }
        } else {
            (r, cur.push(c), q)
        }
    }
}

/// An address header split at commas outside double quotes; entries are
/// trimmed and empty ones dropped.
pub open spec fn address_list(s: Seq<char>) -> Seq<Seq<char>> {
    let (r, cur, _q) = address_scan(s);
    if text::trim(cur).len() > 0 {
        r.push(text::trim(cur))
    } else {
        r
    }
}

pub fn split_address_header(value: &str) -> (res: Vec<String>)
    ensures
        text::views(res@) == address_list(value@),
{
    let v = text::chars_of(value);
    let mut results: Vec<String> = Vec::new();
    let mut current = String::new();
    let mut in_quotes = false;
    let mut i: usize = 0;
    while i < v.len()
        invariant
            i <= v.len(),
            address_scan(v@.take(i as int)) == (text::views(results@), current@, in_quotes),
        decreases v.len() - i,
    {
        let c = v[i];
        proof {
            assert(v@.take(i + 1).drop_last() =~= v@.take(i as int));
        }
        if c == '"' {
            in_quotes = !in_quotes;
            text::push_char(&mut current, c);
        } else if c == ',' && !in_quotes {
            let trimmed = text::trim_str(current.as_str());
            if !trimmed.as_str().is_empty() {
                let ghost before = results@;
                results.push(trimmed);
                proof {
                    assert(text::views(results@) =~= text::views(before).push(trimmed@));
                }
            }
            current = String::new();
        } else {
            text::push_char(&mut current, c);
        }
        i = i + 1;
    }
    proof {
        assert(v@.take(v.len() as int) =~= value@);
    }
    let trimmed = text::trim_str(current.as_str());
    if !trimmed.as_str().is_empty() {
        let ghost before = results@;
        results.push(trimmed);
        proof {
            assert(text::views(results@) =~= text::views(before).push(trimmed@));
        }
    }
    results
}

// ── File names ─────────────────────────────────────────────────────────────

/// The last path component that is neither empty nor `.`.
pub open spec fn last_component(pieces: Seq<Seq<char>>) -> Option<Seq<char>>
    decreases pieces.len(),
{
    if pieces.len() == 0 {
        None
    } else if pieces.last().len() == 0 || pieces.last() == "."@ {
        last_component(pieces.drop_last())
    } else {
        Some(pieces.last())
    }
}

/// `Path::file_name` for `/`-separated paths: the final normal component,
/// none for a path that ends in `..` or has no component.
pub open spec fn file_name(p: Seq<char>) -> Option<Seq<char>> {
    match last_component(text::split_by(p, text::CharClass::Only('/'))) {
        Some(c) => if c == ".."@ {
            None
        } else {
            Some(c)
        },
        None => None,
    }
}

pub fn path_file_name(p: &str) -> (res: Option<String>)
    ensures
        match res {
            Some(r) => file_name(p@) == Some(r@),
            None => file_name(p@) is None,
        },
{
    let pieces = text::split_class(p, text::CharClass::Only('/'));
    let ghost all = text::views(pieces@);
    let mut n = pieces.len();
    proof {
        assert(all.take(n as int) =~= all);
    }
    while n > 0
        invariant
            n <= pieces.len(),
            all == text::views(pieces@),
            all == text::split_by(p@, text::CharClass::Only('/')),
            last_component(all) == last_component(all.take(n as int)),
        decreases n,
    {
        let piece = &pieces[n - 1];
        proof {
            assert(all.take(n as int).drop_last() =~= all.take(n - 1));
            assert(all.take(n as int).last() == piece@);
        }
        if !piece.as_str().is_empty() && !text::seq_eq(piece.as_str(), ".") {
            proof {
                assert(last_component(all.take(n as int)) == Some(piece@));
                assert(last_component(all) == Some(piece@));
                assert(pieces@[n - 1]@ == piece@);
            }
            if text::seq_eq(piece.as_str(), "..") {
                return None;
            }
            return Some(piece.clone());
        }
        n = n - 1;
    }
    None
}

/// `_` in place of anything but ASCII letters, digits, `.`, `-` and `_`.
pub open spec fn safe_char(c: char) -> char {
    if text::is_ascii_alnum(c) || c == '.' || c == '-' || c == '_' {
        c
    } else {
        '_'
    }
}

pub open spec fn sanitized_name(b: Seq<char>) -> Seq<char> {
    text::trim_by(b.map_values(|c: char| safe_char(c)), text::CharClass::Only('.'))
}

/// A file name safe to create inside a directory: the last component of
/// `name` (or `fallback`), with unsafe characters replaced and dots
/// trimmed; `fallback` itself when nothing is left.
pub open spec fn safe_file_name(name: Seq<char>, fallback: Seq<char>) -> Seq<char> {
    let base = match file_name(name) {
        Some(b) => if b.len() > 0 {
            b
        } else {
            fallback
        },
        None => fallback,
    };
    let s = sanitized_name(base);
    if s.len() == 0 {
        fallback
    } else {
        s
    }
}

fn sanitize_chars(b: &str) -> (res: String)
    ensures
        res@ == sanitized_name(b@),
{
    let v = text::chars_of(b);
    let mut mapped = String::new();
    let mut i: usize = 0;
    while i < v.len()
        invariant
            i <= v.len(),
            mapped@ == v@.take(i as int).map_values(|c: char| safe_char(c)),
        decreases v.len() - i,
    {
        let c = v[i];
        let keep = text::ascii_alnum(c) || c == '.' || c == '-' || c == '_';
        let d = if keep {
            c
        } else {
            '_'
        };
        text::push_char(&mut mapped, d);
        proof {
            assert(v@.take(i + 1).map_values(|c: char| safe_char(c)) =~= v@.take(
                i as int,
            ).map_values(|c: char| safe_char(c)).push(d));
        }
        i = i + 1;
    }
    proof {
        assert(v@.take(v.len() as int) =~= b@);
    }
    text::trim_class(mapped.as_str(), text::CharClass::Only('.'))
}

pub fn sanitize_filename(name: &str, fallback: &str) -> (res: String)
    ensures
        res@ == safe_file_name(name@, fallback@),
{
    let base = match path_file_name(name) {
        Some(b) => if b.as_str().is_empty() {
            text::copy_str(fallback)
        } else {
            b
        },
        None => text::copy_str(fallback),
    };
    let s = sanitize_chars(base.as_str());
    if s.as_str().is_empty() {
        text::copy_str(fallback)
    } else {
        s
    }
}

/// `PathBuf::join` of a relative child: a `/` is inserted unless the base
/// is empty or already ends in one.
pub open spec fn path_join(base: Seq<char>, child: Seq<char>) -> Seq<char> {
    if base.len() == 0 {
        child
    } else if base.last() == '/' {
        base + child
    } else {
        base + "/"@ + child
    }
}

pub fn join_path(base: &str, child: &str) -> (res: String)
    ensures
        res@ == path_join(base@, child@),
{
    let v = text::chars_of(base);
    if v.len() == 0 {
        return text::copy_str(child);
    }
    let mut r = text::copy_str(base);
    if v[v.len() - 1] != '/' {
        text::push_str(&mut r, "/");
    }
    text::push_str(&mut r, child);
    r
}

/// Directory holding per-draft attachment snapshots.
pub fn draft_attachment_root(base_dir: &str) -> (res: String)
    ensures
        res@ == path_join(base_dir@, "draft-attachments"@),
{
    join_path(base_dir, "draft-attachments")
}

// ── Forwarding ─────────────────────────────────────────────────────────────

pub open spec fn forward_header_text(m: MessageRecord) -> Seq<char> {
    "---------- Forwarded message ----------\nFrom: "@ + m.from_addr@ + "\nDate: "@ + m.created_at@
        + "\nSubject: "@ + m.subject@ + "\nTo: "@ + text::join(text::views(m.to@), ", "@) + "\n"@
}

pub open spec fn forward_header_html(m: MessageRecord) -> Seq<char> {
    "<br><br>---------- Forwarded message ----------<br><b>From:</b> "@ + escaped(m.from_addr@)
        + "<br><b>Date:</b> "@ + escaped(m.created_at@) + "<br><b>Subject:</b> "@ + escaped(
        m.subject@,
    ) + "<br><b>To:</b> "@ + escaped(text::join(text::views(m.to@), ", "@)) + "<br><br>"@
}

/// Text part of a forward: optional note, the header block, the original text.
pub open spec fn forwarded_text(preamble: Option<Seq<char>>, m: MessageRecord) -> Seq<char> {
    let original = body_or_empty(text::opt_view(m.text_body));
    match preamble {
        Some(p) => p + "\n\n"@ + forward_header_text(m) + "\n"@ + original,
        None => forward_header_text(m) + "\n"@ + original,
    }
}

/// HTML part of a forward, present when the original has an HTML body.
pub open spec fn forwarded_html(preamble: Option<Seq<char>>, m: MessageRecord) -> Option<
    Seq<char>,
> {
    match m.html_body {
        Some(h) => Some(
            match preamble {
                Some(p) => "<p>"@ + escaped(p) + "</p>"@ + forward_header_html(m) + h@,
                None => forward_header_html(m) + h@,
            },
        ),
        None => None,
    }
}

pub fn format_forwarded_body(preamble: Option<&str>, original: &MessageRecord) -> (res: (
    Option<String>,
    Option<String>,
))
    ensures
        res.0 is Some && res.0->0@ == forwarded_text(text::opt_str_view(preamble), *original),
        text::opt_view(res.1) == forwarded_html(text::opt_str_view(preamble), *original),
{
    let to_list = text::join_strings(original.to.as_slice(), ", ");
    let mut header = text::copy_str("---------- Forwarded message ----------\nFrom: ");
    text::push_str(&mut header, original.from_addr.as_str());
    text::push_str(&mut header, "\nDate: ");
    text::push_str(&mut header, original.created_at.as_str());
    text::push_str(&mut header, "\nSubject: ");
    text::push_str(&mut header, original.subject.as_str());
    text::push_str(&mut header, "\nTo: ");
    text::push_str(&mut header, to_list.as_str());
    text::push_str(&mut header, "\n");
    let mut text_part = match preamble {
        Some(p) => {
            let mut t = text::copy_str(p);
            text::push_str(&mut t, "\n\n");
            text::push_str(&mut t, header.as_str());
            t
        },
        None => header,
    };
    text::push_str(&mut text_part, "\n");
    match &original.text_body {
        Some(t) => text::push_str(&mut text_part, t.as_str()),
        None => {},
    }
    proof {
        assert(text_part@ =~= forwarded_text(text::opt_str_view(preamble), *original));
    }
    let html_part = match &original.html_body {
        Some(h) => {
            let mut hh = text::copy_str("<br><br>---------- Forwarded message ----------<br><b>From:</b> ");
            let e1 = escape_html(original.from_addr.as_str());
            text::push_str(&mut hh, e1.as_str());
            text::push_str(&mut hh, "<br><b>Date:</b> ");
            let e2 = escape_html(original.created_at.as_str());
            text::push_str(&mut hh, e2.as_str());
            text::push_str(&mut hh, "<br><b>Subject:</b> ");
            let e3 = escape_html(original.subject.as_str());
            text::push_str(&mut hh, e3.as_str());
            text::push_str(&mut hh, "<br><b>To:</b> ");
            let e4 = escape_html(to_list.as_str());
            text::push_str(&mut hh, e4.as_str());
            text::push_str(&mut hh, "<br><br>");
            let mut out = match preamble {
                Some(p) => {
                    let mut o = text::copy_str("<p>");
                    let ep = escape_html(p);
                    text::push_str(&mut o, ep.as_str());
                    text::push_str(&mut o, "</p>");
                    text::push_str(&mut o, hh.as_str());
                    o
                },
                None => hh,
            };
            text::push_str(&mut out, h.as_str());
            proof {
                assert(out@ =~= forwarded_html(text::opt_str_view(preamble), *original)->0);
            }
            Some(out)
        },
        None => None,
    };
    (Some(text_part), html_part)
}

// ── Message identifiers ────────────────────────────────────────────────────

/// The text after the last `@`, or the whole address when it has none.
pub open spec fn address_domain(email: Seq<char>) -> Seq<char> {
    match text::rfind_char(email, '@') {
        Some(i) => email.skip(i + 1),
        None => email,
    }
}

/// `<unique@domain>` for an outgoing message, the domain taken from the
/// sender's address.
pub open spec fn message_id_text(unique: Seq<char>, sender_email: Seq<char>) -> Seq<char> {
    "<"@ + unique + "@"@ + address_domain(sender_email) + ">"@
}

pub fn message_id_for(unique: &str, sender_email: &str) -> (res: String)
    ensures
        res@ == message_id_text(unique@, sender_email@),
{
    let v = text::chars_of(sender_email);
    let domain = match text::rfind_in(&v, '@') {
        Some(i) => {
            let d = text::string_from(&v, i + 1, v.len());
            proof {
                assert(v@.subrange(i + 1, v.len() as int) =~= v@.skip(i + 1));
            }
            d
        },
        None => text::copy_str(sender_email),
    };
    let mut r = text::copy_str("<");
    text::push_str(&mut r, unique);
    text::push_str(&mut r, "@");
    text::push_str(&mut r, domain.as_str());
    text::push_str(&mut r, ">");
    r
}

/// A fresh random (version 4) UUID in its hyphenated 36-character form
/// (`uuid::Uuid::new_v4`). Only its length is stated: the value is random.
#[verifier::external_body]
fn new_uuid_v4() -> (res: String)
    ensures
        res@.len() == 36,
{
    uuid::Uuid::new_v4().to_string()
}

/// A new unique `Message-ID` for mail sent by `sender_email`.
pub fn generate_message_id(sender_email: &str) -> (res: String)
    ensures
        exists|u: Seq<char>| u.len() == 36 && res@ == message_id_text(u, sender_email@),
{
    let unique = new_uuid_v4();
    message_id_for(unique.as_str(), sender_email)
}


// ── Laws ───────────────────────────────────────────────────────────────────

proof fn lemma_lower_concat(a: Seq<char>, b: Seq<char>)
    ensures
        text::lower(a + b) == text::lower(a) + text::lower(b),
{
    assert(text::lower(a + b) =~= text::lower(a) + text::lower(b));
}

/// Replying to a reply does not stack prefixes: `reply_subject` applied twice
/// is `reply_subject` applied once.
pub proof fn law_reply_subject_idempotent(subject: Seq<char>)
    ensures
        reply_subject_text(reply_subject_text(subject)) == reply_subject_text(subject),
{
    if !text::starts_with(text::lower(subject), "re:"@) {
        reveal_strlit("Re: ");
        reveal_strlit("re:");
        let r = "Re: "@ + subject;
        lemma_lower_concat("Re: "@, subject);
        assert(text::lower("Re: "@) =~= seq!['r', 'e', ':', ' ']);
        assert(text::lower(r).take(3) =~= "re:"@);
    }
}

/// Forwarding a forward does not stack prefixes either.
pub proof fn law_forward_subject_idempotent(subject: Seq<char>)
    ensures
        forward_subject_text(forward_subject_text(subject)) == forward_subject_text(subject),
{
    if !text::starts_with(text::lower(subject), "fwd:"@) {
        reveal_strlit("Fwd: ");
        reveal_strlit("fwd:");
        let r = "Fwd: "@ + subject;
        lemma_lower_concat("Fwd: "@, subject);
        assert(text::lower("Fwd: "@) =~= seq!['f', 'w', 'd', ':', ' ']);
        assert(text::lower(r).take(4) =~= "fwd:"@);
    }
}

/// Escaped text holds no markup characters: no `<`, `>`, `"` or `'`.
pub proof fn law_escaped_has_no_markup(s: Seq<char>)
    ensures
        forall|i: int| 0 <= i < escaped(s).len() ==> {
            let c = #[trigger] escaped(s)[i];
            c != '<' && c != '>' && c != '"' && c != '\''
        },
    decreases s.len(),
{
    if s.len() > 0 {
        law_escaped_has_no_markup(s.drop_last());
        reveal_strlit("&amp;");
        reveal_strlit("&lt;");
        reveal_strlit("&gt;");
        reveal_strlit("&quot;");
        reveal_strlit("&#39;");
        let a = escaped(s.drop_last());
        let b = escape_char(s.last());
        assert forall|i: int| 0 <= i < escaped(s).len() implies {
            let c = #[trigger] escaped(s)[i];
            c != '<' && c != '>' && c != '"' && c != '\''
        } by {
            if i >= a.len() {
                assert(escaped(s)[i] == b[i - a.len()]);
            } else {
                assert(escaped(s)[i] == a[i]);
            }
        }
    }
}

/// Escaping, read from the front: the first character's escape, then the
/// rest escaped.
proof fn lemma_escaped_front(s: Seq<char>)
    requires
        s.len() > 0,
    ensures
        escaped(s) == escape_char(s[0]) + escaped(s.skip(1)),
    decreases s.len(),
{
    if s.len() > 1 {
        lemma_escaped_front(s.drop_last());
        assert(s.drop_last().skip(1) =~= s.skip(1).drop_last());
        assert(s.drop_last()[0] == s[0]);
        assert(s.skip(1).last() == s.last());
    } else {
        assert(s.skip(1) =~= Seq::<char>::empty());
        assert(s.drop_last() =~= Seq::<char>::empty());
    }
}

/// The `k`-th replacement of HTML decoding, for `k < 5`: the entity
/// replaced...
pub open spec fn entity_pattern(k: int) -> Seq<char> {
    if k == 0 {
        "&lt;"@
    } else if k == 1 {
        "&gt;"@
    } else if k == 2 {
        "&quot;"@
    } else if k == 3 {
        "&#39;"@
    } else {
        "&amp;"@
    }
}

/// ...and the character it becomes.
pub open spec fn entity_char(k: int) -> Seq<char> {
    if k == 0 {
        "<"@
    } else if k == 1 {
        ">"@
    } else if k == 2 {
        "\""@
    } else if k == 3 {
        "'"@
    } else {
        "&"@
    }
}

/// HTML entities decoded with `str::replace`: `&lt;`, `&gt;`, `&quot;` and
/// `&#39;` first, `&amp;` last, so that an escaped `&` is never decoded
/// twice.
pub open spec fn unescaped(t: Seq<char>) -> Seq<char> {
    text::replace_all(
        text::replace_all(
            text::replace_all(
                text::replace_all(
                    text::replace_all(t, entity_pattern(0), entity_char(0)),
                    entity_pattern(1),
                    entity_char(1),
                ),
                entity_pattern(2),
                entity_char(2),
            ),
            entity_pattern(3),
            entity_char(3),
        ),
        entity_pattern(4),
        entity_char(4),
    )
}

/// The text standing for `c` once the first `k` replacements are done.
pub open spec fn decoded_token(c: char, k: int) -> Seq<char> {
    if c == '<' && k < 1 {
        "&lt;"@
    } else if c == '>' && k < 2 {
        "&gt;"@
    } else if c == '"' && k < 3 {
        "&quot;"@
    } else if c == '\'' && k < 4 {
        "&#39;"@
    } else if c == '&' && k < 5 {
        "&amp;"@
    } else {
        seq![c]
    }
}

/// The text standing for `s` once the first `k` replacements are done.
pub open spec fn decoded_tokens(s: Seq<char>, k: int) -> Seq<char>
    decreases s.len(),
{
    if s.len() == 0 {
        Seq::empty()
    } else {
        decoded_token(s[0], k) + decoded_tokens(s.skip(1), k)
    }
}

/// Replacing an `&`-entity in text that starts with no `&` leaves that
/// start as it is.
proof fn lemma_replace_after_plain(x: Seq<char>, rest: Seq<char>, p: Seq<char>, r: Seq<char>)
    requires
        p.len() > 0,
        p[0] == '&',
        forall|i: int| 0 <= i < x.len() ==> x[i] != '&',
    ensures
        text::replace_all(x + rest, p, r) == x + text::replace_all(rest, p, r),
    decreases x.len(),
{
    if x.len() == 0 {
        assert(x + rest =~= rest);
    } else {
        let t = x + rest;
        assert(t[0] == x[0]);
        assert(!text::starts_with(t, p)) by {
            if text::starts_with(t, p) {
                assert(t.take(p.len() as int)[0] == p[0]);
            }
        }
        assert(t.drop_first() =~= x.drop_first() + rest);
        lemma_replace_after_plain(x.drop_first(), rest, p, r);
        assert(seq![x[0]] + (x.drop_first() + text::replace_all(rest, p, r)) =~= x + text::replace_all(
            rest,
            p,
            r,
        ));
    }
}

/// One replacement step acts on one character's token alone.
proof fn lemma_token_step(c: char, k: int, rest: Seq<char>)
    requires
        0 <= k < 5,
    ensures
        text::replace_all(decoded_token(c, k) + rest, entity_pattern(k), entity_char(k))
            == decoded_token(c, k + 1) + text::replace_all(rest, entity_pattern(k), entity_char(k)),
{
    reveal_strlit("&lt;");
    reveal_strlit("&gt;");
    reveal_strlit("&quot;");
    reveal_strlit("&#39;");
    reveal_strlit("&amp;");
    reveal_strlit("<");
    reveal_strlit(">");
    reveal_strlit("\"");
    reveal_strlit("'");
    reveal_strlit("&");
    let x = decoded_token(c, k);
    let p = entity_pattern(k);
    let r = entity_char(k);
    let t = x + rest;
    if x == p {
        assert(t.take(p.len() as int) =~= p);
        assert(t.skip(p.len() as int) =~= rest);
        assert(decoded_token(c, k + 1) == r);
    } else if x.len() == 1 {
        assert(x[0] != '&');
        lemma_replace_after_plain(x, rest, p, r);
        assert(decoded_token(c, k + 1) == x);
    } else {
        assert(x[0] == '&');
        assert(x[1] != p[1]);
        assert(!text::starts_with(t, p)) by {
            if text::starts_with(t, p) {
                assert(t.take(p.len() as int)[1] == p[1]);
            }
        }
        let tail = x.drop_first();
        assert(forall|i: int| 0 <= i < tail.len() ==> tail[i] != '&');
        assert(t.drop_first() =~= tail + rest);
        lemma_replace_after_plain(tail, rest, p, r);
        assert(seq![x[0]] + (tail + text::replace_all(rest, p, r)) =~= x + text::replace_all(rest, p, r));
        assert(decoded_token(c, k + 1) == x);
    }
}

/// One replacement step over a whole text moves every token one stage on.
proof fn lemma_stage(s: Seq<char>, k: int)
    requires
        0 <= k < 5,
    ensures
        text::replace_all(decoded_tokens(s, k), entity_pattern(k), entity_char(k)) == decoded_tokens(
            s,
            k + 1,
        ),
    decreases s.len(),
{
    if s.len() == 0 {
        reveal_strlit("&lt;");
        reveal_strlit("&gt;");
        reveal_strlit("&quot;");
        reveal_strlit("&#39;");
        reveal_strlit("&amp;");
    } else {
        lemma_stage(s.skip(1), k);
        lemma_token_step(s[0], k, decoded_tokens(s.skip(1), k));
    }
}

/// Before any replacement, the tokens are the escaped text; after all five,
/// the original text.
proof fn lemma_token_ends(s: Seq<char>)
    ensures
        decoded_tokens(s, 0) == escaped(s),
        decoded_tokens(s, 5) == s,
    decreases s.len(),
{
    if s.len() == 0 {
        assert(escaped(s) =~= Seq::<char>::empty());
    } else {
        lemma_token_ends(s.skip(1));
        lemma_escaped_front(s);
        assert(decoded_token(s[0], 0) == escape_char(s[0]));
        assert(seq![s[0]] + s.skip(1) =~= s);
    }
}

/// Decoding the entities of escaped text with `str::replace` (`&amp;`
/// last) gives the original text back: `escape_html` loses nothing.
pub proof fn law_unescape_undoes_escape(s: Seq<char>)
    ensures
        unescaped(escaped(s)) == s,
{
    lemma_token_ends(s);
    lemma_stage(s, 0);
    lemma_stage(s, 1);
    lemma_stage(s, 2);
    lemma_stage(s, 3);
    lemma_stage(s, 4);
}

/// A reply names its parent: In-Reply-To is the parent's Message-ID, and
/// the References list ends up holding it.
pub proof fn law_reply_threads_to_parent(m: MessageRecord)
    requires
        m.rfc_message_id is Some,
    ensures
        reply_refs(m).contains(m.rfc_message_id->0@),
{
    let base = text::views(m.references@);
    let with_parent = if base.len() == 0 && m.in_reply_to is Some {
        base.push(m.in_reply_to->0@)
    } else {
        base
    };
    let all = with_parent.push(m.rfc_message_id->0@);
    assert(all[all.len() - 1] == m.rfc_message_id->0@);
    assert(all.contains(m.rfc_message_id->0@));
    law_dedup_same_values(all);
}

/// A sanitized file name never leaves its directory: it holds no path
/// separator and is not `..`, provided the fallback is such a name too.
pub proof fn law_safe_file_name_stays_in_dir(name: Seq<char>, fallback: Seq<char>)
    requires
        forall|i: int| 0 <= i < fallback.len() ==> #[trigger] fallback[i] != '/' && fallback[i] != '\\',
        fallback != ".."@,
    ensures
        forall|i: int| 0 <= i < safe_file_name(name, fallback).len() ==> #[trigger] safe_file_name(name, fallback)[i] != '/'
            && safe_file_name(name, fallback)[i] != '\\',
        safe_file_name(name, fallback) != ".."@,
{
    let base = match file_name(name) {
        Some(b) => if b.len() > 0 {
            b
        } else {
            fallback
        },
        None => fallback,
    };
    let m = base.map_values(|c: char| safe_char(c));
    text::lemma_lead_trail_exist(m, text::CharClass::Only('.'));
    let st = text::trim_start_by(m, text::CharClass::Only('.'));
    text::lemma_lead_trail_exist(st, text::CharClass::Only('.'));
    let out = sanitized_name(base);
    assert forall|i: int| 0 <= i < out.len() implies #[trigger] out[i] != '/' && out[i] != '\\' && out[i] != '.' || (out[i] != '/' && out[i] != '\\') by {
        let j = i + text::lead_len(m, text::CharClass::Only('.'));
        assert(out[i] == st[i]);
        assert(st[i] == m[j]);
        assert(m[j] == safe_char(base[j]));
    }
    if out.len() > 0 {
        reveal_strlit("..");
        assert(out[0] != '.') by {
            let l = text::lead_len(m, text::CharClass::Only('.'));
            assert(out[0] == m[l]);
        }
        assert(out != ".."@) by {
            assert(".."@[0] == '.');
        }
    }
}

} // verus!
