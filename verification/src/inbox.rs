//! Reading the local mailbox: display clean-up of bodies, list previews,
//! paging, bulk updates and conversation threading.
use vstd::prelude::*;

use crate::models::{MessageRecord, MessageSummary};
use crate::num;
use crate::subject;
use crate::text;

verus! {

// ── Addresses in thread matching ───────────────────────────────────────────

/// The text between the first `<` and the last `>` when they come in that
/// order, trimmed; otherwise the whole value trimmed.
pub open spec fn bare_email(raw: Seq<char>) -> Seq<char> {
    match (text::find_char(raw, '<'), text::rfind_char(raw, '>')) {
        (Some(open), Some(close)) => if open < close {
            text::trim(raw.subrange(open + 1, close))
        } else {
            text::trim(raw)
        },
        _ => text::trim(raw),
    }
}

pub fn extract_bare_email(raw: &str) -> (res: String)
    ensures
        res@ == bare_email(raw@),
{
    let v = text::chars_of(raw);
    proof {
        assert(v@.skip(0) =~= v@);
    }
    let open = text::find_in(&v, 0, '<');
    let close = text::rfind_in(&v, '>');
    match (open, close) {
        (Some(o), Some(c)) => {
            if o < c {
                let (a, b) = text::trim_bounds(&v, o + 1, c, text::CharClass::Whitespace);
                return text::string_from(&v, a, b);
            }
        },
        _ => {},
    }
    text::trim_str(raw)
}

/// Lower-cased text after the last `@`, trimmed; empty without an `@`.
pub open spec fn domain_of(addr: Seq<char>) -> Seq<char> {
    match text::rfind_char(addr, '@') {
        Some(at) => subject::unicode_lower(text::trim(addr.skip(at + 1))),
        None => Seq::empty(),
    }
}

pub fn email_domain(addr: &str) -> (res: String)
    ensures
        res@ == domain_of(addr@),
{
    let v = text::chars_of(addr);
    match text::rfind_in(&v, '@') {
        Some(at) => {
            let (a, b) = text::trim_bounds(&v, at + 1, v.len(), text::CharClass::Whitespace);
            proof {
                assert(v@.subrange(at + 1, v.len() as int) =~= v@.skip(at + 1));
            }
            let t = text::string_from(&v, a, b);
            subject::to_lowercase(t.as_str())
        },
        None => String::new(),
    }
}

// ── Terminal-safe bodies ───────────────────────────────────────────────────

/// A character that ends an ANSI control sequence (`ESC [ ... final`).
pub open spec fn csi_final(c: char) -> bool {
    text::is_ascii_alpha(c) || c == '~'
}

pub open spec fn is_first_final(t: Seq<char>, i: int) -> bool {
    0 <= i < t.len() && csi_final(t[i]) && forall|j: int| 0 <= j < i ==> !csi_final(t[j])
}

/// How many characters after `ESC [` belong to the control sequence: up to
/// and including the first final character, or all that is left.
pub open spec fn csi_len(t: Seq<char>) -> int {
    if exists|i: int| is_first_final(t, i) {
        let i = choose|i: int| is_first_final(t, i);
        i + 1
    } else {
        t.len() as int
    }
}

proof fn lemma_csi_len(t: Seq<char>, i: int)
    requires
        is_first_final(t, i),
    ensures
        csi_len(t) == i + 1,
{
    let k = choose|k: int| is_first_final(t, k);
    assert(is_first_final(t, k));
    if k < i {
        assert(!csi_final(t[k]));
    } else if i < k {
        assert(!csi_final(t[i]));
    }
}

proof fn lemma_csi_len_none(t: Seq<char>)
    requires
        forall|j: int| 0 <= j < t.len() ==> !csi_final(#[trigger] t[j]),
    ensures
        csi_len(t) == t.len(),
{
}

/// `s` without ANSI escape sequences: `ESC [ ... final` is removed whole, a
/// lone `ESC` is dropped.
pub open spec fn ansi_stripped(s: Seq<char>) -> Seq<char>
    decreases s.len(),
{
    if s.len() == 0 {
        s
    } else if s[0] == '\x1b' {
        if s.len() >= 2 && s[1] == '[' {
            let t = s.skip(2);
            let n = csi_len(t);
            if 0 <= n <= t.len() {
                ansi_stripped(t.skip(n))
            } else {
                Seq::empty()
            }
        } else {
            ansi_stripped(s.drop_first())
        }
    } else {
        seq![s[0]] + ansi_stripped(s.drop_first())
    }
}

pub fn strip_ansi(input: &str) -> (res: String)
    ensures
        res@ == ansi_stripped(input@),
{
    let v = text::chars_of(input);
    let mut res = String::new();
    let mut i: usize = 0;
    proof {
        assert(v@.skip(0) =~= v@);
    }
    while i < v.len()
        invariant
            i <= v.len(),
            v@ == input@,
            ansi_stripped(input@) == res@ + ansi_stripped(v@.skip(i as int)),
        decreases v.len() - i,
    {
        let ghost rest = v@.skip(i as int);
        let c = v[i];
        let ghost before = res@;
        if c == '\x1b' {
            if i + 1 < v.len() && v[i + 1] == '[' {
                let mut j = i + 2;
                while j < v.len() && !(text::ascii_alpha(v[j]) || v[j] == '~')
                    invariant
                        i + 2 <= j <= v.len(),
                        forall|k: int| i + 2 <= k < j ==> !csi_final(#[trigger] v@[k]),
                    decreases v.len() - j,
                {
                    j = j + 1;
                }
                let ghost t = rest.skip(2);
                proof {
                    assert(t =~= v@.skip(i + 2));
                    if j < v.len() {
                        assert(is_first_final(t, j - i - 2)) by {
                            assert forall|k: int| 0 <= k < j - i - 2 implies !csi_final(t[k]) by {
                                assert(t[k] == v@[i + 2 + k]);
                            }
                            assert(t[j - i - 2] == v@[j as int]);
                        }
                        lemma_csi_len(t, j - i - 2);
                    } else {
                        assert forall|k: int| 0 <= k < t.len() implies !csi_final(#[trigger] t[k]) by {
                            assert(t[k] == v@[i + 2 + k]);
                        }
                        lemma_csi_len_none(t);
                    }
                }
                let next = if j < v.len() {
                    j + 1
                } else {
                    j
                };
                proof {
                    assert(t.skip(csi_len(t)) =~= v@.skip(next as int));
                }
                i = next;
            } else {
                proof {
                    assert(rest.drop_first() =~= v@.skip(i + 1));
                }
                i = i + 1;
            }
        } else {
            text::push_char(&mut res, c);
            proof {
                assert(rest.drop_first() =~= v@.skip(i + 1));
                assert(before + (seq![c] + ansi_stripped(v@.skip(i + 1))) =~= res@ + ansi_stripped(
                    v@.skip(i + 1),
                ));
            }
            i = i + 1;
        }
    }
    proof {
        assert(v@.skip(i as int) =~= Seq::<char>::empty());
        assert(res@ + Seq::<char>::empty() =~= res@);
    }
    res
}

/// Text outside `<...>` tags, and whether a tag is still open.
pub open spec fn tag_scan(s: Seq<char>) -> (Seq<char>, bool)
    decreases s.len(),
{
    if s.len() == 0 {
        (Seq::empty(), false)
    } else {
        let (out, in_tag) = tag_scan(s.drop_last());
        let c = s.last();
        if c == '<' {
            (out, true)
        } else if c == '>' {
            (out, false)
        } else if !in_tag {
            (out.push(c), in_tag)
        } else {
            (out, in_tag)
        }
    }
}

/// Lines trimmed and ended with `\n`; runs of blank lines become one `\n`.
pub open spec fn collapse_lines(ls: Seq<Seq<char>>) -> (Seq<char>, bool)
    decreases ls.len(),
{
    if ls.len() == 0 {
        (Seq::empty(), false)
    } else {
        let (out, prev_blank) = collapse_lines(ls.drop_last());
        let t = text::trim(ls.last());
        if t.len() == 0 {
            if !prev_blank {
                (out.push('\n'), true)
            } else {
                (out, prev_blank)
            }
        } else {
            (out + t + seq!['\n'], false)
        }
    }
}

/// Readable text of an HTML body: tags removed, lines trimmed, blank runs
/// collapsed.
pub open spec fn html_text(html: Seq<char>) -> Seq<char> {
    collapse_lines(text::lines(tag_scan(html).0)).0
}

pub fn strip_html_tags(html: &str) -> (res: String)
    ensures
        res@ == html_text(html@),
{
    let v = text::chars_of(html);
    let mut result = String::new();
    let mut in_tag = false;
    let mut i: usize = 0;
    while i < v.len()
        invariant
            i <= v.len(),
            tag_scan(v@.take(i as int)) == (result@, in_tag),
        decreases v.len() - i,
    {
        let c = v[i];
        proof {
            assert(v@.take(i + 1).drop_last() =~= v@.take(i as int));
        }
        if c == '<' {
            in_tag = true;
        } else if c == '>' {
            in_tag = false;
        } else if !in_tag {
            text::push_char(&mut result, c);
        }
        i = i + 1;
    }
    proof {
        assert(v@.take(v.len() as int) =~= html@);
    }
    let ls = text::lines_of(result.as_str());
    let mut cleaned = String::new();
    let mut prev_blank = false;
    let mut k: usize = 0;
    while k < ls.len()
        invariant
            k <= ls.len(),
            collapse_lines(text::views(ls@).take(k as int)) == (cleaned@, prev_blank),
        decreases ls.len() - k,
    {
        proof {
            assert(text::views(ls@).take(k + 1).drop_last() =~= text::views(ls@).take(k as int));
        }
        let t = text::trim_str(ls[k].as_str());
        if t.as_str().is_empty() {
            if !prev_blank {
                text::push_char(&mut cleaned, '\n');
                prev_blank = true;
            }
        } else {
            let ghost before = cleaned@;
            text::push_str(&mut cleaned, t.as_str());
            text::push_char(&mut cleaned, '\n');
            proof {
                assert(cleaned@ =~= before + t@ + seq!['\n']);
            }
            prev_blank = false;
        }
        k = k + 1;
    }
    proof {
        assert(text::views(ls@).take(ls.len() as int) =~= text::views(ls@));
    }
    cleaned
}

// ── List previews ──────────────────────────────────────────────────────────

/// UTF-8 length of one character.
pub open spec fn utf8_width(c: char) -> nat {
    let n = c as u32;
    if n < 0x80 {
        1
    } else if n < 0x800 {
        2
    } else if n < 0x10000 {
        3
    } else {
        4
    }
}

/// Length in bytes of the UTF-8 encoding (`str::len`).
pub open spec fn utf8_len(s: Seq<char>) -> nat
    decreases s.len(),
{
    if s.len() == 0 {
        0
    } else {
        utf8_len(s.drop_last()) + utf8_width(s.last())
    }
}

pub fn byte_len(s: &str) -> (res: usize)
    ensures
        res as nat == utf8_len(s@) || (res == usize::MAX && utf8_len(s@) >= usize::MAX),
{
    let v = text::chars_of(s);
    let mut total: usize = 0;
    let mut i: usize = 0;
    while i < v.len()
        invariant
            i <= v.len(),
            v@ == s@,
            total as nat == utf8_len(v@.take(i as int)),
        decreases v.len() - i,
    {
        let n = v[i] as u32;
        let w: usize = if n < 0x80 {
            1
        } else if n < 0x800 {
            2
        } else if n < 0x10000 {
            3
        } else {
            4
        };
        proof {
            assert(v@.take(i + 1).drop_last() =~= v@.take(i as int));
        }
        if total > usize::MAX - w {
            proof {
                lemma_utf8_len_mono(v@, (i + 1) as int);
                assert(v@.take(v.len() as int) =~= v@);
            }
            return usize::MAX;
        }
        total = total + w;
        i = i + 1;
    }
    proof {
        assert(v@.take(v.len() as int) =~= v@);
    }
    total
}

proof fn lemma_utf8_len_mono(s: Seq<char>, k: int)
    requires
        0 <= k <= s.len(),
    ensures
        utf8_len(s.take(k)) <= utf8_len(s),
    decreases s.len() - k,
{
    if k < s.len() {
        lemma_utf8_len_mono(s, k + 1);
        assert(s.take(k + 1).drop_last() =~= s.take(k));
    } else {
        assert(s.take(k) =~= s);
    }
}

/// Preview accumulation over body lines: blank and quoted (`>`) lines are
/// skipped, a short `--` line (signature delimiter) stops, and more than
/// 200 characters stops.
pub open spec fn preview_scan(ls: Seq<Seq<char>>) -> (Seq<char>, bool)
    decreases ls.len(),
{
    if ls.len() == 0 {
        (Seq::empty(), false)
    } else {
        let (out, stopped) = preview_scan(ls.drop_last());
        let t = text::trim(ls.last());
        if stopped || t.len() == 0 || t[0] == '>' {
            (out, stopped)
        } else if text::starts_with(t, "--"@) && utf8_len(t) < 6 {
            (out, true)
        } else {
            let joined = (if out.len() > 0 {
                out.push(' ')
            } else {
                out
            }) + t;
            (joined, joined.len() > 200)
        }
    }
}

/// One-line snippet of a text body: the first 160 characters of the
/// preview scan, trimmed.
pub open spec fn preview_text(body: Seq<char>) -> Seq<char> {
    let out = preview_scan(text::lines(body)).0;
    text::trim(
        if out.len() > 160 {
            out.take(160)
        } else {
            out
        },
    )
}

pub fn build_preview(body: &str) -> (res: String)
    ensures
        res@ == preview_text(body@),
{
    let ls = text::lines_of(body);
    let mut out = String::new();
    let mut stopped = false;
    let mut k: usize = 0;
    while k < ls.len()
        invariant
            k <= ls.len(),
            preview_scan(text::views(ls@).take(k as int)) == (out@, stopped),
        decreases ls.len() - k,
    {
        proof {
            assert(text::views(ls@).take(k + 1).drop_last() =~= text::views(ls@).take(k as int));
        }
        if !stopped {
            let t = text::trim_str(ls[k].as_str());
            let tv = text::chars_of(t.as_str());
            if tv.len() == 0 || tv[0] == '>' {
            } else if text::str_starts_with(t.as_str(), "--") && byte_len(t.as_str()) < 6 {
                stopped = true;
            } else {
                let ghost before = out@;
                if !out.as_str().is_empty() {
                    text::push_char(&mut out, ' ');
                }
                text::push_str(&mut out, t.as_str());
                let count = text::chars_of(out.as_str()).len();
                stopped = count > 200;
            }
        }
        k = k + 1;
    }
    proof {
        assert(text::views(ls@).take(ls.len() as int) =~= text::views(ls@));
    }
    let ov = text::chars_of(out.as_str());
    let end = if ov.len() > 160 {
        160
    } else {
        ov.len()
    };
    let (a, b) = text::trim_bounds(&ov, 0, end, text::CharClass::Whitespace);
    proof {
        assert(ov@.subrange(0, end as int) =~= (if ov@.len() > 160 {
            ov@.take(160)
        } else {
            ov@
        }));
    }
    text::string_from(&ov, a, b)
}


// ── Threads ────────────────────────────────────────────────────────────────

/// `rs` appended to `base`, skipping values already present.
pub open spec fn add_missing(base: Seq<Seq<char>>, rs: Seq<Seq<char>>) -> Seq<Seq<char>>
    decreases rs.len(),
{
    if rs.len() == 0 {
        base
    } else {
        let x = add_missing(base, rs.drop_last());
        if x.contains(rs.last()) {
            x
        } else {
            x.push(rs.last())
        }
    }
}

pub open spec fn opt_list(o: Option<String>) -> Seq<Seq<char>> {
    match o {
        Some(s) => seq![s@],
        None => Seq::empty(),
    }
}

/// Message-IDs that identify a message's conversation: its own, its
/// In-Reply-To, then its References not already listed.
pub open spec fn thread_id_list(m: MessageRecord) -> Seq<Seq<char>> {
    add_missing(opt_list(m.rfc_message_id) + opt_list(m.in_reply_to), text::views(m.references@))
}

/// Adding missing values keeps `base` in front, adds every value of `rs`,
/// adds nothing else, and adds each value at most once.
proof fn lemma_add_missing(base: Seq<Seq<char>>, rs: Seq<Seq<char>>)
    ensures
        add_missing(base, rs).len() >= base.len(),
        add_missing(base, rs).take(base.len() as int) == base,
        forall|j: int| 0 <= j < rs.len() ==> add_missing(base, rs).contains(#[trigger] rs[j]),
        forall|k: int|
            0 <= k < add_missing(base, rs).len() ==> base.contains(#[trigger] add_missing(base, rs)[k])
                || rs.contains(add_missing(base, rs)[k]),
        forall|k: int, l: int|
            base.len() <= k < l < add_missing(base, rs).len() ==> #[trigger] add_missing(base, rs)[k]
                != #[trigger] add_missing(base, rs)[l],
        forall|k: int, l: int|
            0 <= k < base.len() <= l < add_missing(base, rs).len() ==> #[trigger] add_missing(base, rs)[k]
                != #[trigger] add_missing(base, rs)[l],
    decreases rs.len(),
{
    if rs.len() > 0 {
        let p = rs.drop_last();
        lemma_add_missing(base, p);
        let x = add_missing(base, p);
        let y = add_missing(base, rs);
        assert forall|j: int| 0 <= j < rs.len() implies y.contains(#[trigger] rs[j]) by {
            if j < p.len() {
                assert(p[j] == rs[j]);
                let i = choose|i: int| 0 <= i < x.len() && x[i] == p[j];
                assert(y[i] == rs[j]);
            } else if !x.contains(rs.last()) {
                assert(y[x.len() as int] == rs[j]);
            }
        }
        assert forall|k: int| 0 <= k < y.len() implies base.contains(#[trigger] y[k]) || rs.contains(y[k]) by {
            if k < x.len() {
                assert(y[k] == x[k]);
                if p.contains(x[k]) {
                    let i = choose|i: int| 0 <= i < p.len() && p[i] == x[k];
                    assert(rs[i] == x[k]);
                }
            } else {
                assert(y[k] == rs[rs.len() - 1]);
            }
        }
        if !x.contains(rs.last()) {
            assert(y.take(base.len() as int) =~= x.take(base.len() as int));
            assert forall|k: int, l: int| base.len() <= k < l < y.len() implies #[trigger] y[k] != #[trigger] y[l] by {
                if l == x.len() {
                    assert(y[k] == x[k]);
                }
            }
            assert forall|k: int, l: int| 0 <= k < base.len() <= l < y.len() implies #[trigger] y[k] != #[trigger] y[l] by {
                if l == x.len() {
                    assert(y[k] == x[k]);
                }
            }
        }
    } else {
        assert(base.take(base.len() as int) =~= base);
    }
}

/// The thread of a message starts with its own Message-ID, then its
/// In-Reply-To, and holds every entry of its References; each id it adds
/// from the References appears once, and it holds nothing that is not one
/// of these ids.
pub proof fn law_thread_ids_follow_the_chain(m: MessageRecord)
    ensures
        forall|j: int|
            0 <= j < m.references@.len() ==> thread_id_list(m).contains(#[trigger] m.references@[j]@),
        m.rfc_message_id matches Some(id) ==> thread_id_list(m)[0] == id@,
        m.in_reply_to matches Some(p) ==> thread_id_list(m).contains(p@),
        forall|k: int|
            0 <= k < thread_id_list(m).len() ==> text::opt_view(m.rfc_message_id) == Some(
                #[trigger] thread_id_list(m)[k],
            ) || text::opt_view(m.in_reply_to) == Some(thread_id_list(m)[k]) || text::views(
                m.references@,
            ).contains(thread_id_list(m)[k]),
{
    let base = opt_list(m.rfc_message_id) + opt_list(m.in_reply_to);
    let rs = text::views(m.references@);
    lemma_add_missing(base, rs);
    let t = thread_id_list(m);
    assert forall|j: int| 0 <= j < m.references@.len() implies t.contains(#[trigger] m.references@[j]@) by {
        assert(rs[j] == m.references@[j]@);
    }
    if m.rfc_message_id is Some {
        assert(t.take(base.len() as int)[0] == base[0]);
    }
    match m.in_reply_to {
        Some(p) => {
            let i = base.len() - 1;
            assert(base[i] == p@);
            assert(t.take(base.len() as int)[i] == t[i]);
        },
        None => {},
    }
    assert forall|k: int| 0 <= k < t.len() implies text::opt_view(m.rfc_message_id) == Some(
        #[trigger] t[k],
    ) || text::opt_view(m.in_reply_to) == Some(t[k]) || rs.contains(t[k]) by {
        if base.contains(t[k]) {
            let i = choose|i: int| 0 <= i < base.len() && base[i] == t[k];
            assert(base[i] == t[k]);
        }
    }
}

pub fn thread_ids(seed: &MessageRecord) -> (res: Vec<String>)
    ensures
        text::views(res@) == thread_id_list(*seed),
{
    let mut ids: Vec<String> = Vec::new();
    match &seed.rfc_message_id {
        Some(m) => ids.push(m.clone()),
        None => {},
    }
    match &seed.in_reply_to {
        Some(m) => ids.push(m.clone()),
        None => {},
    }
    let ghost base = text::views(ids@);
    proof {
        assert(base =~= opt_list(seed.rfc_message_id) + opt_list(seed.in_reply_to));
    }
    let mut i: usize = 0;
    while i < seed.references.len()
        invariant
            i <= seed.references.len(),
            base == opt_list(seed.rfc_message_id) + opt_list(seed.in_reply_to),
            text::views(ids@) == add_missing(base, text::views(seed.references@).take(i as int)),
        decreases seed.references.len() - i,
    {
        let r = &seed.references[i];
        proof {
            assert(text::views(seed.references@).take(i + 1).drop_last() =~= text::views(
                seed.references@,
            ).take(i as int));
        }
        if !crate::helpers::contains_string(&ids, r.as_str()) {
            let ghost before = ids@;
            let c = r.clone();
            ids.push(c);
            proof {
                assert(text::views(ids@) =~= text::views(before).push(c@));
            }
        }
        i = i + 1;
    }
    proof {
        assert(text::views(seed.references@).take(seed.references.len() as int) =~= text::views(
            seed.references@,
        ));
    }
    ids
}

/// ASCII case-insensitive equality (`str::eq_ignore_ascii_case`).
pub open spec fn same_ignoring_ascii_case(a: Seq<char>, b: Seq<char>) -> bool {
    text::lower(a) == text::lower(b)
}

pub fn eq_ignore_ascii_case(a: &str, b: &str) -> (res: bool)
    ensures
        res == same_ignoring_ascii_case(a@, b@),
{
    let la = text::to_ascii_lower(a);
    let lb = text::to_ascii_lower(b);
    text::seq_eq(la.as_str(), lb.as_str())
}

pub open spec fn bare_all(s: Seq<Seq<char>>) -> Seq<Seq<char>> {
    s.map_values(|a: Seq<char>| bare_email(a))
}

pub open spec fn domains_all(s: Seq<Seq<char>>) -> Seq<Seq<char>> {
    s.map_values(|a: Seq<char>| domain_of(a))
}

/// Subjects belong together when both normalise to something non-empty and
/// one contains the other.
pub open spec fn subjects_related(seed_norm: Seq<char>, cand_subject: Seq<char>) -> bool {
    let c = subject::normalized_subject(cand_subject);
    c.len() > 0 && (c == seed_norm || text::contains(seed_norm, c) || text::contains(c, seed_norm))
}

/// The seed and the candidate share a participant: an exact address (ASCII
/// case-insensitive) seen on both sides, or the candidate's sender domain
/// among the seed's recipients' domains, or the seed's sender domain among
/// the candidate's recipients' domains.
pub open spec fn participants_related(
    seed_from: Seq<char>,
    seed_to: Seq<Seq<char>>,
    cand_from: Seq<char>,
    cand_to: Seq<Seq<char>>,
) -> bool {
    let sf = bare_email(seed_from);
    let st = bare_all(seed_to).filter(|a: Seq<char>| a.len() > 0);
    let cf = bare_email(cand_from);
    let ct = bare_all(cand_to);
    let exact = (exists|i: int| 0 <= i < ct.len() && same_ignoring_ascii_case(ct[i], sf)) || (exists|
        i: int,
    | 0 <= i < st.len() && same_ignoring_ascii_case(st[i], cf)) || same_ignoring_ascii_case(cf, sf);
    let cfd = domain_of(cf);
    let domain = cfd.len() > 0 && (domains_all(st).contains(cfd) || domains_all(ct).contains(
        domain_of(sf),
    ));
    exact || domain
}

/// Whether a nearby message joins the seed's conversation when the header
/// chain is broken: related subjects and a shared participant.
pub open spec fn thread_linked(seed: MessageRecord, cand: MessageSummary) -> bool {
    let ns = subject::normalized_subject(seed.subject@);
    subjects_related(ns, cand.subject@) && participants_related(
        seed.from_addr@,
        text::views(seed.to@),
        cand.from_addr@,
        text::views(cand.to@),
    )
}

fn bare_list(v: &[String]) -> (res: Vec<String>)
    ensures
        text::views(res@) == bare_all(text::views(v@)),
{
    let mut r: Vec<String> = Vec::new();
    let mut i: usize = 0;
    while i < v.len()
        invariant
            i <= v.len(),
            text::views(r@) == bare_all(text::views(v@).take(i as int)),
        decreases v.len() - i,
    {
        let b = extract_bare_email(v[i].as_str());
        let ghost before = r@;
        r.push(b);
        proof {
            assert(text::views(r@) =~= text::views(before).push(b@));
            assert(bare_all(text::views(v@).take(i + 1)) =~= bare_all(text::views(v@).take(i as int)).push(
                bare_email(v@[i as int]@),
            ));
        }
        i = i + 1;
    }
    proof {
        assert(text::views(v@).take(v.len() as int) =~= text::views(v@));
    }
    r
}

fn non_empty_only(v: Vec<String>) -> (res: Vec<String>)
    ensures
        text::views(res@) == text::views(v@).filter(|a: Seq<char>| a.len() > 0),
{
    let ghost pred = |a: Seq<char>| a.len() > 0;
    let mut r: Vec<String> = Vec::new();
    let mut i: usize = 0;
    while i < v.len()
        invariant
            i <= v.len(),
            pred == (|a: Seq<char>| a.len() > 0),
            text::views(r@) == text::views(v@).take(i as int).filter(pred),
        decreases v.len() - i,
    {
        proof {
            assert(text::views(v@).take(i + 1) =~= text::views(v@).take(i as int).push(v@[i as int]@));
            text::views(v@).take(i as int).lemma_filter_push(v@[i as int]@, pred);
        }
        if !v[i].as_str().is_empty() {
            let ghost before = r@;
            let c = v[i].clone();
            r.push(c);
            proof {
                assert(text::views(r@) =~= text::views(before).push(c@));
            }
        }
        i = i + 1;
    }
    proof {
        assert(text::views(v@).take(v.len() as int) =~= text::views(v@));
    }
    r
}

fn domain_list(v: &Vec<String>) -> (res: Vec<String>)
    ensures
        text::views(res@) == domains_all(text::views(v@)),
{
    let mut r: Vec<String> = Vec::new();
    let mut i: usize = 0;
    while i < v.len()
        invariant
            i <= v.len(),
            text::views(r@) == domains_all(text::views(v@).take(i as int)),
        decreases v.len() - i,
    {
        let d = email_domain(v[i].as_str());
        let ghost before = r@;
        r.push(d);
        proof {
            assert(text::views(r@) =~= text::views(before).push(d@));
            assert(domains_all(text::views(v@).take(i + 1)) =~= domains_all(
                text::views(v@).take(i as int),
            ).push(domain_of(v@[i as int]@)));
        }
        i = i + 1;
    }
    proof {
        assert(text::views(v@).take(v.len() as int) =~= text::views(v@));
    }
    r
}

fn any_same_ignoring_case(v: &Vec<String>, x: &str) -> (res: bool)
    ensures
        res == exists|i: int| 0 <= i < v@.len() && same_ignoring_ascii_case(text::views(v@)[i], x@),
{
    let mut i: usize = 0;
    while i < v.len()
        invariant
            i <= v.len(),
            forall|j: int| 0 <= j < i ==> !same_ignoring_ascii_case(text::views(v@)[j], x@),
        decreases v.len() - i,
    {
        if eq_ignore_ascii_case(v[i].as_str(), x) {
            proof {
                assert(same_ignoring_ascii_case(text::views(v@)[i as int], x@));
            }
            return true;
        }
        i = i + 1;
    }
    false
}

pub fn thread_candidate_matches(seed: &MessageRecord, cand: &MessageSummary) -> (res: bool)
    ensures
        res == thread_linked(*seed, *cand),
{
    let ns = subject::normalize_subject(seed.subject.as_str());
    let cs = subject::normalize_subject(cand.subject.as_str());
    if cs.as_str().is_empty() {
        return false;
    }
    let subject_match = text::seq_eq(cs.as_str(), ns.as_str()) || text::str_contains(
        ns.as_str(),
        cs.as_str(),
    ) || text::str_contains(cs.as_str(), ns.as_str());
    if !subject_match {
        return false;
    }
    let sf = extract_bare_email(seed.from_addr.as_str());
    let st = non_empty_only(bare_list(seed.to.as_slice()));
    let cf = extract_bare_email(cand.from_addr.as_str());
    let ct = bare_list(cand.to.as_slice());
    let exact = any_same_ignoring_case(&ct, sf.as_str()) || any_same_ignoring_case(
        &st,
        cf.as_str(),
    ) || eq_ignore_ascii_case(cf.as_str(), sf.as_str());
    let cfd = email_domain(cf.as_str());
    let sfd = email_domain(sf.as_str());
    let std = domain_list(&st);
    let ctd = domain_list(&ct);
    let domain = !cfd.as_str().is_empty() && (crate::helpers::contains_string(&std, cfd.as_str())
        || crate::helpers::contains_string(&ctd, sfd.as_str()));
    exact || domain
}

/// Text order of two strings by character code (the order `String::cmp`
/// gives, since UTF-8 preserves code point order).
pub open spec fn text_le(a: Seq<char>, b: Seq<char>) -> bool
    decreases a.len(),
{
    if a.len() == 0 {
        true
    } else if b.len() == 0 {
        false
    } else if (a[0] as u32) < (b[0] as u32) {
        true
    } else if a[0] == b[0] {
        text_le(a.drop_first(), b.drop_first())
    } else {
        false
    }
}

pub fn str_le(a: &str, b: &str) -> (res: bool)
    ensures
        res == text_le(a@, b@),
{
    let x = text::chars_of(a);
    let y = text::chars_of(b);
    let mut i: usize = 0;
    proof {
        assert(x@.skip(0) =~= x@);
        assert(y@.skip(0) =~= y@);
    }
    while i < x.len() && i < y.len() && x[i] == y[i]
        invariant
            i <= x.len(),
            i <= y.len(),
            text_le(a@, b@) == text_le(x@.skip(i as int), y@.skip(i as int)),
            x@ == a@,
            y@ == b@,
        decreases x.len() - i,
    {
        proof {
            assert(x@.skip(i as int).drop_first() =~= x@.skip(i + 1));
            assert(y@.skip(i as int).drop_first() =~= y@.skip(i + 1));
        }
        i = i + 1;
    }
    if i == x.len() {
        true
    } else if i == y.len() {
        false
    } else {
        (x[i] as u32) < (y[i] as u32)
    }
}

/// `sorted` with `x` placed after every entry whose `created_at` is not
/// later than its own (a stable insertion).
pub open spec fn insert_by_time(sorted: Seq<MessageSummary>, x: MessageSummary) -> Seq<
    MessageSummary,
>
    decreases sorted.len(),
{
    if sorted.len() == 0 {
        seq![x]
    } else if text_le(sorted.last().created_at@, x.created_at@) {
        sorted.push(x)
    } else {
        insert_by_time(sorted.drop_last(), x).push(sorted.last())
    }
}

/// Stable sort by `created_at` (what `sort_by` on the timestamps gives).
pub open spec fn sort_by_time(s: Seq<MessageSummary>) -> Seq<MessageSummary>
    decreases s.len(),
{
    if s.len() == 0 {
        s
    } else {
        insert_by_time(sort_by_time(s.drop_last()), s.last())
    }
}

fn insert_position(sorted: &Vec<MessageSummary>, x: &MessageSummary) -> (res: usize)
    ensures
        res <= sorted.len(),
        insert_by_time(sorted@, *x) == sorted@.insert(res as int, *x),
{
    let mut n = sorted.len();
    proof {
        assert(sorted@.take(n as int) =~= sorted@);
        assert(sorted@.take(n as int) + sorted@.skip(n as int) =~= sorted@);
    }
    while n > 0 && !str_le(sorted[n - 1].created_at.as_str(), x.created_at.as_str())
        invariant
            n <= sorted.len(),
            insert_by_time(sorted@, *x) == insert_by_time(sorted@.take(n as int), *x) + sorted@.skip(
                n as int,
            ),
        decreases n,
    {
        proof {
            let t = sorted@.take(n as int);
            assert(t.drop_last() =~= sorted@.take(n - 1));
            assert(t.last() == sorted@[n - 1]);
            assert(insert_by_time(t, *x) == insert_by_time(sorted@.take(n - 1), *x).push(
                sorted@[n - 1],
            ));
            assert(insert_by_time(sorted@.take(n - 1), *x).push(sorted@[n - 1]) + sorted@.skip(
                n as int,
            ) =~= insert_by_time(sorted@.take(n - 1), *x) + sorted@.skip(n - 1));
        }
        n = n - 1;
    }
    proof {
        let t = sorted@.take(n as int);
        if n > 0 {
            assert(t.last() == sorted@[n - 1]);
            assert(insert_by_time(t, *x) == t.push(*x));
        } else {
            assert(insert_by_time(t, *x) == seq![*x]);
        }
        assert(t.push(*x) + sorted@.skip(n as int) =~= sorted@.insert(n as int, *x));
    }
    n
}

/// Messages found by headers, then the heuristic extras whose id is new,
/// ordered by `created_at` (stable).
pub open spec fn merged_thread(messages: Seq<MessageSummary>, extras: Seq<MessageSummary>) -> Seq<
    MessageSummary,
> {
    let known = messages.map_values(|m: MessageSummary| m.id);
    sort_by_time(messages + extras.filter(|e: MessageSummary| !known.contains(e.id)))
}

fn ids_of(v: &Vec<MessageSummary>) -> (res: Vec<i64>)
    ensures
        res@ == v@.map_values(|m: MessageSummary| m.id),
{
    let mut r: Vec<i64> = Vec::new();
    let mut i: usize = 0;
    while i < v.len()
        invariant
            i <= v.len(),
            r@ == v@.take(i as int).map_values(|m: MessageSummary| m.id),
        decreases v.len() - i,
    {
        r.push(v[i].id);
        proof {
            assert(r@ =~= v@.take(i + 1).map_values(|m: MessageSummary| m.id));
        }
        i = i + 1;
    }
    proof {
        assert(v@.take(v.len() as int) =~= v@);
    }
    r
}

fn contains_id(v: &Vec<i64>, x: i64) -> (res: bool)
    ensures
        res == v@.contains(x),
{
    let mut i: usize = 0;
    while i < v.len()
        invariant
            i <= v.len(),
            forall|j: int| 0 <= j < i ==> v@[j] != x,
        decreases v.len() - i,
    {
        if v[i] == x {
            return true;
        }
        i = i + 1;
    }
    false
}

pub fn merge_thread_messages(messages: Vec<MessageSummary>, extras: Vec<MessageSummary>) -> (res:
    Vec<MessageSummary>)
    ensures
        res@ == merged_thread(messages@, extras@),
{
    let known = ids_of(&messages);
    let ghost keep = |e: MessageSummary| !known@.contains(e.id);
    let mut all = messages;
    let ghost m0 = all@;
    let mut extras = extras;
    let ghost e0 = extras@;
    let n0 = extras.len();
    let mut taken: usize = 0;
    while extras.len() > 0
        invariant
            known@ == m0.map_values(|m: MessageSummary| m.id),
            keep == (|e: MessageSummary| !known@.contains(e.id)),
            taken + extras@.len() == e0.len(),
            e0.len() == n0,
            extras@ == e0.skip(taken as int),
            all@ == m0 + e0.take(taken as int).filter(keep),
        decreases extras@.len(),
    {
        let e = extras.remove(0);
        proof {
            assert(e == e0[taken as int]);
            assert(e0.take(taken + 1) =~= e0.take(taken as int).push(e));
            e0.take(taken as int).lemma_filter_push(e, keep);
            assert(extras@ =~= e0.skip(taken + 1));
        }
        if !contains_id(&known, e.id) {
            all.push(e);
            proof {
                assert(all@ =~= m0 + e0.take(taken + 1).filter(keep));
            }
        }
        taken = taken + 1;
    }
    proof {
        assert(e0.take(taken as int) =~= e0);
    }
    let ghost full = all@;
    let n1 = all.len();
    let mut sorted: Vec<MessageSummary> = Vec::new();
    let mut done: usize = 0;
    while all.len() > 0
        invariant
            done + all@.len() == full.len(),
            full.len() == n1,
            all@ == full.skip(done as int),
            sorted@ == sort_by_time(full.take(done as int)),
        decreases all@.len(),
    {
        let x = all.remove(0);
        proof {
            assert(x == full[done as int]);
            assert(full.take(done + 1).drop_last() =~= full.take(done as int));
            assert(all@ =~= full.skip(done + 1));
        }
        let pos = insert_position(&sorted, &x);
        sorted.insert(pos, x);
        done = done + 1;
    }
    proof {
        assert(full.take(done as int) =~= full);
    }
    sorted
}

// ── Paging ─────────────────────────────────────────────────────────────────

/// One page of the inbox list.
#[derive(Debug)]
pub struct InboxPage {
    pub messages: Vec<MessageSummary>,
    pub has_more: bool,
    pub next_cursor: Option<i64>,
}

/// A page from up to `limit + 1` fetched rows: more rows than `limit` means
/// there is a next page; the cursor is the last kept message's id.
pub fn paginate(rows: Vec<MessageSummary>, limit: usize) -> (res: InboxPage)
    ensures
        res.has_more == (rows@.len() > limit),
        res.messages@ == (if rows@.len() > limit {
            rows@.take(limit as int)
        } else {
            rows@
        }),
        res.next_cursor == (if res.messages@.len() > 0 {
            Some(res.messages@.last().id)
        } else {
            None
        }),
{
    let mut messages = rows;
    let has_more = messages.len() > limit;
    if has_more {
        messages.truncate(limit);
    }
    let next_cursor = if messages.len() > 0 {
        Some(messages[messages.len() - 1].id)
    } else {
        None
    };
    InboxPage { messages, has_more, next_cursor }
}

/// Whether a row comes after the cursor in `(created_at DESC, id DESC)` order.
pub open spec fn after_cursor(
    created_at: Seq<char>,
    id: i64,
    cursor_created_at: Seq<char>,
    cursor_id: i64,
) -> bool {
    (text_le(created_at, cursor_created_at) && created_at != cursor_created_at) || (created_at
        == cursor_created_at && id < cursor_id)
}

pub fn is_after_cursor(created_at: &str, id: i64, cursor_created_at: &str, cursor_id: i64) -> (res:
    bool)
    ensures
        res == after_cursor(created_at@, id, cursor_created_at@, cursor_id),
{
    let same = text::seq_eq(created_at, cursor_created_at);
    (str_le(created_at, cursor_created_at) && !same) || (same && id < cursor_id)
}

pub open spec fn missing_cursor_message(id: i64) -> Seq<char> {
    "inbox cursor message "@ + text::int_text(id as int) + " not found"@
}

pub fn cursor_not_found(id: i64) -> (res: String)
    ensures
        res@ == missing_cursor_message(id),
{
    let mut e = text::copy_str("inbox cursor message ");
    let n = text::i64_to_string(id);
    text::push_str(&mut e, n.as_str());
    text::push_str(&mut e, " not found");
    e
}

// ── Bulk updates ───────────────────────────────────────────────────────────

/// Requested ids split into those that exist and those that do not, each
/// list in request order.
pub fn partition_ids(requested: &[i64], existing: &[i64]) -> (res: (Vec<i64>, Vec<i64>))
    ensures
        res.0@ == requested@.filter(|id: i64| existing@.contains(id)),
        res.1@ == requested@.filter(|id: i64| !existing@.contains(id)),
{
    let ghost found = |id: i64| existing@.contains(id);
    let ghost missing = |id: i64| !existing@.contains(id);
    let mut hit: Vec<i64> = Vec::new();
    let mut miss: Vec<i64> = Vec::new();
    let mut i: usize = 0;
    while i < requested.len()
        invariant
            i <= requested.len(),
            found == (|id: i64| existing@.contains(id)),
            missing == (|id: i64| !existing@.contains(id)),
            hit@ == requested@.take(i as int).filter(found),
            miss@ == requested@.take(i as int).filter(missing),
        decreases requested.len() - i,
    {
        let id = requested[i];
        proof {
            assert(requested@.take(i + 1) =~= requested@.take(i as int).push(id));
            requested@.take(i as int).lemma_filter_push(id, found);
            requested@.take(i as int).lemma_filter_push(id, missing);
        }
        let mut present = false;
        let mut j: usize = 0;
        while j < existing.len()
            invariant
                j <= existing.len(),
                !present ==> forall|k: int| 0 <= k < j ==> existing@[k] != id,
                present ==> existing@.contains(id),
            decreases existing.len() - j,
        {
            if existing[j] == id {
                present = true;
            }
            j = j + 1;
        }
        if present {
            hit.push(id);
        } else {
            miss.push(id);
        }
        i = i + 1;
    }
    proof {
        assert(requested@.take(requested.len() as int) =~= requested@);
    }
    (hit, miss)
}

/// A bulk command needs at least one id.
pub fn require_ids(ids: &[i64]) -> (res: Result<(), String>)
    ensures
        res is Ok <==> ids@.len() > 0,
        res matches Err(e) ==> e@ == "no message IDs provided"@,
{
    if ids.len() == 0 {
        Err(text::copy_str("no message IDs provided"))
    } else {
        Ok(())
    }
}

/// Delete, archive and unarchive fail when none of the ids matched.
pub fn require_matches(count: usize) -> (res: Result<(), String>)
    ensures
        res is Ok <==> count > 0,
        res matches Err(e) ==> e@ == "no matching messages found"@,
{
    if count == 0 {
        Err(text::copy_str("no matching messages found"))
    } else {
        Ok(())
    }
}

/// What `inbox stats` needs of one stored message.
#[derive(Clone, Copy, Debug)]
pub struct MessageFlags {
    /// Received, as opposed to sent.
    pub received: bool,
    pub archived: bool,
    pub read: bool,
}

/// The figures `inbox stats` reports.
#[derive(Clone, Copy, Debug)]
pub struct MailboxStats {
    pub total: usize,
    /// Received messages that are not archived.
    pub inbox: usize,
    /// Inbox messages not yet read.
    pub unread: usize,
    pub archived: usize,
    pub sent: usize,
}

/// The figures other than the total.
#[derive(Clone, Copy, Debug)]
pub enum StatKind {
    Inbox,
    Unread,
    Archived,
    Sent,
}

/// Whether a message counts towards a figure: the inbox is what was
/// received and is not archived.
pub open spec fn counts_for(m: MessageFlags, k: StatKind) -> bool {
    match k {
        StatKind::Inbox => m.received && !m.archived,
        StatKind::Unread => m.received && !m.archived && !m.read,
        StatKind::Archived => m.archived,
        StatKind::Sent => !m.received,
    }
}

/// How many of `s` count towards figure `k`.
pub open spec fn count_kind(s: Seq<MessageFlags>, k: StatKind) -> nat
    decreases s.len(),
{
    if s.len() == 0 {
        0
    } else {
        count_kind(s.drop_last(), k) + if counts_for(s.last(), k) {
            1nat
        } else {
            0nat
        }
    }
}

proof fn lemma_count_kind_bound(s: Seq<MessageFlags>, k: StatKind)
    ensures
        count_kind(s, k) <= s.len(),
    decreases s.len(),
{
    if s.len() > 0 {
        lemma_count_kind_bound(s.drop_last(), k);
    }
}

/// The figures of `inbox stats` over the stored messages.
pub fn mailbox_stats(rows: &Vec<MessageFlags>) -> (res: MailboxStats)
    ensures
        res.total == rows@.len(),
        res.inbox == count_kind(rows@, StatKind::Inbox),
        res.unread == count_kind(rows@, StatKind::Unread),
        res.archived == count_kind(rows@, StatKind::Archived),
        res.sent == count_kind(rows@, StatKind::Sent),
{
    let mut st = MailboxStats { total: rows.len(), inbox: 0, unread: 0, archived: 0, sent: 0 };
    let mut i: usize = 0;
    while i < rows.len()
        invariant
            i <= rows.len(),
            st.total == rows@.len(),
            st.inbox == count_kind(rows@.take(i as int), StatKind::Inbox),
            st.unread == count_kind(rows@.take(i as int), StatKind::Unread),
            st.archived == count_kind(rows@.take(i as int), StatKind::Archived),
            st.sent == count_kind(rows@.take(i as int), StatKind::Sent),
        decreases rows.len() - i,
    {
        let m = rows[i];
        proof {
            let t = rows@.take(i + 1);
            assert(t.drop_last() =~= rows@.take(i as int));
            assert(t.last() == m);
            lemma_count_kind_bound(rows@.take(i as int), StatKind::Inbox);
            lemma_count_kind_bound(rows@.take(i as int), StatKind::Unread);
            lemma_count_kind_bound(rows@.take(i as int), StatKind::Archived);
            lemma_count_kind_bound(rows@.take(i as int), StatKind::Sent);
        }
        if m.received && !m.archived {
            st.inbox = st.inbox + 1;
            if !m.read {
                st.unread = st.unread + 1;
            }
        }
        if m.archived {
            st.archived = st.archived + 1;
        }
        if !m.received {
            st.sent = st.sent + 1;
        }
        i = i + 1;
    }
    proof {
        assert(rows@.take(rows@.len() as int) =~= rows@);
    }
    st
}

// ── Unsubscribe ────────────────────────────────────────────────────────────

/// One `List-Unsubscribe` entry without spaces and angle brackets.
pub open spec fn unsub_entry(e: Seq<char>) -> Seq<char> {
    text::trim(
        text::trim_end_by(
            text::trim_start_by(text::trim(e), text::CharClass::Only('<')),
            text::CharClass::Only('>'),
        ),
    )
}

pub open spec fn usable_link(e: Seq<char>) -> bool {
    text::starts_with(e, "http"@) || text::starts_with(e, "mailto:"@)
}

/// The first entry of a `List-Unsubscribe` header that is an `http` or
/// `mailto:` link, or the whole header when none is.
pub open spec fn unsubscribe_link(header: Seq<char>) -> Seq<char> {
    let entries = text::split_by(header, text::CharClass::Only(',')).map_values(
        |e: Seq<char>| unsub_entry(e),
    );
    if exists|i: int| 0 <= i < entries.len() && usable_link(entries[i]) {
        let i = choose|i: int|
            0 <= i < entries.len() && usable_link(entries[i]) && forall|j: int|
                0 <= j < i ==> !usable_link(entries[j]);
        entries[i]
    } else {
        header
    }
}

fn strip_angle(e: &str) -> (res: String)
    ensures
        res@ == unsub_entry(e@),
{
    let t = text::trim_str(e);
    let s1 = text::trim_start_class_str(t.as_str(), text::CharClass::Only('<'));
    let s2 = text::trim_end_class_str(s1.as_str(), text::CharClass::Only('>'));
    text::trim_str(s2.as_str())
}

pub fn unsubscribe_target(header: &str) -> (res: String)
    ensures
        res@ == unsubscribe_link(header@),
{
    let parts = text::split_class(header, text::CharClass::Only(','));
    let ghost entries = text::split_by(header@, text::CharClass::Only(',')).map_values(
        |e: Seq<char>| unsub_entry(e),
    );
    let mut i: usize = 0;
    while i < parts.len()
        invariant
            i <= parts.len(),
            text::views(parts@) == text::split_by(header@, text::CharClass::Only(',')),
            entries == text::split_by(header@, text::CharClass::Only(',')).map_values(
                |e: Seq<char>| unsub_entry(e),
            ),
            forall|j: int| 0 <= j < i ==> !usable_link(#[trigger] entries[j]),
        decreases parts.len() - i,
    {
        let e = strip_angle(parts[i].as_str());
        proof {
            assert(entries[i as int] == e@);
        }
        if text::str_starts_with(e.as_str(), "http") || text::str_starts_with(e.as_str(), "mailto:") {
            proof {
                let k = choose|k: int|
                    0 <= k < entries.len() && usable_link(entries[k]) && forall|j: int|
                        0 <= j < k ==> !usable_link(entries[j]);
                assert(k == i) by {
                    if k < i {
                        assert(!usable_link(entries[k]));
                    } else if k > i {
                        assert(!usable_link(entries[i as int]));
                    }
                }
            }
            return e;
        }
        i = i + 1;
    }
    text::copy_str(header)
}


// ── Snooze ─────────────────────────────────────────────────────────────────

/// When a snoozed message wakes up, as the user wrote it. The named times
/// are resolved against the local clock; the relative ones count from now;
/// anything else must be an RFC 3339 timestamp.
#[derive(Clone, Copy, Debug, PartialEq, Eq)]
pub enum WakeSpec {
    /// 7pm local today.
    Tonight,
    /// 9am local tomorrow.
    Tomorrow,
    /// 9am local next Monday.
    NextWeek,
    Hours(i64),
    Days(i64),
    Weeks(i64),
    /// Not a keyword: read the input as an RFC 3339 timestamp.
    Timestamp,
}

/// `n` when `t` is a number with the given unit letter after it.
pub open spec fn with_unit(t: Seq<char>, unit: char) -> Option<int> {
    if t.len() > 0 && t.last() == unit {
        match num::parse_int(t.drop_last(), i64::MIN as int, i64::MAX as int) {
            Ok(n) => Some(n),
            Err(_) => None,
        }
    } else {
        None
    }
}

/// The wake time named by `lowered`, the input trimmed and lower-cased.
pub open spec fn wake_spec_of(lowered: Seq<char>) -> WakeSpec {
    if lowered == "tonight"@ {
        WakeSpec::Tonight
    } else if lowered == "tomorrow"@ {
        WakeSpec::Tomorrow
    } else if lowered == "next-week"@ || lowered == "nextweek"@ {
        WakeSpec::NextWeek
    } else if with_unit(lowered, 'h') is Some {
        WakeSpec::Hours(with_unit(lowered, 'h')->0 as i64)
    } else if with_unit(lowered, 'd') is Some {
        WakeSpec::Days(with_unit(lowered, 'd')->0 as i64)
    } else if with_unit(lowered, 'w') is Some {
        WakeSpec::Weeks(with_unit(lowered, 'w')->0 as i64)
    } else {
        WakeSpec::Timestamp
    }
}

fn number_with_unit(v: &Vec<char>, unit: char) -> (res: Option<i64>)
    ensures
        match res {
            Some(n) => with_unit(v@, unit) == Some(n as int),
            None => with_unit(v@, unit) is None,
        },
{
    if v.len() == 0 || v[v.len() - 1] != unit {
        return None;
    }
    let head = text::string_from(v, 0, v.len() - 1);
    proof {
        assert(v@.subrange(0, v.len() - 1) =~= v@.drop_last());
    }
    match num::parse_i64(head.as_str()) {
        Ok(n) => Some(n),
        Err(_) => None,
    }
}

/// Classifies an already trimmed and lower-cased snooze time.
pub fn wake_spec(lowered: &str) -> (res: WakeSpec)
    ensures
        res == wake_spec_of(lowered@),
{
    if text::seq_eq(lowered, "tonight") {
        return WakeSpec::Tonight;
    }
    if text::seq_eq(lowered, "tomorrow") {
        return WakeSpec::Tomorrow;
    }
    if text::seq_eq(lowered, "next-week") || text::seq_eq(lowered, "nextweek") {
        return WakeSpec::NextWeek;
    }
    let v = text::chars_of(lowered);
    match number_with_unit(&v, 'h') {
        Some(n) => return WakeSpec::Hours(n),
        None => {},
    }
    match number_with_unit(&v, 'd') {
        Some(n) => return WakeSpec::Days(n),
        None => {},
    }
    match number_with_unit(&v, 'w') {
        Some(n) => return WakeSpec::Weeks(n),
        None => {},
    }
    WakeSpec::Timestamp
}

/// Reads a snooze time: trimmed, lower-cased (full Unicode case folding),
/// then classified.
pub fn parse_wake_spec(raw: &str) -> (res: WakeSpec)
    ensures
        res == wake_spec_of(subject::unicode_lower(text::trim(raw@))),
{
    let t = text::trim_str(raw);
    let lowered = subject::to_lowercase(t.as_str());
    wake_spec(lowered.as_str())
}

/// The error for a snooze time that is neither a keyword nor a timestamp.
pub fn snooze_time_error(raw: &str) -> (res: String)
    ensures
        res@ == "couldn't parse snooze time '"@ + raw@
            + "' — try tomorrow, tonight, 4h, 2d, or an ISO timestamp"@,
{
    let mut m = text::copy_str("couldn't parse snooze time '");
    text::push_str(&mut m, raw);
    text::push_str(&mut m, "' — try tomorrow, tonight, 4h, 2d, or an ISO timestamp");
    m
}


// ── Thread order ───────────────────────────────────────────────────────────

/// Messages in non-decreasing `created_at` order.
pub open spec fn by_time(s: Seq<MessageSummary>) -> bool {
    forall|i: int, j: int| 0 <= i < j < s.len() ==> text_le(#[trigger] s[i].created_at@, #[trigger] s[j].created_at@)
}

proof fn lemma_insert_by_time(s: Seq<MessageSummary>, x: MessageSummary)
    requires
        by_time(s),
    ensures
        by_time(insert_by_time(s, x)),
        insert_by_time(s, x).to_multiset() =~= s.to_multiset().insert(x),
    decreases s.len(),
{
    broadcast use vstd::seq_lib::group_to_multiset_ensures;
    if s.len() == 0 {
        assert(seq![x] =~= Seq::<MessageSummary>::empty().push(x));
    } else if text_le(s.last().created_at@, x.created_at@) {
        let r = s.push(x);
        assert forall|i: int, j: int| 0 <= i < j < r.len() implies text_le(
            #[trigger] r[i].created_at@,
            #[trigger] r[j].created_at@,
        ) by {
            if j == r.len() - 1 && i < s.len() - 1 {
                assert(text_le(s[i].created_at@, s[s.len() - 1].created_at@));
                crate::outbox::lemma_text_le_trans(s[i].created_at@, s.last().created_at@, x.created_at@);
            }
        }
    } else {
        let t = s.drop_last();
        assert(by_time(t)) by {
            assert forall|i: int, j: int| 0 <= i < j < t.len() implies text_le(
                #[trigger] t[i].created_at@,
                #[trigger] t[j].created_at@,
            ) by {
                assert(t[i] == s[i] && t[j] == s[j]);
            }
        }
        lemma_insert_by_time(t, x);
        let u = insert_by_time(t, x);
        let r = u.push(s.last());
        assert(s =~= t.push(s.last()));
        crate::outbox::lemma_text_le_total(s.last().created_at@, x.created_at@);
        assert forall|k: int| 0 <= k < u.len() implies text_le(#[trigger] u[k].created_at@, s.last().created_at@) by {
            assert(u.to_multiset().contains(u[k]));
            if u[k] != x {
                assert(t.to_multiset().contains(u[k]));
                let m = choose|m: int| 0 <= m < t.len() && t[m] == u[k];
                assert(text_le(s[m].created_at@, s[s.len() - 1].created_at@));
            }
        }
        assert forall|i: int, j: int| 0 <= i < j < r.len() implies text_le(
            #[trigger] r[i].created_at@,
            #[trigger] r[j].created_at@,
        ) by {
            if j == r.len() - 1 {
                assert(text_le(u[i].created_at@, s.last().created_at@));
            } else {
                assert(text_le(u[i].created_at@, u[j].created_at@));
            }
        }
    }
}

/// Sorting a thread puts its messages in time order and keeps exactly the
/// messages it was given.
pub proof fn law_sort_by_time(s: Seq<MessageSummary>)
    ensures
        by_time(sort_by_time(s)),
        sort_by_time(s).to_multiset() =~= s.to_multiset(),
    decreases s.len(),
{
    broadcast use vstd::seq_lib::group_to_multiset_ensures;
    if s.len() > 0 {
        law_sort_by_time(s.drop_last());
        lemma_insert_by_time(sort_by_time(s.drop_last()), s.last());
        assert(s =~= s.drop_last().push(s.last()));
    }
}


/// Each requested id is reported exactly once: as updated or as missing.
pub proof fn law_partition_covers(requested: Seq<i64>, existing: Seq<i64>)
    ensures
        requested.filter(|id: i64| existing.contains(id)).len() + requested.filter(
            |id: i64| !existing.contains(id),
        ).len() == requested.len(),
    decreases requested.len(),
{
    reveal(Seq::filter);
    if requested.len() > 0 {
        law_partition_covers(requested.drop_last(), existing);
    }
}

/// The list order `(created_at DESC, id DESC)` is a strict total order on
/// rows, so paging by cursor neither repeats nor skips a row: of two
/// distinct rows exactly one comes after the other, and no row comes after
/// itself.
pub proof fn law_cursor_order_total(c1: Seq<char>, i1: i64, c2: Seq<char>, i2: i64)
    ensures
        !after_cursor(c1, i1, c1, i1),
        (c1 == c2 && i1 == i2) || after_cursor(c1, i1, c2, i2) || after_cursor(c2, i2, c1, i1),
        !(after_cursor(c1, i1, c2, i2) && after_cursor(c2, i2, c1, i1)),
{
    crate::outbox::lemma_text_le_total(c1, c2);
    if text_le(c1, c2) && text_le(c2, c1) {
        crate::outbox::lemma_text_le_antisym(c1, c2);
    }
}

} // verus!
