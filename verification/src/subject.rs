//! Subject normalisation for thread matching, and the Unicode case folding
//! it relies on.
use vstd::prelude::*;

use crate::text;

verus! {

/// What `str::to_lowercase` returns for a string (full Unicode lower-casing).
pub uninterp spec fn unicode_lower(s: Seq<char>) -> Seq<char>;

/// Whether every character of `s` is ASCII.
pub open spec fn all_ascii(s: Seq<char>) -> bool {
    forall|i: int| 0 <= i < s.len() ==> (#[trigger] s[i]) as u32 <= 127
}

/// `str::to_lowercase`. The result is named by `unicode_lower`; of the
/// Unicode case tables only the ASCII part is claimed: on all-ASCII text
/// the result maps `A`–`Z` to `a`–`z` and keeps every other character.
#[verifier::external_body]
pub(crate) fn to_lowercase(s: &str) -> (res: String)
    ensures
        res@ == unicode_lower(s@),
        all_ascii(s@) ==> res@ == text::lower(s@),
{
    s.to_lowercase()
}

/// Reply and forward prefixes, in the order they are tried.
pub open spec fn prefix_list() -> Seq<Seq<char>> {
    seq![
        "re:"@, "re :"@, "fwd:"@, "fw:"@, "fwd :"@, "fw :"@,
        "aw:"@, "wg:"@, "antwort:"@, "weiterleitung:"@,
        "rv:"@, "ref:"@,
        "tr:"@, "rép:"@, "rep:"@,
        "enc:"@, "res:"@,
        "odp:"@, "pd:"@,
        "r:"@, "i:"@, "rif:"@,
        "回复:"@, "回覆:"@, "答复:"@,
        "返信:"@, "転送:"@, "fwd："@,
        "회신:"@, "전달:"@,
    ]
}

fn prefix_at(i: usize) -> (res: &'static str)
    requires
        i < 30,
    ensures
        res@ == prefix_list()[i as int],
{
    match i {
        0 => "re:",
        1 => "re :",
        2 => "fwd:",
        3 => "fw:",
        4 => "fwd :",
        5 => "fw :",
        6 => "aw:",
        7 => "wg:",
        8 => "antwort:",
        9 => "weiterleitung:",
        10 => "rv:",
        11 => "ref:",
        12 => "tr:",
        13 => "rép:",
        14 => "rep:",
        15 => "enc:",
        16 => "res:",
        17 => "odp:",
        18 => "pd:",
        19 => "r:",
        20 => "i:",
        21 => "rif:",
        22 => "回复:",
        23 => "回覆:",
        24 => "答复:",
        25 => "返信:",
        26 => "転送:",
        27 => "fwd：",
        28 => "회신:",
        _ => "전달:",
    }
}

/// Index of the first listed prefix (from `i` on) that the lower-cased text
/// starts with and that is no longer than the subject itself.
pub open spec fn first_prefix_from(lo: Seq<char>, n: nat, i: nat) -> Option<nat>
    decreases 30 - i,
{
    if i >= 30 {
        None
    } else if text::starts_with(lo, prefix_list()[i as int]) && prefix_list()[i as int].len() <= n {
        Some(i)
    } else {
        first_prefix_from(lo, n, i + 1)
    }
}

pub open spec fn is_superscript_digit(c: char) -> bool {
    c == '²' || c == '³' || c == '⁴' || c == '⁵' || c == '⁶' || c == '⁷' || c == '⁸' || c == '⁹'
}

/// The part between `re` and `:` of a numbered reply (`[2]`, `(3)`, `²`,
/// digits, or nothing).
pub open spec fn numbered_middle(m: Seq<char>) -> bool {
    ||| (m.len() > 0 && m[0] == '[' && m.last() == ']')
    ||| (m.len() > 0 && m[0] == '(' && m.last() == ')')
    ||| forall|j: int| 0 <= j < m.len() ==> text::is_ascii_digit(#[trigger] m[j]) || is_superscript_digit(m[j])
}

/// One layer of reply/forward prefix or leading `[tag]` removed from `s`,
/// if any, where `lo` is the lower-cased `s` the prefixes are matched in.
pub open spec fn strip_one_with(s: Seq<char>, lo: Seq<char>) -> Option<Seq<char>> {
    match first_prefix_from(lo, s.len(), 0) {
        Some(i) => Some(text::trim_start(s.skip(prefix_list()[i as int].len() as int))),
        None => {
            let numbered = if text::starts_with(lo, "re"@) && s.len() >= 2 {
                match text::find_char(s.skip(2), ':') {
                    Some(colon) => if numbered_middle(text::trim(s.skip(2).take(colon))) {
                        Some(text::trim_start(s.skip(2 + colon + 1)))
                    } else {
                        None
                    },
                    None => None,
                }
            } else {
                None
            };
            match numbered {
                Some(r) => Some(r),
                None => {
                    let t = text::trim_start(s);
                    if t.len() > 0 && t[0] == '[' {
                        match text::find_char(t, ']') {
                            Some(close) => Some(text::trim_start(t.skip(close + 1))),
                            None => None,
                        }
                    } else {
                        None
                    }
                },
            }
        },
    }
}

/// One layer of reply/forward prefix or leading `[tag]` removed, if any.
pub open spec fn strip_one(s: Seq<char>) -> Option<Seq<char>> {
    strip_one_with(s, unicode_lower(s))
}

/// `strip_one` for ASCII text, whose lower-cased form is `text::lower`.
pub open spec fn strip_one_ascii(s: Seq<char>) -> Option<Seq<char>> {
    strip_one_with(s, text::lower(s))
}

/// All removable layers stripped from ASCII text, one at a time.
pub open spec fn strip_layers_ascii(s: Seq<char>) -> Seq<char>
    decreases s.len(),
{
    match strip_one_ascii(s) {
        Some(r) => if r.len() < s.len() {
            strip_layers_ascii(r)
        } else {
            s
        },
        None => s,
    }
}

/// `normalized_subject` for an ASCII subject.
pub open spec fn normalized_subject_ascii(subject: Seq<char>) -> Seq<char> {
    text::trim(text::lower(strip_layers_ascii(text::trim(subject))))
}

/// All removable layers stripped, one at a time.
pub open spec fn strip_layers(s: Seq<char>) -> Seq<char>
    decreases s.len(),
{
    match strip_one(s) {
        Some(r) => if r.len() < s.len() {
            strip_layers(r)
        } else {
            s
        },
        None => s,
    }
}

/// A subject reduced to what identifies its conversation: prefixes such as
/// `Re:`, `Fwd:`, `AW:`, `Re[2]:` and leading `[tags]` removed, lower-cased.
pub open spec fn normalized_subject(subject: Seq<char>) -> Seq<char> {
    text::trim(unicode_lower(strip_layers(text::trim(subject))))
}

proof fn lemma_trim_start_shorter(s: Seq<char>)
    ensures
        text::trim_start(s).len() <= s.len(),
{
    text::lemma_lead_trail_exist(s, text::CharClass::Whitespace);
}

/// Dropping a prefix of ASCII text and trimming its start leaves ASCII text.
proof fn lemma_ascii_rest(s: Seq<char>, k: int)
    requires
        all_ascii(s),
        0 <= k <= s.len(),
    ensures
        all_ascii(text::trim_start(s.skip(k))),
{
    text::lemma_lead_trail_exist(s.skip(k), text::CharClass::Whitespace);
    let r = text::trim_start(s.skip(k));
    assert forall|i: int| 0 <= i < r.len() implies (#[trigger] r[i]) as u32 <= 127 by {
        assert(r[i] == s[k + text::lead_len(s.skip(k), text::CharClass::Whitespace) + i]);
    }
}

/// Trimming ASCII text leaves ASCII text.
proof fn lemma_ascii_trim(s: Seq<char>)
    requires
        all_ascii(s),
    ensures
        all_ascii(text::trim(s)),
{
    assert(s.skip(0) =~= s);
    lemma_ascii_rest(s, 0);
    let t = text::trim_start(s);
    text::lemma_lead_trail_exist(t, text::CharClass::Whitespace);
    let r = text::trim(s);
    assert forall|i: int| 0 <= i < r.len() implies (#[trigger] r[i]) as u32 <= 127 by {
        assert(r[i] == t[i]);
    }
}

proof fn lemma_prefix_lengths()
    ensures
        forall|i: int| 0 <= i < 30 ==> (#[trigger] prefix_list()[i]).len() >= 2,
{
    reveal_strlit("re:");
    reveal_strlit("re :");
    reveal_strlit("fwd:");
    reveal_strlit("fw:");
    reveal_strlit("fwd :");
    reveal_strlit("fw :");
    reveal_strlit("aw:");
    reveal_strlit("wg:");
    reveal_strlit("antwort:");
    reveal_strlit("weiterleitung:");
    reveal_strlit("rv:");
    reveal_strlit("ref:");
    reveal_strlit("tr:");
    reveal_strlit("rép:");
    reveal_strlit("rep:");
    reveal_strlit("enc:");
    reveal_strlit("res:");
    reveal_strlit("odp:");
    reveal_strlit("pd:");
    reveal_strlit("r:");
    reveal_strlit("i:");
    reveal_strlit("rif:");
    reveal_strlit("回复:");
    reveal_strlit("回覆:");
    reveal_strlit("答复:");
    reveal_strlit("返信:");
    reveal_strlit("転送:");
    reveal_strlit("fwd：");
    reveal_strlit("회신:");
    reveal_strlit("전달:");
}

fn first_prefix(lo: &str, n: usize) -> (res: Option<usize>)
    ensures
        match res {
            Some(i) => first_prefix_from(lo@, n as nat, 0) == Some(i as nat) && i < 30
                && prefix_list()[i as int].len() <= n && text::starts_with(
                lo@,
                prefix_list()[i as int],
            ),
            None => first_prefix_from(lo@, n as nat, 0) is None,
        },
{
    let mut i: usize = 0;
    while i < 30
        invariant
            i <= 30,
            first_prefix_from(lo@, n as nat, 0) == first_prefix_from(lo@, n as nat, i as nat),
        decreases 30 - i,
    {
        let p = prefix_at(i);
        let pv = text::chars_of(p);
        if text::str_starts_with(lo, p) && pv.len() <= n {
            return Some(i);
        }
        i = i + 1;
    }
    None
}

fn is_numbered_middle(m: &Vec<char>) -> (res: bool)
    ensures
        res == numbered_middle(m@),
{
    let n = m.len();
    if n > 0 && m[0] == '[' && m[n - 1] == ']' {
        return true;
    }
    if n > 0 && m[0] == '(' && m[n - 1] == ')' {
        return true;
    }
    let mut i: usize = 0;
    while i < n
        invariant
            n == m.len(),
            i <= n,
            !(m@.len() > 0 && m@[0] == '[' && m@.last() == ']'),
            !(m@.len() > 0 && m@[0] == '(' && m@.last() == ')'),
            forall|j: int| 0 <= j < i ==> text::is_ascii_digit(#[trigger] m@[j]) || is_superscript_digit(m@[j]),
        decreases n - i,
    {
        let c = m[i];
        let ok = text::ascii_digit(c) || c == '²' || c == '³' || c == '⁴' || c == '⁵' || c == '⁶'
            || c == '⁷' || c == '⁸' || c == '⁹';
        if !ok {
            proof {
                assert(!(text::is_ascii_digit(m@[i as int]) || is_superscript_digit(m@[i as int])));
            }
            return false;
        }
        i = i + 1;
    }
    true
}

/// One layer removed from `s`, or `None`; executable form of `strip_one`.
fn strip_one_exec(s: &Vec<char>) -> (res: Option<Vec<char>>)
    ensures
        match res {
            Some(r) => strip_one(s@) == Some(r@) && r@.len() < s@.len(),
            None => strip_one(s@) is None,
        },
        all_ascii(s@) ==> match res {
            Some(r) => strip_one_ascii(s@) == Some(r@) && all_ascii(r@),
            None => strip_one_ascii(s@) is None,
        },
{
    let whole = text::string_of(s);
    let lo = to_lowercase(whole.as_str());
    proof {
        lemma_prefix_lengths();
    }
    match first_prefix(lo.as_str(), s.len()) {
        Some(i) => {
            let p = prefix_at(i);
            let k = text::chars_of(p).len();
            let rest = text::string_from(s, k, s.len());
            proof {
                assert(s@.subrange(k as int, s@.len() as int) =~= s@.skip(k as int));
                lemma_trim_start_shorter(s@.skip(k as int));
                if all_ascii(s@) {
                    lemma_ascii_rest(s@, k as int);
                }
            }
            let t = text::trim_start_str(rest.as_str());
            return Some(text::chars_of(t.as_str()));
        },
        None => {},
    }
    if text::str_starts_with(lo.as_str(), "re") && s.len() >= 2 {
        match text::find_in(s, 2, ':') {
            Some(colon) => {
                let (a, b) = text::trim_bounds(s, 2, 2 + colon, text::CharClass::Whitespace);
                let middle = text::string_from(s, a, b);
                let mv = text::chars_of(middle.as_str());
                proof {
                    assert(s@.skip(2).take(colon as int) =~= s@.subrange(2, 2 + colon));
                }
                if is_numbered_middle(&mv) {
                    let rest = text::string_from(s, 2 + colon + 1, s.len());
                    proof {
                        assert(s@.subrange(2 + colon + 1, s@.len() as int) =~= s@.skip(
                            2 + colon + 1,
                        ));
                        lemma_trim_start_shorter(s@.skip(2 + colon + 1));
                        if all_ascii(s@) {
                            lemma_ascii_rest(s@, 2 + colon + 1);
                        }
                    }
                    let t = text::trim_start_str(rest.as_str());
                    return Some(text::chars_of(t.as_str()));
                }
            },
            None => {},
        }
    }
    let a = text::trim_start_str(whole.as_str());
    let tv = text::chars_of(a.as_str());
    if tv.len() > 0 && tv[0] == '[' {
        proof {
            assert(tv@.skip(0) =~= tv@);
        }
        match text::find_in(&tv, 0, ']') {
            Some(close) => {
                let rest = text::string_from(&tv, close + 1, tv.len());
                proof {
                    assert(tv@.subrange(close + 1, tv@.len() as int) =~= tv@.skip(close + 1));
                    lemma_trim_start_shorter(s@);
                    lemma_trim_start_shorter(tv@.skip(close + 1));
                    if all_ascii(s@) {
                        assert(s@.skip(0) =~= s@);
                        lemma_ascii_rest(s@, 0);
                        lemma_ascii_rest(tv@, close + 1);
                    }
                }
                let t = text::trim_start_str(rest.as_str());
                return Some(text::chars_of(t.as_str()));
            },
            None => {},
        }
    }
    None
}

pub fn normalize_subject(subject: &str) -> (res: String)
    ensures
        res@ == normalized_subject(subject@),
        all_ascii(subject@) ==> res@ == normalized_subject_ascii(subject@),
{
    let t = text::trim_str(subject);
    let mut s = text::chars_of(t.as_str());
    proof {
        if all_ascii(subject@) {
            lemma_ascii_trim(subject@);
        }
    }
    loop
        invariant
            strip_layers(s@) == strip_layers(text::trim(subject@)),
            all_ascii(subject@) ==> all_ascii(s@) && strip_layers_ascii(s@) == strip_layers_ascii(
                text::trim(subject@),
            ),
        ensures
            strip_layers(s@) == strip_layers(text::trim(subject@)),
            strip_one(s@) is None,
            all_ascii(subject@) ==> all_ascii(s@) && strip_layers_ascii(s@) == strip_layers_ascii(
                text::trim(subject@),
            ) && strip_one_ascii(s@) is None,
        decreases s@.len(),
    {
        match strip_one_exec(&s) {
            Some(r) => {
                proof {
                    assert(strip_layers(s@) == strip_layers(r@));
                    if all_ascii(subject@) {
                        assert(strip_layers_ascii(s@) == strip_layers_ascii(r@));
                    }
                }
                s = r;
            },
            None => {
                break;
            },
        }
    }
    let stripped = text::string_of(&s);
    let lo = to_lowercase(stripped.as_str());
    text::trim_str(lo.as_str())
}

/// Text with no whitespace at either end.
pub open spec fn no_edge_ws(s: Seq<char>) -> bool {
    s.len() == 0 || (!text::is_ws(s[0]) && !text::is_ws(s.last()))
}

/// Text with no whitespace at either end is its own trim.
proof fn lemma_trim_no_edge(s: Seq<char>)
    requires
        no_edge_ws(s),
    ensures
        text::trim_start(s) == s,
        text::trim(s) == s,
{
    let k = text::CharClass::Whitespace;
    text::lemma_lead_len(s, k, 0);
    assert(s.skip(0) =~= s);
    text::lemma_trail_len(s, k, 0);
    assert(s.take(s.len() as int) =~= s);
}

/// The start-trimmed suffix of a text with no trailing whitespace has no
/// whitespace at either end.
proof fn lemma_rest_no_edge(s: Seq<char>, k: int)
    requires
        no_edge_ws(s),
        0 <= k <= s.len(),
    ensures
        no_edge_ws(text::trim_start(s.skip(k))),
{
    let u = s.skip(k);
    text::lemma_lead_trail_exist(u, text::CharClass::Whitespace);
    let r = text::trim_start(u);
    if r.len() > 0 {
        assert(r.last() == s.last());
    }
}

/// A trimmed text has no whitespace at either end.
proof fn lemma_trim_gives_no_edge(x: Seq<char>)
    ensures
        no_edge_ws(text::trim(x)),
{
    let k = text::CharClass::Whitespace;
    text::lemma_lead_trail_exist(x, k);
    let t = text::trim_start(x);
    text::lemma_lead_trail_exist(t, k);
    let r = text::trim(x);
    if r.len() > 0 {
        assert(r[0] == t[0]);
        assert(r.last() == t[t.len() - text::trail_len(t, k) - 1]);
    }
}

/// Lower-casing keeps whether a character is whitespace.
proof fn lemma_lower_ws(c: char)
    ensures
        text::is_ws(text::lower_char(c)) == text::is_ws(c),
{
}

/// Lower-casing commutes with trimming.
proof fn lemma_lower_trim(s: Seq<char>)
    ensures
        text::trim_start(text::lower(s)) == text::lower(text::trim_start(s)),
        text::trim(text::lower(s)) == text::lower(text::trim(s)),
{
    let k = text::CharClass::Whitespace;
    let ls = text::lower(s);
    text::lemma_lead_trail_exist(s, k);
    let n = text::lead_len(s, k);
    assert forall|j: int| 0 <= j < n implies text::in_class(k, #[trigger] ls[j]) by {
        lemma_lower_ws(s[j]);
    }
    if n < s.len() {
        lemma_lower_ws(s[n]);
    }
    text::lemma_lead_len(ls, k, n);
    assert(text::trim_start(ls) =~= text::lower(text::trim_start(s)));
    let t = text::trim_start(s);
    let lt = text::lower(t);
    text::lemma_lead_trail_exist(t, k);
    let m = text::trail_len(t, k);
    assert forall|j: int| lt.len() - m <= j < lt.len() implies text::in_class(k, #[trigger] lt[j]) by {
        lemma_lower_ws(t[j]);
    }
    if m < t.len() {
        lemma_lower_ws(t[t.len() - m - 1]);
    }
    text::lemma_trail_len(lt, k, m);
    assert(text::trim(ls) =~= text::lower(text::trim(s)));
}

/// Lower-casing does not move a character that is not a letter.
proof fn lemma_lower_find(s: Seq<char>, c: char)
    requires
        !(65 <= c as u32 <= 90),
        !(97 <= c as u32 <= 122),
    ensures
        text::find_char(text::lower(s), c) == text::find_char(s, c),
{
    let ls = text::lower(s);
    text::lemma_find_char_first(s, c);
    assert forall|j: int| 0 <= j < s.len() implies (#[trigger] ls[j] == c) == (s[j] == c) by {
    }
    match text::find_char(s, c) {
        Some(i) => {
            assert(ls[i] == c);
            assert forall|j: int| 0 <= j < i implies ls[j] != c by {
                assert(s[j] != c);
            }
            text::lemma_find_char(ls, c, i);
        },
        None => {
            assert(!exists|i: int| 0 <= i < ls.len() && ls[i] == c) by {
                if exists|i: int| 0 <= i < ls.len() && ls[i] == c {
                    let i = choose|i: int| 0 <= i < ls.len() && ls[i] == c;
                    assert(s[i] == c);
                }
            }
        },
    }
}

/// Lower-casing twice is lower-casing once.
proof fn lemma_lower_idem(s: Seq<char>)
    ensures
        text::lower(text::lower(s)) == text::lower(s),
{
    assert(text::lower(text::lower(s)) =~= text::lower(s));
}

/// Lower-casing keeps ASCII text ASCII.
proof fn lemma_lower_ascii(s: Seq<char>)
    requires
        all_ascii(s),
    ensures
        all_ascii(text::lower(s)),
{
    let l = text::lower(s);
    assert forall|i: int| 0 <= i < l.len() implies (#[trigger] l[i]) as u32 <= 127 by {
        assert(l[i] == text::lower_char(s[i]));
    }
}

/// Whether a `Re…:` middle is numbered does not depend on letter case.
proof fn lemma_numbered_lower(m: Seq<char>)
    ensures
        numbered_middle(text::lower(m)) == numbered_middle(m),
{
    let l = text::lower(m);
    assert forall|j: int| 0 <= j < m.len() implies (text::is_ascii_digit(#[trigger] l[j])
        || is_superscript_digit(l[j])) == (text::is_ascii_digit(m[j]) || is_superscript_digit(m[j])) by {
        assert(l[j] == text::lower_char(m[j]));
    }
    if m.len() > 0 {
        assert(l[0] == text::lower_char(m[0]));
        assert(l.last() == text::lower_char(m.last()));
    }
    if numbered_middle(l) && !numbered_middle(m) {
        if !(l.len() > 0 && l[0] == '[' && l.last() == ']') && !(l.len() > 0 && l[0] == '('
            && l.last() == ')') {
            let j = choose|j: int| 0 <= j < m.len() && !(text::is_ascii_digit(#[trigger] m[j])
                || is_superscript_digit(m[j]));
            assert(text::is_ascii_digit(l[j]) || is_superscript_digit(l[j]));
        }
    }
    if numbered_middle(m) && !numbered_middle(l) {
        if !(m.len() > 0 && m[0] == '[' && m.last() == ']') && !(m.len() > 0 && m[0] == '('
            && m.last() == ')') {
            let j = choose|j: int| 0 <= j < l.len() && !(text::is_ascii_digit(#[trigger] l[j])
                || is_superscript_digit(l[j]));
            assert(text::is_ascii_digit(m[j]) || is_superscript_digit(m[j]));
        }
    }
}

/// A prefix found from index `i` on is a listed prefix that fits and that
/// the lower-cased text starts with.
proof fn lemma_first_prefix_from(lo: Seq<char>, n: nat, i: nat)
    ensures
        first_prefix_from(lo, n, i) matches Some(j) ==> j < 30 && prefix_list()[j as int].len() <= n
            && text::starts_with(lo, prefix_list()[j as int]),
    decreases 30 - i,
{
    if i < 30 {
        lemma_first_prefix_from(lo, n, i + 1);
    }
}

/// One stripping step always shortens the text, and keeps it free of
/// whitespace at either end (and ASCII) when it was.
proof fn lemma_strip_step(s: Seq<char>, lo: Seq<char>)
    ensures
        strip_one_with(s, lo) matches Some(r) ==> r.len() < s.len()
            && (no_edge_ws(s) ==> no_edge_ws(r)) && (all_ascii(s) ==> all_ascii(r)),
{
    lemma_prefix_lengths();
    lemma_first_prefix_from(lo, s.len(), 0);
    match first_prefix_from(lo, s.len(), 0) {
        Some(i) => {
            let k = prefix_list()[i as int].len() as int;
            lemma_trim_start_shorter(s.skip(k));
            if no_edge_ws(s) {
                lemma_rest_no_edge(s, k);
            }
            if all_ascii(s) {
                lemma_ascii_rest(s, k);
            }
        },
        None => {
            if text::starts_with(lo, "re"@) && s.len() >= 2 {
                match text::find_char(s.skip(2), ':') {
                    Some(colon) => {
                        text::lemma_find_char_first(s.skip(2), ':');
                        let k = 2 + colon + 1;
                        lemma_trim_start_shorter(s.skip(k));
                        if no_edge_ws(s) {
                            lemma_rest_no_edge(s, k);
                        }
                        if all_ascii(s) {
                            lemma_ascii_rest(s, k);
                        }
                    },
                    None => {},
                }
            }
            let t = text::trim_start(s);
            lemma_trim_start_shorter(s);
            match text::find_char(t, ']') {
                Some(close) => {
                    text::lemma_find_char_first(t, ']');
                    lemma_trim_start_shorter(t.skip(close + 1));
                    if no_edge_ws(s) {
                        lemma_trim_no_edge(s);
                        lemma_rest_no_edge(s, close + 1);
                    }
                    if all_ascii(s) {
                        assert(s.skip(0) =~= s);
                        lemma_ascii_rest(s, 0);
                        lemma_ascii_rest(t, close + 1);
                    }
                },
                None => {},
            }
        },
    }
}

/// Stripping every layer from trimmed ASCII text leaves trimmed ASCII text
/// with nothing more to strip.
proof fn lemma_layers_done(s: Seq<char>)
    requires
        no_edge_ws(s),
        all_ascii(s),
    ensures
        strip_one_ascii(strip_layers_ascii(s)) is None,
        no_edge_ws(strip_layers_ascii(s)),
        all_ascii(strip_layers_ascii(s)),
    decreases s.len(),
{
    lemma_strip_step(s, text::lower(s));
    match strip_one_ascii(s) {
        Some(r) => {
            lemma_layers_done(r);
        },
        None => {},
    }
}

/// Text with nothing left to strip still has nothing left once lower-cased.
proof fn lemma_done_after_lower(y: Seq<char>)
    requires
        strip_one_ascii(y) is None,
    ensures
        strip_one_ascii(text::lower(y)) is None,
{
    let ly = text::lower(y);
    lemma_lower_idem(y);
    assert(ly.len() == y.len());
    assert(strip_one_ascii(ly) == strip_one_with(ly, ly));
    assert(strip_one_ascii(y) == strip_one_with(y, ly));
    if y.len() >= 2 {
        assert(ly.skip(2) =~= text::lower(y.skip(2)));
        lemma_lower_find(y.skip(2), ':');
        match text::find_char(y.skip(2), ':') {
            Some(colon) => {
                text::lemma_find_char_first(y.skip(2), ':');
                let m = y.skip(2).take(colon);
                assert(ly.skip(2).take(colon) =~= text::lower(m));
                lemma_lower_trim(m);
                lemma_numbered_lower(text::trim(m));
            },
            None => {},
        }
    }
    lemma_lower_trim(y);
    let t = text::trim_start(y);
    lemma_lower_find(t, ']');
    if t.len() > 0 {
        assert(text::lower(t)[0] == text::lower_char(t[0]));
    }
}

/// Normalising an ASCII subject twice gives the same text as once, and the
/// result is ASCII again: what `normalize_subject` returns has no reply or
/// forward prefix, numbered `Re` prefix or leading `[tag]` left, is trimmed
/// and is lower-case.
pub proof fn law_normalize_subject_ascii_idempotent(x: Seq<char>)
    requires
        all_ascii(x),
    ensures
        all_ascii(normalized_subject_ascii(x)),
        normalized_subject_ascii(normalized_subject_ascii(x)) == normalized_subject_ascii(x),
{
    let t = text::trim(x);
    lemma_trim_gives_no_edge(x);
    lemma_ascii_trim(x);
    lemma_layers_done(t);
    let y = strip_layers_ascii(t);
    let ly = text::lower(y);
    lemma_lower_trim(y);
    lemma_trim_no_edge(y);
    let r1 = normalized_subject_ascii(x);
    assert(r1 == ly);
    lemma_lower_ascii(y);
    lemma_done_after_lower(y);
    lemma_lower_trim(ly);
    lemma_lower_idem(y);
    assert(text::trim(r1) == r1);
    assert(strip_layers_ascii(r1) == r1);
}

} // verus!
