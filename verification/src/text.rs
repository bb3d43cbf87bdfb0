//! Character-level building blocks shared by the rest of the library.
//!
//! Strings are modelled by their `Seq<char>` view. Every executable
//! operation here states its result over that view, so callers can reason
//! about trimming, case folding and searching without looking at loops.
use vstd::prelude::*;

verus! {

/// The text of an optional string.
pub open spec fn opt_view(o: Option<String>) -> Option<Seq<char>> {
    match o {
        Some(s) => Some(s@),
        None => None,
    }
}

/// The text of an optional string slice.
pub open spec fn opt_str_view(o: Option<&str>) -> Option<Seq<char>> {
    match o {
        Some(s) => Some(s@),
        None => None,
    }
}

// ── Character classes ──────────────────────────────────────────────────────

/// Unicode `White_Space`, the set `char::is_whitespace` tests.
pub open spec fn is_ws(c: char) -> bool {
    let n = c as u32;
    ||| 9 <= n <= 13
    ||| n == 32
    ||| n == 0x85
    ||| n == 0xA0
    ||| n == 0x1680
    ||| 0x2000 <= n <= 0x200A
    ||| n == 0x2028
    ||| n == 0x2029
    ||| n == 0x202F
    ||| n == 0x205F
    ||| n == 0x3000
}

pub fn is_whitespace(c: char) -> (res: bool)
    ensures
        res == is_ws(c),
{
    let n = c as u32;
    (9 <= n && n <= 13) || n == 32 || n == 0x85 || n == 0xA0 || n == 0x1680 || (0x2000 <= n && n
        <= 0x200A) || n == 0x2028 || n == 0x2029 || n == 0x202F || n == 0x205F || n == 0x3000
}

pub open spec fn is_ascii_digit(c: char) -> bool {
    48 <= c as u32 <= 57
}

pub fn ascii_digit(c: char) -> (res: bool)
    ensures
        res == is_ascii_digit(c),
{
    let n = c as u32;
    48 <= n && n <= 57
}

pub open spec fn is_ascii_alnum(c: char) -> bool {
    let n = c as u32;
    ||| 48 <= n <= 57
    ||| 65 <= n <= 90
    ||| 97 <= n <= 122
}

pub fn ascii_alnum(c: char) -> (res: bool)
    ensures
        res == is_ascii_alnum(c),
{
    let n = c as u32;
    (48 <= n && n <= 57) || (65 <= n && n <= 90) || (97 <= n && n <= 122)
}

pub open spec fn is_ascii_alpha(c: char) -> bool {
    let n = c as u32;
    65 <= n <= 90 || 97 <= n <= 122
}

pub fn ascii_alpha(c: char) -> (res: bool)
    ensures
        res == is_ascii_alpha(c),
{
    let n = c as u32;
    (65 <= n && n <= 90) || (97 <= n && n <= 122)
}

/// `char::to_ascii_lowercase`: `A`..`Z` become `a`..`z`, everything else stays.
pub open spec fn lower_char(c: char) -> char {
    if 65 <= c as u32 <= 90 {
        ((c as u32) + 32) as char
    } else {
        c
    }
}

pub open spec fn lower(s: Seq<char>) -> Seq<char> {
    s.map_values(|c: char| lower_char(c))
}

pub fn ascii_lower_char(c: char) -> (res: char)
    ensures
        res == lower_char(c),
{
    let n = c as u32;
    if 65 <= n && n <= 90 {
        let b = (c as u8) + 32;
        b as char
    } else {
        c
    }
}

/// Which characters a trimming operation removes.
#[derive(Clone, Copy)]
pub enum CharClass {
    Whitespace,
    Only(char),
}

pub open spec fn in_class(k: CharClass, c: char) -> bool {
    match k {
        CharClass::Whitespace => is_ws(c),
        CharClass::Only(x) => c == x,
    }
}

pub fn char_in_class(k: CharClass, c: char) -> (res: bool)
    ensures
        res == in_class(k, c),
{
    match k {
        CharClass::Whitespace => is_whitespace(c),
        CharClass::Only(x) => c == x,
    }
}

// ── Trimming ───────────────────────────────────────────────────────────────

/// `n` is the length of the longest prefix of `s` made of class `k`.
pub open spec fn is_lead(s: Seq<char>, k: CharClass, n: int) -> bool {
    &&& 0 <= n <= s.len()
    &&& forall|j: int| 0 <= j < n ==> in_class(k, #[trigger] s[j])
    &&& n < s.len() ==> !in_class(k, s[n])
}

/// `n` is the length of the longest suffix of `s` made of class `k`.
pub open spec fn is_trail(s: Seq<char>, k: CharClass, n: int) -> bool {
    &&& 0 <= n <= s.len()
    &&& forall|j: int| s.len() - n <= j < s.len() ==> in_class(k, #[trigger] s[j])
    &&& n < s.len() ==> !in_class(k, s[s.len() - n - 1])
}

pub closed spec fn lead_len(s: Seq<char>, k: CharClass) -> int {
    choose|n: int| is_lead(s, k, n)
}

pub closed spec fn trail_len(s: Seq<char>, k: CharClass) -> int {
    choose|n: int| is_trail(s, k, n)
}

pub proof fn lemma_lead_len(s: Seq<char>, k: CharClass, n: int)
    requires
        is_lead(s, k, n),
    ensures
        lead_len(s, k) == n,
{
    let m = lead_len(s, k);
    assert(is_lead(s, k, m));
    if m < n {
        assert(in_class(k, s[m]));
    } else if n < m {
        assert(in_class(k, s[n]));
    }
}

pub proof fn lemma_trail_len(s: Seq<char>, k: CharClass, n: int)
    requires
        is_trail(s, k, n),
    ensures
        trail_len(s, k) == n,
{
    let m = trail_len(s, k);
    assert(is_trail(s, k, m));
    if m < n {
        assert(in_class(k, s[s.len() - m - 1]));
    } else if n < m {
        assert(in_class(k, s[s.len() - n - 1]));
    }
}

/// Every sequence has a unique lead and trail.
pub proof fn lemma_lead_trail_exist(s: Seq<char>, k: CharClass)
    ensures
        is_lead(s, k, lead_len(s, k)),
        is_trail(s, k, trail_len(s, k)),
        0 <= lead_len(s, k) <= s.len(),
        0 <= trail_len(s, k) <= s.len(),
    decreases s.len(),
{
    if s.len() == 0 {
        assert(is_lead(s, k, 0));
        assert(is_trail(s, k, 0));
        lemma_lead_len(s, k, 0);
        lemma_trail_len(s, k, 0);
    } else {
        let t = s.drop_first();
        lemma_lead_trail_exist(t, k);
        let lt = lead_len(t, k);
        if in_class(k, s[0]) {
            assert forall|j: int| 0 <= j < lt + 1 implies in_class(k, #[trigger] s[j]) by {
                if j > 0 {
                    assert(s[j] == t[j - 1]);
                }
            }
            if lt + 1 < s.len() {
                assert(s[lt + 1] == t[lt]);
            }
            assert(is_lead(s, k, lt + 1));
            lemma_lead_len(s, k, lt + 1);
        } else {
            assert(is_lead(s, k, 0));
            lemma_lead_len(s, k, 0);
        }
        let u = s.drop_last();
        lemma_lead_trail_exist(u, k);
        let tu = trail_len(u, k);
        if in_class(k, s[s.len() - 1]) {
            assert forall|j: int| s.len() - (tu + 1) <= j < s.len() implies in_class(
                k,
                #[trigger] s[j],
            ) by {
                if j < s.len() - 1 {
                    assert(s[j] == u[j]);
                }
            }
            if tu + 1 < s.len() {
                assert(s[s.len() - tu - 2] == u[u.len() - tu - 1]);
            }
            assert(is_trail(s, k, tu + 1));
            lemma_trail_len(s, k, tu + 1);
        } else {
            assert(is_trail(s, k, 0));
            lemma_trail_len(s, k, 0);
        }
    }
}

pub open spec fn trim_start_by(s: Seq<char>, k: CharClass) -> Seq<char> {
    s.skip(lead_len(s, k))
}

pub open spec fn trim_end_by(s: Seq<char>, k: CharClass) -> Seq<char> {
    s.take(s.len() - trail_len(s, k))
}

/// `str::trim_matches` for class `k`: both ends stripped.
pub open spec fn trim_by(s: Seq<char>, k: CharClass) -> Seq<char> {
    trim_end_by(trim_start_by(s, k), k)
}

/// `str::trim`.
pub open spec fn trim(s: Seq<char>) -> Seq<char> {
    trim_by(s, CharClass::Whitespace)
}

pub open spec fn trim_start(s: Seq<char>) -> Seq<char> {
    trim_start_by(s, CharClass::Whitespace)
}

pub open spec fn trim_end(s: Seq<char>) -> Seq<char> {
    trim_end_by(s, CharClass::Whitespace)
}

/// Trimming a trimmed text changes nothing.
pub proof fn lemma_trim_idempotent(s: Seq<char>, k: CharClass)
    ensures
        trim_by(trim_by(s, k), k) == trim_by(s, k),
{
    lemma_lead_trail_exist(s, k);
    let l = lead_len(s, k);
    let s1 = trim_start_by(s, k);
    lemma_lead_trail_exist(s1, k);
    let tl = trail_len(s1, k);
    let t = trim_by(s, k);
    assert(t =~= s1.take(s1.len() - tl));
    if t.len() > 0 {
        assert(t[0] == s[l]);
        assert(is_lead(t, k, 0));
        lemma_lead_len(t, k, 0);
        assert(t[t.len() - 1] == s1[s1.len() - tl - 1]);
        assert(is_trail(t.skip(0), k, 0));
        assert(t.skip(0) =~= t);
        lemma_trail_len(t, k, 0);
    } else {
        assert(is_lead(t, k, 0));
        lemma_lead_len(t, k, 0);
        assert(t.skip(0) =~= t);
        assert(is_trail(t, k, 0));
        lemma_trail_len(t, k, 0);
    }
    assert(trim_by(t, k) =~= t);
}

/// Length of the class-`k` run at the front of `v[lo..hi]`.
fn lead_in(v: &Vec<char>, lo: usize, hi: usize, k: CharClass) -> (n: usize)
    requires
        lo <= hi <= v.len(),
    ensures
        is_lead(v@.subrange(lo as int, hi as int), k, n as int),
{
    let mut i = lo;
    while i < hi && char_in_class(k, v[i])
        invariant
            lo <= i <= hi <= v.len(),
            forall|j: int| lo <= j < i ==> in_class(k, #[trigger] v@[j]),
        decreases hi - i,
    {
        i = i + 1;
    }
    proof {
        let s = v@.subrange(lo as int, hi as int);
        assert forall|j: int| 0 <= j < i - lo implies in_class(k, #[trigger] s[j]) by {
            assert(s[j] == v@[lo + j]);
        }
    }
    i - lo
}

/// Length of the class-`k` run at the back of `v[lo..hi]`.
fn trail_in(v: &Vec<char>, lo: usize, hi: usize, k: CharClass) -> (n: usize)
    requires
        lo <= hi <= v.len(),
    ensures
        is_trail(v@.subrange(lo as int, hi as int), k, n as int),
{
    let mut i = hi;
    while i > lo && char_in_class(k, v[i - 1])
        invariant
            lo <= i <= hi <= v.len(),
            forall|j: int| i <= j < hi ==> in_class(k, #[trigger] v@[j]),
        decreases i - lo,
    {
        i = i - 1;
    }
    proof {
        let s = v@.subrange(lo as int, hi as int);
        assert forall|j: int| s.len() - (hi - i) <= j < s.len() implies in_class(
            k,
            #[trigger] s[j],
        ) by {
            assert(s[j] == v@[lo + j]);
        }
    }
    hi - i
}

/// Bounds of `trim_by(v[lo..hi], k)` inside `v`.
pub fn trim_bounds(v: &Vec<char>, lo: usize, hi: usize, k: CharClass) -> (res: (usize, usize))
    requires
        lo <= hi <= v.len(),
    ensures
        lo <= res.0 <= res.1 <= hi,
        v@.subrange(res.0 as int, res.1 as int) == trim_by(v@.subrange(lo as int, hi as int), k),
{
    let ghost s = v@.subrange(lo as int, hi as int);
    let a = lead_in(v, lo, hi, k);
    proof {
        lemma_lead_len(s, k, a as int);
    }
    let start = lo + a;
    let b = trail_in(v, start, hi, k);
    let ghost t = s.skip(a as int);
    proof {
        assert(t =~= v@.subrange(start as int, hi as int));
        lemma_trail_len(t, k, b as int);
        assert(v@.subrange(start as int, (hi - b) as int) =~= t.take(t.len() - b));
    }
    (start, hi - b)
}

// ── Building strings ───────────────────────────────────────────────────────

/// Appends one character to a string (`String::push`).
#[verifier::external_body]
pub(crate) fn push_char(s: &mut String, c: char)
    ensures
        final(s)@ == old(s)@.push(c),
{
    s.push(c);
}

/// Appends `t` to `s` (`String::push_str`).
pub fn push_str(s: &mut String, t: &str)
    ensures
        final(s)@ == old(s)@ + t@,
{
    let ghost s0 = s@;
    for c in it: t.chars()
        invariant
            s@ == s0 + it.seq().take(it.index() as int),
    {
        push_char(s, c);
        proof {
            assert(it.seq().take(it.index() + 1) =~= it.seq().take(it.index() as int).push(c));
        }
    }
    proof {
        assert(s@ =~= s0 + t@);
    }
}

/// The characters of `s`, in order.
pub fn chars_of(s: &str) -> (res: Vec<char>)
    ensures
        res@ == s@,
{
    let mut res: Vec<char> = Vec::new();
    for c in it: s.chars()
        invariant
            res@ == it.seq().take(it.index() as int),
    {
        res.push(c);
    }
    proof {
        assert(res@ =~= s@);
    }
    res
}

/// The string made of `v[lo..hi]`.
pub fn string_from(v: &Vec<char>, lo: usize, hi: usize) -> (res: String)
    requires
        lo <= hi <= v.len(),
    ensures
        res@ == v@.subrange(lo as int, hi as int),
{
    let mut res = String::new();
    let mut i = lo;
    while i < hi
        invariant
            lo <= i <= hi <= v.len(),
            res@ == v@.subrange(lo as int, i as int),
        decreases hi - i,
    {
        push_char(&mut res, v[i]);
        proof {
            assert(v@.subrange(lo as int, i + 1) =~= v@.subrange(lo as int, i as int).push(v@[i as int]));
        }
        i = i + 1;
    }
    res
}

pub fn string_of(v: &Vec<char>) -> (res: String)
    ensures
        res@ == v@,
{
    let r = string_from(v, 0, v.len());
    proof {
        assert(v@.subrange(0, v@.len() as int) =~= v@);
    }
    r
}

/// Copy of a string slice.
pub fn copy_str(s: &str) -> (res: String)
    ensures
        res@ == s@,
{
    let mut r = String::new();
    push_str(&mut r, s);
    proof {
        assert(Seq::<char>::empty() + s@ =~= s@);
    }
    r
}

// ── Common string operations ───────────────────────────────────────────────

/// `str::trim_matches` for class `k`.
pub fn trim_class(s: &str, k: CharClass) -> (res: String)
    ensures
        res@ == trim_by(s@, k),
{
    let v = chars_of(s);
    let (a, b) = trim_bounds(&v, 0, v.len(), k);
    proof {
        assert(v@.subrange(0, v@.len() as int) =~= v@);
    }
    string_from(&v, a, b)
}

/// `str::trim`.
pub fn trim_str(s: &str) -> (res: String)
    ensures
        res@ == trim(s@),
{
    trim_class(s, CharClass::Whitespace)
}

/// `str::trim_start_matches` for class `k`.
pub fn trim_start_class_str(s: &str, k: CharClass) -> (res: String)
    ensures
        res@ == trim_start_by(s@, k),
{
    let v = chars_of(s);
    let a = lead_in(&v, 0, v.len(), k);
    proof {
        assert(v@.subrange(0, v@.len() as int) =~= v@);
        lemma_lead_len(v@, k, a as int);
    }
    string_from(&v, a, v.len())
}

/// `str::trim_end_matches` for class `k`.
pub fn trim_end_class_str(s: &str, k: CharClass) -> (res: String)
    ensures
        res@ == trim_end_by(s@, k),
{
    let v = chars_of(s);
    let b = trail_in(&v, 0, v.len(), k);
    proof {
        assert(v@.subrange(0, v@.len() as int) =~= v@);
        lemma_trail_len(v@, k, b as int);
    }
    string_from(&v, 0, v.len() - b)
}

/// `str::trim_end`.
pub fn trim_end_str(s: &str) -> (res: String)
    ensures
        res@ == trim_end(s@),
{
    let v = chars_of(s);
    let b = trail_in(&v, 0, v.len(), CharClass::Whitespace);
    proof {
        assert(v@.subrange(0, v@.len() as int) =~= v@);
        lemma_trail_len(v@, CharClass::Whitespace, b as int);
    }
    string_from(&v, 0, v.len() - b)
}

/// `str::trim_start`.
pub fn trim_start_str(s: &str) -> (res: String)
    ensures
        res@ == trim_start(s@),
{
    let v = chars_of(s);
    let a = lead_in(&v, 0, v.len(), CharClass::Whitespace);
    proof {
        assert(v@.subrange(0, v@.len() as int) =~= v@);
        lemma_lead_len(v@, CharClass::Whitespace, a as int);
    }
    string_from(&v, a, v.len())
}

/// `str::to_ascii_lowercase`.
pub fn to_ascii_lower(s: &str) -> (res: String)
    ensures
        res@ == lower(s@),
{
    let mut res = String::new();
    for c in it: s.chars()
        invariant
            res@ == lower(it.seq().take(it.index() as int)),
    {
        let l = ascii_lower_char(c);
        push_char(&mut res, l);
        proof {
            assert(lower(it.seq().take(it.index() + 1)) =~= lower(it.seq().take(it.index() as int)).push(l));
        }
    }
    res
}

/// `a == b` on string views.
pub fn seq_eq(a: &str, b: &str) -> (res: bool)
    ensures
        res == (a@ == b@),
{
    let x = chars_of(a);
    let y = chars_of(b);
    if x.len() != y.len() {
        return false;
    }
    let mut i: usize = 0;
    while i < x.len()
        invariant
            x@ == a@,
            y@ == b@,
            x.len() == y.len(),
            i <= x.len(),
            forall|j: int| 0 <= j < i ==> x@[j] == y@[j],
        decreases x.len() - i,
    {
        if x[i] != y[i] {
            return false;
        }
        i = i + 1;
    }
    proof {
        assert(x@ =~= y@);
    }
    true
}

pub open spec fn starts_with(s: Seq<char>, p: Seq<char>) -> bool {
    p.len() <= s.len() && s.take(p.len() as int) == p
}

pub open spec fn ends_with(s: Seq<char>, p: Seq<char>) -> bool {
    p.len() <= s.len() && s.skip(s.len() - p.len()) == p
}

/// Whether `v[at..]` begins with `p`.
pub fn has_at(v: &Vec<char>, at: usize, p: &Vec<char>) -> (res: bool)
    requires
        at <= v.len(),
    ensures
        res == starts_with(v@.skip(at as int), p@),
{
    if p.len() > v.len() - at {
        return false;
    }
    let mut i: usize = 0;
    while i < p.len()
        invariant
            at + p.len() <= v.len(),
            i <= p.len(),
            forall|j: int| 0 <= j < i ==> v@[at + j] == p@[j],
        decreases p.len() - i,
    {
        if v[at + i] != p[i] {
            proof {
                assert(v@.skip(at as int).take(p.len() as int)[i as int] != p@[i as int]);
            }
            return false;
        }
        i = i + 1;
    }
    proof {
        assert(v@.skip(at as int).take(p.len() as int) =~= p@);
    }
    true
}

/// `str::starts_with` on string views.
pub fn str_starts_with(s: &str, p: &str) -> (res: bool)
    ensures
        res == starts_with(s@, p@),
{
    let v = chars_of(s);
    let w = chars_of(p);
    proof {
        assert(v@.skip(0) =~= v@);
    }
    has_at(&v, 0, &w)
}

/// `str::ends_with` on string views.
pub fn str_ends_with(s: &str, p: &str) -> (res: bool)
    ensures
        res == ends_with(s@, p@),
{
    let v = chars_of(s);
    let w = chars_of(p);
    if w.len() > v.len() {
        return false;
    }
    let r = has_at(&v, v.len() - w.len(), &w);
    proof {
        assert(v@.skip(v.len() - w.len()).take(w.len() as int) =~= v@.skip(v.len() - w.len()));
    }
    r
}

/// `p` occurs in `s` starting at `i`.
pub open spec fn occurs_at(s: Seq<char>, p: Seq<char>, i: int) -> bool {
    0 <= i && i + p.len() <= s.len() && s.subrange(i, i + p.len()) == p
}

/// `str::contains` with a string pattern.
pub open spec fn contains(s: Seq<char>, p: Seq<char>) -> bool {
    exists|i: int| occurs_at(s, p, i)
}

/// `s.contains(p)` on string views.
pub fn str_contains(s: &str, p: &str) -> (res: bool)
    ensures
        res == contains(s@, p@),
{
    let v = chars_of(s);
    let w = chars_of(p);
    if w.len() > v.len() {
        proof {
            assert forall|i: int| !occurs_at(s@, p@, i) by {}
        }
        return false;
    }
    let n = v.len() - w.len();
    let mut i: usize = 0;
    loop
        invariant
            v@ == s@,
            w@ == p@,
            w.len() <= v.len(),
            n == v.len() - w.len(),
            i <= n,
            forall|j: int| 0 <= j < i ==> !occurs_at(s@, p@, j),
        ensures
            forall|j: int| 0 <= j <= n ==> !occurs_at(s@, p@, j),
        decreases n - i,
    {
        let found = has_at(&v, i, &w);
        proof {
            assert(v@.skip(i as int).take(w.len() as int) =~= v@.subrange(i as int, i + w.len()));
        }
        if found {
            assert(occurs_at(s@, p@, i as int));
            return true;
        }
        if i == n {
            break;
        }
        i = i + 1;
    }
    proof {
        assert forall|j: int| !occurs_at(s@, p@, j) by {
            if 0 <= j <= n {
            }
        }
    }
    false
}

/// First position of `c` in `s`, as `str::find` with a char pattern counts
/// characters.
pub open spec fn is_first(s: Seq<char>, c: char, i: int) -> bool {
    0 <= i < s.len() && s[i] == c && forall|j: int| 0 <= j < i ==> s[j] != c
}

pub open spec fn is_last(s: Seq<char>, c: char, i: int) -> bool {
    0 <= i < s.len() && s[i] == c && forall|j: int| i < j < s.len() ==> s[j] != c
}

pub open spec fn find_char(s: Seq<char>, c: char) -> Option<int> {
    if exists|i: int| 0 <= i < s.len() && s[i] == c {
        Some(choose|i: int| is_first(s, c, i))
    } else {
        None
    }
}

pub open spec fn rfind_char(s: Seq<char>, c: char) -> Option<int> {
    if exists|i: int| 0 <= i < s.len() && s[i] == c {
        Some(choose|i: int| is_last(s, c, i))
    } else {
        None
    }
}

pub proof fn lemma_find_char(s: Seq<char>, c: char, i: int)
    requires
        is_first(s, c, i),
    ensures
        find_char(s, c) == Some(i),
{
    assert(s[i] == c);
    let k = choose|k: int| is_first(s, c, k);
    assert(is_first(s, c, k));
    if k < i {
        assert(s[k] != c);
    } else if i < k {
        assert(s[i] != c);
    }
}

pub proof fn lemma_rfind_char(s: Seq<char>, c: char, i: int)
    requires
        is_last(s, c, i),
    ensures
        rfind_char(s, c) == Some(i),
{
    assert(s[i] == c);
    let k = choose|k: int| is_last(s, c, k);
    assert(is_last(s, c, k));
    if k < i {
        assert(s[k] != c);
    } else if i < k {
        assert(s[i] != c);
    }
}

/// When `c` occurs, `find_char` names its first occurrence.
pub proof fn lemma_find_char_first(s: Seq<char>, c: char)
    ensures
        match find_char(s, c) {
            Some(i) => is_first(s, c, i),
            None => forall|j: int| 0 <= j < s.len() ==> s[j] != c,
        },
    decreases s.len(),
{
    if exists|j: int| 0 <= j < s.len() && s[j] == c {
        let t = s.drop_last();
        lemma_find_char_first(t, c);
        match find_char(t, c) {
            Some(i) => {
                assert(is_first(t, c, i));
                assert forall|k: int| 0 <= k < i implies s[k] != c by {
                    assert(t[k] == s[k]);
                }
                assert(s[i] == t[i]);
                assert(is_first(s, c, i));
                lemma_find_char(s, c, i);
            },
            None => {
                let j = choose|j: int| 0 <= j < s.len() && s[j] == c;
                assert(j == s.len() - 1) by {
                    if j < s.len() - 1 {
                        assert(t[j] == c);
                    }
                }
                assert forall|k: int| 0 <= k < j implies s[k] != c by {
                    assert(t[k] == s[k]);
                }
                assert(is_first(s, c, j));
                lemma_find_char(s, c, j);
            },
        }
    }
}

/// When `c` occurs, `rfind_char` names its last occurrence.
pub proof fn lemma_rfind_char_last(s: Seq<char>, c: char)
    ensures
        match rfind_char(s, c) {
            Some(i) => is_last(s, c, i),
            None => forall|j: int| 0 <= j < s.len() ==> s[j] != c,
        },
    decreases s.len(),
{
    if exists|j: int| 0 <= j < s.len() && s[j] == c {
        let t = s.drop_first();
        lemma_rfind_char_last(t, c);
        match rfind_char(t, c) {
            Some(i) => {
                assert(is_last(t, c, i));
                assert forall|k: int| i + 1 < k < s.len() implies s[k] != c by {
                    assert(t[k - 1] == s[k]);
                }
                assert(s[i + 1] == t[i]);
                assert(is_last(s, c, i + 1));
                lemma_rfind_char(s, c, i + 1);
            },
            None => {
                let j = choose|j: int| 0 <= j < s.len() && s[j] == c;
                assert(j == 0) by {
                    if j > 0 {
                        assert(t[j - 1] == c);
                    }
                }
                assert forall|k: int| 0 < k < s.len() implies s[k] != c by {
                    assert(t[k - 1] == s[k]);
                }
                assert(is_last(s, c, 0));
                lemma_rfind_char(s, c, 0);
            },
        }
    }
}

/// First index of `c` in `v[lo..]`, relative to `lo`.
pub fn find_in(v: &Vec<char>, lo: usize, c: char) -> (res: Option<usize>)
    requires
        lo <= v.len(),
    ensures
        match res {
            Some(i) => find_char(v@.skip(lo as int), c) == Some(i as int) && is_first(
                v@.skip(lo as int),
                c,
                i as int,
            ),
            None => find_char(v@.skip(lo as int), c) is None,
        },
{
    let ghost s = v@.skip(lo as int);
    let mut i = lo;
    while i < v.len()
        invariant
            lo <= i <= v.len(),
            s == v@.skip(lo as int),
            forall|j: int| lo <= j < i ==> v@[j] != c,
        decreases v.len() - i,
    {
        if v[i] == c {
            proof {
                assert(is_first(s, c, i - lo));
                lemma_find_char(s, c, i - lo);
            }
            return Some(i - lo);
        }
        i = i + 1;
    }
    proof {
        assert(!(exists|j: int| 0 <= j < s.len() && s[j] == c)) by {
            assert forall|j: int| 0 <= j < s.len() implies s[j] != c by {
                assert(s[j] == v@[lo + j]);
            }
        }
    }
    None
}

/// Last index of `c` in `v`.
pub fn rfind_in(v: &Vec<char>, c: char) -> (res: Option<usize>)
    ensures
        match res {
            Some(i) => rfind_char(v@, c) == Some(i as int) && is_last(v@, c, i as int),
            None => rfind_char(v@, c) is None,
        },
{
    let mut i = v.len();
    while i > 0
        invariant
            i <= v.len(),
            forall|j: int| i <= j < v.len() ==> v@[j] != c,
        decreases i,
    {
        if v[i - 1] == c {
            proof {
                assert(is_last(v@, c, i - 1));
                lemma_rfind_char(v@, c, i - 1);
            }
            return Some(i - 1);
        }
        i = i - 1;
    }
    None
}

/// `a` joined with `sep` between elements (`[String]::join`).
pub open spec fn join(items: Seq<Seq<char>>, sep: Seq<char>) -> Seq<char>
    decreases items.len(),
{
    if items.len() == 0 {
        Seq::empty()
    } else if items.len() == 1 {
        items[0]
    } else {
        join(items.drop_last(), sep) + sep + items.last()
    }
}

pub open spec fn views(v: Seq<String>) -> Seq<Seq<char>> {
    v.map_values(|s: String| s@)
}

pub fn join_strings(items: &[String], sep: &str) -> (res: String)
    ensures
        res@ == join(views(items@), sep@),
{
    let mut res = String::new();
    let mut i: usize = 0;
    while i < items.len()
        invariant
            i <= items.len(),
            res@ == join(views(items@).take(i as int), sep@),
        decreases items.len() - i,
    {
        let ghost before = views(items@).take(i as int);
        if i > 0 {
            push_str(&mut res, sep);
        }
        push_str(&mut res, items[i].as_str());
        proof {
            let after = views(items@).take(i + 1);
            assert(after.drop_last() =~= before);
            assert(after.last() == items@[i as int]@);
            if i == 0 {
                assert(res@ =~= after[0]);
            }
        }
        i = i + 1;
    }
    proof {
        assert(views(items@).take(items.len() as int) =~= views(items@));
    }
    res
}

/// `s` with every `from` character replaced by `to`.
pub open spec fn replace_char(s: Seq<char>, from: char, to: Seq<char>) -> Seq<char>
    decreases s.len(),
{
    if s.len() == 0 {
        Seq::empty()
    } else {
        replace_char(s.drop_last(), from, to) + (if s.last() == from {
            to
        } else {
            seq![s.last()]
        })
    }
}


// ── Replacing ──────────────────────────────────────────────────────────────

/// `str::replace(p, r)` for a non-empty pattern: scan left to right,
/// replacing each non-overlapping occurrence.
pub open spec fn replace_all(s: Seq<char>, p: Seq<char>, r: Seq<char>) -> Seq<char>
    decreases s.len(),
{
    if s.len() == 0 || p.len() == 0 {
        s
    } else if starts_with(s, p) {
        r + replace_all(s.skip(p.len() as int), p, r)
    } else {
        seq![s[0]] + replace_all(s.drop_first(), p, r)
    }
}

pub fn replace_str(s: &str, p: &str, r: &str) -> (res: String)
    ensures
        res@ == replace_all(s@, p@, r@),
{
    let v = chars_of(s);
    let w = chars_of(p);
    if w.len() == 0 {
        return copy_str(s);
    }
    let mut res = String::new();
    let mut i: usize = 0;
    proof {
        assert(v@.skip(0) =~= v@);
    }
    while i < v.len()
        invariant
            v@ == s@,
            w@ == p@,
            w.len() > 0,
            i <= v.len(),
            replace_all(s@, p@, r@) == res@ + replace_all(v@.skip(i as int), p@, r@),
        decreases v.len() - i,
    {
        let ghost rest = v@.skip(i as int);
        let ghost before = res@;
        if has_at(&v, i, &w) {
            proof {
                assert(rest.skip(w.len() as int) =~= v@.skip(i + w.len()));
            }
            push_str(&mut res, r);
            proof {
                assert(before + (r@ + replace_all(v@.skip(i + w.len()), p@, r@)) =~= res@
                    + replace_all(v@.skip(i + w.len()), p@, r@));
            }
            i = i + w.len();
        } else {
            proof {
                assert(rest.drop_first() =~= v@.skip(i + 1));
                assert(rest[0] == v@[i as int]);
            }
            push_char(&mut res, v[i]);
            proof {
                assert(before + (seq![v@[i as int]] + replace_all(v@.skip(i + 1), p@, r@)) =~= res@
                    + replace_all(v@.skip(i + 1), p@, r@));
            }
            i = i + 1;
        }
    }
    proof {
        assert(v@.skip(i as int).len() == 0);
        assert(res@ + Seq::<char>::empty() =~= res@);
    }
    res
}


// ── Numbers ────────────────────────────────────────────────────────────────

pub open spec fn digit_char(d: nat) -> char {
    ((48 + d) as u32) as char
}

/// Decimal digits of `n`, most significant first, no leading zeros.
pub open spec fn digits(n: nat) -> Seq<char>
    decreases n,
{
    if n < 10 {
        seq![digit_char(n)]
    } else {
        digits(n / 10).push(digit_char(n % 10))
    }
}

/// Decimal text of an integer, as `Display` writes it.
pub open spec fn int_text(i: int) -> Seq<char> {
    if i < 0 {
        seq!['-'] + digits((-i) as nat)
    } else {
        digits(i as nat)
    }
}

fn push_digit(out: &mut String, d: u64)
    requires
        d < 10,
    ensures
        final(out)@ == old(out)@.push(digit_char(d as nat)),
{
    let b = (d as u8) + 48;
    push_char(out, b as char);
}

pub fn push_u64(out: &mut String, n: u64)
    ensures
        final(out)@ == old(out)@ + digits(n as nat),
    decreases n,
{
    if n >= 10 {
        push_u64(out, n / 10);
        push_digit(out, n % 10);
        proof {
            assert(digits(n as nat) == digits((n / 10) as nat).push(digit_char((n % 10) as nat)));
        }
    } else {
        push_digit(out, n);
    }
    proof {
        assert(final(out)@ =~= old(out)@ + digits(n as nat)) by {
            if n < 10 {
                assert(digits(n as nat) == seq![digit_char(n as nat)]);
            }
        }
    }
}

pub fn u64_to_string(n: u64) -> (res: String)
    ensures
        res@ == digits(n as nat),
{
    let mut r = String::new();
    push_u64(&mut r, n);
    proof {
        assert(Seq::<char>::empty() + digits(n as nat) =~= digits(n as nat));
    }
    r
}

pub fn i64_to_string(n: i64) -> (res: String)
    ensures
        res@ == int_text(n as int),
{
    let mut r = String::new();
    if n < 0 {
        push_char(&mut r, '-');
        let m: u64 = (0i128 - (n as i128)) as u64;
        push_u64(&mut r, m);
    } else {
        push_u64(&mut r, n as u64);
        proof {
            assert(Seq::<char>::empty() + digits(n as nat) =~= digits(n as nat));
        }
    }
    r
}

// ── Splitting ──────────────────────────────────────────────────────────────

/// `str::split` with every class-`k` character as a separator.
pub open spec fn split_by(s: Seq<char>, k: CharClass) -> Seq<Seq<char>>
    decreases s.len(),
{
    if s.len() == 0 {
        seq![Seq::empty()]
    } else {
        let r = split_by(s.drop_last(), k);
        if in_class(k, s.last()) {
            r.push(Seq::empty())
        } else {
            r.update(r.len() - 1, r.last().push(s.last()))
        }
    }
}

pub proof fn lemma_split_nonempty(s: Seq<char>, k: CharClass)
    ensures
        split_by(s, k).len() >= 1,
    decreases s.len(),
{
    if s.len() > 0 {
        lemma_split_nonempty(s.drop_last(), k);
    }
}

pub fn split_class(s: &str, k: CharClass) -> (res: Vec<String>)
    ensures
        views(res@) == split_by(s@, k),
{
    let v = chars_of(s);
    let mut res: Vec<String> = Vec::new();
    let mut cur = String::new();
    let mut i: usize = 0;
    while i < v.len()
        invariant
            v@ == s@,
            i <= v.len(),
            views(res@).push(cur@) == split_by(v@.take(i as int), k),
        decreases v.len() - i,
    {
        let c = v[i];
        let ghost pre = v@.take(i as int);
        proof {
            assert(v@.take(i + 1).drop_last() =~= pre);
            lemma_split_nonempty(pre, k);
        }
        if char_in_class(k, c) {
            let done = cur;
            res.push(done);
            cur = String::new();
            proof {
                assert(views(res@) =~= views(res@.drop_last()).push(done@));
                assert(views(res@).push(cur@) =~= split_by(pre, k).push(Seq::empty()));
            }
        } else {
            push_char(&mut cur, c);
            proof {
                assert(views(res@).push(cur@) =~= split_by(pre, k).update(
                    split_by(pre, k).len() - 1,
                    split_by(pre, k).last().push(c),
                ));
            }
        }
        i = i + 1;
    }
    let last = cur;
    res.push(last);
    proof {
        assert(v@.take(v.len() as int) =~= v@);
        assert(views(res@) =~= views(res@.drop_last()).push(last@));
    }
    res
}

/// `str::split_once(c)`: the text before and after the first `c`.
pub open spec fn split_once(s: Seq<char>, c: char) -> Option<(Seq<char>, Seq<char>)> {
    match find_char(s, c) {
        Some(i) => Some((s.take(i), s.skip(i + 1))),
        None => None,
    }
}

pub fn split_once_str(s: &str, c: char) -> (res: Option<(String, String)>)
    ensures
        match res {
            Some((a, b)) => split_once(s@, c) == Some((a@, b@)),
            None => split_once(s@, c) is None,
        },
{
    let v = chars_of(s);
    proof {
        assert(v@.skip(0) =~= v@);
    }
    match find_in(&v, 0, c) {
        Some(i) => {
            assert(i < v.len());
            let a = string_from(&v, 0, i);
            let b = string_from(&v, i + 1, v.len());
            proof {
                assert(v@.subrange(0, i as int) =~= v@.take(i as int));
                assert(v@.subrange(i + 1, v.len() as int) =~= v@.skip(i + 1));
            }
            Some((a, b))
        },
        None => None,
    }
}

/// `str::lines`: split at `\n`, drop a `\r` before each `\n`, and no
/// empty final line after a trailing newline.
pub open spec fn strip_cr(l: Seq<char>) -> Seq<char> {
    if l.len() > 0 && l.last() == '\r' {
        l.drop_last()
    } else {
        l
    }
}

pub open spec fn lines(s: Seq<char>) -> Seq<Seq<char>> {
    let p = split_by(s, CharClass::Only('\n'));
    let init = p.drop_last().map_values(|l: Seq<char>| strip_cr(l));
    if p.last().len() == 0 {
        init
    } else {
        init.push(p.last())
    }
}

pub fn strip_cr_string(l: String) -> (res: String)
    ensures
        res@ == strip_cr(l@),
{
    let v = chars_of(l.as_str());
    if v.len() > 0 && v[v.len() - 1] == '\r' {
        let r = string_from(&v, 0, v.len() - 1);
        proof {
            assert(v@.subrange(0, v.len() - 1) =~= v@.drop_last());
        }
        r
    } else {
        l
    }
}

pub fn lines_of(s: &str) -> (res: Vec<String>)
    ensures
        views(res@) == lines(s@),
{
    let mut pieces = split_class(s, CharClass::Only('\n'));
    let ghost p = views(pieces@);
    proof {
        lemma_split_nonempty(s@, CharClass::Only('\n'));
    }
    let last = pieces.pop().unwrap();
    let mut res: Vec<String> = Vec::new();
    let mut i: usize = 0;
    let n = pieces.len();
    while i < n
        invariant
            n == pieces.len(),
            i <= n,
            p.len() == n + 1,
            forall|j: int| 0 <= j < n ==> (#[trigger] pieces@[j])@ == p[j],
            views(res@) == p.take(i as int).map_values(|l: Seq<char>| strip_cr(l)),
        decreases n - i,
    {
        let l = pieces[i].clone();
        let t = strip_cr_string(l);
        let ghost old_res = res@;
        res.push(t);
        proof {
            assert(views(res@) =~= views(old_res).push(t@));
            assert(p.take(i + 1).map_values(|l: Seq<char>| strip_cr(l)) =~= p.take(
                i as int,
            ).map_values(|l: Seq<char>| strip_cr(l)).push(strip_cr(p[i as int])));
        }
        i = i + 1;
    }
    proof {
        assert(p.take(n as int) =~= p.drop_last());
        assert(last@ == p.last());
    }
    if last.as_str().is_empty() {
        res
    } else {
        res.push(last);
        proof {
            assert(views(res@) =~= views(res@.drop_last()).push(p.last()));
        }
        res
    }
}

} // verus!
