//! Idempotency keys for queued sends.
//!
//! A send request is keyed by the SHA-256 of its content with every
//! recipient list and the headers put in a canonical order, so that the same
//! message queued twice gets the same key and the provider drops the repeat,
//! while any change of audience, body, headers or attachments gives a new key.
use vstd::prelude::*;

use crate::crypto;
use crate::inbox::{text_le, str_le};
use crate::models::{SendAttachment, SendEmailRequest};
use crate::text;

verus! {

broadcast use vstd::seq_lib::group_to_multiset_ensures;

// ── Lexicographic order on texts ───────────────────────────────────────────

pub open spec fn text_leq() -> spec_fn(Seq<char>, Seq<char>) -> bool {
    |a: Seq<char>, b: Seq<char>| text_le(a, b)
}

pub proof fn lemma_text_le_refl(a: Seq<char>)
    ensures
        text_le(a, a),
    decreases a.len(),
{
    if a.len() > 0 {
        lemma_text_le_refl(a.drop_first());
    }
}

pub proof fn lemma_text_le_antisym(a: Seq<char>, b: Seq<char>)
    requires
        text_le(a, b),
        text_le(b, a),
    ensures
        a == b,
    decreases a.len(),
{
    if a.len() > 0 && b.len() > 0 {
        lemma_text_le_antisym(a.drop_first(), b.drop_first());
        assert(a =~= seq![a[0]] + a.drop_first());
        assert(b =~= seq![b[0]] + b.drop_first());
    }
}

pub proof fn lemma_text_le_trans(a: Seq<char>, b: Seq<char>, c: Seq<char>)
    requires
        text_le(a, b),
        text_le(b, c),
    ensures
        text_le(a, c),
    decreases a.len(),
{
    if a.len() > 0 && b.len() > 0 && c.len() > 0 && a[0] == b[0] && b[0] == c[0] {
        lemma_text_le_trans(a.drop_first(), b.drop_first(), c.drop_first());
    }
}

pub proof fn lemma_text_le_total(a: Seq<char>, b: Seq<char>)
    ensures
        text_le(a, b) || text_le(b, a),
    decreases a.len(),
{
    if a.len() > 0 && b.len() > 0 {
        if a[0] == b[0] {
            lemma_text_le_total(a.drop_first(), b.drop_first());
        } else if (a[0] as u32) < (b[0] as u32) {
            assert(text_le(a, b));
        } else {
            vstd::utf8::char_u32_cast(a[0], a[0] as u32);
            vstd::utf8::char_u32_cast(b[0], b[0] as u32);
            assert(text_le(b, a));
        }
    }
}

/// Lexicographic comparison of texts is a total order.
pub proof fn lemma_text_order()
    ensures
        vstd::relations::total_ordering(text_leq()),
{
    assert forall|a: Seq<char>| #[trigger] text_leq()(a, a) by {
        lemma_text_le_refl(a);
    }
    assert forall|a: Seq<char>, b: Seq<char>|
        #[trigger] text_leq()(a, b) && #[trigger] text_leq()(b, a) implies a == b by {
        lemma_text_le_antisym(a, b);
    }
    assert forall|a: Seq<char>, b: Seq<char>, c: Seq<char>|
        #[trigger] text_leq()(a, b) && #[trigger] text_leq()(b, c) implies text_leq()(a, c) by {
        lemma_text_le_trans(a, b, c);
    }
    assert forall|a: Seq<char>, b: Seq<char>|
        #[trigger] text_leq()(a, b) || #[trigger] text_leq()(b, a) by {
        lemma_text_le_total(a, b);
    }
}

// ── Sorting texts ──────────────────────────────────────────────────────────

/// `sorted` with `x` placed after every entry not greater than it.
pub open spec fn insert_text(sorted: Seq<Seq<char>>, x: Seq<char>) -> Seq<Seq<char>>
    decreases sorted.len(),
{
    if sorted.len() == 0 {
        seq![x]
    } else if text_le(sorted.last(), x) {
        sorted.push(x)
    } else {
        insert_text(sorted.drop_last(), x).push(sorted.last())
    }
}

/// The texts in ascending order (`Vec<String>::sort`).
pub open spec fn sort_texts(s: Seq<Seq<char>>) -> Seq<Seq<char>>
    decreases s.len(),
{
    if s.len() == 0 {
        s
    } else {
        insert_text(sort_texts(s.drop_last()), s.last())
    }
}

proof fn lemma_insert_text(s: Seq<Seq<char>>, x: Seq<char>)
    requires
        vstd::relations::sorted_by(s, text_leq()),
    ensures
        vstd::relations::sorted_by(insert_text(s, x), text_leq()),
        insert_text(s, x).to_multiset() =~= s.to_multiset().insert(x),
    decreases s.len(),
{
    lemma_text_order();
    if s.len() == 0 {
        assert(seq![x] =~= Seq::<Seq<char>>::empty().push(x));
    } else if text_le(s.last(), x) {
        let r = s.push(x);
        assert forall|i: int, j: int| 0 <= i < j < r.len() implies #[trigger] text_leq()(
            r[i],
            r[j],
        ) by {
            if j == r.len() - 1 && i < s.len() - 1 {
                assert(text_leq()(s[i], s[s.len() - 1]));
                lemma_text_le_trans(s[i], s.last(), x);
            }
        }
    } else {
        let t = s.drop_last();
        assert(vstd::relations::sorted_by(t, text_leq()));
        lemma_insert_text(t, x);
        let u = insert_text(t, x);
        let r = u.push(s.last());
        assert(s =~= t.push(s.last()));
        lemma_text_le_total(s.last(), x);
        assert forall|k: int| 0 <= k < u.len() implies #[trigger] text_le(u[k], s.last()) by {
            assert(u.to_multiset().contains(u[k]));
            if u[k] != x {
                assert(t.to_multiset().contains(u[k]));
                let m = choose|m: int| 0 <= m < t.len() && t[m] == u[k];
                assert(text_leq()(s[m], s[s.len() - 1]));
            }
        }
        assert forall|i: int, j: int| 0 <= i < j < r.len() implies #[trigger] text_leq()(
            r[i],
            r[j],
        ) by {
            if j == r.len() - 1 {
                assert(text_le(u[i], s.last()));
            } else {
                assert(text_leq()(u[i], u[j]));
            }
        }
    }
}

proof fn lemma_sort_texts(s: Seq<Seq<char>>)
    ensures
        vstd::relations::sorted_by(sort_texts(s), text_leq()),
        sort_texts(s).to_multiset() =~= s.to_multiset(),
    decreases s.len(),
{
    if s.len() > 0 {
        lemma_sort_texts(s.drop_last());
        lemma_insert_text(sort_texts(s.drop_last()), s.last());
        assert(s =~= s.drop_last().push(s.last()));
    }
}

/// Sorting texts depends only on which texts there are and how often, not
/// on their order.
pub proof fn law_sort_ignores_order(a: Seq<Seq<char>>, b: Seq<Seq<char>>)
    requires
        a.to_multiset() == b.to_multiset(),
    ensures
        sort_texts(a) == sort_texts(b),
{
    lemma_sort_texts(a);
    lemma_sort_texts(b);
    lemma_text_order();
    vstd::seq_lib::lemma_sorted_unique(sort_texts(a), sort_texts(b), text_leq());
}

fn insert_text_position(sorted: &Vec<String>, x: &String) -> (res: usize)
    ensures
        res <= sorted.len(),
        insert_text(text::views(sorted@), x@) == text::views(sorted@).insert(res as int, x@),
{
    let ghost v = text::views(sorted@);
    let mut n = sorted.len();
    proof {
        assert(v.take(n as int) =~= v);
        assert(v.take(n as int) + v.skip(n as int) =~= v);
    }
    while n > 0 && !str_le(sorted[n - 1].as_str(), x.as_str())
        invariant
            n <= sorted.len(),
            v == text::views(sorted@),
            insert_text(v, x@) == insert_text(v.take(n as int), x@) + v.skip(n as int),
        decreases n,
    {
        proof {
            let t = v.take(n as int);
            assert(t.drop_last() =~= v.take(n - 1));
            assert(t.last() == v[n - 1]);
            assert(insert_text(t, x@) == insert_text(v.take(n - 1), x@).push(v[n - 1]));
            assert(insert_text(v.take(n - 1), x@).push(v[n - 1]) + v.skip(n as int)
                =~= insert_text(v.take(n - 1), x@) + v.skip(n - 1));
        }
        n = n - 1;
    }
    proof {
        let t = v.take(n as int);
        if n > 0 {
            assert(t.last() == v[n - 1]);
            assert(insert_text(t, x@) == t.push(x@));
        } else {
            assert(insert_text(t, x@) == seq![x@]);
        }
        assert(t.push(x@) + v.skip(n as int) =~= v.insert(n as int, x@));
    }
    n
}

/// The texts of `items`, sorted ascending.
pub fn sorted_texts(items: &Vec<String>) -> (res: Vec<String>)
    ensures
        text::views(res@) == sort_texts(text::views(items@)),
{
    let mut out: Vec<String> = Vec::new();
    let mut i: usize = 0;
    while i < items.len()
        invariant
            i <= items.len(),
            text::views(out@) == sort_texts(text::views(items@).take(i as int)),
        decreases items.len() - i,
    {
        let x = items[i].clone();
        let ghost before = text::views(out@);
        let pos = insert_text_position(&out, &x);
        out.insert(pos, x);
        proof {
            let t = text::views(items@).take(i + 1);
            assert(t.drop_last() =~= text::views(items@).take(i as int));
            assert(t.last() == x@);
            assert(text::views(out@) =~= before.insert(pos as int, x@));
        }
        i = i + 1;
    }
    proof {
        assert(text::views(items@).take(items.len() as int) =~= text::views(items@));
    }
    out
}

// ── Sorting headers by name ────────────────────────────────────────────────

pub open spec fn pair_view(h: (String, String)) -> (Seq<char>, Seq<char>) {
    (h.0@, h.1@)
}

pub open spec fn pair_views(v: Seq<(String, String)>) -> Seq<(Seq<char>, Seq<char>)> {
    v.map_values(|h: (String, String)| pair_view(h))
}

/// `sorted` with `h` placed after every header whose name is not greater.
pub open spec fn insert_header(sorted: Seq<(Seq<char>, Seq<char>)>, h: (Seq<char>, Seq<char>)) -> Seq<
    (Seq<char>, Seq<char>),
>
    decreases sorted.len(),
{
    if sorted.len() == 0 {
        seq![h]
    } else if text_le(sorted.last().0, h.0) {
        sorted.push(h)
    } else {
        insert_header(sorted.drop_last(), h).push(sorted.last())
    }
}

/// Headers ordered by name, equal names keeping their order (a stable sort).
pub open spec fn sort_headers(s: Seq<(Seq<char>, Seq<char>)>) -> Seq<(Seq<char>, Seq<char>)>
    decreases s.len(),
{
    if s.len() == 0 {
        s
    } else {
        insert_header(sort_headers(s.drop_last()), s.last())
    }
}

fn insert_header_position(sorted: &Vec<(String, String)>, h: &(String, String)) -> (res: usize)
    ensures
        res <= sorted.len(),
        insert_header(pair_views(sorted@), pair_view(*h)) == pair_views(sorted@).insert(
            res as int,
            pair_view(*h),
        ),
{
    let ghost v = pair_views(sorted@);
    let ghost x = pair_view(*h);
    let mut n = sorted.len();
    proof {
        assert(v.take(n as int) =~= v);
        assert(v.take(n as int) + v.skip(n as int) =~= v);
    }
    while n > 0 && !str_le(sorted[n - 1].0.as_str(), h.0.as_str())
        invariant
            n <= sorted.len(),
            v == pair_views(sorted@),
            x == pair_view(*h),
            insert_header(v, x) == insert_header(v.take(n as int), x) + v.skip(n as int),
        decreases n,
    {
        proof {
            let t = v.take(n as int);
            assert(t.drop_last() =~= v.take(n - 1));
            assert(t.last() == v[n - 1]);
            assert(insert_header(t, x) == insert_header(v.take(n - 1), x).push(v[n - 1]));
            assert(insert_header(v.take(n - 1), x).push(v[n - 1]) + v.skip(n as int)
                =~= insert_header(v.take(n - 1), x) + v.skip(n - 1));
        }
        n = n - 1;
    }
    proof {
        let t = v.take(n as int);
        if n > 0 {
            assert(t.last() == v[n - 1]);
            assert(insert_header(t, x) == t.push(x));
        } else {
            assert(insert_header(t, x) == seq![x]);
        }
        assert(t.push(x) + v.skip(n as int) =~= v.insert(n as int, x));
    }
    n
}

fn clone_pair(h: &(String, String)) -> (res: (String, String))
    ensures
        pair_view(res) == pair_view(*h),
{
    (text::copy_str(h.0.as_str()), text::copy_str(h.1.as_str()))
}

pub fn sorted_headers(items: &Vec<(String, String)>) -> (res: Vec<(String, String)>)
    ensures
        pair_views(res@) == sort_headers(pair_views(items@)),
{
    let mut out: Vec<(String, String)> = Vec::new();
    let mut i: usize = 0;
    while i < items.len()
        invariant
            i <= items.len(),
            pair_views(out@) == sort_headers(pair_views(items@).take(i as int)),
        decreases items.len() - i,
    {
        let h = clone_pair(&items[i]);
        let ghost before = pair_views(out@);
        let pos = insert_header_position(&out, &h);
        out.insert(pos, h);
        proof {
            let t = pair_views(items@).take(i + 1);
            assert(t.drop_last() =~= pair_views(items@).take(i as int));
            assert(t.last() == pair_view(h));
            assert(pair_views(out@) =~= before.insert(pos as int, pair_view(h)));
        }
        i = i + 1;
    }
    proof {
        assert(pair_views(items@).take(items.len() as int) =~= pair_views(items@));
    }
    out
}

// ── Header order ───────────────────────────────────────────────────────────

pub type Header = (Seq<char>, Seq<char>);

/// Headers compared by name alone.
pub open spec fn name_leq() -> spec_fn(Header, Header) -> bool {
    |a: Header, b: Header| text_le(a.0, b.0)
}

/// Headers compared by name, then by value.
pub open spec fn header_leq() -> spec_fn(Header, Header) -> bool {
    |a: Header, b: Header| (text_le(a.0, b.0) && a.0 != b.0) || (a.0 == b.0 && text_le(a.1, b.1))
}

/// No two headers share a name.
pub open spec fn distinct_names(s: Seq<Header>) -> bool {
    forall|i: int, j: int| 0 <= i < j < s.len() ==> #[trigger] s[i].0 != #[trigger] s[j].0
}

proof fn lemma_insert_header(s: Seq<Header>, h: Header)
    requires
        vstd::relations::sorted_by(s, name_leq()),
    ensures
        vstd::relations::sorted_by(insert_header(s, h), name_leq()),
        insert_header(s, h).to_multiset() =~= s.to_multiset().insert(h),
    decreases s.len(),
{
    lemma_text_order();
    if s.len() == 0 {
        assert(seq![h] =~= Seq::<Header>::empty().push(h));
    } else if text_le(s.last().0, h.0) {
        let r = s.push(h);
        assert forall|i: int, j: int| 0 <= i < j < r.len() implies #[trigger] name_leq()(
            r[i],
            r[j],
        ) by {
            if j == r.len() - 1 && i < s.len() - 1 {
                assert(name_leq()(s[i], s[s.len() - 1]));
                lemma_text_le_trans(s[i].0, s.last().0, h.0);
            }
        }
    } else {
        let t = s.drop_last();
        assert(vstd::relations::sorted_by(t, name_leq()));
        lemma_insert_header(t, h);
        let u = insert_header(t, h);
        let r = u.push(s.last());
        assert(s =~= t.push(s.last()));
        lemma_text_le_total(s.last().0, h.0);
        assert forall|k: int| 0 <= k < u.len() implies #[trigger] text_le(u[k].0, s.last().0) by {
            assert(u.to_multiset().contains(u[k]));
            if u[k] != h {
                assert(t.to_multiset().contains(u[k]));
                let m = choose|m: int| 0 <= m < t.len() && t[m] == u[k];
                assert(name_leq()(s[m], s[s.len() - 1]));
            }
        }
        assert forall|i: int, j: int| 0 <= i < j < r.len() implies #[trigger] name_leq()(
            r[i],
            r[j],
        ) by {
            if j == r.len() - 1 {
                assert(text_le(u[i].0, s.last().0));
            } else {
                assert(name_leq()(u[i], u[j]));
            }
        }
    }
}

proof fn lemma_sort_headers(s: Seq<Header>)
    ensures
        vstd::relations::sorted_by(sort_headers(s), name_leq()),
        sort_headers(s).to_multiset() =~= s.to_multiset(),
    decreases s.len(),
{
    if s.len() > 0 {
        lemma_sort_headers(s.drop_last());
        lemma_insert_header(sort_headers(s.drop_last()), s.last());
        assert(s =~= s.drop_last().push(s.last()));
    }
}

/// Comparing headers by name, then value, is a total order.
proof fn lemma_header_order()
    ensures
        vstd::relations::total_ordering(header_leq()),
{
    lemma_text_order();
    assert forall|a: Header| #[trigger] header_leq()(a, a) by {
        lemma_text_le_refl(a.1);
    }
    assert forall|a: Header, b: Header|
        #[trigger] header_leq()(a, b) && #[trigger] header_leq()(b, a) implies a == b by {
        if a.0 != b.0 {
            lemma_text_le_antisym(a.0, b.0);
        } else {
            lemma_text_le_antisym(a.1, b.1);
        }
    }
    assert forall|a: Header, b: Header, c: Header|
        #[trigger] header_leq()(a, b) && #[trigger] header_leq()(b, c) implies header_leq()(
        a,
        c,
    ) by {
        if a.0 == b.0 && b.0 == c.0 {
            lemma_text_le_trans(a.1, b.1, c.1);
        } else {
            lemma_text_le_refl(a.0);
            lemma_text_le_refl(b.0);
            lemma_text_le_trans(a.0, b.0, c.0);
            if a.0 == c.0 {
                lemma_text_le_antisym(a.0, b.0);
                lemma_text_le_antisym(b.0, c.0);
            }
        }
    }
    assert forall|a: Header, b: Header|
        #[trigger] header_leq()(a, b) || #[trigger] header_leq()(b, a) by {
        lemma_text_le_total(a.0, b.0);
        lemma_text_le_total(a.1, b.1);
    }
}

/// A reordering of headers with distinct names has distinct names.
proof fn lemma_distinct_names_perm(x: Seq<Header>, y: Seq<Header>)
    requires
        x.to_multiset() == y.to_multiset(),
        distinct_names(x),
    ensures
        distinct_names(y),
{
    assert(x.no_duplicates()) by {
        assert forall|i: int, j: int| 0 <= i < x.len() && 0 <= j < x.len() && i != j implies x[i]
            != x[j] by {
            if i < j {
                assert(x[i].0 != x[j].0);
            } else {
                assert(x[j].0 != x[i].0);
            }
        }
    }
    x.lemma_multiset_has_no_duplicates();
    y.lemma_multiset_has_no_duplicates_conv();
    assert forall|i: int, j: int| 0 <= i < j < y.len() implies #[trigger] y[i].0 != #[trigger] y[j].0 by {
        if y[i].0 == y[j].0 {
            assert(y[i] != y[j]);
            assert(y.to_multiset().contains(y[i]));
            assert(y.to_multiset().contains(y[j]));
            assert(x.contains(y[i]));
            assert(x.contains(y[j]));
            let p = choose|p: int| 0 <= p < x.len() && x[p] == y[i];
            let q = choose|q: int| 0 <= q < x.len() && x[q] == y[j];
            if p < q {
                assert(x[p].0 != x[q].0);
            } else {
                assert(x[q].0 != x[p].0);
            }
        }
    }
}

/// Sorting headers with distinct names depends only on which headers there
/// are, not on their order.
pub proof fn law_sort_headers_ignores_order(a: Seq<Header>, b: Seq<Header>)
    requires
        a.to_multiset() == b.to_multiset(),
        distinct_names(a),
    ensures
        sort_headers(a) == sort_headers(b),
{
    let sa = sort_headers(a);
    let sb = sort_headers(b);
    lemma_sort_headers(a);
    lemma_sort_headers(b);
    lemma_distinct_names_perm(a, sa);
    lemma_distinct_names_perm(a, sb);
    lemma_header_order();
    assert(vstd::relations::sorted_by(sa, header_leq())) by {
        assert forall|i: int, j: int| 0 <= i < j < sa.len() implies #[trigger] header_leq()(
            sa[i],
            sa[j],
        ) by {
            assert(name_leq()(sa[i], sa[j]));
            assert(sa[i].0 != sa[j].0);
        }
    }
    assert(vstd::relations::sorted_by(sb, header_leq())) by {
        assert forall|i: int, j: int| 0 <= i < j < sb.len() implies #[trigger] header_leq()(
            sb[i],
            sb[j],
        ) by {
            assert(name_leq()(sb[i], sb[j]));
            assert(sb[i].0 != sb[j].0);
        }
    }
    vstd::seq_lib::lemma_sorted_unique(sa, sb, header_leq());
}

// ── The key ────────────────────────────────────────────────────────────────

/// All the texts, one after another.
pub open spec fn flatten(items: Seq<Seq<char>>) -> Seq<char>
    decreases items.len(),
{
    if items.len() == 0 {
        Seq::empty()
    } else {
        flatten(items.drop_last()) + items.last()
    }
}

pub open spec fn header_pairs_text(h: Seq<(Seq<char>, Seq<char>)>) -> Seq<char>
    decreases h.len(),
{
    if h.len() == 0 {
        Seq::empty()
    } else {
        header_pairs_text(h.drop_last()) + h.last().0 + h.last().1
    }
}

pub open spec fn attachments_text(a: Seq<SendAttachment>) -> Seq<char>
    decreases a.len(),
{
    if a.len() == 0 {
        Seq::empty()
    } else {
        attachments_text(a.drop_last()) + a.last().filename@ + a.last().content@
    }
}

pub open spec fn opt_text(o: Option<String>) -> Seq<char> {
    match o {
        Some(s) => s@,
        None => Seq::empty(),
    }
}

/// Everything that goes into the hash, in order: sender, the sorted `to`,
/// `cc` and `bcc` lists, subject, text, html, the headers sorted by name
/// (name then value), and each attachment's file name and content.
pub open spec fn key_material(r: SendEmailRequest) -> Seq<char> {
    r.from@ + flatten(sort_texts(text::views(r.to@))) + flatten(sort_texts(text::views(r.cc@)))
        + flatten(sort_texts(text::views(r.bcc@))) + r.subject@ + opt_text(r.text) + opt_text(
        r.html,
    ) + match r.headers {
        Some(h) => header_pairs_text(sort_headers(pair_views(h@))),
        None => Seq::empty(),
    } + attachments_text(r.attachments@)
}

/// Text that differs in one middle part, between a shared start and a
/// shared end, differs as a whole.
proof fn lemma_middle_differs(a: Seq<char>, x: Seq<char>, y: Seq<char>, b: Seq<char>)
    requires
        x != y,
    ensures
        a + x + b != a + y + b,
{
    if a + x + b == a + y + b {
        assert((a + x + b).len() == (a + y + b).len());
        assert(x.len() == y.len());
        assert(x =~= (a + x + b).subrange(a.len() as int, (a.len() + x.len()) as int));
        assert(y =~= (a + y + b).subrange(a.len() as int, (a.len() + y.len()) as int));
    }
}

/// The parts of the key material around the sender, subject, text and
/// html: what stays fixed when only one of those changes.
pub open spec fn recipients_text(r: SendEmailRequest) -> Seq<char> {
    flatten(sort_texts(text::views(r.to@))) + flatten(sort_texts(text::views(r.cc@))) + flatten(
        sort_texts(text::views(r.bcc@)),
    )
}

pub open spec fn trailer_text(r: SendEmailRequest) -> Seq<char> {
    (match r.headers {
        Some(h) => header_pairs_text(sort_headers(pair_views(h@))),
        None => Seq::empty(),
    }) + attachments_text(r.attachments@)
}

/// Two requests alike in everything the key is made from.
pub open spec fn alike_but_bodies(r1: SendEmailRequest, r2: SendEmailRequest) -> bool {
    &&& text::views(r1.to@) == text::views(r2.to@)
    &&& text::views(r1.cc@) == text::views(r2.cc@)
    &&& text::views(r1.bcc@) == text::views(r2.bcc@)
    &&& r1.headers == r2.headers
    &&& r1.attachments@ == r2.attachments@
}

proof fn lemma_material_parts(r: SendEmailRequest)
    ensures
        key_material(r) == r.from@ + recipients_text(r) + r.subject@ + opt_text(r.text) + opt_text(
            r.html,
        ) + trailer_text(r),
{
    assert(key_material(r) =~= r.from@ + recipients_text(r) + r.subject@ + opt_text(r.text)
        + opt_text(r.html) + trailer_text(r));
}

/// Two requests that differ only in their html body get different key
/// material, so their idempotency keys are hashed from different bytes and
/// a second message with another body is not taken for a repeat. (No html
/// and an empty html body are hashed alike.)
pub proof fn law_key_material_includes_html(r1: SendEmailRequest, r2: SendEmailRequest)
    requires
        alike_but_bodies(r1, r2),
        r1.from@ == r2.from@,
        r1.subject@ == r2.subject@,
        opt_text(r1.text) == opt_text(r2.text),
        opt_text(r1.html) != opt_text(r2.html),
    ensures
        key_material(r1) != key_material(r2),
{
    lemma_material_parts(r1);
    lemma_material_parts(r2);
    let a = r1.from@ + recipients_text(r1) + r1.subject@ + opt_text(r1.text);
    assert(a == r2.from@ + recipients_text(r2) + r2.subject@ + opt_text(r2.text));
    lemma_middle_differs(a, opt_text(r1.html), opt_text(r2.html), trailer_text(r1));
}

/// Two requests that differ only in their text body get different key
/// material.
pub proof fn law_key_material_includes_text(r1: SendEmailRequest, r2: SendEmailRequest)
    requires
        alike_but_bodies(r1, r2),
        r1.from@ == r2.from@,
        r1.subject@ == r2.subject@,
        opt_text(r1.text) != opt_text(r2.text),
        opt_text(r1.html) == opt_text(r2.html),
    ensures
        key_material(r1) != key_material(r2),
{
    lemma_material_parts(r1);
    lemma_material_parts(r2);
    let a = r1.from@ + recipients_text(r1) + r1.subject@;
    let b = opt_text(r1.html) + trailer_text(r1);
    assert(key_material(r1) =~= a + opt_text(r1.text) + b);
    assert(key_material(r2) =~= a + opt_text(r2.text) + b);
    lemma_middle_differs(a, opt_text(r1.text), opt_text(r2.text), b);
}

/// Two requests that differ only in their subject get different key
/// material.
pub proof fn law_key_material_includes_subject(r1: SendEmailRequest, r2: SendEmailRequest)
    requires
        alike_but_bodies(r1, r2),
        r1.from@ == r2.from@,
        r1.subject@ != r2.subject@,
        opt_text(r1.text) == opt_text(r2.text),
        opt_text(r1.html) == opt_text(r2.html),
    ensures
        key_material(r1) != key_material(r2),
{
    lemma_material_parts(r1);
    lemma_material_parts(r2);
    let a = r1.from@ + recipients_text(r1);
    let b = opt_text(r1.text) + opt_text(r1.html) + trailer_text(r1);
    assert(key_material(r1) =~= a + r1.subject@ + b);
    assert(key_material(r2) =~= a + r2.subject@ + b);
    lemma_middle_differs(a, r1.subject@, r2.subject@, b);
}

/// Two requests that differ only in their sender get different key
/// material.
pub proof fn law_key_material_includes_sender(r1: SendEmailRequest, r2: SendEmailRequest)
    requires
        alike_but_bodies(r1, r2),
        r1.from@ != r2.from@,
        r1.subject@ == r2.subject@,
        opt_text(r1.text) == opt_text(r2.text),
        opt_text(r1.html) == opt_text(r2.html),
    ensures
        key_material(r1) != key_material(r2),
{
    lemma_material_parts(r1);
    lemma_material_parts(r2);
    let b = recipients_text(r1) + r1.subject@ + opt_text(r1.text) + opt_text(r1.html) + trailer_text(
        r1,
    );
    assert(key_material(r1) =~= Seq::<char>::empty() + r1.from@ + b);
    assert(key_material(r2) =~= Seq::<char>::empty() + r2.from@ + b);
    lemma_middle_differs(Seq::empty(), r1.from@, r2.from@, b);
}

/// The number of characters in a list of texts.
pub open spec fn total_len(s: Seq<Seq<char>>) -> nat
    decreases s.len(),
{
    if s.len() == 0 {
        0
    } else {
        total_len(s.drop_last()) + s.last().len()
    }
}

/// The number of characters in the names and values of a list of headers.
pub open spec fn headers_len(h: Seq<Header>) -> nat
    decreases h.len(),
{
    if h.len() == 0 {
        0
    } else {
        headers_len(h.drop_last()) + h.last().0.len() + h.last().1.len()
    }
}

/// The number of characters in the file names and contents of attachments.
pub open spec fn attachments_len(a: Seq<SendAttachment>) -> nat
    decreases a.len(),
{
    if a.len() == 0 {
        0
    } else {
        attachments_len(a.drop_last()) + a.last().filename@.len() + a.last().content@.len()
    }
}

proof fn lemma_flatten_len(s: Seq<Seq<char>>)
    ensures
        flatten(s).len() == total_len(s),
    decreases s.len(),
{
    if s.len() > 0 {
        lemma_flatten_len(s.drop_last());
    }
}

proof fn lemma_insert_text_len(s: Seq<Seq<char>>, x: Seq<char>)
    ensures
        total_len(insert_text(s, x)) == total_len(s) + x.len(),
    decreases s.len(),
{
    if s.len() == 0 {
        assert(seq![x].drop_last() =~= Seq::<Seq<char>>::empty());
        assert(total_len(seq![x]) == total_len(Seq::<Seq<char>>::empty()) + x.len());
    } else if text_le(s.last(), x) {
        assert(s.push(x).drop_last() =~= s);
        assert(total_len(s.push(x)) == total_len(s) + x.len());
    } else {
        lemma_insert_text_len(s.drop_last(), x);
        let y = insert_text(s.drop_last(), x);
        assert(y.push(s.last()).drop_last() =~= y);
        assert(total_len(y.push(s.last())) == total_len(y) + s.last().len());
        assert(insert_text(s, x) == y.push(s.last()));
    }
}

proof fn lemma_sort_texts_len(s: Seq<Seq<char>>)
    ensures
        total_len(sort_texts(s)) == total_len(s),
    decreases s.len(),
{
    if s.len() > 0 {
        lemma_sort_texts_len(s.drop_last());
        lemma_insert_text_len(sort_texts(s.drop_last()), s.last());
    }
}

proof fn lemma_header_pairs_len(h: Seq<Header>)
    ensures
        header_pairs_text(h).len() == headers_len(h),
    decreases h.len(),
{
    if h.len() > 0 {
        lemma_header_pairs_len(h.drop_last());
    }
}

proof fn lemma_insert_header_len(s: Seq<Header>, x: Header)
    ensures
        headers_len(insert_header(s, x)) == headers_len(s) + x.0.len() + x.1.len(),
    decreases s.len(),
{
    if s.len() == 0 {
        assert(seq![x].drop_last() =~= Seq::<Header>::empty());
        assert(headers_len(seq![x]) == headers_len(Seq::<Header>::empty()) + x.0.len() + x.1.len());
    } else if text_le(s.last().0, x.0) {
        assert(s.push(x).drop_last() =~= s);
        assert(headers_len(s.push(x)) == headers_len(s) + x.0.len() + x.1.len());
    } else {
        lemma_insert_header_len(s.drop_last(), x);
        let y = insert_header(s.drop_last(), x);
        assert(y.push(s.last()).drop_last() =~= y);
        assert(headers_len(y.push(s.last())) == headers_len(y) + s.last().0.len() + s.last().1.len());
        assert(insert_header(s, x) == y.push(s.last()));
    }
}

proof fn lemma_sort_headers_len(h: Seq<Header>)
    ensures
        headers_len(sort_headers(h)) == headers_len(h),
    decreases h.len(),
{
    if h.len() > 0 {
        lemma_sort_headers_len(h.drop_last());
        lemma_insert_header_len(sort_headers(h.drop_last()), h.last());
    }
}

proof fn lemma_attachments_len(a: Seq<SendAttachment>)
    ensures
        attachments_text(a).len() == attachments_len(a),
    decreases a.len(),
{
    if a.len() > 0 {
        lemma_attachments_len(a.drop_last());
    }
}

/// Every character of a request goes into its key material, once: the
/// material is exactly as long as the sender, all recipients, the subject,
/// both bodies, every header name and value, and every attachment's name
/// and content together. So no part of the request is left out of the
/// idempotency key.
pub proof fn law_key_material_covers_request(r: SendEmailRequest)
    ensures
        key_material(r).len() == r.from@.len() + total_len(text::views(r.to@)) + total_len(
            text::views(r.cc@),
        ) + total_len(text::views(r.bcc@)) + r.subject@.len() + opt_text(r.text).len() + opt_text(
            r.html,
        ).len() + (match r.headers {
            Some(h) => headers_len(pair_views(h@)),
            None => 0,
        }) + attachments_len(r.attachments@),
{
    lemma_flatten_len(sort_texts(text::views(r.to@)));
    lemma_flatten_len(sort_texts(text::views(r.cc@)));
    lemma_flatten_len(sort_texts(text::views(r.bcc@)));
    lemma_sort_texts_len(text::views(r.to@));
    lemma_sort_texts_len(text::views(r.cc@));
    lemma_sort_texts_len(text::views(r.bcc@));
    match r.headers {
        Some(h) => {
            lemma_header_pairs_len(sort_headers(pair_views(h@)));
            lemma_sort_headers_len(pair_views(h@));
        },
        None => {},
    }
    lemma_attachments_len(r.attachments@);
}

/// A request that copies one more non-empty address in `cc` or `bcc` than
/// another, and is otherwise the same, gets different key material: the
/// copied audience is part of the key.
pub proof fn law_extra_copy_changes_key_material(r1: SendEmailRequest, r2: SendEmailRequest, x: String)
    requires
        r1.from@ == r2.from@,
        text::views(r1.to@) == text::views(r2.to@),
        r1.subject@ == r2.subject@,
        opt_text(r1.text) == opt_text(r2.text),
        opt_text(r1.html) == opt_text(r2.html),
        r1.headers == r2.headers,
        r1.attachments@ == r2.attachments@,
        x@.len() > 0,
        (r2.cc@ == r1.cc@.push(x) && text::views(r2.bcc@) == text::views(r1.bcc@)) || (r2.bcc@
            == r1.bcc@.push(x) && text::views(r2.cc@) == text::views(r1.cc@)),
    ensures
        key_material(r1) != key_material(r2),
{
    law_key_material_covers_request(r1);
    law_key_material_covers_request(r2);
    if r2.cc@ == r1.cc@.push(x) {
        assert(text::views(r2.cc@).drop_last() =~= text::views(r1.cc@));
    } else {
        assert(text::views(r2.bcc@).drop_last() =~= text::views(r1.bcc@));
    }
}

/// `email-cli-` and the lower-case hex SHA-256 of the key material.
pub open spec fn idempotency_key_of(r: SendEmailRequest) -> Seq<char> {
    "email-cli-"@ + crypto::hex_of(crypto::sha256_digest(vstd::utf8::encode_utf8(key_material(r))))
}

fn push_all(out: &mut String, items: &Vec<String>)
    ensures
        final(out)@ == old(out)@ + flatten(text::views(items@)),
{
    let ghost start = out@;
    let mut i: usize = 0;
    while i < items.len()
        invariant
            i <= items.len(),
            out@ == start + flatten(text::views(items@).take(i as int)),
        decreases items.len() - i,
    {
        text::push_str(out, items[i].as_str());
        proof {
            let t = text::views(items@).take(i + 1);
            assert(t.drop_last() =~= text::views(items@).take(i as int));
        }
        i = i + 1;
    }
    proof {
        assert(text::views(items@).take(items.len() as int) =~= text::views(items@));
    }
}

fn push_headers(out: &mut String, h: &Vec<(String, String)>)
    ensures
        final(out)@ == old(out)@ + header_pairs_text(pair_views(h@)),
{
    let ghost start = out@;
    let mut i: usize = 0;
    while i < h.len()
        invariant
            i <= h.len(),
            out@ == start + header_pairs_text(pair_views(h@).take(i as int)),
        decreases h.len() - i,
    {
        text::push_str(out, h[i].0.as_str());
        text::push_str(out, h[i].1.as_str());
        proof {
            let t = pair_views(h@).take(i + 1);
            assert(t.drop_last() =~= pair_views(h@).take(i as int));
        }
        i = i + 1;
    }
    proof {
        assert(pair_views(h@).take(h.len() as int) =~= pair_views(h@));
    }
}

fn push_attachments(out: &mut String, a: &Vec<SendAttachment>)
    ensures
        final(out)@ == old(out)@ + attachments_text(a@),
{
    let ghost start = out@;
    let mut i: usize = 0;
    while i < a.len()
        invariant
            i <= a.len(),
            out@ == start + attachments_text(a@.take(i as int)),
        decreases a.len() - i,
    {
        text::push_str(out, a[i].filename.as_str());
        text::push_str(out, a[i].content.as_str());
        proof {
            let t = a@.take(i + 1);
            assert(t.drop_last() =~= a@.take(i as int));
        }
        i = i + 1;
    }
    proof {
        assert(a@.take(a.len() as int) =~= a@);
    }
}

/// The text that is hashed for a request's key.
pub fn key_material_of(request: &SendEmailRequest) -> (res: String)
    ensures
        res@ == key_material(*request),
{
    let mut m = text::copy_str(request.from.as_str());
    let to = sorted_texts(&request.to);
    push_all(&mut m, &to);
    let cc = sorted_texts(&request.cc);
    push_all(&mut m, &cc);
    let bcc = sorted_texts(&request.bcc);
    push_all(&mut m, &bcc);
    text::push_str(&mut m, request.subject.as_str());
    match &request.text {
        Some(t) => text::push_str(&mut m, t.as_str()),
        None => {},
    }
    match &request.html {
        Some(t) => text::push_str(&mut m, t.as_str()),
        None => {},
    }
    match &request.headers {
        Some(h) => {
            let sh = sorted_headers(h);
            push_headers(&mut m, &sh);
        },
        None => {},
    }
    push_attachments(&mut m, &request.attachments);
    m
}

/// The idempotency key of a send request: `email-cli-` followed by the 64
/// lower-case hex digits of a SHA-256 digest.
pub fn stable_idempotency_key(request: &SendEmailRequest) -> (res: String)
    ensures
        res@ == idempotency_key_of(*request),
        res@.len() == 74,
        res@.take(10) == "email-cli-"@,
        forall|i: int| 10 <= i < 74 ==> crypto::is_lower_hex(#[trigger] res@[i]),
{
    let material = key_material_of(request);
    let digest = crypto::sha256(material.as_str().as_bytes());
    let mut key = text::copy_str("email-cli-");
    let hex = crypto::hex_lower(digest.as_slice());
    text::push_str(&mut key, hex.as_str());
    proof {
        reveal_strlit("email-cli-");
        crypto::lemma_hex_of_shape(digest@);
        assert(key@.take(10) =~= "email-cli-"@);
        assert forall|i: int| 10 <= i < 74 implies crypto::is_lower_hex(#[trigger] key@[i]) by {
            assert(key@[i] == hex@[i - 10]);
        }
    }
    key
}

/// Reordering the `to`, `cc` or `bcc` recipients of a request does not
/// change its idempotency key.
pub proof fn law_key_ignores_recipient_order(r1: SendEmailRequest, r2: SendEmailRequest)
    requires
        r1.from@ == r2.from@,
        text::views(r1.to@).to_multiset() == text::views(r2.to@).to_multiset(),
        text::views(r1.cc@).to_multiset() == text::views(r2.cc@).to_multiset(),
        text::views(r1.bcc@).to_multiset() == text::views(r2.bcc@).to_multiset(),
        r1.subject@ == r2.subject@,
        opt_text(r1.text) == opt_text(r2.text),
        opt_text(r1.html) == opt_text(r2.html),
        r1.headers == r2.headers,
        r1.attachments@ == r2.attachments@,
    ensures
        idempotency_key_of(r1) == idempotency_key_of(r2),
{
    law_sort_ignores_order(text::views(r1.to@), text::views(r2.to@));
    law_sort_ignores_order(text::views(r1.cc@), text::views(r2.cc@));
    law_sort_ignores_order(text::views(r1.bcc@), text::views(r2.bcc@));
    assert(key_material(r1) == key_material(r2));
}

/// Two requests carry the same headers: none, or the same distinctly named
/// headers in any order.
pub open spec fn same_headers(h1: Option<Vec<(String, String)>>, h2: Option<Vec<(String, String)>>) -> bool {
    match (h1, h2) {
        (None, None) => true,
        (Some(a), Some(b)) => pair_views(a@).to_multiset() == pair_views(b@).to_multiset()
            && distinct_names(pair_views(a@)),
        _ => false,
    }
}

/// The order in which a request's headers are listed does not change its
/// idempotency key, as long as no two headers share a name.
pub proof fn law_key_ignores_header_order(r1: SendEmailRequest, r2: SendEmailRequest)
    requires
        r1.from@ == r2.from@,
        text::views(r1.to@) == text::views(r2.to@),
        text::views(r1.cc@) == text::views(r2.cc@),
        text::views(r1.bcc@) == text::views(r2.bcc@),
        r1.subject@ == r2.subject@,
        opt_text(r1.text) == opt_text(r2.text),
        opt_text(r1.html) == opt_text(r2.html),
        same_headers(r1.headers, r2.headers),
        r1.attachments@ == r2.attachments@,
    ensures
        idempotency_key_of(r1) == idempotency_key_of(r2),
{
    match (r1.headers, r2.headers) {
        (Some(a), Some(b)) => {
            law_sort_headers_ignores_order(pair_views(a@), pair_views(b@));
        },
        _ => {},
    }
    assert(key_material(r1) == key_material(r2));
}

} // verus!
