//! Textual IP addresses, read with the rules of the standard library's
//! `Ipv4Addr` and `Ipv6Addr` parsers.
//!
//! IPv4: four decimal octets separated by `.`, each one to three digits,
//! no leading zero except a lone `0`, and at most 255.
//!
//! IPv6: eight groups of one to four hex digits separated by `:`; the last
//! two groups may be written as an embedded IPv4 address; one `::` may stand
//! for one or more zero groups, and an embedded IPv4 address may not come
//! before it.
use vstd::prelude::*;

use crate::text::{self, CharClass};

verus! {

// ── IPv4 ───────────────────────────────────────────────────────────────────

pub open spec fn decimal_value(s: Seq<char>) -> int
    decreases s.len(),
{
    if s.len() == 0 {
        0
    } else {
        decimal_value(s.drop_last()) * 10 + ((s.last() as u32) as int - 48)
    }
}

/// One IPv4 octet as the standard parser accepts it.
pub open spec fn octet_ok(s: Seq<char>) -> bool {
    &&& 1 <= s.len() <= 3
    &&& forall|i: int| 0 <= i < s.len() ==> text::is_ascii_digit(#[trigger] s[i])
    &&& (s.len() == 1 || s[0] != '0')
    &&& decimal_value(s) <= 255
}

pub open spec fn decimal_values(parts: Seq<Seq<char>>) -> Seq<int> {
    parts.map_values(|p: Seq<char>| decimal_value(p))
}

/// The four octets of `s`, when `s` is an IPv4 address.
pub open spec fn ipv4_octets(s: Seq<char>) -> Option<Seq<int>> {
    let parts = text::split_by(s, CharClass::Only('.'));
    if parts.len() == 4 && forall|i: int| 0 <= i < 4 ==> octet_ok(#[trigger] parts[i]) {
        Some(decimal_values(parts))
    } else {
        None
    }
}

proof fn lemma_decimal_bound(s: Seq<char>)
    requires
        forall|i: int| 0 <= i < s.len() ==> text::is_ascii_digit(#[trigger] s[i]),
    ensures
        0 <= decimal_value(s),
        s.len() <= 3 ==> decimal_value(s) <= 999,
        s.len() <= 2 ==> decimal_value(s) <= 99,
        s.len() <= 1 ==> decimal_value(s) <= 9,
    decreases s.len(),
{
    if s.len() > 0 {
        let t = s.drop_last();
        assert(forall|i: int| 0 <= i < t.len() ==> t[i] == s[i]);
        lemma_decimal_bound(t);
        let d = (s.last() as u32) as int - 48;
        assert(text::is_ascii_digit(s[s.len() - 1]));
        assert(0 <= d <= 9);
        let x = decimal_value(t);
        assert(t.len() <= 2 ==> x * 10 + d <= 999) by (nonlinear_arith)
            requires
                t.len() <= 2 ==> x <= 99,
                0 <= d <= 9,
        ;
        assert(t.len() <= 1 ==> x * 10 + d <= 99) by (nonlinear_arith)
            requires
                t.len() <= 1 ==> x <= 9,
                0 <= d <= 9,
        ;
        assert(t.len() == 0 ==> x * 10 + d <= 9) by (nonlinear_arith)
            requires
                t.len() == 0 ==> x == 0,
                0 <= d <= 9,
        ;
        assert(0 <= x * 10 + d) by (nonlinear_arith)
            requires
                0 <= x,
                0 <= d <= 9,
        ;
    }
}

/// The octet value of `s`, when it is a valid octet.
fn octet_value(s: &str) -> (res: Option<u8>)
    ensures
        match res {
            Some(v) => octet_ok(s@) && v as int == decimal_value(s@),
            None => !octet_ok(s@),
        },
{
    let v = text::chars_of(s);
    if v.len() < 1 || v.len() > 3 {
        return None;
    }
    let mut acc: u32 = 0;
    let mut i: usize = 0;
    while i < v.len()
        invariant
            v@ == s@,
            1 <= v.len() <= 3,
            i <= v.len(),
            forall|j: int| 0 <= j < i ==> text::is_ascii_digit(#[trigger] v@[j]),
            acc as int == decimal_value(v@.take(i as int)),
            acc <= 999,
        decreases v.len() - i,
    {
        if !text::ascii_digit(v[i]) {
            return None;
        }
        proof {
            assert(v@.take(i + 1).drop_last() =~= v@.take(i as int));
            lemma_decimal_bound(v@.take(i as int));
            lemma_decimal_bound(v@.take(i + 1));
        }
        acc = acc * 10 + ((v[i] as u32) - 48);
        i = i + 1;
    }
    proof {
        assert(v@.take(v.len() as int) =~= v@);
    }
    if v.len() > 1 && v[0] == '0' {
        return None;
    }
    if acc > 255 {
        return None;
    }
    Some(acc as u8)
}

pub open spec fn octet_ints(o: Seq<u8>) -> Seq<int> {
    o.map_values(|b: u8| b as int)
}

/// The octets of an IPv4 address, or `None` when `s` is not one.
pub fn parse_ipv4(s: &str) -> (res: Option<Vec<u8>>)
    ensures
        match res {
            Some(o) => ipv4_octets(s@) == Some(octet_ints(o@)) && o@.len() == 4,
            None => ipv4_octets(s@) is None,
        },
{
    let parts = text::split_class(s, CharClass::Only('.'));
    let ghost pv = text::split_by(s@, CharClass::Only('.'));
    proof {
        assert(pv.len() == parts@.len());
    }
    if parts.len() != 4 {
        return None;
    }
    let mut out: Vec<u8> = Vec::new();
    let mut i: usize = 0;
    while i < 4
        invariant
            parts.len() == 4,
            text::views(parts@) == pv,
            pv == text::split_by(s@, CharClass::Only('.')),
            i <= 4,
            out@.len() == i,
            forall|j: int| 0 <= j < i ==> octet_ok(#[trigger] pv[j]),
            forall|j: int| 0 <= j < i ==> out@[j] as int == decimal_value(#[trigger] pv[j]),
        decreases 4 - i,
    {
        match octet_value(parts[i].as_str()) {
            Some(b) => {
                out.push(b);
            },
            None => {
                proof {
                    assert(pv[i as int] == parts@[i as int]@);
                    assert(!octet_ok(pv[i as int]));
                }
                return None;
            },
        }
        i = i + 1;
    }
    proof {
        assert(forall|j: int| 0 <= j < 4 ==> octet_ok(#[trigger] pv[j]));
        assert(octet_ints(out@) =~= decimal_values(pv));
    }
    Some(out)
}


// ── IPv6 ───────────────────────────────────────────────────────────────────

pub open spec fn is_hex(c: char) -> bool {
    let n = c as u32;
    ||| 48 <= n <= 57
    ||| 97 <= n <= 102
    ||| 65 <= n <= 70
}

pub open spec fn hex_val(c: char) -> int {
    let n = (c as u32) as int;
    if 48 <= n <= 57 {
        n - 48
    } else if 97 <= n <= 102 {
        n - 87
    } else {
        n - 55
    }
}

pub open spec fn hex_value(s: Seq<char>) -> int
    decreases s.len(),
{
    if s.len() == 0 {
        0
    } else {
        hex_value(s.drop_last()) * 16 + hex_val(s.last())
    }
}

/// One group: one to four hex digits, either case.
pub open spec fn group_ok(s: Seq<char>) -> bool {
    &&& 1 <= s.len() <= 4
    &&& forall|i: int| 0 <= i < s.len() ==> is_hex(#[trigger] s[i])
}

pub open spec fn hex_values(parts: Seq<Seq<char>>) -> Seq<int> {
    parts.map_values(|p: Seq<char>| hex_value(p))
}

/// The 16-bit values of a run of `:`-separated groups; the run is empty, or
/// its last element may be an embedded IPv4 address (two values) when
/// `v4` allows it.
pub open spec fn chunk_values(c: Seq<char>, v4: bool) -> Option<Seq<int>> {
    if c.len() == 0 {
        Some(Seq::empty())
    } else {
        let parts = text::split_by(c, CharClass::Only(':'));
        let front = parts.drop_last();
        let last = parts.last();
        if forall|i: int| 0 <= i < front.len() ==> group_ok(#[trigger] front[i]) {
            if group_ok(last) {
                Some(hex_values(front).push(hex_value(last)))
            } else if v4 && ipv4_octets(last) is Some {
                let o = ipv4_octets(last)->0;
                Some(hex_values(front) + seq![o[0] * 256 + o[1], o[2] * 256 + o[3]])
            } else {
                None
            }
        } else {
            None
        }
    }
}

/// Where the first `::` starts, looking from `i` on.
pub open spec fn double_colon_from(s: Seq<char>, i: int) -> Option<int>
    decreases s.len() - i,
{
    if i < 0 || i + 1 >= s.len() {
        None
    } else if s[i] == ':' && s[i + 1] == ':' {
        Some(i)
    } else {
        double_colon_from(s, i + 1)
    }
}

pub open spec fn zeros(n: nat) -> Seq<int> {
    Seq::new(n, |i: int| 0)
}

/// The eight groups of `s`, when `s` is an IPv6 address.
pub open spec fn ipv6_groups(s: Seq<char>) -> Option<Seq<int>> {
    match double_colon_from(s, 0) {
        Some(i) => match (chunk_values(s.take(i), false), chunk_values(s.skip(i + 2), true)) {
            (Some(h), Some(t)) => if h.len() + t.len() <= 7 {
                Some(h + zeros((8 - h.len() - t.len()) as nat) + t)
            } else {
                None
            },
            _ => None,
        },
        None => match chunk_values(s, true) {
            Some(g) => if g.len() == 8 {
                Some(g)
            } else {
                None
            },
            None => None,
        },
    }
}

pub open spec fn ipv6_loopback() -> Seq<int> {
    seq![0, 0, 0, 0, 0, 0, 0, 1]
}

fn hex_digit_value(c: char) -> (res: Option<u32>)
    ensures
        match res {
            Some(d) => is_hex(c) && d as int == hex_val(c) && d < 16,
            None => !is_hex(c),
        },
{
    let n = c as u32;
    if 48 <= n && n <= 57 {
        Some(n - 48)
    } else if 97 <= n && n <= 102 {
        Some(n - 87)
    } else if 65 <= n && n <= 70 {
        Some(n - 55)
    } else {
        None
    }
}

proof fn lemma_hex_bound(s: Seq<char>)
    requires
        forall|i: int| 0 <= i < s.len() ==> is_hex(#[trigger] s[i]),
    ensures
        0 <= hex_value(s) < pow16(s.len()),
    decreases s.len(),
{
    if s.len() > 0 {
        let t = s.drop_last();
        assert(forall|i: int| 0 <= i < t.len() ==> t[i] == s[i]);
        lemma_hex_bound(t);
        let d = hex_val(s.last());
        assert(is_hex(s[s.len() - 1]));
        assert(0 <= d < 16);
        let x = hex_value(t);
        let p = pow16(t.len());
        assert(0 <= x * 16 + d < p * 16) by (nonlinear_arith)
            requires
                0 <= x < p,
                0 <= d < 16,
        ;
    }
}

pub open spec fn pow16(n: nat) -> int
    decreases n,
{
    if n == 0 {
        1
    } else {
        16 * pow16((n - 1) as nat)
    }
}

/// The value of a group, when `s` is one.
fn group_value(s: &str) -> (res: Option<u32>)
    ensures
        match res {
            Some(v) => group_ok(s@) && v as int == hex_value(s@) && v <= 0xFFFF,
            None => !group_ok(s@),
        },
{
    let v = text::chars_of(s);
    if v.len() < 1 || v.len() > 4 {
        return None;
    }
    let mut acc: u32 = 0;
    let mut i: usize = 0;
    while i < v.len()
        invariant
            v@ == s@,
            1 <= v.len() <= 4,
            i <= v.len(),
            forall|j: int| 0 <= j < i ==> is_hex(#[trigger] v@[j]),
            acc as int == hex_value(v@.take(i as int)),
            acc < pow16(i as nat),
        decreases v.len() - i,
    {
        match hex_digit_value(v[i]) {
            Some(d) => {
                proof {
                    assert(v@.take(i + 1).drop_last() =~= v@.take(i as int));
                    assert(pow16(i as nat) <= 4096) by {
                        reveal_with_fuel(pow16, 4);
                    }
                    lemma_hex_bound(v@.take(i + 1));
                }
                acc = acc * 16 + d;
            },
            None => {
                return None;
            },
        }
        i = i + 1;
    }
    proof {
        assert(v@.take(v.len() as int) =~= v@);
        assert(pow16(v.len() as nat) <= 65536) by {
            reveal_with_fuel(pow16, 5);
        }
    }
    Some(acc)
}

pub open spec fn u32_ints(o: Seq<u32>) -> Seq<int> {
    o.map_values(|b: u32| b as int)
}

/// The values of a run of groups (see `chunk_values`).
fn chunk(c: &str, v4: bool) -> (res: Option<Vec<u32>>)
    ensures
        match res {
            Some(g) => chunk_values(c@, v4) == Some(u32_ints(g@)),
            None => chunk_values(c@, v4) is None,
        },
{
    if c.is_empty() {
        let out: Vec<u32> = Vec::new();
        proof {
            assert(u32_ints(out@) =~= Seq::<int>::empty());
        }
        return Some(out);
    }
    let parts = text::split_class(c, CharClass::Only(':'));
    let ghost pv = text::split_by(c@, CharClass::Only(':'));
    proof {
        text::lemma_split_nonempty(c@, CharClass::Only(':'));
        assert(pv.len() == parts@.len());
    }
    let n = parts.len();
    let mut out: Vec<u32> = Vec::new();
    let mut i: usize = 0;
    while i + 1 < n
        invariant
            n == parts.len(),
            n >= 1,
            text::views(parts@) == pv,
            pv == text::split_by(c@, CharClass::Only(':')),
            c@.len() > 0,
            i + 1 <= n,
            out@.len() == i,
            forall|j: int| 0 <= j < i ==> group_ok(#[trigger] pv[j]),
            forall|j: int| 0 <= j < i ==> out@[j] as int == hex_value(#[trigger] pv[j]),
        decreases n - i,
    {
        match group_value(parts[i].as_str()) {
            Some(g) => {
                out.push(g);
            },
            None => {
                proof {
                    assert(pv[i as int] == parts@[i as int]@);
                    assert(pv.drop_last()[i as int] == pv[i as int]);
                    assert(!group_ok(pv.drop_last()[i as int]));
                }
                return None;
            },
        }
        i = i + 1;
    }
    let ghost front = pv.drop_last();
    proof {
        assert forall|j: int| 0 <= j < front.len() implies group_ok(#[trigger] front[j]) by {
            assert(front[j] == pv[j]);
        }
        assert(u32_ints(out@) =~= hex_values(front));
        assert(pv.last() == parts@[n - 1]@);
    }
    let last = parts[n - 1].as_str();
    match group_value(last) {
        Some(g) => {
            out.push(g);
            proof {
                assert(u32_ints(out@) =~= hex_values(front).push(hex_value(pv.last())));
            }
            return Some(out);
        },
        None => {},
    }
    if !v4 {
        return None;
    }
    match parse_ipv4(last) {
        Some(o) => {
            let hi = (o[0] as u32) * 256 + (o[1] as u32);
            let lo = (o[2] as u32) * 256 + (o[3] as u32);
            let ghost before = out@;
            out.push(hi);
            out.push(lo);
            proof {
                let oi = ipv4_octets(pv.last())->0;
                assert(oi == octet_ints(o@));
                assert(u32_ints(out@) =~= hex_values(front) + seq![
                    oi[0] * 256 + oi[1],
                    oi[2] * 256 + oi[3],
                ]);
            }
            Some(out)
        },
        None => None,
    }
}

fn double_colon(v: &Vec<char>) -> (res: Option<usize>)
    ensures
        match res {
            Some(i) => double_colon_from(v@, 0) == Some(i as int) && i + 1 < v.len(),
            None => double_colon_from(v@, 0) is None,
        },
{
    let mut i: usize = 0;
    while i < v.len() && i + 1 < v.len()
        invariant
            i <= v.len(),
            double_colon_from(v@, 0) == double_colon_from(v@, i as int),
        decreases v.len() - i,
    {
        if v[i] == ':' && v[i + 1] == ':' {
            return Some(i);
        }
        i = i + 1;
    }
    None
}

/// The eight groups of an IPv6 address, or `None` when `s` is not one.
pub fn parse_ipv6(s: &str) -> (res: Option<Vec<u32>>)
    ensures
        match res {
            Some(g) => ipv6_groups(s@) == Some(u32_ints(g@)),
            None => ipv6_groups(s@) is None,
        },
{
    let v = text::chars_of(s);
    match double_colon(&v) {
        Some(i) => {
            let head_text = text::string_from(&v, 0, i);
            let tail_text = text::string_from(&v, i + 2, v.len());
            proof {
                assert(v@.subrange(0, i as int) =~= s@.take(i as int));
                assert(v@.subrange(i + 2, v.len() as int) =~= s@.skip(i + 2));
            }
            let h = match chunk(head_text.as_str(), false) {
                Some(h) => h,
                None => return None,
            };
            let t = match chunk(tail_text.as_str(), true) {
                Some(t) => t,
                None => return None,
            };
            if h.len() > 7 || t.len() > 7 - h.len() {
                return None;
            }
            let fill = 8 - h.len() - t.len();
            let mut out = h;
            let ghost hv = u32_ints(out@);
            let mut k: usize = 0;
            while k < fill
                invariant
                    k <= fill,
                    out@.len() == hv.len() + k,
                    u32_ints(out@) =~= hv + zeros(k as nat),
                decreases fill - k,
            {
                let ghost prev = out@;
                out.push(0);
                proof {
                    assert(out@ == prev.push(0));
                    assert(u32_ints(out@) =~= u32_ints(prev).push(0int));
                    assert(u32_ints(out@) =~= hv + zeros((k + 1) as nat));
                }
                k = k + 1;
            }
            let ghost mid = u32_ints(out@);
            let mut j: usize = 0;
            while j < t.len()
                invariant
                    j <= t.len(),
                    u32_ints(out@) =~= mid + u32_ints(t@).take(j as int),
                decreases t.len() - j,
            {
                let ghost prev = out@;
                out.push(t[j]);
                proof {
                    assert(u32_ints(out@) =~= u32_ints(prev).push(t@[j as int] as int));
                    assert(u32_ints(t@).take(j + 1) =~= u32_ints(t@).take(j as int).push(t@[j as int] as int));
                }
                j = j + 1;
            }
            proof {
                assert(u32_ints(t@).take(t.len() as int) =~= u32_ints(t@));
            }
            Some(out)
        },
        None => {
            match chunk(s, true) {
                Some(g) => if g.len() == 8 {
                    Some(g)
                } else {
                    None
                },
                None => None,
            }
        },
    }
}

/// Whether the groups are those of `::1`.
pub fn is_loopback_v6(g: &Vec<u32>) -> (res: bool)
    ensures
        res == (u32_ints(g@) == ipv6_loopback()),
{
    if g.len() != 8 {
        proof {
            assert(u32_ints(g@).len() != ipv6_loopback().len());
        }
        return false;
    }
    let r = g[0] == 0 && g[1] == 0 && g[2] == 0 && g[3] == 0 && g[4] == 0 && g[5] == 0 && g[6]
        == 0 && g[7] == 1;
    proof {
        if r {
            assert(u32_ints(g@) =~= ipv6_loopback());
        } else if u32_ints(g@) == ipv6_loopback() {
            assert(u32_ints(g@)[0] == 0 && u32_ints(g@)[1] == 0 && u32_ints(g@)[2] == 0);
            assert(u32_ints(g@)[3] == 0 && u32_ints(g@)[4] == 0 && u32_ints(g@)[5] == 0);
            assert(u32_ints(g@)[6] == 0 && u32_ints(g@)[7] == 1);
            assert(false);
        }
    }
    r
}

} // verus!
