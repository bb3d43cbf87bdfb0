//! Comma-separated command-line values: segment lists and topic
//! subscriptions for contacts and broadcasts.
use vstd::prelude::*;

use crate::models::{SegmentRef, TopicRef};
use crate::text::{self, CharClass};

verus! {

/// The trimmed, non-empty items of a comma-separated list.
pub open spec fn csv_items(raw: Seq<char>) -> Seq<Seq<char>> {
    text::split_by(raw, CharClass::Only(',')).map_values(|item: Seq<char>| text::trim(item)).filter(
        |item: Seq<char>| item.len() > 0,
    )
}

fn csv_vec(raw: &str) -> (res: Vec<String>)
    ensures
        text::views(res@) == csv_items(raw@),
{
    let parts = text::split_class(raw, CharClass::Only(','));
    let ghost pv = text::split_by(raw@, CharClass::Only(','));
    let ghost trimmed = pv.map_values(|item: Seq<char>| text::trim(item));
    let ghost keep = |item: Seq<char>| item.len() > 0;
    let mut out: Vec<String> = Vec::new();
    let mut i: usize = 0;
    while i < parts.len()
        invariant
            i <= parts.len(),
            text::views(parts@) == pv,
            trimmed == pv.map_values(|item: Seq<char>| text::trim(item)),
            keep == (|item: Seq<char>| item.len() > 0),
            text::views(out@) == trimmed.take(i as int).filter(keep),
        decreases parts.len() - i,
    {
        let t = text::trim_str(parts[i].as_str());
        proof {
            assert(pv[i as int] == parts@[i as int]@);
            assert(trimmed.take(i + 1).drop_last() =~= trimmed.take(i as int));
            assert(trimmed.take(i + 1).last() == t@);
            reveal(Seq::filter);
            assert(trimmed.take(i + 1).filter(keep) == if keep(t@) {
                trimmed.take(i as int).filter(keep).push(t@)
            } else {
                trimmed.take(i as int).filter(keep)
            });
        }
        if !t.as_str().is_empty() {
            let ghost before = text::views(out@);
            out.push(t);
            proof {
                assert(text::views(out@) =~= before.push(t@));
            }
        }
        i = i + 1;
    }
    proof {
        assert(trimmed.take(parts.len() as int) =~= trimmed);
        assert(pv.len() == parts@.len());
    }
    out
}

/// Contact segments: an absent value is an empty list.
pub fn split_csv(value: Option<String>) -> (res: Vec<String>)
    ensures
        text::views(res@) == match value {
            Some(raw) => csv_items(raw@),
            None => Seq::empty(),
        },
{
    match value {
        Some(raw) => csv_vec(raw.as_str()),
        None => {
            let v: Vec<String> = Vec::new();
            proof {
                assert(text::views(v@) =~= Seq::<Seq<char>>::empty());
            }
            v
        },
    }
}

/// Broadcast segments: an absent value stays absent.
pub fn split_csv_opt(value: Option<String>) -> (res: Option<Vec<String>>)
    ensures
        match value {
            Some(raw) => res matches Some(v) && text::views(v@) == csv_items(raw@),
            None => res is None,
        },
{
    match value {
        Some(raw) => Some(csv_vec(raw.as_str())),
        None => None,
    }
}

pub open spec fn topic_view(t: TopicRef) -> (Seq<char>, Seq<char>) {
    (t.id@, t.subscription@)
}

pub open spec fn topic_views(v: Seq<TopicRef>) -> Seq<(Seq<char>, Seq<char>)> {
    v.map_values(|t: TopicRef| topic_view(t))
}

/// One `topic_id:opt_in` / `topic_id:opt_out` entry (already trimmed and
/// non-empty).
pub open spec fn topic_entry(entry: Seq<char>) -> Result<(Seq<char>, Seq<char>), Seq<char>> {
    match text::split_once(entry, ':') {
        None => Err(
            "--topics entries must be 'topic_id:opt_in' or 'topic_id:opt_out', got '"@ + entry
                + "'"@,
        ),
        Some((id, sub)) => {
            let s = text::trim(sub);
            if s == "opt_in"@ || s == "opt_out"@ {
                Ok((text::trim(id), s))
            } else {
                Err("--topics subscription must be 'opt_in' or 'opt_out', got '"@ + s + "'"@)
            }
        },
    }
}

/// Reads the entries in order; the first bad one is the error.
pub open spec fn topic_entries(entries: Seq<Seq<char>>) -> Result<Seq<(Seq<char>, Seq<char>)>, Seq<char>>
    decreases entries.len(),
{
    if entries.len() == 0 {
        Ok(Seq::empty())
    } else {
        match topic_entries(entries.drop_last()) {
            Err(e) => Err(e),
            Ok(done) => match topic_entry(entries.last()) {
                Err(e) => Err(e),
                Ok(t) => Ok(done.push(t)),
            },
        }
    }
}

/// `--topics`: none given, or no entries, is `None`.
pub open spec fn topics_result(value: Option<Seq<char>>) -> Result<
    Option<Seq<(Seq<char>, Seq<char>)>>,
    Seq<char>,
> {
    match value {
        None => Ok(None),
        Some(raw) => match topic_entries(csv_items(raw)) {
            Err(e) => Err(e),
            Ok(refs) => if refs.len() == 0 {
                Ok(None)
            } else {
                Ok(Some(refs))
            },
        },
    }
}

fn parse_topic_entry(entry: &str) -> (res: Result<TopicRef, String>)
    ensures
        match res {
            Ok(t) => topic_entry(entry@) == Ok::<(Seq<char>, Seq<char>), Seq<char>>(topic_view(t)),
            Err(e) => topic_entry(entry@) == Err::<(Seq<char>, Seq<char>), Seq<char>>(e@),
        },
{
    match text::split_once_str(entry, ':') {
        None => {
            let mut m = text::copy_str(
                "--topics entries must be 'topic_id:opt_in' or 'topic_id:opt_out', got '",
            );
            text::push_str(&mut m, entry);
            text::push_str(&mut m, "'");
            Err(m)
        },
        Some((id, sub)) => {
            let s = text::trim_str(sub.as_str());
            if text::seq_eq(s.as_str(), "opt_in") || text::seq_eq(s.as_str(), "opt_out") {
                Ok(TopicRef { id: text::trim_str(id.as_str()), subscription: s })
            } else {
                let mut m = text::copy_str("--topics subscription must be 'opt_in' or 'opt_out', got '");
                text::push_str(&mut m, s.as_str());
                text::push_str(&mut m, "'");
                Err(m)
            }
        },
    }
}

/// Parses `topic_id:opt_in,topic_id2:opt_out` into topic subscriptions.
pub fn parse_topics_arg(value: Option<String>) -> (res: Result<Option<Vec<TopicRef>>, String>)
    ensures
        match res {
            Ok(None) => topics_result(text::opt_view(value)) == Ok::<
                Option<Seq<(Seq<char>, Seq<char>)>>,
                Seq<char>,
            >(None),
            Ok(Some(v)) => topics_result(text::opt_view(value)) == Ok::<
                Option<Seq<(Seq<char>, Seq<char>)>>,
                Seq<char>,
            >(Some(topic_views(v@))),
            Err(e) => topics_result(text::opt_view(value)) == Err::<
                Option<Seq<(Seq<char>, Seq<char>)>>,
                Seq<char>,
            >(e@),
        },
{
    let raw = match value {
        None => return Ok(None),
        Some(r) => r,
    };
    let entries = csv_vec(raw.as_str());
    let ghost ev = text::views(entries@);
    let mut refs: Vec<TopicRef> = Vec::new();
    let mut i: usize = 0;
    proof {
        assert(ev.take(0) =~= Seq::<Seq<char>>::empty());
        assert(topic_views(refs@) =~= Seq::<(Seq<char>, Seq<char>)>::empty());
    }
    while i < entries.len()
        invariant
            i <= entries.len(),
            ev == text::views(entries@),
            ev == csv_items(raw@),
            value == Some(raw),
            topic_entries(ev.take(i as int)) == Ok::<Seq<(Seq<char>, Seq<char>)>, Seq<char>>(
                topic_views(refs@),
            ),
        decreases entries.len() - i,
    {
        proof {
            assert(ev.take(i + 1).drop_last() =~= ev.take(i as int));
            assert(ev.take(i + 1).last() == entries@[i as int]@);
        }
        match parse_topic_entry(entries[i].as_str()) {
            Ok(t) => {
                let ghost before = topic_views(refs@);
                refs.push(t);
                proof {
                    assert(topic_views(refs@) =~= before.push(topic_view(t)));
                }
            },
            Err(e) => {
                proof {
                    lemma_topic_entries_err(ev, i as int, e@);
                }
                return Err(e);
            },
        }
        i = i + 1;
    }
    proof {
        assert(ev.take(entries.len() as int) =~= ev);
        assert(ev == csv_items(raw@));
        assert(topic_views(refs@).len() == refs@.len());
    }
    if refs.len() == 0 {
        proof {
            assert(topic_entries(csv_items(raw@)) == Ok::<Seq<(Seq<char>, Seq<char>)>, Seq<char>>(
                topic_views(refs@),
            ));
            assert(topics_result(Some(raw@)) == Ok::<
                Option<Seq<(Seq<char>, Seq<char>)>>,
                Seq<char>,
            >(None));
        }
        Ok(None)
    } else {
        Ok(Some(refs))
    }
}

/// An error at entry `i` is the error of the whole list.
proof fn lemma_topic_entries_err(entries: Seq<Seq<char>>, i: int, e: Seq<char>)
    requires
        0 <= i < entries.len(),
        topic_entries(entries.take(i + 1)) == Err::<Seq<(Seq<char>, Seq<char>)>, Seq<char>>(e),
    ensures
        topic_entries(entries) == Err::<Seq<(Seq<char>, Seq<char>)>, Seq<char>>(e),
    decreases entries.len() - i,
{
    if i + 1 < entries.len() {
        assert(entries.take(i + 2).drop_last() =~= entries.take(i + 1));
        lemma_topic_entries_err(entries, i + 1, e);
    } else {
        assert(entries.take(i + 1) =~= entries);
    }
}


/// A comma-separated list never yields an empty item.
pub proof fn law_csv_items_nonempty(raw: Seq<char>)
    ensures
        forall|i: int| 0 <= i < csv_items(raw).len() ==> (#[trigger] csv_items(raw)[i]).len() > 0,
{
    let t = text::split_by(raw, CharClass::Only(',')).map_values(|item: Seq<char>| text::trim(item));
    let keep = |item: Seq<char>| item.len() > 0;
    assert forall|i: int| 0 <= i < csv_items(raw).len() implies (#[trigger] csv_items(raw)[i]).len() > 0 by {
        t.lemma_filter_pred(keep, i);
    }
}

/// Every item of a comma-separated list comes trimmed: trimming it again
/// changes nothing.
pub proof fn law_csv_items_trimmed(raw: Seq<char>)
    ensures
        forall|i: int| 0 <= i < csv_items(raw).len() ==> text::trim(#[trigger] csv_items(raw)[i])
            == csv_items(raw)[i],
{
    let parts = text::split_by(raw, CharClass::Only(','));
    let t = parts.map_values(|item: Seq<char>| text::trim(item));
    let keep = |item: Seq<char>| item.len() > 0;
    assert forall|i: int| 0 <= i < csv_items(raw).len() implies text::trim(
        #[trigger] csv_items(raw)[i],
    ) == csv_items(raw)[i] by {
        let x = csv_items(raw)[i];
        assert(t.filter(keep).contains(x));
        t.lemma_filter_contains_rev(keep, x);
        let j = choose|j: int| 0 <= j < t.len() && t[j] == x;
        text::lemma_trim_idempotent(parts[j], CharClass::Whitespace);
    }
}


// ── Topics, contacts ───────────────────────────────────────────────────────

/// A subscription state is `opt_in` or `opt_out`.
pub open spec fn is_subscription(s: Seq<char>) -> bool {
    s == "opt_in"@ || s == "opt_out"@
}

/// The options of `topic create` and `topic update`: a default subscription
/// must be `opt_in` or `opt_out`, a visibility `public` or `private`.
pub fn check_topic_options(default_subscription: &Option<String>, visibility: &Option<String>) -> (res:
    Result<(), String>)
    ensures
        match default_subscription {
            Some(d) => !is_subscription(d@) ==> (res matches Err(m) && m@
                == "--default-subscription must be 'opt_in' or 'opt_out', got '"@ + d@ + "'"@),
            None => true,
        },
        (match default_subscription {
            Some(d) => is_subscription(d@),
            None => true,
        }) ==> match visibility {
            Some(v) => if v@ == "public"@ || v@ == "private"@ {
                res is Ok
            } else {
                res matches Err(m) && m@ == "--visibility must be 'public' or 'private', got '"@ + v@ + "'"@
            },
            None => res is Ok,
        },
{
    match default_subscription {
        Some(d) => if !text::seq_eq(d.as_str(), "opt_in") && !text::seq_eq(d.as_str(), "opt_out") {
            let mut m = text::copy_str("--default-subscription must be 'opt_in' or 'opt_out', got '");
            text::push_str(&mut m, d.as_str());
            text::push_str(&mut m, "'");
            return Err(m);
        },
        None => {},
    }
    match visibility {
        Some(v) => if !text::seq_eq(v.as_str(), "public") && !text::seq_eq(v.as_str(), "private") {
            let mut m = text::copy_str("--visibility must be 'public' or 'private', got '");
            text::push_str(&mut m, v.as_str());
            text::push_str(&mut m, "'");
            return Err(m);
        },
        None => {},
    }
    Ok(())
}

/// `topic contact set` takes `opt_in` or `opt_out`.
pub fn check_subscription(subscription: &str) -> (res: Result<(), String>)
    ensures
        res is Ok <==> is_subscription(subscription@),
        res matches Err(m) ==> m@ == "--subscription must be 'opt_in' or 'opt_out', got '"@
            + subscription@ + "'"@,
{
    if !text::seq_eq(subscription, "opt_in") && !text::seq_eq(subscription, "opt_out") {
        let mut m = text::copy_str("--subscription must be 'opt_in' or 'opt_out', got '");
        text::push_str(&mut m, subscription);
        text::push_str(&mut m, "'");
        return Err(m);
    }
    Ok(())
}

/// A contact's name as listed: first and last name joined by a space, or
/// whichever is known.
pub fn contact_name(first: &Option<String>, last: &Option<String>) -> (res: String)
    ensures
        res@ == match (first, last) {
            (Some(f), Some(l)) => f@ + " "@ + l@,
            (Some(f), None) => f@,
            (None, Some(l)) => l@,
            (None, None) => Seq::empty(),
        },
{
    match (first, last) {
        (Some(f), Some(l)) => {
            let mut n = text::copy_str(f.as_str());
            text::push_str(&mut n, " ");
            text::push_str(&mut n, l.as_str());
            n
        },
        (Some(f), None) => text::copy_str(f.as_str()),
        (None, Some(l)) => text::copy_str(l.as_str()),
        (None, None) => String::new(),
    }
}

/// The segments a new contact joins: none when the list is empty.
pub fn segment_refs(ids: Vec<String>) -> (res: Option<Vec<SegmentRef>>)
    ensures
        ids@.len() == 0 ==> res is None,
        ids@.len() > 0 ==> (res matches Some(v) && v@.len() == ids@.len() && forall|i: int|
            0 <= i < ids@.len() ==> (#[trigger] v@[i]).id@ == ids@[i]@),
{
    if ids.len() == 0 {
        return None;
    }
    let mut out: Vec<SegmentRef> = Vec::new();
    let mut i: usize = 0;
    while i < ids.len()
        invariant
            i <= ids.len(),
            out@.len() == i,
            forall|j: int| 0 <= j < i ==> (#[trigger] out@[j]).id@ == ids@[j]@,
        decreases ids.len() - i,
    {
        out.push(SegmentRef { id: text::copy_str(ids[i].as_str()) });
        i = i + 1;
    }
    Some(out)
}

} // verus!
