//! Mailbox synchronisation decisions: how far to walk the provider's pages,
//! how per-account results are summed up, and the progress counter that
//! the menu-bar status reads.
use vstd::prelude::*;

use crate::helpers;
use crate::models::SyncSummary;
use crate::text;

verus! {

// ── Paging ─────────────────────────────────────────────────────────────────

/// How many items of a page come before the stored cursor (all of them when
/// the cursor is not on the page), and whether the cursor was met.
pub open spec fn page_scan(cursor: Option<Seq<char>>, ids: Seq<Seq<char>>) -> (int, bool) {
    match cursor {
        Some(c) => if ids.contains(c) {
            (ids.index_of_first(c)->0, true)
        } else {
            (ids.len() as int, false)
        },
        None => (ids.len() as int, false),
    }
}

/// Walks a page of ids, newest first, up to the id synced last time.
pub fn scan_page(cursor: Option<&str>, ids: &Vec<String>) -> (res: (usize, bool))
    ensures
        res.0 as int == page_scan(text::opt_str_view(cursor), text::views(ids@)).0,
        res.1 == page_scan(text::opt_str_view(cursor), text::views(ids@)).1,
        res.0 <= ids.len(),
        forall|j: int| 0 <= j < res.0 ==> Some(#[trigger] ids@[j]@) != text::opt_str_view(cursor),
{
    let c = match cursor {
        Some(c) => c,
        None => return (ids.len(), false),
    };
    let ghost v = text::views(ids@);
    let mut i: usize = 0;
    while i < ids.len()
        invariant
            i <= ids.len(),
            v == text::views(ids@),
            cursor == Some(c),
            forall|j: int| 0 <= j < i ==> ids@[j]@ != c@,
        decreases ids.len() - i,
    {
        if text::seq_eq(ids[i].as_str(), c) {
            proof {
                assert(v[i as int] == c@);
                let r = v.index_of_first(c@);
                v.index_of_first_ensures(c@);
                assert(v.contains(c@));
                assert(r->0 == i) by {
                    if (r->0) < i {
                        assert(v[r->0] == c@);
                        assert(ids@[r->0]@ == c@);
                    }
                }
            }
            return (i, true);
        }
        i = i + 1;
    }
    proof {
        if v.contains(c@) {
            let j = choose|j: int| 0 <= j < v.len() && v[j] == c@;
            assert(ids@[j]@ == c@);
        }
    }
    (ids.len(), false)
}

/// After a page: the `after` cursor for the next page, or `None` to stop.
/// A cold start reads one page only; meeting the cursor, the last page, or
/// an empty page also stops.
pub open spec fn next_page(cold_start: bool, met_cursor: bool, has_more: Option<bool>, last_id: Option<Seq<char>>) -> Option<
    Seq<char>,
> {
    if cold_start || met_cursor || !(has_more == Some(true)) {
        None
    } else {
        last_id
    }
}

pub fn next_page_after(cold_start: bool, met_cursor: bool, has_more: Option<bool>, last_id: Option<String>) -> (res:
    Option<String>)
    ensures
        text::opt_view(res) == next_page(cold_start, met_cursor, has_more, text::opt_view(last_id)),
{
    let more = match has_more {
        Some(b) => b,
        None => false,
    };
    if cold_start || met_cursor || !more {
        None
    } else {
        last_id
    }
}

/// Paging ends on a cold start, whatever the page said.
pub proof fn law_cold_start_reads_one_page(met_cursor: bool, has_more: Option<bool>, last_id: Option<Seq<char>>)
    ensures
        next_page(true, met_cursor, has_more, last_id) is None,
{
}

// ── Summary ────────────────────────────────────────────────────────────────

/// The outcome of syncing one account: its address and either the number
/// of sent and received messages stored or the failure's text.
#[derive(Debug)]
pub struct AccountOutcome {
    pub email: String,
    pub result: Result<(usize, usize), String>,
}

pub open spec fn sent_total(o: Seq<AccountOutcome>) -> int
    decreases o.len(),
{
    if o.len() == 0 {
        0
    } else {
        sent_total(o.drop_last()) + match o.last().result {
            Ok((s, _)) => s as int,
            Err(_) => 0,
        }
    }
}

pub open spec fn received_total(o: Seq<AccountOutcome>) -> int
    decreases o.len(),
{
    if o.len() == 0 {
        0
    } else {
        received_total(o.drop_last()) + match o.last().result {
            Ok((_, r)) => r as int,
            Err(_) => 0,
        }
    }
}

/// "email: error" for each failed account, in order.
pub open spec fn failures(o: Seq<AccountOutcome>) -> Seq<Seq<char>>
    decreases o.len(),
{
    if o.len() == 0 {
        Seq::empty()
    } else {
        match o.last().result {
            Ok(_) => failures(o.drop_last()),
            Err(e) => failures(o.drop_last()).push(o.last().email@ + ": "@ + e@),
        }
    }
}

/// Adds up the accounts' results. A partial sync still gives a summary: the
/// totals of the accounts that succeeded, and one "email: error" line for
/// each account that failed, in order.
pub fn summarize(profiles: usize, outcomes: &Vec<AccountOutcome>) -> (res: SyncSummary)
    requires
        sent_total(outcomes@) <= usize::MAX,
        received_total(outcomes@) <= usize::MAX,
    ensures
        res.profiles == profiles,
        res.sent_messages == sent_total(outcomes@),
        res.received_messages == received_total(outcomes@),
        text::views(res.errors@) == failures(outcomes@),
{
    let mut sent: usize = 0;
    let mut received: usize = 0;
    let mut errors: Vec<String> = Vec::new();
    let mut i: usize = 0;
    while i < outcomes.len()
        invariant
            i <= outcomes.len(),
            sent_total(outcomes@) <= usize::MAX,
            received_total(outcomes@) <= usize::MAX,
            sent as int == sent_total(outcomes@.take(i as int)),
            received as int == received_total(outcomes@.take(i as int)),
            text::views(errors@) == failures(outcomes@.take(i as int)),
        decreases outcomes.len() - i,
    {
        proof {
            assert(outcomes@.take(i + 1).drop_last() =~= outcomes@.take(i as int));
            lemma_prefix_totals(outcomes@, i + 1);
        }
        match &outcomes[i].result {
            Ok((s, r)) => {
                sent = sent + *s;
                received = received + *r;
            },
            Err(e) => {
                let mut line = text::copy_str(outcomes[i].email.as_str());
                text::push_str(&mut line, ": ");
                text::push_str(&mut line, e.as_str());
                let ghost before = text::views(errors@);
                errors.push(line);
                proof {
                    assert(text::views(errors@) =~= before.push(line@));
                }
            },
        }
        i = i + 1;
    }
    proof {
        assert(outcomes@.take(outcomes.len() as int) =~= outcomes@);
    }
    SyncSummary { profiles, sent_messages: sent, received_messages: received, errors }
}

/// Totals of a prefix never exceed the totals of the whole list.
proof fn lemma_prefix_totals(o: Seq<AccountOutcome>, k: int)
    requires
        0 <= k <= o.len(),
    ensures
        sent_total(o.take(k)) <= sent_total(o),
        received_total(o.take(k)) <= received_total(o),
    decreases o.len() - k,
{
    if k < o.len() {
        lemma_prefix_totals(o, k + 1);
        assert(o.take(k + 1).drop_last() =~= o.take(k));
    } else {
        assert(o.take(k) =~= o);
    }
}

/// How many different profiles the accounts use.
pub fn profile_count(profile_names: Vec<String>) -> (res: usize)
    ensures
        res == text::views(profile_names@).to_set().len(),
{
    let d = helpers::stable_dedup(profile_names);
    proof {
        let s = text::views(profile_names@);
        helpers::law_dedup_no_duplicates(s);
        helpers::law_dedup_same_values(s);
        helpers::dedup(s).unique_seq_to_set();
        assert(helpers::dedup(s).to_set() =~= s.to_set());
    }
    d.len()
}

/// "no accounts configured": syncing needs at least one account.
pub fn require_accounts(count: usize) -> (res: Result<(), String>)
    ensures
        count == 0 <==> res is Err,
        res matches Err(m) ==> m@ == "no accounts configured"@,
{
    if count == 0 {
        Err(text::copy_str("no accounts configured"))
    } else {
        Ok(())
    }
}

/// The desktop notification for a newly received message: a title naming
/// the account, and a body with the sender and the subject.
pub fn new_mail_notification(account: &str, from: &str, subject: &str) -> (res: (String, String))
    ensures
        res.0@ == "New email to "@ + account@,
        res.1@ == "From: "@ + from@ + "\n"@ + subject@,
{
    let mut title = text::copy_str("New email to ");
    text::push_str(&mut title, account);
    let mut body = text::copy_str("From: ");
    text::push_str(&mut body, from);
    text::push_str(&mut body, "\n");
    text::push_str(&mut body, subject);
    (title, body)
}

// ── Progress ───────────────────────────────────────────────────────────────

/// `(done, total)` of the sync in progress, read by the menu-bar status.
#[derive(Clone, Copy, Debug)]
pub struct SyncProgress {
    pub done: usize,
    pub total: usize,
}

/// The progress after one more account finished: `done` goes up by one,
/// wrapping to 0 after `usize::MAX` like an atomic add.
pub open spec fn incremented(p: SyncProgress) -> SyncProgress {
    SyncProgress {
        done: if p.done == usize::MAX {
            0
        } else {
            (p.done + 1) as usize
        },
        total: p.total,
    }
}

/// The progress after `k` more accounts finished.
pub open spec fn incremented_times(p: SyncProgress, k: nat) -> SyncProgress
    decreases k,
{
    if k == 0 {
        p
    } else {
        incremented(incremented_times(p, (k - 1) as nat))
    }
}

impl SyncProgress {
    pub fn new() -> (res: SyncProgress)
        ensures
            res.done == 0 && res.total == 0,
    {
        SyncProgress { done: 0, total: 0 }
    }

    pub fn set_progress(&mut self, done: usize, total: usize)
        ensures
            *final(self) == (SyncProgress { done, total }),
    {
        self.done = done;
        self.total = total;
    }

    /// One more account finished; the counter wraps like an atomic add.
    pub fn inc_done(&mut self)
        ensures
            *final(self) == incremented(*old(self)),
    {
        if self.done == usize::MAX {
            self.done = 0;
        } else {
            self.done = self.done + 1;
        }
    }
}

/// After `set_progress(d, t)` and `k` calls of `inc_done`, the progress
/// read is `(d + k, t)`, the count wrapping modulo `usize::MAX + 1`.
pub proof fn law_progress_counts_increments(d: usize, t: usize, k: nat)
    ensures
        incremented_times(SyncProgress { done: d, total: t }, k).total == t,
        incremented_times(SyncProgress { done: d, total: t }, k).done == (d + k) % (usize::MAX as int + 1),
    decreases k,
{
    let m = usize::MAX as int + 1;
    if k == 0 {
        vstd::arithmetic::div_mod::lemma_small_mod(d as nat, m as nat);
    } else {
        law_progress_counts_increments(d, t, (k - 1) as nat);
        let prev = (d + k - 1) % m;
        vstd::arithmetic::div_mod::lemma_add_mod_noop(d + k - 1, 1, m);
        vstd::arithmetic::div_mod::lemma_small_mod(1, m as nat);
        if prev + 1 < m {
            vstd::arithmetic::div_mod::lemma_small_mod((prev + 1) as nat, m as nat);
        } else {
            vstd::arithmetic::div_mod::lemma_mod_self_0(m);
        }
    }
}

/// The current `(done, total)`.
pub fn sync_progress(p: &SyncProgress) -> (res: (usize, usize))
    ensures
        res == (p.done, p.total),
{
    (p.done, p.total)
}

} // verus!
