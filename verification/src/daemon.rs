//! The menu-bar daemon's display and timing: the badge next to the icon,
//! the status line of its menu, and how often it polls between syncs.
use vstd::prelude::*;

use crate::text;

verus! {

/// The badge: a sync arrow while syncing, nothing at zero unread, the count
/// padded with spaces below ten, "99+" above 99.
pub open spec fn badge(unread: u64, syncing: bool) -> Seq<char> {
    if syncing {
        " \u{21BB} "@
    } else if unread > 99 {
        "99+"@
    } else if unread > 0 {
        if unread < 10 {
            " "@ + text::digits(unread as nat) + " "@
        } else {
            text::digits(unread as nat)
        }
    } else {
        Seq::empty()
    }
}

pub fn badge_title(unread: u64, syncing: bool) -> (res: String)
    ensures
        res@ == badge(unread, syncing),
{
    if syncing {
        return text::copy_str(" \u{21BB} ");
    }
    if unread > 99 {
        return text::copy_str("99+");
    }
    let mut t = String::new();
    if unread > 0 {
        if unread < 10 {
            text::push_str(&mut t, " ");
            text::push_u64(&mut t, unread);
            text::push_str(&mut t, " ");
        } else {
            text::push_u64(&mut t, unread);
        }
    }
    t
}

/// Which accounts the daemon watches, as shown in its menu.
pub fn account_label(account: Option<&str>) -> (res: String)
    ensures
        res@ == match account {
            Some(a) => a@,
            None => "All accounts"@,
        },
{
    match account {
        Some(a) => text::copy_str(a),
        None => text::copy_str("All accounts"),
    }
}

/// The first line of the menu: syncing, or the unread count, with the
/// account label.
pub fn status_line(unread: u64, syncing: bool, label: &str) -> (res: String)
    ensures
        syncing ==> res@ == "Syncing\u{2026} \u{00b7} "@ + label@,
        !syncing ==> res@ == text::digits(unread as nat) + " unread \u{00b7} "@ + label@,
{
    if syncing {
        let mut t = text::copy_str("Syncing\u{2026} \u{00b7} ");
        text::push_str(&mut t, label);
        t
    } else {
        let mut t = String::new();
        text::push_u64(&mut t, unread);
        text::push_str(&mut t, " unread \u{00b7} ");
        text::push_str(&mut t, label);
        t
    }
}

/// The wait between syncs is cut into quarter-second ticks, so a menu
/// request is noticed within a tick.
pub fn poll_ticks(interval_secs: u64) -> (res: u64)
    requires
        interval_secs * 4 <= u64::MAX,
    ensures
        res == interval_secs * 4,
{
    interval_secs * 4
}

/// What the background loop does on one tick of the wait.
#[derive(Clone, Copy, Debug, PartialEq, Eq)]
pub enum TickAction {
    /// A sync was asked for from the menu: stop waiting and sync now.
    SyncNow,
    /// Mark everything read, recount, and keep waiting.
    MarkAllRead,
    /// Nothing asked for: sleep a tick.
    Sleep,
}

/// A sync request wins over a mark-read request on the same tick; the
/// mark-read stays pending for the next one.
pub fn tick_action(sync_requested: bool, mark_read_requested: bool) -> (res: TickAction)
    ensures
        sync_requested ==> res == TickAction::SyncNow,
        !sync_requested && mark_read_requested ==> res == TickAction::MarkAllRead,
        !sync_requested && !mark_read_requested ==> res == TickAction::Sleep,
{
    if sync_requested {
        TickAction::SyncNow
    } else if mark_read_requested {
        TickAction::MarkAllRead
    } else {
        TickAction::Sleep
    }
}

} // verus!
