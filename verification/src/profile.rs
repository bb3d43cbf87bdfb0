//! Profile bookkeeping rules and the self-update report.
use vstd::prelude::*;

use crate::models::Domain;
use crate::text;

verus! {

/// A profile needs a name that is not blank.
pub fn check_profile_name(name: &str) -> (res: Result<(), String>)
    ensures
        res is Err <==> text::trim(name@).len() == 0,
        res matches Err(m) ==> m@ == "profile name must not be blank"@,
{
    let t = text::trim_str(name);
    if t.as_str().is_empty() {
        return Err(text::copy_str("profile name must not be blank"));
    }
    Ok(())
}

/// Why a profile removal is refused, checked in order: no `--yes`, a blank
/// name, an unknown profile, or accounts still using it.
pub open spec fn profile_removal_refusal(yes: bool, name: Seq<char>, found: bool, accounts: int) -> Option<Seq<char>> {
    if !yes {
        Some("--yes is required to remove a profile"@)
    } else if text::trim(name).len() == 0 {
        Some("profile name must not be blank"@)
    } else if !found {
        Some("profile "@ + name + " not found"@)
    } else if accounts > 0 {
        Some(
            "profile "@ + name + " is used by "@ + text::digits(accounts as nat)
                + " account(s); move or remove those accounts first"@,
        )
    } else {
        None
    }
}

pub fn check_profile_removal(yes: bool, name: &str, found: bool, accounts: u64) -> (res: Result<(), String>)
    ensures
        match profile_removal_refusal(yes, name@, found, accounts as int) {
            None => res is Ok,
            Some(m) => res matches Err(x) && x@ == m,
        },
{
    if !yes {
        return Err(text::copy_str("--yes is required to remove a profile"));
    }
    check_profile_name(name)?;
    if !found {
        let mut m = text::copy_str("profile ");
        text::push_str(&mut m, name);
        text::push_str(&mut m, " not found");
        return Err(m);
    }
    if accounts > 0 {
        let mut m = text::copy_str("profile ");
        text::push_str(&mut m, name);
        text::push_str(&mut m, " is used by ");
        text::push_u64(&mut m, accounts);
        text::push_str(&mut m, " account(s); move or remove those accounts first");
        return Err(m);
    }
    Ok(())
}

fn or_unknown(o: &Option<String>) -> (res: String)
    ensures
        res@ == match o {
            Some(s) => s@,
            None => "unknown"@,
        },
{
    match o {
        Some(s) => text::copy_str(s.as_str()),
        None => text::copy_str("unknown"),
    }
}

/// One line of `profile test`: the domain, its status and capabilities,
/// "unknown" where the provider says nothing.
pub fn domain_line(d: &Domain) -> (res: String)
    ensures
        res@ == d.name@ + " status="@ + match d.status {
            Some(s) => s@,
            None => "unknown"@,
        } + " sending="@ + match d.capabilities {
            Some(c) => match c.sending {
                Some(s) => s@,
                None => "unknown"@,
            },
            None => "unknown"@,
        } + " receiving="@ + match d.capabilities {
            Some(c) => match c.receiving {
                Some(s) => s@,
                None => "unknown"@,
            },
            None => "unknown"@,
        },
{
    let mut line = text::copy_str(d.name.as_str());
    text::push_str(&mut line, " status=");
    let status = or_unknown(&d.status);
    text::push_str(&mut line, status.as_str());
    let (sending, receiving) = match &d.capabilities {
        Some(c) => (or_unknown(&c.sending), or_unknown(&c.receiving)),
        None => (text::copy_str("unknown"), text::copy_str("unknown")),
    };
    text::push_str(&mut line, " sending=");
    text::push_str(&mut line, sending.as_str());
    text::push_str(&mut line, " receiving=");
    text::push_str(&mut line, receiving.as_str());
    line
}

// ── Self-update ────────────────────────────────────────────────────────────

/// A release tag without its leading `v`s.
pub open spec fn release_version(tag: Seq<char>) -> Seq<char> {
    text::trim_start_by(tag, text::CharClass::Only('v'))
}

pub fn version_of_tag(tag: &str) -> (res: String)
    ensures
        res@ == release_version(tag@),
{
    text::trim_start_class_str(tag, text::CharClass::Only('v'))
}

/// The status reported by `update`: up to date when the release is the
/// running version; otherwise an update is available (when only checking)
/// or was installed.
pub fn update_status(current: &str, release: &str, checking: bool) -> (res: &'static str)
    ensures
        current@ == release@ ==> res@ == "up_to_date"@,
        current@ != release@ && checking ==> res@ == "update_available"@,
        current@ != release@ && !checking ==> res@ == "updated"@,
{
    if text::seq_eq(current, release) {
        "up_to_date"
    } else if checking {
        "update_available"
    } else {
        "updated"
    }
}

} // verus!
