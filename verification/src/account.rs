//! Rules for adding, editing and removing sending accounts: which domain an
//! address sends from and whether the profile may send from it, what an
//! upsert keeps of an existing account, which account becomes the default,
//! and when removal is refused.
use vstd::prelude::*;

use crate::inbox;
use crate::models::{AccountRecord, Domain};
use crate::text::{self, CharClass};

verus! {

// ── Domains ────────────────────────────────────────────────────────────────

/// The domain of an address: the text between the first and second `@`
/// (`split('@').nth(1)`), when there is one and it is not empty.
pub open spec fn email_domain_part(email: Seq<char>) -> Option<Seq<char>> {
    let parts = text::split_by(email, CharClass::Only('@'));
    if parts.len() >= 2 && parts[1].len() > 0 {
        Some(parts[1])
    } else {
        None
    }
}

pub fn account_domain(email: &str) -> (res: Result<String, String>)
    ensures
        match email_domain_part(email@) {
            Some(d) => res matches Ok(x) && x@ == d,
            None => res matches Err(m) && m@ == "invalid email: "@ + email@,
        },
{
    let parts = text::split_class(email, CharClass::Only('@'));
    proof {
        assert(text::views(parts@).len() == parts@.len());
    }
    if parts.len() >= 2 && !parts[1].as_str().is_empty() {
        proof {
            assert(text::views(parts@)[1] == parts@[1]@);
        }
        return Ok(text::copy_str(parts[1].as_str()));
    }
    proof {
        if parts.len() >= 2 {
            assert(text::views(parts@)[1] == parts@[1]@);
        }
    }
    let mut m = text::copy_str("invalid email: ");
    text::push_str(&mut m, email);
    Err(m)
}

/// A domain's sending capability, "unknown" when not reported.
pub open spec fn sending_of(d: Domain) -> Seq<char> {
    match d.capabilities {
        Some(c) => match c.sending {
            Some(s) => s@,
            None => "unknown"@,
        },
        None => "unknown"@,
    }
}

/// Index of the first listed domain named `domain`, ignoring ASCII case.
pub open spec fn first_domain_named(domains: Seq<Domain>, domain: Seq<char>) -> Option<int>
    decreases domains.len(),
{
    if domains.len() == 0 {
        None
    } else if inbox::same_ignoring_ascii_case(domains[0].name@, domain) {
        Some(0)
    } else {
        match first_domain_named(domains.drop_first(), domain) {
            Some(i) => Some(i + 1),
            None => None,
        }
    }
}

/// The profile may send from `domain` when the profile lists it and its
/// sending capability is "enabled".
pub open spec fn domain_check(domains: Seq<Domain>, domain: Seq<char>, profile: Seq<char>) -> Result<
    (),
    Seq<char>,
> {
    match first_domain_named(domains, domain) {
        None => Err("domain "@ + domain + " is not present in profile "@ + profile),
        Some(i) => if sending_of(domains[i]) == "enabled"@ {
            Ok(())
        } else {
            Err("domain "@ + domain + " is not send-enabled in profile "@ + profile)
        },
    }
}

fn sending_text(d: &Domain) -> (res: String)
    ensures
        res@ == sending_of(*d),
{
    match &d.capabilities {
        Some(c) => match &c.sending {
            Some(s) => text::copy_str(s.as_str()),
            None => text::copy_str("unknown"),
        },
        None => text::copy_str("unknown"),
    }
}

pub fn check_domain(domains: &Vec<Domain>, domain: &str, profile: &str) -> (res: Result<(), String>)
    ensures
        match domain_check(domains@, domain@, profile@) {
            Ok(_) => res is Ok,
            Err(m) => res matches Err(x) && x@ == m,
        },
{
    let mut i: usize = 0;
    proof {
        assert(domains@.skip(0) =~= domains@);
    }
    while i < domains.len()
        invariant
            i <= domains.len(),
            first_domain_named(domains@, domain@) == match first_domain_named(
                domains@.skip(i as int),
                domain@,
            ) {
                Some(k) => Some(k + i),
                None => None::<int>,
            },
        decreases domains.len() - i,
    {
        proof {
            assert(domains@.skip(i as int)[0] == domains@[i as int]);
            assert(domains@.skip(i as int).drop_first() =~= domains@.skip(i + 1));
        }
        if inbox::eq_ignore_ascii_case(domains[i].name.as_str(), domain) {
            let s = sending_text(&domains[i]);
            if text::seq_eq(s.as_str(), "enabled") {
                return Ok(());
            }
            let mut m = text::copy_str("domain ");
            text::push_str(&mut m, domain);
            text::push_str(&mut m, " is not send-enabled in profile ");
            text::push_str(&mut m, profile);
            return Err(m);
        }
        i = i + 1;
    }
    let mut m = text::copy_str("domain ");
    text::push_str(&mut m, domain);
    text::push_str(&mut m, " is not present in profile ");
    text::push_str(&mut m, profile);
    Err(m)
}

// ── Adding ─────────────────────────────────────────────────────────────────

/// An added account is the default when asked, when it already was, or when
/// there is no default yet.
pub fn added_is_default(requested: bool, existing_default: bool, has_default: bool) -> (res: bool)
    ensures
        res == (requested || existing_default || !has_default),
{
    requested || existing_default || !has_default
}

/// The identity fields an upsert writes: what was given, else what the
/// account already had (a given empty text is a value and clears the
/// field); a new account without a signature gets an empty one.
#[derive(Debug)]
pub struct AccountFields {
    pub display_name: Option<String>,
    pub signature: String,
}

pub fn added_fields(existing: Option<&AccountRecord>, name: Option<String>, signature: Option<String>) -> (res:
    AccountFields)
    ensures
        text::opt_view(res.display_name) == match name {
            Some(n) => Some(n@),
            None => match existing {
                Some(a) => text::opt_view(a.display_name),
                None => None,
            },
        },
        res.signature@ == match signature {
            Some(s) => s@,
            None => match existing {
                Some(a) => a.signature@,
                None => Seq::empty(),
            },
        },
{
    let display_name = match name {
        Some(n) => Some(n),
        None => match existing {
            Some(a) => match &a.display_name {
                Some(d) => Some(text::copy_str(d.as_str())),
                None => None,
            },
            None => None,
        },
    };
    let signature = match signature {
        Some(s) => s,
        None => match existing {
            Some(a) => text::copy_str(a.signature.as_str()),
            None => String::new(),
        },
    };
    AccountFields { display_name, signature }
}

/// "saved account {email} on profile {profile}", marked when default.
pub fn saved_account_text(email: &str, profile: &str, is_default: bool) -> (res: String)
    ensures
        res@ == "saved account "@ + email@ + " on profile "@ + profile@ + (if is_default {
            " (default)"@
        } else {
            ""@
        }),
{
    let mut m = text::copy_str("saved account ");
    text::push_str(&mut m, email);
    text::push_str(&mut m, " on profile ");
    text::push_str(&mut m, profile);
    if is_default {
        text::push_str(&mut m, " (default)");
    } else {
        proof {
            reveal_strlit("");
            assert(m@ =~= m@ + ""@);
        }
    }
    m
}

// ── Editing ────────────────────────────────────────────────────────────────

/// What an edit does: the display name to write (an empty name clears it),
/// the profile to write, and whether the new profile's domains must be
/// checked (only when the profile changes, so name edits work offline).
#[derive(Debug)]
pub struct AccountEdit {
    pub display_name: Option<String>,
    pub profile_name: String,
    pub check_profile: bool,
}

pub fn plan_account_edit(existing: &AccountRecord, name: Option<&str>, profile: Option<&str>) -> (res:
    Result<AccountEdit, String>)
    ensures
        match profile {
            Some(p) => text::trim(p@).len() == 0 ==> (res matches Err(m) && m@
                == "profile name must not be blank"@),
            None => true,
        },
        res matches Ok(e) ==> {
            &&& text::opt_view(e.display_name) == match name {
                Some(n) => if n@.len() == 0 {
                    None
                } else {
                    Some(n@)
                },
                None => text::opt_view(existing.display_name),
            }
            &&& e.profile_name@ == match profile {
                Some(p) => p@,
                None => existing.profile_name@,
            }
            &&& e.check_profile == match profile {
                Some(p) => p@ != existing.profile_name@,
                None => false,
            }
        },
        res is Err ==> (profile matches Some(p) && text::trim(p@).len() == 0),
{
    let (profile_name, check_profile) = match profile {
        Some(p) => {
            let t = text::trim_str(p);
            if t.as_str().is_empty() {
                return Err(text::copy_str("profile name must not be blank"));
            }
            (text::copy_str(p), !text::seq_eq(p, existing.profile_name.as_str()))
        },
        None => (text::copy_str(existing.profile_name.as_str()), false),
    };
    let display_name = match name {
        Some(n) => if n.is_empty() {
            None
        } else {
            Some(text::copy_str(n))
        },
        None => match &existing.display_name {
            Some(d) => Some(text::copy_str(d.as_str())),
            None => None,
        },
    };
    Ok(AccountEdit { display_name, profile_name, check_profile })
}

// ── Default and removal ────────────────────────────────────────────────────

/// "account {email} not found" unless exactly one account was updated.
pub fn require_updated(email: &str, changed: usize) -> (res: Result<(), String>)
    ensures
        changed == 1 <==> res is Ok,
        res matches Err(m) ==> m@ == "account "@ + email@ + " not found"@,
{
    if changed != 1 {
        let mut m = text::copy_str("account ");
        text::push_str(&mut m, email);
        text::push_str(&mut m, " not found");
        return Err(m);
    }
    Ok(())
}

/// Why a removal is refused, checked in order: no `--yes`, an unknown
/// account, or outbox items that were not sent.
pub open spec fn removal_refusal(yes: bool, found: bool, email: Seq<char>, unsent: int) -> Option<Seq<char>> {
    if !yes {
        Some("--yes is required to remove an account"@)
    } else if !found {
        Some("account "@ + email + " not found"@)
    } else if unsent > 0 {
        Some(
            "account "@ + email + " has "@ + text::digits(unsent as nat)
                + " unsent outbox item(s); send or resolve them before removal"@,
        )
    } else {
        None
    }
}

pub fn check_removal(yes: bool, found: bool, email: &str, unsent: u64) -> (res: Result<(), String>)
    ensures
        match removal_refusal(yes, found, email@, unsent as int) {
            None => res is Ok,
            Some(m) => res matches Err(x) && x@ == m,
        },
{
    if !yes {
        return Err(text::copy_str("--yes is required to remove an account"));
    }
    if !found {
        let mut m = text::copy_str("account ");
        text::push_str(&mut m, email);
        text::push_str(&mut m, " not found");
        return Err(m);
    }
    if unsent > 0 {
        let mut m = text::copy_str("account ");
        text::push_str(&mut m, email);
        text::push_str(&mut m, " has ");
        text::push_u64(&mut m, unsent);
        text::push_str(&mut m, " unsent outbox item(s); send or resolve them before removal");
        return Err(m);
    }
    Ok(())
}

/// The `NOCASE` collation: compare with ASCII letters folded to lower case.
pub open spec fn nocase_le(a: Seq<char>, b: Seq<char>) -> bool {
    inbox::text_le(text::lower(a), text::lower(b))
}

/// Whether `emails[k]` comes first in `NOCASE` order, the earliest of equals.
pub open spec fn is_nocase_first(emails: Seq<Seq<char>>, k: int) -> bool {
    &&& 0 <= k < emails.len()
    &&& forall|j: int| 0 <= j < emails.len() ==> nocase_le(emails[k], #[trigger] emails[j])
    &&& forall|j: int| 0 <= j < k ==> !nocase_le(#[trigger] emails[j], emails[k])
}

/// After removing the default account, the remaining account that sorts
/// first (ignoring ASCII case) becomes the default.
pub fn replacement_default(was_default: bool, remaining: &Vec<String>) -> (res: Option<String>)
    ensures
        !was_default ==> res is None,
        was_default && remaining.len() == 0 ==> res is None,
        was_default && remaining.len() > 0 ==> (res matches Some(e) && exists|k: int|
            is_nocase_first(text::views(remaining@), k) && e@ == #[trigger] remaining@[k]@),
{
    if !was_default || remaining.len() == 0 {
        return None;
    }
    let ghost v = text::views(remaining@);
    let mut best: usize = 0;
    let mut best_low = text::to_ascii_lower(remaining[0].as_str());
    let mut i: usize = 1;
    proof {
        crate::outbox::lemma_text_order();
        assert(v[0] == remaining@[0]@);
        assert(crate::outbox::text_leq()(text::lower(v[0]), text::lower(v[0])));
    }
    while i < remaining.len()
        invariant
            1 <= i <= remaining.len(),
            best < i,
            v == text::views(remaining@),
            best_low@ == text::lower(v[best as int]),
            forall|j: int| 0 <= j < i ==> nocase_le(v[best as int], #[trigger] v[j]),
            forall|j: int| 0 <= j < best ==> !nocase_le(#[trigger] v[j], v[best as int]),
            vstd::relations::total_ordering(crate::outbox::text_leq()),
        decreases remaining.len() - i,
    {
        let low = text::to_ascii_lower(remaining[i].as_str());
        proof {
            assert(v[i as int] == remaining@[i as int]@);
        }
        if !inbox::str_le(best_low.as_str(), low.as_str()) {
            proof {
                assert(crate::outbox::text_leq()(low@, best_low@) || crate::outbox::text_leq()(
                    best_low@,
                    low@,
                ));
                assert forall|j: int| 0 <= j < i + 1 implies nocase_le(v[i as int], #[trigger] v[j]) by {
                    if j < i {
                        assert(nocase_le(v[best as int], v[j]));
                        assert(crate::outbox::text_leq()(text::lower(v[best as int]), text::lower(v[j])));
                        assert(crate::outbox::text_leq()(text::lower(v[i as int]), text::lower(v[best as int])));
                    } else {
                        assert(crate::outbox::text_leq()(text::lower(v[j]), text::lower(v[j])));
                    }
                }
                assert forall|j: int| 0 <= j < i implies !nocase_le(#[trigger] v[j], v[i as int]) by {
                    if nocase_le(v[j], v[i as int]) {
                        assert(nocase_le(v[best as int], v[j]));
                        assert(crate::outbox::text_leq()(text::lower(v[best as int]), text::lower(v[j])));
                        assert(crate::outbox::text_leq()(text::lower(v[j]), text::lower(v[i as int])));
                    }
                }
            }
            best = i;
            best_low = low;
        }
        i = i + 1;
    }
    proof {
        assert(is_nocase_first(v, best as int));
    }
    Some(text::copy_str(remaining[best].as_str()))
}

} // verus!
