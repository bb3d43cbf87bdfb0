//! Where a profile's Resend API key is kept.
//!
//! A stored key equal to `KEYCHAIN_SENTINEL` means the real key lives in the
//! system keychain; any other value is the key itself. The system keychain
//! is only reachable on macOS: on this platform storing and loading through
//! it fail with a message that points at the alternatives, and keys stay in
//! the local database.
use vstd::prelude::*;

use crate::text;

verus! {

/// Stored in place of a key that lives in the keychain. Real Resend keys
/// start with `re_`, so the two never collide.
pub const KEYCHAIN_SENTINEL: &'static str = "__keychain__";

pub open spec fn sentinel() -> Seq<char> {
    "__keychain__"@
}

pub open spec fn store_error() -> Seq<char> {
    "Keychain storage is macOS only; use --api-key-env or --api-key-file instead"@
}

pub open spec fn load_error() -> Seq<char> {
    "Keychain storage is macOS only"@
}

/// Whether the system keychain can be used on this platform.
pub fn is_available() -> (res: bool)
    ensures
        !res,
{
    false
}

/// Keeps `api_key` for `profile_name` in the keychain.
pub fn store(profile_name: &str, api_key: &str) -> (res: Result<(), String>)
    ensures
        match res {
            Ok(_) => false,
            Err(e) => e@ == store_error(),
        },
{
    Err(text::copy_str("Keychain storage is macOS only; use --api-key-env or --api-key-file instead"))
}

/// Reads the key kept for `profile_name`.
pub fn load(profile_name: &str) -> (res: Result<String, String>)
    ensures
        match res {
            Ok(_) => false,
            Err(e) => e@ == load_error(),
        },
{
    Err(text::copy_str("Keychain storage is macOS only"))
}

/// Forgets the key kept for `profile_name`; nothing kept is not an error.
pub fn delete(profile_name: &str) -> (res: Result<(), String>)
    ensures
        res is Ok,
{
    Ok(())
}

/// Whether a stored value stands for a key kept in the keychain.
pub fn is_sentinel(stored: &str) -> (res: bool)
    ensures
        res == (stored@ == sentinel()),
{
    proof {
        reveal_strlit("__keychain__");
    }
    text::seq_eq(stored, KEYCHAIN_SENTINEL)
}

/// The value written for a new key: the key itself, since the keychain
/// cannot be used here.
pub open spec fn stored_for(api_key: Seq<char>) -> Seq<char> {
    api_key
}

/// The key a stored value gives back: the keychain is consulted for the
/// sentinel (and fails here), any other value is the key itself.
pub open spec fn resolved_key(stored: Seq<char>) -> Result<Seq<char>, Seq<char>> {
    if stored == sentinel() {
        Err(load_error())
    } else {
        Ok(stored)
    }
}

pub open spec fn key_view(r: Result<String, String>) -> Result<Seq<char>, Seq<char>> {
    match r {
        Ok(k) => Ok(k@),
        Err(e) => Err(e@),
    }
}

/// Saving a key and resolving what was saved gives the key back (for any
/// key but the sentinel text itself).
pub proof fn law_saved_key_resolves(api_key: Seq<char>)
    requires
        api_key != sentinel(),
    ensures
        resolved_key(stored_for(api_key)) == Ok::<Seq<char>, Seq<char>>(api_key),
{
}

/// The API key behind a profile's stored value.
pub fn resolve_stored_key(profile_name: &str, stored: String) -> (res: Result<String, String>)
    ensures
        key_view(res) == resolved_key(stored@),
{
    if is_sentinel(stored.as_str()) {
        return load(profile_name);
    }
    if is_available() {
        store(profile_name, stored.as_str())?;
    }
    Ok(stored)
}

/// The value to write for a new key: the sentinel once the key is in the
/// keychain, else the key itself.
pub fn value_to_store(profile_name: &str, api_key: String) -> (res: Result<String, String>)
    ensures
        res matches Ok(v) && v@ == stored_for(api_key@),
{
    if is_available() {
        store(profile_name, api_key.as_str())?;
        return Ok(text::copy_str(KEYCHAIN_SENTINEL));
    }
    Ok(api_key)
}

/// "keychain" or "sqlite", where a stored value says the key lives.
pub fn storage_label(stored: &str) -> (res: &'static str)
    ensures
        res@ == (if stored@ == sentinel() {
            "keychain"@
        } else {
            "sqlite"@
        }),
{
    if is_sentinel(stored) {
        "keychain"
    } else {
        "sqlite"
    }
}

} // verus!
