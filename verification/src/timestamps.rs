//! Timestamps as stored: UTC in RFC 3339 with milliseconds.
//!
//! Parsing and re-rendering a timestamp is done by `chrono`; the library
//! decides which forms are tried and what happens when none fits.
use vstd::prelude::*;

use crate::helpers;
use crate::text;

verus! {

/// `DateTime::parse_from_rfc3339(s)` converted to UTC and rendered with
/// milliseconds and a `Z` suffix, when `s` parses.
pub uninterp spec fn rfc3339_as_utc_millis(s: Seq<char>) -> Option<Seq<char>>;

/// `DateTime::parse_from_str(s, "%Y-%m-%d %H:%M:%S%.f%:z")` converted to
/// UTC and rendered the same way, when `s` parses.
pub uninterp spec fn sql_time_as_utc_millis(s: Seq<char>) -> Option<Seq<char>>;

/// Parses `s` as RFC 3339 with `chrono` and renders it in UTC with
/// milliseconds; named by `rfc3339_as_utc_millis`.
#[verifier::external_body]
fn rfc3339_utc(s: &str) -> (res: Option<String>)
    ensures
        text::opt_view(res) == rfc3339_as_utc_millis(s@),
{
    chrono::DateTime::parse_from_rfc3339(s).ok().map(
        |d| d.with_timezone(&chrono::Utc).to_rfc3339_opts(chrono::SecondsFormat::Millis, true),
    )
}

/// Parses `s` as `YYYY-MM-DD HH:MM:SS[.f]+HH:MM` with `chrono` and renders
/// it in UTC with milliseconds; named by `sql_time_as_utc_millis`.
#[verifier::external_body]
fn sql_time_utc(s: &str) -> (res: Option<String>)
    ensures
        text::opt_view(res) == sql_time_as_utc_millis(s@),
{
    chrono::DateTime::parse_from_str(s, "%Y-%m-%d %H:%M:%S%.f%:z").ok().map(
        |d| d.with_timezone(&chrono::Utc).to_rfc3339_opts(chrono::SecondsFormat::Millis, true),
    )
}

/// The stored form of a provider timestamp. A missing or blank value, or
/// one that parses neither way, becomes `now`. A value without a `T` is
/// tried as a SQL-style time, with `:00` added to a short `+HH` offset.
pub open spec fn normalized_timestamp(value: Option<Seq<char>>, now: Seq<char>) -> Seq<char> {
    match value {
        None => now,
        Some(raw) => {
            let v = text::trim(raw);
            if v.len() == 0 {
                now
            } else {
                match rfc3339_as_utc_millis(v) {
                    Some(t) => t,
                    None => if text::contains(v, "T"@) {
                        now
                    } else {
                        let candidate = if helpers::short_offset(v) {
                            v + ":00"@
                        } else {
                            v
                        };
                        match sql_time_as_utc_millis(candidate) {
                            Some(t) => t,
                            None => now,
                        }
                    },
                }
            }
        },
    }
}

/// `now` is the current time in the same form (seconds precision).
pub fn normalize_timestamp(value: Option<&str>, now: &str) -> (res: String)
    ensures
        res@ == normalized_timestamp(
            match value {
                Some(v) => Some(v@),
                None => None,
            },
            now@,
        ),
{
    let raw = match value {
        Some(v) => v,
        None => return text::copy_str(now),
    };
    let v = text::trim_str(raw);
    if v.as_str().is_empty() {
        return text::copy_str(now);
    }
    match rfc3339_utc(v.as_str()) {
        Some(t) => return t,
        None => {},
    }
    if text::str_contains(v.as_str(), "T") {
        return text::copy_str(now);
    }
    let mut candidate = text::copy_str(v.as_str());
    if helpers::has_short_numeric_offset(v.as_str()) {
        text::push_str(&mut candidate, ":00");
    }
    match sql_time_utc(candidate.as_str()) {
        Some(t) => t,
        None => text::copy_str(now),
    }
}

} // verus!
