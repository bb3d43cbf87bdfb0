//! The command-line error taxonomy: each kind has an exit code, a stable
//! machine code and a hint, and free-form failures are sorted into kinds by
//! what their message says.
use vstd::prelude::*;

use crate::subject;
use crate::text;

verus! {

/// A failure reported to the user. `Internal` carries the rendered message
/// of an unclassified failure.
#[derive(Clone, Debug)]
pub enum CliError {
    InvalidInput(String),
    ConfigError(String),
    Transient(String),
    RateLimited(String),
    Internal(String),
}

/// The kind of a `CliError`, without its message.
#[derive(Clone, Copy, Debug, PartialEq, Eq)]
pub enum ErrorKind {
    InvalidInput,
    ConfigError,
    Transient,
    RateLimited,
    Internal,
}

pub open spec fn kind_of(e: CliError) -> ErrorKind {
    match e {
        CliError::InvalidInput(_) => ErrorKind::InvalidInput,
        CliError::ConfigError(_) => ErrorKind::ConfigError,
        CliError::Transient(_) => ErrorKind::Transient,
        CliError::RateLimited(_) => ErrorKind::RateLimited,
        CliError::Internal(_) => ErrorKind::Internal,
    }
}

pub open spec fn message_of(e: CliError) -> Seq<char> {
    match e {
        CliError::InvalidInput(m) => m@,
        CliError::ConfigError(m) => m@,
        CliError::Transient(m) => m@,
        CliError::RateLimited(m) => m@,
        CliError::Internal(m) => m@,
    }
}

pub open spec fn exit_code_of(k: ErrorKind) -> i32 {
    match k {
        ErrorKind::InvalidInput => 3,
        ErrorKind::ConfigError => 2,
        ErrorKind::Transient => 1,
        ErrorKind::RateLimited => 4,
        ErrorKind::Internal => 1,
    }
}

pub open spec fn error_code_of(k: ErrorKind) -> Seq<char> {
    match k {
        ErrorKind::InvalidInput => "invalid_input"@,
        ErrorKind::ConfigError => "config_error"@,
        ErrorKind::Transient => "transient_error"@,
        ErrorKind::RateLimited => "rate_limited"@,
        ErrorKind::Internal => "internal_error"@,
    }
}

pub open spec fn suggestion_of(k: ErrorKind) -> Seq<char> {
    match k {
        ErrorKind::InvalidInput => "Check arguments with --help"@,
        ErrorKind::ConfigError => "Run profile add / account add to configure"@,
        ErrorKind::Transient => "Retry the command"@,
        ErrorKind::RateLimited => "Wait a moment and retry"@,
        ErrorKind::Internal => "Retry or report the issue"@,
    }
}

/// Phrases that mark a failure as bad input ("not found" and the like).
pub open spec fn says_missing(lower: Seq<char>) -> bool {
    ||| text::contains(lower, "not found"@)
    ||| text::contains(lower, "no such"@)
    ||| text::contains(lower, "does not exist"@)
    ||| text::contains(lower, "404"@)
}

/// Phrases that mark a failure as a network hiccup worth retrying.
pub open spec fn says_transient(lower: Seq<char>) -> bool {
    ||| text::contains(lower, "connection"@)
    ||| text::contains(lower, "timed out"@)
    ||| text::contains(lower, "timeout"@)
    ||| text::contains(lower, "network"@)
    ||| text::contains(lower, "dns"@)
    ||| text::contains(lower, "unreachable"@)
    ||| text::contains(lower, "reset by peer"@)
    ||| text::contains(lower, "broken pipe"@)
    ||| text::contains(lower, "eof"@)
}

/// Phrases that mark a failure as missing setup (no profile or account).
pub open spec fn says_unconfigured(lower: Seq<char>) -> bool {
    ||| text::contains(lower, "not configured"@)
    ||| text::contains(lower, "no default account"@)
    ||| text::contains(lower, "no accounts configured"@)
    ||| text::contains(lower, "no profiles configured"@)
}

/// Phrases that mark a failure as the API refusing for the request rate.
pub open spec fn says_rate_limited(lower: Seq<char>) -> bool {
    ||| text::contains(lower, "rate limit"@)
    ||| text::contains(lower, "too many requests"@)
    ||| text::contains(lower, "429"@)
}

/// The kind a failure message is sorted into, given its lower-cased form.
pub open spec fn classify_kind(lower: Seq<char>) -> ErrorKind {
    if says_missing(lower) {
        ErrorKind::InvalidInput
    } else if says_unconfigured(lower) {
        ErrorKind::ConfigError
    } else if says_rate_limited(lower) {
        ErrorKind::RateLimited
    } else if says_transient(lower) {
        ErrorKind::Transient
    } else {
        ErrorKind::Internal
    }
}

impl CliError {
    /// The process exit code for this error.
    pub fn exit_code(&self) -> (res: i32)
        ensures
            res == exit_code_of(kind_of(*self)),
    {
        match self {
            CliError::InvalidInput(_) => 3,
            CliError::ConfigError(_) => 2,
            CliError::Transient(_) => 1,
            CliError::RateLimited(_) => 4,
            CliError::Internal(_) => 1,
        }
    }

    /// The stable machine-readable code for this error.
    pub fn error_code(&self) -> (res: &'static str)
        ensures
            res@ == error_code_of(kind_of(*self)),
    {
        match self {
            CliError::InvalidInput(_) => "invalid_input",
            CliError::ConfigError(_) => "config_error",
            CliError::Transient(_) => "transient_error",
            CliError::RateLimited(_) => "rate_limited",
            CliError::Internal(_) => "internal_error",
        }
    }

    /// A one-line hint on what to do next.
    pub fn suggestion(&self) -> (res: &'static str)
        ensures
            res@ == suggestion_of(kind_of(*self)),
    {
        match self {
            CliError::InvalidInput(_) => "Check arguments with --help",
            CliError::ConfigError(_) => "Run profile add / account add to configure",
            CliError::Transient(_) => "Retry the command",
            CliError::RateLimited(_) => "Wait a moment and retry",
            CliError::Internal(_) => "Retry or report the issue",
        }
    }

    /// The text shown for this error: its message, unchanged.
    pub fn message(&self) -> (res: String)
        ensures
            res@ == message_of(*self),
    {
        match self {
            CliError::InvalidInput(m) => text::copy_str(m.as_str()),
            CliError::ConfigError(m) => text::copy_str(m.as_str()),
            CliError::Transient(m) => text::copy_str(m.as_str()),
            CliError::RateLimited(m) => text::copy_str(m.as_str()),
            CliError::Internal(m) => text::copy_str(m.as_str()),
        }
    }

    /// Sorts an unclassified failure by its message: "not found"-style
    /// phrases are bad input, missing setup is a configuration error, rate
    /// limiting is its own kind, network phrases are transient, the rest is
    /// internal. The message is kept as it was.
    pub fn from_message(msg: String) -> (res: CliError)
        ensures
            kind_of(res) == classify_kind(subject::unicode_lower(msg@)),
            subject::all_ascii(msg@) ==> kind_of(res) == classify_kind(text::lower(msg@)),
            message_of(res) == msg@,
    {
        let lower = subject::to_lowercase(msg.as_str());
        match classify(lower.as_str()) {
            ErrorKind::InvalidInput => CliError::InvalidInput(msg),
            ErrorKind::ConfigError => CliError::ConfigError(msg),
            ErrorKind::RateLimited => CliError::RateLimited(msg),
            ErrorKind::Transient => CliError::Transient(msg),
            ErrorKind::Internal => CliError::Internal(msg),
        }
    }
}

/// The kind for an already lower-cased failure message.
pub fn classify(lower: &str) -> (res: ErrorKind)
    ensures
        res == classify_kind(lower@),
{
    let l = lower;
    if text::str_contains(l, "not found") || text::str_contains(l, "no such")
        || text::str_contains(l, "does not exist") || text::str_contains(l, "404") {
        return ErrorKind::InvalidInput;
    }
    if text::str_contains(l, "not configured") || text::str_contains(l, "no default account")
        || text::str_contains(l, "no accounts configured")
        || text::str_contains(l, "no profiles configured") {
        return ErrorKind::ConfigError;
    }
    if text::str_contains(l, "rate limit") || text::str_contains(l, "too many requests")
        || text::str_contains(l, "429") {
        return ErrorKind::RateLimited;
    }
    if text::str_contains(l, "connection") || text::str_contains(l, "timed out")
        || text::str_contains(l, "timeout") || text::str_contains(l, "network")
        || text::str_contains(l, "dns") || text::str_contains(l, "unreachable")
        || text::str_contains(l, "reset by peer") || text::str_contains(l, "broken pipe")
        || text::str_contains(l, "eof") {
        return ErrorKind::Transient;
    }
    ErrorKind::Internal
}


/// "Not found"-style failures are bad input, reported with exit code 3.
pub proof fn law_missing_is_bad_input(lower: Seq<char>)
    requires
        says_missing(lower),
    ensures
        classify_kind(lower) == ErrorKind::InvalidInput,
        exit_code_of(classify_kind(lower)) == 3,
{
}

/// Missing setup that is not "not found"-style is a configuration error,
/// reported with exit code 2.
pub proof fn law_unconfigured_is_config_error(lower: Seq<char>)
    requires
        !says_missing(lower),
        says_unconfigured(lower),
    ensures
        classify_kind(lower) == ErrorKind::ConfigError,
        exit_code_of(classify_kind(lower)) == 2,
{
}

/// Rate limiting, unless the failure says "not found" or missing setup, is
/// reported with exit code 4.
pub proof fn law_rate_limit_is_rate_limited(lower: Seq<char>)
    requires
        !says_missing(lower),
        !says_unconfigured(lower),
        says_rate_limited(lower),
    ensures
        classify_kind(lower) == ErrorKind::RateLimited,
        exit_code_of(classify_kind(lower)) == 4,
{
}

/// Network failures that are none of the above are transient, exit code 1.
pub proof fn law_network_is_transient(lower: Seq<char>)
    requires
        !says_missing(lower),
        !says_unconfigured(lower),
        !says_rate_limited(lower),
        says_transient(lower),
    ensures
        classify_kind(lower) == ErrorKind::Transient,
        exit_code_of(classify_kind(lower)) == 1,
{
}

} // verus!
