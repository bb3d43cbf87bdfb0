//! Retry policy for calls to the Resend API, and the text of its failures.
//!
//! The request loop itself lives with the HTTP client; after each attempt it
//! asks `next_step` what to do, and sleeps for the delay it is given.
use vstd::prelude::*;

use crate::num;
use crate::text;

verus! {

/// How many times a request is tried before giving up.
pub const MAX_ATTEMPTS: usize = 5;

/// A pause before the next attempt.
#[derive(Clone, Copy, Debug, PartialEq, Eq)]
pub enum Delay {
    Seconds(u64),
    Millis(u64),
}

/// Linear backoff in milliseconds: 700 × (attempt + 1), saturating.
pub open spec fn backoff_millis(attempt: int) -> u64 {
    if 700 * (attempt + 1) > u64::MAX {
        u64::MAX
    } else {
        (700 * (attempt + 1)) as u64
    }
}

/// The backoff after failed attempt number `attempt` (counted from zero),
/// in milliseconds.
pub fn backoff(attempt: usize) -> (res: u64)
    requires
        attempt < u64::MAX,
    ensures
        res == backoff_millis(attempt as int),
{
    let n: u64 = (attempt as u64) + 1;
    match 700u64.checked_mul(n) {
        Some(m) => m,
        None => u64::MAX,
    }
}

/// The wait after a rate-limited response: the `Retry-After` header read as
/// whole seconds when it parses as a `u64`, else the backoff.
pub open spec fn retry_delay_spec(retry_after: Option<Seq<char>>, attempt: int) -> Delay {
    match retry_after {
        Some(v) => match num::parse_int(v, 0, u64::MAX as int) {
            Ok(secs) => Delay::Seconds(secs as u64),
            Err(_) => Delay::Millis(backoff_millis(attempt)),
        },
        None => Delay::Millis(backoff_millis(attempt)),
    }
}

/// `retry_after` is the header's value when it is present and visible ASCII.
pub fn retry_delay(retry_after: Option<&str>, attempt: usize) -> (res: Delay)
    requires
        attempt < u64::MAX,
    ensures
        res == retry_delay_spec(
            match retry_after {
                Some(v) => Some(v@),
                None => None,
            },
            attempt as int,
        ),
{
    match retry_after {
        Some(v) => match num::parse_u64(v) {
            Ok(secs) => Delay::Seconds(secs),
            Err(_) => Delay::Millis(backoff(attempt)),
        },
        None => Delay::Millis(backoff(attempt)),
    }
}

/// What one attempt came back with.
#[derive(Clone, Debug)]
pub enum Outcome {
    /// The request was not answered; `retryable` when it timed out, could not
    /// connect, or failed while being built or sent.
    Failed { retryable: bool },
    /// An HTTP response with this status and `Retry-After` value.
    Answered { status: u16, retry_after: Option<String> },
}

/// What the request loop does next.
#[derive(Clone, Copy, Debug, PartialEq, Eq)]
pub enum Step {
    /// Sleep, then try again.
    Wait(Delay),
    /// Report the transport failure.
    Fail,
    /// Read the response: success or an API error.
    Decode,
    /// Out of attempts: report that the API kept rate limiting.
    GiveUp,
}

/// The step after attempt `attempt` (counted from zero) came back with
/// `outcome`. A wait after the last attempt becomes giving up.
pub open spec fn next_step_spec(attempt: int, outcome: Outcome) -> Step {
    let step = match outcome {
        Outcome::Failed { retryable } => if retryable {
            Step::Wait(Delay::Millis(backoff_millis(attempt)))
        } else {
            Step::Fail
        },
        Outcome::Answered { status, retry_after } => if status == 429 {
            Step::Wait(retry_delay_spec(text::opt_view(retry_after), attempt))
        } else if 500 <= status <= 599 {
            Step::Wait(Delay::Millis(backoff_millis(attempt)))
        } else {
            Step::Decode
        },
    };
    if step is Wait && attempt + 1 >= MAX_ATTEMPTS {
        Step::GiveUp
    } else {
        step
    }
}

pub fn next_step(attempt: usize, outcome: &Outcome) -> (res: Step)
    requires
        attempt < MAX_ATTEMPTS,
    ensures
        res == next_step_spec(attempt as int, *outcome),
{
    let step = match outcome {
        Outcome::Failed { retryable } => if *retryable {
            Step::Wait(Delay::Millis(backoff(attempt)))
        } else {
            Step::Fail
        },
        Outcome::Answered { status, retry_after } => if *status == 429 {
            let ra: Option<&str> = match retry_after {
                Some(s) => Some(s.as_str()),
                None => None,
            };
            Step::Wait(retry_delay(ra, attempt))
        } else if 500 <= *status && *status <= 599 {
            Step::Wait(Delay::Millis(backoff(attempt)))
        } else {
            Step::Decode
        },
    };
    let waits = match step {
        Step::Wait(_) => true,
        _ => false,
    };
    if waits && attempt + 1 >= MAX_ATTEMPTS {
        Step::GiveUp
    } else {
        step
    }
}

/// Every outcome is settled within `MAX_ATTEMPTS` attempts: the last one
/// never asks to wait.
pub proof fn law_last_attempt_never_waits(outcome: Outcome)
    ensures
        !(next_step_spec(MAX_ATTEMPTS - 1, outcome) is Wait),
{
}

/// A response that is neither rate limited nor a server error is always read,
/// on whichever attempt it arrives.
pub proof fn law_final_answers_are_decoded(attempt: int, status: u16, retry_after: Option<String>)
    requires
        0 <= attempt < MAX_ATTEMPTS,
        status != 429,
        !(500 <= status <= 599),
    ensures
        next_step_spec(attempt, Outcome::Answered { status, retry_after }) == Step::Decode,
{
}

/// The string at key `message` of the JSON document `serde_json` parses from
/// `body`, when the document parses and holds a string there.
pub uninterp spec fn json_message_field(body: Seq<char>) -> Option<Seq<char>>;

/// Parses `body` with `serde_json::from_str::<Value>` and reads the string
/// at `message`. The result is named by `json_message_field`; nothing about
/// JSON syntax is claimed.
#[verifier::external_body]
fn json_message(body: &str) -> (res: Option<String>)
    ensures
        text::opt_view(res) == json_message_field(body@),
{
    serde_json::from_str::<serde_json::Value>(body).ok().and_then(
        |value| value.get("message").and_then(|m| m.as_str()).map(|m| m.to_string()),
    )
}

/// The error text of a failed response: the `message` string of its JSON
/// body when there is one, else the body as it is.
pub open spec fn error_text_from(body: Seq<char>, field: Option<Seq<char>>) -> Seq<char> {
    match field {
        Some(m) => m,
        None => body,
    }
}

/// Chooses the error text once the body's `message` field has been read.
pub fn error_message_from(body: &str, field: Option<String>) -> (res: String)
    ensures
        res@ == error_text_from(body@, text::opt_view(field)),
{
    match field {
        Some(m) => m,
        None => text::copy_str(body),
    }
}

pub fn extract_error_message(body: &str) -> (res: String)
    ensures
        res@ == error_text_from(body@, json_message_field(body@)),
{
    let field = json_message(body);
    error_message_from(body, field)
}

/// "Resend API {status}: {message}", the text of a non-success API response.
pub fn api_error_message(status: &str, body: &str) -> (res: String)
    ensures
        res@ == "Resend API "@ + status@ + ": "@ + error_text_from(body@, json_message_field(body@)),
{
    let mut out = text::copy_str("Resend API ");
    text::push_str(&mut out, status);
    text::push_str(&mut out, ": ");
    let m = extract_error_message(body);
    text::push_str(&mut out, m.as_str());
    out
}

/// "download failed {status}: {message}", the text of a failed download.
pub fn download_error_message(status: &str, body: &str) -> (res: String)
    ensures
        res@ == "download failed "@ + status@ + ": "@ + error_text_from(
            body@,
            json_message_field(body@),
        ),
{
    let mut out = text::copy_str("download failed ");
    text::push_str(&mut out, status);
    text::push_str(&mut out, ": ");
    let m = extract_error_message(body);
    text::push_str(&mut out, m.as_str());
    out
}

/// "Resend API kept rate limiting for {path}", when every attempt waited.
pub fn gave_up_message(path: &str) -> (res: String)
    ensures
        res@ == "Resend API kept rate limiting for "@ + path@,
{
    let mut out = text::copy_str("Resend API kept rate limiting for ");
    text::push_str(&mut out, path);
    out
}

/// The pause between lookups of a just-sent email's details, in
/// milliseconds: 300 × (attempt + 1).
pub fn detail_retry_millis(attempt: u64) -> (res: u64)
    requires
        attempt < 3,
    ensures
        res == 300 * (attempt + 1),
{
    300 * (attempt + 1)
}

} // verus!
