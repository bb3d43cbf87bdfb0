//! Attachment files on disk: the names tried when saving without
//! overwriting, which stored attachments a prefetch downloads, and where an
//! exported copy goes.
use vstd::prelude::*;

use crate::helpers;
use crate::text;

verus! {

/// Splits a file name at its last `.` the way `Path::file_stem` and
/// `Path::extension` do: no dot, or only a leading dot, means no extension.
pub open spec fn stem_and_extension(name: Seq<char>) -> (Seq<char>, Option<Seq<char>>) {
    match text::rfind_char(name, '.') {
        Some(i) => if i == 0 {
            (name, None)
        } else {
            (name.take(i), Some(name.skip(i + 1)))
        },
        None => (name, None),
    }
}

/// The `index`-th name tried for `safe_name`: the name itself first, then
/// `stem-1.ext`, `stem-2.ext`, ...
pub open spec fn candidate_name(safe_name: Seq<char>, index: nat) -> Seq<char> {
    if index == 0 {
        safe_name
    } else {
        let (stem, ext) = match helpers::file_name(safe_name) {
            Some(n) => stem_and_extension(n),
            None => ("attachment"@, None),
        };
        stem + "-"@ + text::digits(index) + match ext {
            Some(e) => "."@ + e,
            None => Seq::empty(),
        }
    }
}

pub fn candidate_file_name(safe_name: &str, index: u64) -> (res: String)
    ensures
        res@ == candidate_name(safe_name@, index as nat),
{
    if index == 0 {
        return text::copy_str(safe_name);
    }
    let (stem, ext) = match helpers::path_file_name(safe_name) {
        Some(n) => {
            let v = text::chars_of(n.as_str());
            match text::rfind_in(&v, '.') {
                Some(i) => if i == 0 {
                    (n, None)
                } else {
                    let s = text::string_from(&v, 0, i);
                    let e = text::string_from(&v, i + 1, v.len());
                    proof {
                        assert(v@.subrange(0, i as int) =~= n@.take(i as int));
                        assert(v@.subrange(i + 1, v.len() as int) =~= n@.skip(i + 1));
                    }
                    (s, Some(e))
                },
                None => (n, None),
            }
        },
        None => (text::copy_str("attachment"), None),
    };
    let mut out = stem;
    text::push_str(&mut out, "-");
    text::push_u64(&mut out, index);
    match ext {
        Some(e) => {
            text::push_str(&mut out, ".");
            text::push_str(&mut out, e.as_str());
        },
        None => {},
    }
    out
}

/// How many names are tried before giving up.
pub const MAX_NAME_ATTEMPTS: u64 = 1000;

/// "failed to allocate a safe filename for {name}", once every candidate exists.
pub fn no_free_name(safe_name: &str) -> (res: String)
    ensures
        res@ == "failed to allocate a safe filename for "@ + safe_name@,
{
    let mut m = text::copy_str("failed to allocate a safe filename for ");
    text::push_str(&mut m, safe_name);
    m
}

/// The name an attachment is saved under: its own file name, else
/// `attachment-<id>`.
pub fn preferred_filename(filename: &Option<String>, id: &str) -> (res: String)
    ensures
        res@ == match filename {
            Some(f) => f@,
            None => "attachment-"@ + id@,
        },
{
    match filename {
        Some(f) => text::copy_str(f.as_str()),
        None => {
            let mut m = text::copy_str("attachment-");
            text::push_str(&mut m, id);
            m
        },
    }
}

/// A prefetch downloads the stored attachments that have no local copy yet
/// and do have a download link.
pub fn needs_download(local_path: &Option<String>, download_url: &Option<String>) -> (res: bool)
    ensures
        res == (local_path is None && download_url is Some),
{
    local_path.is_none() && download_url.is_some()
}

/// What became of one step of a prefetch: an attachment saved, a failure
/// (an account, listing, download or write that did not work), or an
/// attachment that needed nothing.
#[derive(Clone, Copy, Debug)]
pub enum PrefetchOutcome {
    Downloaded,
    Failed,
    Skipped,
}

/// The running counts of a prefetch, which goes on past failures.
#[derive(Clone, Copy, Debug)]
pub struct PrefetchTally {
    pub downloaded: u64,
    pub errors: u64,
}

/// `n + 1`, held at `u64::MAX`.
pub open spec fn bumped(n: u64) -> u64 {
    if n == u64::MAX {
        n
    } else {
        (n + 1) as u64
    }
}

/// The counts after one more step.
pub open spec fn tallied(t: PrefetchTally, o: PrefetchOutcome) -> PrefetchTally {
    match o {
        PrefetchOutcome::Downloaded => PrefetchTally { downloaded: bumped(t.downloaded), errors: t.errors },
        PrefetchOutcome::Failed => PrefetchTally { downloaded: t.downloaded, errors: bumped(t.errors) },
        PrefetchOutcome::Skipped => t,
    }
}

impl PrefetchTally {
    /// Nothing counted yet.
    pub fn new() -> (res: PrefetchTally)
        ensures
            res.downloaded == 0 && res.errors == 0,
    {
        PrefetchTally { downloaded: 0, errors: 0 }
    }

    /// Counts one step: a save or a failure adds one to its count (held at
    /// the largest value), a skipped attachment changes nothing.
    pub fn record(&mut self, outcome: PrefetchOutcome)
        ensures
            *final(self) == tallied(*old(self), outcome),
    {
        match outcome {
            PrefetchOutcome::Downloaded => {
                if self.downloaded < u64::MAX {
                    self.downloaded = self.downloaded + 1;
                }
            },
            PrefetchOutcome::Failed => {
                if self.errors < u64::MAX {
                    self.errors = self.errors + 1;
                }
            },
            PrefetchOutcome::Skipped => {},
        }
    }
}

/// The prefetch report.
pub fn prefetch_summary(downloaded: u64, errors: u64) -> (res: String)
    ensures
        downloaded == 0 && errors == 0 ==> res@ == "no attachments to prefetch"@,
        !(downloaded == 0 && errors == 0) ==> res@ == "prefetched "@ + text::digits(downloaded as nat)
            + " attachment(s); "@ + text::digits(errors as nat) + " error(s)"@,
{
    if downloaded == 0 && errors == 0 {
        return text::copy_str("no attachments to prefetch");
    }
    let mut m = text::copy_str("prefetched ");
    text::push_u64(&mut m, downloaded);
    text::push_str(&mut m, " attachment(s); ");
    text::push_u64(&mut m, errors);
    text::push_str(&mut m, " error(s)");
    m
}

/// The directory an export is written to: `--output-dir`, else the older
/// `--output`, else the default.
pub fn export_dir(output_dir: &Option<String>, output: &Option<String>, default_dir: &str) -> (res: String)
    ensures
        res@ == match output_dir {
            Some(d) => d@,
            None => match output {
                Some(o) => o@,
                None => default_dir@,
            },
        },
{
    match output_dir {
        Some(d) => text::copy_str(d.as_str()),
        None => match output {
            Some(o) => text::copy_str(o.as_str()),
            None => text::copy_str(default_dir),
        },
    }
}

/// Where a message's attachment list is fetched from.
#[derive(Clone, Copy, Debug, PartialEq, Eq)]
pub enum AttachmentSource {
    Received,
    Sent,
}

pub open spec fn source_of(direction: Seq<char>) -> Option<AttachmentSource> {
    if direction == "received"@ {
        Some(AttachmentSource::Received)
    } else if direction == "sent"@ {
        Some(AttachmentSource::Sent)
    } else {
        None
    }
}

pub fn attachment_source(direction: &str) -> (res: Result<AttachmentSource, String>)
    ensures
        match source_of(direction@) {
            Some(s) => res matches Ok(r) && r == s,
            None => res matches Err(m) && m@ == "attachments are not supported for "@ + direction@
                + " messages"@,
        },
{
    proof {
        reveal_strlit("received");
        reveal_strlit("sent");
    }
    if text::seq_eq(direction, "received") {
        return Ok(AttachmentSource::Received);
    }
    if text::seq_eq(direction, "sent") {
        return Ok(AttachmentSource::Sent);
    }
    let mut m = text::copy_str("attachments are not supported for ");
    text::push_str(&mut m, direction);
    text::push_str(&mut m, " messages");
    Err(m)
}

/// "attachment {id} not found" and "attachment {id} has no download url".
pub fn attachment_not_found(id: &str) -> (res: String)
    ensures
        res@ == "attachment "@ + id@ + " not found"@,
{
    let mut m = text::copy_str("attachment ");
    text::push_str(&mut m, id);
    text::push_str(&mut m, " not found");
    m
}

pub fn no_download_url(id: &str) -> (res: String)
    ensures
        res@ == "attachment "@ + id@ + " has no download url"@,
{
    let mut m = text::copy_str("attachment ");
    text::push_str(&mut m, id);
    text::push_str(&mut m, " has no download url");
    m
}

} // verus!
