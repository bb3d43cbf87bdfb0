//! Desktop notifications and where local files live.
use vstd::prelude::*;

use crate::helpers;
use crate::text;

verus! {

/// A string made safe inside an AppleScript string literal: backslashes
/// doubled first, then quotes escaped.
pub open spec fn applescript_quoted(s: Seq<char>) -> Seq<char> {
    text::replace_all(text::replace_all(s, "\\"@, "\\\\"@), "\""@, "\\\""@)
}

/// The `osascript -e` program that shows a notification with the Glass sound.
pub fn applescript_notification(title: &str, body: &str) -> (res: String)
    ensures
        res@ == "display notification \""@ + applescript_quoted(body@) + "\" with title \""@
            + applescript_quoted(title@) + "\" sound name \"Glass\""@,
{
    let b1 = text::replace_str(body, "\\", "\\\\");
    let b = text::replace_str(b1.as_str(), "\"", "\\\"");
    let t1 = text::replace_str(title, "\\", "\\\\");
    let t = text::replace_str(t1.as_str(), "\"", "\\\"");
    let mut out = text::copy_str("display notification \"");
    text::push_str(&mut out, b.as_str());
    text::push_str(&mut out, "\" with title \"");
    text::push_str(&mut out, t.as_str());
    text::push_str(&mut out, "\" sound name \"Glass\"");
    out
}

/// Where the notification helper is looked for, in order: next to the
/// running binary, then under the data directory; the last entry is the
/// fixed fallback, used when neither exists.
pub fn helper_candidates(exe_dir: Option<&str>, data_dir: Option<&str>) -> (res: Vec<String>)
    ensures
        text::views(res@) == (match exe_dir {
            Some(d) => seq![helpers::path_join(d@, "EmailCLI.app/Contents/MacOS/email-cli-notify"@)],
            None => Seq::<Seq<char>>::empty(),
        }) + seq![
            helpers::path_join(
                match data_dir {
                    Some(d) => d@,
                    None => "."@,
                },
                "email-cli/EmailCLI.app/Contents/MacOS/email-cli-notify"@,
            ),
            "/usr/local/lib/email-cli/EmailCLI.app/Contents/MacOS/email-cli-notify"@,
        ],
{
    let mut out: Vec<String> = Vec::new();
    match exe_dir {
        Some(d) => out.push(helpers::join_path(d, "EmailCLI.app/Contents/MacOS/email-cli-notify")),
        None => {},
    }
    let ghost first = text::views(out@);
    let base = match data_dir {
        Some(d) => d,
        None => ".",
    };
    out.push(helpers::join_path(base, "email-cli/EmailCLI.app/Contents/MacOS/email-cli-notify"));
    out.push(text::copy_str("/usr/local/lib/email-cli/EmailCLI.app/Contents/MacOS/email-cli-notify"));
    proof {
        assert(text::views(out@) =~= first + seq![
            helpers::path_join(
                match data_dir {
                    Some(d) => d@,
                    None => "."@,
                },
                "email-cli/EmailCLI.app/Contents/MacOS/email-cli-notify"@,
            ),
            "/usr/local/lib/email-cli/EmailCLI.app/Contents/MacOS/email-cli-notify"@,
        ]);
    }
    out
}

/// `<base>/email-cli/email-cli.db`, where `base` is the data directory (or
/// the working directory when there is none).
pub fn default_db_path(base: &str) -> (res: String)
    ensures
        res@ == helpers::path_join(helpers::path_join(base@, "email-cli"@), "email-cli.db"@),
{
    let dir = helpers::join_path(base, "email-cli");
    helpers::join_path(dir.as_str(), "email-cli.db")
}

/// `<base>/draft-attachments/<draft id>`, the snapshot directory of a draft.
pub fn draft_snapshot_dir(base: &str, draft_id: &str) -> (res: String)
    ensures
        res@ == helpers::path_join(helpers::path_join(base@, "draft-attachments"@), draft_id@),
{
    let root = helpers::draft_attachment_root(base);
    helpers::join_path(root.as_str(), draft_id)
}

/// The name a snapshot copy is saved under: the source's file name, or
/// `attachment.bin`.
pub fn snapshot_name(source: &str) -> (res: String)
    ensures
        res@ == match helpers::file_name(source@) {
            Some(n) => n,
            None => "attachment.bin"@,
        },
{
    match helpers::path_file_name(source) {
        Some(n) => n,
        None => text::copy_str("attachment.bin"),
    }
}

} // verus!
