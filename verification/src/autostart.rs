//! The login item that starts the menu-bar daemon on macOS: its launchd
//! property list, where it and its log live, and the `launchctl` targets.
//! Other platforms refuse with "autostart is macOS-only".
use vstd::prelude::*;

use crate::helpers;
use crate::text;

verus! {

/// The launchd label of the daemon.
pub const LABEL: &'static str = "ai.paperfoot.email-cli.daemon";

pub open spec fn label() -> Seq<char> {
    "ai.paperfoot.email-cli.daemon"@
}

pub open spec fn xml_escaped(s: Seq<char>) -> Seq<char> {
    text::replace_all(text::replace_all(text::replace_all(s, "&"@, "&amp;"@), "<"@, "&lt;"@), ">"@, "&gt;"@)
}

/// `&`, `<` and `>` as XML entities (ampersands first, so the entities
/// themselves are not escaped again).
pub fn xml_escape(s: &str) -> (res: String)
    ensures
        res@ == xml_escaped(s@),
{
    let a = text::replace_str(s, "&", "&amp;");
    let b = text::replace_str(a.as_str(), "<", "&lt;");
    text::replace_str(b.as_str(), ">", "&gt;")
}

/// The `ProgramArguments` entries: the binary, `daemon`, the account when
/// given, and the interval.
pub open spec fn plist_args(binary: Seq<char>, account: Option<Seq<char>>, interval: u64) -> Seq<char> {
    "        <string>"@ + xml_escaped(binary) + "</string>\n        <string>daemon</string>\n"@
        + match account {
        Some(a) => "        <string>--account</string>\n        <string>"@ + xml_escaped(a)
            + "</string>\n"@,
        None => Seq::empty(),
    } + "        <string>--interval</string>\n        <string>"@ + text::digits(interval as nat)
        + "</string>\n"@
}

pub open spec fn plist_head() -> Seq<char> {
    "<?xml version=\"1.0\" encoding=\"UTF-8\"?>\n<!DOCTYPE plist PUBLIC \"-//Apple//DTD PLIST 1.0//EN\" \"http://www.apple.com/DTDs/PropertyList-1.0.dtd\">\n<plist version=\"1.0\">\n<dict>\n    <key>Label</key>\n    <string>ai.paperfoot.email-cli.daemon</string>\n    <key>ProgramArguments</key>\n    <array>\n"@
}

pub open spec fn plist_middle() -> Seq<char> {
    "    </array>\n    <key>RunAtLoad</key>\n    <true/>\n    <key>KeepAlive</key>\n    <dict>\n        <key>SuccessfulExit</key>\n        <false/>\n    </dict>\n    <key>StandardOutPath</key>\n    <string>"@
}

pub open spec fn plist_text(binary: Seq<char>, account: Option<Seq<char>>, interval: u64, log: Seq<char>) -> Seq<char> {
    plist_head() + plist_args(binary, account, interval) + plist_middle() + xml_escaped(log)
        + "</string>\n    <key>StandardErrorPath</key>\n    <string>"@ + xml_escaped(log)
        + "</string>\n</dict>\n</plist>\n"@
}

/// The LaunchAgent property list that runs `binary daemon` at login, keeps
/// it alive after a failure, and sends its output to `log_path`.
pub fn render_plist(binary: &str, account: Option<&str>, interval: u64, log_path: &str) -> (res: String)
    ensures
        res@ == plist_text(binary@, text::opt_str_view(account), interval, log_path@),
{
    let mut out = text::copy_str(
        "<?xml version=\"1.0\" encoding=\"UTF-8\"?>\n<!DOCTYPE plist PUBLIC \"-//Apple//DTD PLIST 1.0//EN\" \"http://www.apple.com/DTDs/PropertyList-1.0.dtd\">\n<plist version=\"1.0\">\n<dict>\n    <key>Label</key>\n    <string>ai.paperfoot.email-cli.daemon</string>\n    <key>ProgramArguments</key>\n    <array>\n",
    );
    let ghost start = out@;
    text::push_str(&mut out, "        <string>");
    let b = xml_escape(binary);
    text::push_str(&mut out, b.as_str());
    text::push_str(&mut out, "</string>\n        <string>daemon</string>\n");
    match account {
        Some(a) => {
            text::push_str(&mut out, "        <string>--account</string>\n        <string>");
            let e = xml_escape(a);
            text::push_str(&mut out, e.as_str());
            text::push_str(&mut out, "</string>\n");
        },
        None => {},
    }
    text::push_str(&mut out, "        <string>--interval</string>\n        <string>");
    text::push_u64(&mut out, interval);
    text::push_str(&mut out, "</string>\n");
    proof {
        assert(out@ =~= start + plist_args(binary@, text::opt_str_view(account), interval));
    }
    text::push_str(
        &mut out,
        "    </array>\n    <key>RunAtLoad</key>\n    <true/>\n    <key>KeepAlive</key>\n    <dict>\n        <key>SuccessfulExit</key>\n        <false/>\n    </dict>\n    <key>StandardOutPath</key>\n    <string>",
    );
    let log = xml_escape(log_path);
    text::push_str(&mut out, log.as_str());
    text::push_str(&mut out, "</string>\n    <key>StandardErrorPath</key>\n    <string>");
    text::push_str(&mut out, log.as_str());
    text::push_str(&mut out, "</string>\n</dict>\n</plist>\n");
    out
}

/// `~/Library/LaunchAgents/<label>.plist`.
pub fn plist_path(home: &str) -> (res: String)
    ensures
        res@ == helpers::path_join(helpers::path_join(home@, "Library/LaunchAgents"@), label() + ".plist"@),
{
    let dir = helpers::join_path(home, "Library/LaunchAgents");
    let mut name = text::copy_str(LABEL);
    proof {
        reveal_strlit("ai.paperfoot.email-cli.daemon");
    }
    text::push_str(&mut name, ".plist");
    helpers::join_path(dir.as_str(), name.as_str())
}

/// `~/Library/Logs/email-cli/daemon.log`, a per-user log location.
pub fn log_path(home: &str) -> (res: String)
    ensures
        res@ == helpers::path_join(home@, "Library/Logs/email-cli/daemon.log"@),
{
    helpers::join_path(home, "Library/Logs/email-cli/daemon.log")
}

/// `gui/<uid>`, the launchd domain of the login session.
pub fn gui_domain(uid: u32) -> (res: String)
    ensures
        res@ == "gui/"@ + text::digits(uid as nat),
{
    let mut d = text::copy_str("gui/");
    text::push_u64(&mut d, uid as u64);
    d
}

/// `gui/<uid>/<label>`, the service `launchctl` boots out and kicks.
pub fn service_target(uid: u32) -> (res: String)
    ensures
        res@ == "gui/"@ + text::digits(uid as nat) + "/"@ + label(),
{
    let mut t = gui_domain(uid);
    text::push_str(&mut t, "/");
    proof {
        reveal_strlit("ai.paperfoot.email-cli.daemon");
    }
    text::push_str(&mut t, LABEL);
    t
}

/// A binary inside an app bundle is replaced on update, which breaks the
/// path written into the LaunchAgent; the install warns about it.
pub open spec fn inside_bundle(binary: Seq<char>) -> bool {
    text::contains(binary, "/Contents/MacOS/"@) || text::contains(binary, ".app/"@)
}

pub fn bundle_warning(binary: &str) -> (res: Option<String>)
    ensures
        inside_bundle(binary@) ==> (res matches Some(w) && w@ == "email-cli is running from inside an app bundle ("@
            + binary@
            + "); the LaunchAgent path will break when the app is updated or moved. Re-run `email-cli autostart install` after each update, or install a standalone email-cli outside the bundle and run autostart from that."@),
        !inside_bundle(binary@) ==> res is None,
{
    if text::str_contains(binary, "/Contents/MacOS/") || text::str_contains(binary, ".app/") {
        let mut w = text::copy_str("email-cli is running from inside an app bundle (");
        text::push_str(&mut w, binary);
        text::push_str(
            &mut w,
            "); the LaunchAgent path will break when the app is updated or moved. Re-run `email-cli autostart install` after each update, or install a standalone email-cli outside the bundle and run autostart from that.",
        );
        Some(w)
    } else {
        None
    }
}

/// The state shown by `autostart status`.
pub fn status_label(installed: bool, loaded: bool) -> (res: &'static str)
    ensures
        res@ == (if installed && loaded {
            "installed and loaded"@
        } else if installed {
            "installed but not loaded"@
        } else {
            "not installed"@
        }),
{
    if installed && loaded {
        "installed and loaded"
    } else if installed {
        "installed but not loaded"
    } else {
        "not installed"
    }
}

/// "launchctl {args} failed: {stderr}" for a failed `launchctl` call.
pub fn launchctl_error(args: &[String], stderr: &str) -> (res: String)
    ensures
        res@ == "launchctl "@ + text::join(text::views(args@), " "@) + " failed: "@ + stderr@,
{
    let mut m = text::copy_str("launchctl ");
    let joined = text::join_strings(args, " ");
    text::push_str(&mut m, joined.as_str());
    text::push_str(&mut m, " failed: ");
    text::push_str(&mut m, stderr);
    m
}

} // verus!
