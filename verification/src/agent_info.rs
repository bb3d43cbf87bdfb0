//! The capability manifest that `agent-info` prints: what an agent needs to
//! drive the CLI (commands, global flags, exit codes) in one document.
use vstd::prelude::*;

use crate::error::{self, ErrorKind};
use crate::helpers;
use crate::text;

verus! {

/// The manifest's content; the binary renders it as JSON.
pub struct AgentManifest {
    pub name: &'static str,
    pub description: &'static str,
    /// Typical sequences of commands, by task.
    pub workflow: Vec<(&'static str, &'static str)>,
    /// Each top-level command with what it covers.
    pub commands: Vec<(&'static str, &'static str)>,
    /// Flags accepted by every command.
    pub flags: Vec<(&'static str, &'static str)>,
    /// Each failure exit code with the name of its error kind.
    pub exit_codes: Vec<(i32, &'static str)>,
    pub env_prefix: &'static str,
}

/// The texts of a list of text pairs.
pub open spec fn pair_views(v: Seq<(&'static str, &'static str)>) -> Seq<(Seq<char>, Seq<char>)> {
    v.map_values(|p: (&'static str, &'static str)| (p.0@, p.1@))
}

/// The codes and kind names of an exit-code table.
pub open spec fn code_views(v: Seq<(i32, &'static str)>) -> Seq<(i32, Seq<char>)> {
    v.map_values(|p: (i32, &'static str)| (p.0, p.1@))
}

/// The error kind an exit-code table entry names.
pub open spec fn kind_named(name: Seq<char>) -> ErrorKind {
    if name == "transient"@ {
        ErrorKind::Transient
    } else if name == "config"@ {
        ErrorKind::ConfigError
    } else if name == "bad_input"@ {
        ErrorKind::InvalidInput
    } else if name == "rate_limited"@ {
        ErrorKind::RateLimited
    } else {
        ErrorKind::Internal
    }
}

/// The failure exit codes, each with its kind.
pub open spec fn manifest_exit_codes() -> Seq<(i32, Seq<char>)> {
    seq![(1i32, "transient"@), (2i32, "config"@), (3i32, "bad_input"@), (4i32, "rate_limited"@)]
}

/// The top-level commands the CLI accepts, with what each covers.
pub open spec fn manifest_commands() -> Seq<(Seq<char>, Seq<char>)> {
    seq![
        ("profile"@, "add | list | test | remove: Resend API key profiles"@),
        ("account"@, "add | list | use | edit | remove: sending accounts"@),
        ("signature"@, "set | show: per-account signatures"@),
        ("send"@, "send email (--to, --subject, --text/--html, --cc, --bcc, --attach, --reply-to-msg)"@),
        ("reply"@, "reply to a stored message (--all for reply all)"@),
        ("forward"@, "forward a stored message (--to, --text for a preamble)"@),
        ("daemon"@, "menu-bar daemon that syncs on a timer and notifies (macOS only)"@),
        ("autostart"@, "install | uninstall | status: the LaunchAgent that starts the daemon at login (macOS only)"@),
        ("draft"@, "create | list | show | edit | send | delete: local drafts"@),
        ("sync"@, "fetch new messages from Resend into the local database (--account, --limit, --watch, --notify)"@),
        ("inbox"@, "list | read | mark | search | delete | archive | unarchive | thread | purge | stats | star | snooze | unsubscribe | sync"@),
        ("attachments"@, "list | get | prefetch: message attachments"@),
        ("domain"@, "list | get | create | verify | delete | update: sending domains"@),
        ("contact"@, "list | get | create | update | delete: contacts"@),
        ("batch"@, "send --file <path>: send the emails of a JSON array in one request"@),
        ("api-key"@, "list | create | delete: Resend API keys"@),
        ("outbox"@, "list | retry | flush: the durable queue of sends"@),
        ("webhook"@, "listen: receive Resend webhook events"@),
        ("events"@, "list: delivery events received by webhook listen (--message, --limit)"@),
        ("email"@, "list: sent emails as Resend lists them (--limit, --after)"@),
        ("broadcast"@, "list | get | create | update | send | delete: broadcasts"@),
        ("contact-property"@, "list | get | create | update | delete: typed contact fields"@),
        ("topic"@, "list | get | create | update | delete and contact subscriptions"@),
        ("segment"@, "list | get | create | delete and contact membership"@),
        ("update"@, "check GitHub releases for a newer version (--check)"@),
        ("log"@, "the command audit trail (--limit)"@),
        ("agent-info"@, "this manifest"@),
        ("skill"@, "install | status: the agent skill file"@),
        ("completions"@, "<shell>: shell completions (bash, zsh, fish, elvish, powershell)"@),
    ]
}

/// The flags every command accepts.
pub open spec fn manifest_flags() -> Seq<(Seq<char>, Seq<char>)> {
    seq![
        ("--json"@, "force JSON output (on by default when piped)"@),
        ("--db <path>"@, "custom database path"@),
    ]
}

/// The usual sequences of commands.
pub open spec fn manifest_workflow() -> Seq<(Seq<char>, Seq<char>)> {
    seq![
        ("setup"@, "profile add <name> --api-key <key> → account add <email> --profile <name>"@),
        ("check_email"@, "sync [--account <email>] → inbox list [--account <email>]"@),
        ("send_email"@, "send --to <addr> --subject <subj> --text <body> [--account <from>]"@),
        ("note"@, "inbox list reads from the local database; run sync first to fetch new messages"@),
    ]
}

/// The manifest: every command the CLI accepts, its global flags, and the
/// failure exit codes with the kind of error each one reports.
pub fn agent_manifest() -> (res: AgentManifest)
    ensures
        res.name@ == "email-cli"@,
        res.description@ == "Agent-friendly email CLI for Resend"@,
        res.env_prefix@ == "EMAIL_CLI_"@,
        code_views(res.exit_codes@) == manifest_exit_codes(),
        forall|i: int|
            0 <= i < res.exit_codes@.len() ==> (#[trigger] res.exit_codes@[i]).0 == error::exit_code_of(
                kind_named(res.exit_codes@[i].1@),
            ),
        pair_views(res.commands@) == manifest_commands(),
        pair_views(res.flags@) == manifest_flags(),
        pair_views(res.workflow@) == manifest_workflow(),
{
    let workflow = vec![
        ("setup", "profile add <name> --api-key <key> → account add <email> --profile <name>"),
        ("check_email", "sync [--account <email>] → inbox list [--account <email>]"),
        ("send_email", "send --to <addr> --subject <subj> --text <body> [--account <from>]"),
        ("note", "inbox list reads from the local database; run sync first to fetch new messages"),
    ];
    let commands = vec![
        ("profile", "add | list | test | remove: Resend API key profiles"),
        ("account", "add | list | use | edit | remove: sending accounts"),
        ("signature", "set | show: per-account signatures"),
        ("send", "send email (--to, --subject, --text/--html, --cc, --bcc, --attach, --reply-to-msg)"),
        ("reply", "reply to a stored message (--all for reply all)"),
        ("forward", "forward a stored message (--to, --text for a preamble)"),
        ("daemon", "menu-bar daemon that syncs on a timer and notifies (macOS only)"),
        ("autostart", "install | uninstall | status: the LaunchAgent that starts the daemon at login (macOS only)"),
        ("draft", "create | list | show | edit | send | delete: local drafts"),
        ("sync", "fetch new messages from Resend into the local database (--account, --limit, --watch, --notify)"),
        ("inbox", "list | read | mark | search | delete | archive | unarchive | thread | purge | stats | star | snooze | unsubscribe | sync"),
        ("attachments", "list | get | prefetch: message attachments"),
        ("domain", "list | get | create | verify | delete | update: sending domains"),
        ("contact", "list | get | create | update | delete: contacts"),
        ("batch", "send --file <path>: send the emails of a JSON array in one request"),
        ("api-key", "list | create | delete: Resend API keys"),
        ("outbox", "list | retry | flush: the durable queue of sends"),
        ("webhook", "listen: receive Resend webhook events"),
        ("events", "list: delivery events received by webhook listen (--message, --limit)"),
        ("email", "list: sent emails as Resend lists them (--limit, --after)"),
        ("broadcast", "list | get | create | update | send | delete: broadcasts"),
        ("contact-property", "list | get | create | update | delete: typed contact fields"),
        ("topic", "list | get | create | update | delete and contact subscriptions"),
        ("segment", "list | get | create | delete and contact membership"),
        ("update", "check GitHub releases for a newer version (--check)"),
        ("log", "the command audit trail (--limit)"),
        ("agent-info", "this manifest"),
        ("skill", "install | status: the agent skill file"),
        ("completions", "<shell>: shell completions (bash, zsh, fish, elvish, powershell)"),
    ];
    let flags = vec![
        ("--json", "force JSON output (on by default when piped)"),
        ("--db <path>", "custom database path"),
    ];
    let exit_codes = vec![(1i32, "transient"), (2i32, "config"), (3i32, "bad_input"), (4i32, "rate_limited")];
    proof {
        reveal_strlit("transient");
        reveal_strlit("config");
        reveal_strlit("bad_input");
        reveal_strlit("rate_limited");
        assert(code_views(exit_codes@) =~= manifest_exit_codes());
        assert("transient"@.len() == 9 && "config"@.len() == 6 && "bad_input"@.len() == 9
            && "rate_limited"@.len() == 12);
        assert("bad_input"@[0] == 'b' && "transient"@[0] == 't');
        assert(kind_named("transient"@) == ErrorKind::Transient);
        assert(kind_named("config"@) == ErrorKind::ConfigError);
        assert(kind_named("bad_input"@) == ErrorKind::InvalidInput);
        assert(kind_named("rate_limited"@) == ErrorKind::RateLimited);
        assert forall|i: int| 0 <= i < exit_codes@.len() implies (#[trigger] exit_codes@[i]).0
            == error::exit_code_of(kind_named(exit_codes@[i].1@)) by {
            assert(exit_codes@[i] == exit_codes@[i]);
        }
        assert(pair_views(commands@) =~= manifest_commands());
        assert(pair_views(flags@) =~= manifest_flags());
        assert(pair_views(workflow@) =~= manifest_workflow());
    }
    AgentManifest {
        name: "email-cli",
        description: "Agent-friendly email CLI for Resend",
        workflow,
        commands,
        flags,
        exit_codes,
        env_prefix: "EMAIL_CLI_",
    }
}

/// The skill file that `skill install` writes for agent platforms.
pub open spec fn skill_document() -> Seq<char> {
    "---\nname: email-cli\ndescription: Send, receive, search and manage email through Resend from the terminal, with JSON output and semantic exit codes.\n---\n\n# email-cli\n\n`email-cli` is installed on this machine. It keeps a local mailbox in SQLite and talks to the Resend API.\n\nRun `email-cli agent-info` once for the full manifest of commands, flags and exit codes.\n\n- Setup: `email-cli profile add <name> --api-key-env RESEND_API_KEY`, then `email-cli account add <email> --profile <name> --default`.\n- Read: `email-cli sync`, then `email-cli inbox list` and `email-cli inbox read <id>`.\n- Send: `email-cli send --to <addr> --subject <subject> --text <body>`.\n\nOutput is JSON when piped or with `--json`. Exit codes: 1 transient, 2 configuration, 3 bad input, 4 rate limited.\n"@
}

/// An agent platform is a hidden directory of the home directory (`.name`)
/// that keeps a `skills` directory.
pub open spec fn is_skill_platform(name: Seq<char>, has_skills_dir: bool) -> bool {
    name.len() > 1 && name[0] == '.' && name != ".."@ && has_skills_dir
}

/// Where a platform keeps the skill: `<home>/<platform>/skills/email-cli`.
pub open spec fn skill_dir_of(home: Seq<char>, platform: Seq<char>) -> Seq<char> {
    helpers::path_join(helpers::path_join(helpers::path_join(home, platform), "skills"@), "email-cli"@)
}

/// The text of the skill file.
pub fn skill_text() -> (res: &'static str)
    ensures
        res@ == skill_document(),
{
    "---\nname: email-cli\ndescription: Send, receive, search and manage email through Resend from the terminal, with JSON output and semantic exit codes.\n---\n\n# email-cli\n\n`email-cli` is installed on this machine. It keeps a local mailbox in SQLite and talks to the Resend API.\n\nRun `email-cli agent-info` once for the full manifest of commands, flags and exit codes.\n\n- Setup: `email-cli profile add <name> --api-key-env RESEND_API_KEY`, then `email-cli account add <email> --profile <name> --default`.\n- Read: `email-cli sync`, then `email-cli inbox list` and `email-cli inbox read <id>`.\n- Send: `email-cli send --to <addr> --subject <subject> --text <body>`.\n\nOutput is JSON when piped or with `--json`. Exit codes: 1 transient, 2 configuration, 3 bad input, 4 rate limited.\n"
}

/// Whether the home directory entry `name` is an agent platform.
pub fn skill_platform(name: &str, has_skills_dir: bool) -> (res: bool)
    ensures
        res == is_skill_platform(name@, has_skills_dir),
{
    proof {
        reveal_strlit("..");
    }
    let v = text::chars_of(name);
    has_skills_dir && v.len() > 1 && v[0] == '.' && !text::seq_eq(name, "..")
}

/// The skill directory of `platform` under `home`; the file in it is
/// `SKILL.md`.
pub fn skill_dir(home: &str, platform: &str) -> (res: String)
    ensures
        res@ == skill_dir_of(home@, platform@),
{
    let p = helpers::join_path(home, platform);
    let s = helpers::join_path(p.as_str(), "skills");
    helpers::join_path(s.as_str(), "email-cli")
}

} // verus!
