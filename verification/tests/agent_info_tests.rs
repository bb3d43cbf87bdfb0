use email_cli::audit::audit_entry;
use email_cli::agent_info::{skill_dir, skill_platform, skill_text};
use email_cli::agent_info::agent_manifest;
use email_cli::error::CliError;

#[test]
fn manifest_lists_commands_and_exit_codes() {
    let m = agent_manifest();
    assert_eq!(m.name, "email-cli");
    assert_eq!(m.env_prefix, "EMAIL_CLI_");
    assert_eq!(
        m.exit_codes,
        vec![(1, "transient"), (2, "config"), (3, "bad_input"), (4, "rate_limited")]
    );
    let names: Vec<&str> = m.commands.iter().map(|c| c.0).collect();
    assert_eq!(names.len(), 29);
    assert_eq!(names[0], "profile");
    assert!(names.contains(&"contact-property"));
    assert_eq!(names[26], "agent-info");
    for c in ["email", "completions", "daemon", "autostart", "batch", "api-key", "events", "update", "log", "skill"] {
        assert!(names.contains(&c), "{}", c);
    }
    assert_eq!(m.flags[0].0, "--json");
    let config = CliError::ConfigError(String::from("x"));
    assert_eq!(config.exit_code(), m.exit_codes[1].0);
    let limited = CliError::RateLimited(String::from("x"));
    assert_eq!(limited.exit_code(), m.exit_codes[3].0);
}

#[test]
fn audit_entry_names_the_command_and_hides_keys() {
    let argv: Vec<String> = ["--db", "/tmp/x.db", "--json", "profile", "add", "work", "--api-key", "re_secret"]
        .iter().map(|a| a.to_string()).collect();
    let (command, args) = audit_entry(&argv);
    assert_eq!(command, "profile");
    assert_eq!(args, "--db /tmp/x.db --json profile add work --api-key [redacted]");
    let argv: Vec<String> = ["send", "--api-key=re_x", "--to", "a@b.c"].iter().map(|a| a.to_string()).collect();
    assert_eq!(audit_entry(&argv), (String::from("send"), String::from("send --api-key=[redacted] --to a@b.c")));
    assert_eq!(audit_entry(&vec![]), (String::new(), String::new()));
}

#[test]
fn skill_goes_under_each_platform() {
    assert!(skill_platform(".agent", true));
    assert!(!skill_platform(".agent", false));
    assert!(!skill_platform("agent", true));
    assert!(!skill_platform(".", true) && !skill_platform("..", true));
    assert_eq!(skill_dir("/home/u", ".agent"), "/home/u/.agent/skills/email-cli");
    assert_eq!(skill_dir("/home/u/", ".tool"), "/home/u/.tool/skills/email-cli");
    assert!(skill_text().starts_with("---\nname: email-cli\n"));
    assert!(skill_text().contains("email-cli agent-info"));
}
