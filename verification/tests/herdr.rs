use herdr_glance_core::config::{ConfigError, ConnectionConfig};
use herdr_glance_core::herdr::{
    agent_attach_shell_command, command_outcome, focus_agent_command, herdr_command,
    local_herdr_binary, snapshot_command, validate_pane_id, EnvValue, HerdrCommand, HerdrError,
    HerdrProgram,
};
use herdr_glance_core::shell::{remote_command, shell_quote};

fn config(ssh_target: &str, remote_herdr: &str) -> ConnectionConfig {
    ConnectionConfig {
        ssh_target: ssh_target.to_string(),
        remote_herdr: remote_herdr.to_string(),
    }
}

fn program(command: &HerdrCommand) -> Option<&str> {
    match &command.program {
        HerdrProgram::Named(name) => Some(name.as_str()),
        HerdrProgram::HerdrBinPath => None,
    }
}

fn command_message(error: HerdrError) -> String {
    match error {
        HerdrError::Command(message) => message,
        other => panic!("expected a command error, got {other:?}"),
    }
}

#[test]
fn quotes_remote_arguments() {
    assert_eq!(
        remote_command("/Applications/My Herdr/herdr", &["agent", "focus", "w1:p1"]),
        "PATH=\"$HOME/.local/bin:$HOME/.cargo/bin:$HOME/bin:$PATH\" '/Applications/My Herdr/herdr' agent focus w1:p1"
    );
    assert_eq!(shell_quote("it's"), "'it'\"'\"'s'");
}

#[test]
fn builds_local_attach_command() {
    let config = config("", "/Applications/My Herdr/herdr");

    assert_eq!(
        agent_attach_shell_command(&config, "w1:p1", &EnvValue::Unset).unwrap(),
        "'/Applications/My Herdr/herdr' agent attach w1:p1 --takeover"
    );
}

#[test]
fn builds_ssh_attach_command() {
    let config = config("herdr-host", "/home/me/My Herdr/herdr");

    assert_eq!(
        agent_attach_shell_command(&config, "w1:p1", &EnvValue::Unset).unwrap(),
        "ssh -t -o ConnectTimeout=5 -o LogLevel=ERROR herdr-host 'PATH=\"$HOME/.local/bin:$HOME/.cargo/bin:$HOME/bin:$PATH\" '\"'\"'/home/me/My Herdr/herdr'\"'\"' agent attach w1:p1 --takeover'"
    );
}

#[test]
fn shell_quote_leaves_plain_words() {
    assert_eq!(shell_quote("w1:p1"), "w1:p1");
    assert_eq!(shell_quote("/usr/local/bin/herdr-2.0_x"), "/usr/local/bin/herdr-2.0_x");
    assert_eq!(shell_quote(""), "''");
    assert_eq!(shell_quote("a b"), "'a b'");
    assert_eq!(shell_quote("$HOME"), "'$HOME'");
    assert_eq!(shell_quote("é"), "'é'");
    assert_eq!(shell_quote("''"), "''\"'\"''\"'\"''");
}

#[test]
fn remote_command_without_arguments() {
    assert_eq!(
        remote_command("herdr", &[]),
        "PATH=\"$HOME/.local/bin:$HOME/.cargo/bin:$HOME/bin:$PATH\" herdr"
    );
}

#[test]
fn local_attach_uses_herdr_bin_path_for_bare_name() {
    let config = config("", "herdr");
    assert_eq!(
        agent_attach_shell_command(&config, "w1:p1", &EnvValue::Unset).unwrap(),
        "herdr agent attach w1:p1 --takeover"
    );
    assert_eq!(
        agent_attach_shell_command(&config, "w 2", &EnvValue::Text("/opt/h b/herdr".to_string()))
            .unwrap(),
        "'/opt/h b/herdr' agent attach 'w 2' --takeover"
    );
    let error = agent_attach_shell_command(&config, "w1:p1", &EnvValue::NotUnicode).unwrap_err();
    assert_eq!(command_message(error), "Herdr executable path is not valid UTF-8.");
}

#[test]
fn local_binary_prefers_explicit_path() {
    let explicit = config("", "/bin/herdr");
    assert_eq!(
        local_herdr_binary(&explicit, &EnvValue::Text("/other".to_string())),
        Some("/bin/herdr".to_string())
    );
    assert_eq!(local_herdr_binary(&explicit, &EnvValue::NotUnicode), Some("/bin/herdr".to_string()));
    let bare = config("", "herdr");
    assert_eq!(local_herdr_binary(&bare, &EnvValue::Unset), Some("herdr".to_string()));
    assert_eq!(local_herdr_binary(&bare, &EnvValue::NotUnicode), None);
    // Only the exact name counts as the bare name.
    let padded = config("", " herdr");
    assert_eq!(local_herdr_binary(&padded, &EnvValue::NotUnicode), Some(" herdr".to_string()));
}

#[test]
fn attach_reports_configuration_error_first() {
    let config = config("-bad", "herdr");
    match agent_attach_shell_command(&config, "", &EnvValue::Unset) {
        Err(HerdrError::Config(ConfigError::Invalid(message))) => {
            assert_eq!(message, "SSH host contains unsupported characters.")
        }
        other => panic!("unexpected {other:?}"),
    }
}

#[test]
fn rejects_invalid_pane_identifiers() {
    assert!(validate_pane_id("w1:p1").is_ok());
    assert_eq!(command_message(validate_pane_id("").unwrap_err()), "invalid pane identifier");
    assert_eq!(command_message(validate_pane_id("w1\n").unwrap_err()), "invalid pane identifier");
    let error = agent_attach_shell_command(&config("", "herdr"), "a\u{1b}b", &EnvValue::Unset)
        .unwrap_err();
    assert_eq!(command_message(error), "invalid pane identifier");
}

#[test]
fn snapshot_over_ssh_is_non_interactive() {
    let command = snapshot_command(&config("devbox", "/home/me/herdr"), &EnvValue::Unset).unwrap();
    assert_eq!(program(&command), Some("ssh"));
    assert_eq!(
        command.args,
        vec![
            "-o",
            "BatchMode=yes",
            "-o",
            "ConnectTimeout=5",
            "-o",
            "LogLevel=ERROR",
            "devbox",
            "PATH=\"$HOME/.local/bin:$HOME/.cargo/bin:$HOME/bin:$PATH\" /home/me/herdr api snapshot",
        ]
    );
}

#[test]
fn snapshot_runs_local_binary() {
    let command = snapshot_command(&config("", "herdr"), &EnvValue::Unset).unwrap();
    assert_eq!(program(&command), Some("herdr"));
    assert_eq!(command.args, vec!["api", "snapshot"]);
    let command = snapshot_command(&config("", "herdr"), &EnvValue::NotUnicode).unwrap();
    assert!(matches!(command.program, HerdrProgram::HerdrBinPath));
}

#[test]
fn focus_checks_pane_before_configuration() {
    let error = focus_agent_command(&config("-bad", "herdr"), "", &EnvValue::Unset).unwrap_err();
    assert_eq!(command_message(error), "invalid pane identifier");
    let command = focus_agent_command(&config("", "/bin/herdr"), "w1:p1", &EnvValue::Unset).unwrap();
    assert_eq!(program(&command), Some("/bin/herdr"));
    assert_eq!(command.args, vec!["agent", "focus", "w1:p1"]);
    assert!(matches!(
        focus_agent_command(&config("", " "), "w1:p1", &EnvValue::Unset),
        Err(HerdrError::Config(ConfigError::Invalid(_)))
    ));
}

#[test]
fn herdr_command_quotes_remote_arguments() {
    let command = herdr_command(&config("host", "herdr"), &["agent", "focus", "it's"], &EnvValue::Unset)
        .unwrap();
    assert_eq!(
        command.args[7],
        "PATH=\"$HOME/.local/bin:$HOME/.cargo/bin:$HOME/bin:$PATH\" herdr agent focus 'it'\"'\"'s'"
    );
}

#[test]
fn reads_command_outcomes() {
    let local = config("", "herdr");
    let remote = config("devbox", "herdr");
    assert_eq!(command_outcome(&local, true, b"out".to_vec(), b"ignored", "0").unwrap(), b"out");
    assert_eq!(
        command_message(command_outcome(&local, false, vec![], b"  boom \n", "exit status: 1").unwrap_err()),
        "boom"
    );
    assert_eq!(
        command_message(command_outcome(&local, false, vec![], b" \n", "exit status: 2").unwrap_err()),
        "process exited with exit status: 2"
    );
    assert_eq!(
        command_message(
            command_outcome(&remote, false, vec![], b"bash: herdr: command not found\n", "127").unwrap_err()
        ),
        "Herdr was not found on the SSH host. Enter its absolute executable path in Connection settings."
    );
    // Locally the same output is reported as it is.
    assert_eq!(
        command_message(command_outcome(&local, false, vec![], b"herdr: command not found", "127").unwrap_err()),
        "herdr: command not found"
    );
    // Invalid UTF-8 is replaced, not dropped.
    assert_eq!(
        command_message(command_outcome(&local, false, vec![], b"bad \xff byte", "1").unwrap_err()),
        "bad \u{fffd} byte"
    );
}
