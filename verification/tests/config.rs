use herdr_glance_core::config::{config_file_to_load, ConfigError, ConfigFile, ConnectionConfig};

fn config(ssh_target: &str, remote_herdr: &str) -> ConnectionConfig {
    ConnectionConfig {
        ssh_target: ssh_target.to_string(),
        remote_herdr: remote_herdr.to_string(),
    }
}

fn invalid_message(config: &ConnectionConfig) -> String {
    match config.validate() {
        Err(ConfigError::Invalid(message)) => message,
        other => panic!("expected an invalid configuration, got {other:?}"),
    }
}

#[test]
fn defaults_to_herdr_on_path() {
    assert_eq!(ConnectionConfig::default().remote_herdr, "herdr");
}

#[test]
fn validates_remote_connection() {
    let config = config("devbox", "/home/me/.local/bin/herdr");
    assert!(config.validate().is_ok());
}

#[test]
fn validates_local_connection() {
    let config = ConnectionConfig::default();
    assert!(!config.uses_ssh());
    assert!(config.validate().is_ok());
}

#[test]
fn rejects_ssh_option_injection() {
    let config = config("-oProxyCommand=bad", "herdr");
    assert!(config.validate().is_err());
}

#[test]
fn default_config_is_local_and_empty_host() {
    let config = ConnectionConfig::default();
    assert_eq!(config.ssh_target, "");
    assert!(!config.uses_ssh());
}

#[test]
fn whitespace_host_selects_local_execution() {
    assert!(!config("  \t\n", "herdr").uses_ssh());
    assert!(!config("\u{3000}\u{85}", "herdr").uses_ssh());
    assert!(config(" devbox ", "herdr").uses_ssh());
}

#[test]
fn rejects_option_after_leading_whitespace() {
    let config = config("  -oProxyCommand=bad", "herdr");
    assert_eq!(invalid_message(&config), "SSH host contains unsupported characters.");
}

#[test]
fn rejects_control_characters_in_host() {
    let bell = config("dev\u{7}box", "herdr");
    assert_eq!(invalid_message(&bell), "SSH host contains unsupported characters.");
    let newline = config("dev\nbox", "herdr");
    assert_eq!(invalid_message(&newline), "SSH host contains unsupported characters.");
}

#[test]
fn host_checks_apply_only_over_ssh() {
    // A blank host means local execution, so the host is not checked.
    assert!(config(" \u{a0} ", "herdr").validate().is_ok());
}

#[test]
fn rejects_blank_or_control_executable() {
    assert_eq!(invalid_message(&config("", "   ")), "Enter the Herdr executable name or path.");
    assert_eq!(invalid_message(&config("devbox", "")), "Enter the Herdr executable name or path.");
    assert_eq!(
        invalid_message(&config("", "her\u{9f}dr")),
        "Enter the Herdr executable name or path."
    );
}

#[test]
fn host_error_comes_before_executable_error() {
    assert_eq!(invalid_message(&config("-x", "")), "SSH host contains unsupported characters.");
}

#[test]
fn accepts_trimmed_executable_with_spaces_inside() {
    assert!(config("", "  /Applications/My Herdr/herdr  ").validate().is_ok());
}

#[test]
fn chooses_settings_file_to_load() {
    assert_eq!(config_file_to_load(true, true), Some(ConfigFile::Current));
    assert_eq!(config_file_to_load(true, false), Some(ConfigFile::Current));
    assert_eq!(config_file_to_load(false, true), Some(ConfigFile::Legacy));
    assert_eq!(config_file_to_load(false, false), None);
}
