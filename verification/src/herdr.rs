//! Running Herdr locally or over SSH: the commands, their validation and the
//! reading of their outcome.
use vstd::prelude::*;
use vstd::string::StringExecFns;

use crate::config::{ConfigError, ConnectionConfig};
use crate::shell::{push_quoted, remote_command, remote_command_line, shell_quoted, words_of};
use crate::text::{
    any_control, chars_of, contains_chars, contains_run, has_control, lossy_text, push_str,
    string_from_chars, trim, trim_chars, utf8_lossy,
};

verus! {

/// Why a Herdr request failed.
#[derive(Debug)]
pub enum HerdrError {
    Config(ConfigError),
    Spawn(std::io::Error),
    Timeout,
    Command(String),
    Json(serde_json::Error),
    Snapshot,
}

/// The value of the `HERDR_BIN_PATH` environment variable, as the process found it.
#[derive(Debug, Clone)]
pub enum EnvValue {
    Unset,
    Text(String),
    NotUnicode,
}

/// The program to start for a Herdr request.
#[derive(Debug, Clone)]
pub enum HerdrProgram {
    /// A program given by name or path.
    Named(String),
    /// The `HERDR_BIN_PATH` value exactly as the environment holds it (it is not Unicode).
    HerdrBinPath,
}

/// A program and its arguments.
#[derive(Debug, Clone)]
pub struct HerdrCommand {
    pub program: HerdrProgram,
    pub args: Vec<String>,
}

pub open spec fn pane_id_message() -> Seq<char> {
    "invalid pane identifier"@
}

pub open spec fn not_unicode_message() -> Seq<char> {
    "Herdr executable path is not valid UTF-8."@
}

pub open spec fn not_found_message() -> Seq<char> {
    "Herdr was not found on the SSH host. Enter its absolute executable path in Connection settings."@
}

/// A pane identifier is non-empty and holds no control character.
pub open spec fn pane_id_acceptable(pane_id: Seq<char>) -> bool {
    pane_id.len() > 0 && !has_control(pane_id)
}

/// The local executable: `HERDR_BIN_PATH` (or `herdr`) when the setting is the bare name
/// `herdr`, otherwise the setting itself; `None` when the chosen path is not Unicode.
pub open spec fn local_binary(config: ConnectionConfig, env: EnvValue) -> Option<Seq<char>> {
    if config.remote_herdr@ == "herdr"@ {
        match env {
            EnvValue::Unset => Some("herdr"@),
            EnvValue::Text(path) => Some(path@),
            EnvValue::NotUnicode => None,
        }
    } else {
        Some(config.remote_herdr@)
    }
}

/// The view of an argument list.
pub open spec fn strings_view(args: Seq<String>) -> Seq<Seq<char>> {
    args.map_values(|a: String| a@)
}

/// The shell command that attaches to a pane on the SSH host.
pub open spec fn ssh_attach_line(config: ConnectionConfig, pane_id: Seq<char>) -> Seq<char> {
    "ssh -t -o ConnectTimeout=5 -o LogLevel=ERROR "@ + shell_quoted(config.ssh_target@) + seq![' ']
        + shell_quoted(
        remote_command_line(config.remote_herdr@, seq!["agent"@, "attach"@, pane_id, "--takeover"@]),
    )
}

/// The shell command that attaches to a pane with the local executable.
pub open spec fn local_attach_line(binary: Seq<char>, pane_id: Seq<char>) -> Seq<char> {
    shell_quoted(binary) + " agent attach "@ + shell_quoted(pane_id) + " --takeover"@
}

/// The options that keep a non-interactive SSH call from prompting or waiting long.
pub open spec fn ssh_options() -> Seq<Seq<char>> {
    seq!["-o"@, "BatchMode=yes"@, "-o"@, "ConnectTimeout=5"@, "-o"@, "LogLevel=ERROR"@]
}

/// The arguments of a request that goes over SSH.
pub open spec fn ssh_arguments(config: ConnectionConfig, arguments: Seq<Seq<char>>) -> Seq<Seq<char>> {
    ssh_options() + seq![config.ssh_target@, remote_command_line(config.remote_herdr@, arguments)]
}

/// `command` runs Herdr with `arguments` as `config` and `env` say.
pub open spec fn runs_herdr(
    command: HerdrCommand,
    config: ConnectionConfig,
    arguments: Seq<Seq<char>>,
    env: EnvValue,
) -> bool {
    if config.spec_uses_ssh() {
        &&& command.program matches HerdrProgram::Named(p) && p@ == "ssh"@
        &&& strings_view(command.args@) == ssh_arguments(config, arguments)
    } else {
        &&& match local_binary(config, env) {
            Some(binary) => command.program matches HerdrProgram::Named(p) && p@ == binary,
            None => command.program is HerdrBinPath,
        }
        &&& strings_view(command.args@) == arguments
    }
}

/// The message of a failed run: the trimmed error output, or the exit status when
/// there is none; over SSH a "command not found" becomes advice to enter the path.
pub open spec fn failure_message(uses_ssh: bool, stderr: Seq<u8>, status: Seq<char>) -> Seq<char> {
    let text = trim(lossy_text(stderr));
    if uses_ssh && contains_run(text, "command not found"@) {
        not_found_message()
    } else if text.len() == 0 {
        "process exited with "@ + status
    } else {
        text
    }
}

/// Refuses empty pane identifiers and ones with control characters.
pub fn validate_pane_id(pane_id: &str) -> (res: Result<(), HerdrError>)
    ensures
        pane_id_acceptable(pane_id@) ==> res is Ok,
        !pane_id_acceptable(pane_id@) ==> (res matches Err(HerdrError::Command(m)) && m@
            == pane_id_message()),
{
    let chars = chars_of(pane_id);
    if chars.len() == 0 || any_control(&chars) {
        return Err(HerdrError::Command(String::from_str("invalid pane identifier")));
    }
    Ok(())
}

/// The executable to run locally, or `None` when it is not Unicode.
pub fn local_herdr_binary(config: &ConnectionConfig, env: &EnvValue) -> (r: Option<String>)
    ensures
        match local_binary(*config, *env) {
            Some(b) => r matches Some(s) && s@ == b,
            None => r is None,
        },
{
    let herdr = String::from_str("herdr");
    if config.remote_herdr == herdr {
        match env {
            EnvValue::Unset => Some(herdr),
            EnvValue::Text(path) => Some(path.clone()),
            EnvValue::NotUnicode => None,
        }
    } else {
        Some(config.remote_herdr.clone())
    }
}

/// The shell command that opens an interactive Herdr session attached to `pane_id`,
/// over SSH when the settings name a host.
pub fn agent_attach_shell_command(
    config: &ConnectionConfig,
    pane_id: &str,
    env: &EnvValue,
) -> (res: Result<String, HerdrError>)
    ensures
        match config.validation_error() {
            Some(m) => res matches Err(HerdrError::Config(ConfigError::Invalid(e))) && e@ == m,
            None => if !pane_id_acceptable(pane_id@) {
                res matches Err(HerdrError::Command(e)) && e@ == pane_id_message()
            } else if config.spec_uses_ssh() {
                res matches Ok(s) && s@ == ssh_attach_line(*config, pane_id@)
            } else {
                match local_binary(*config, *env) {
                    Some(b) => res matches Ok(s) && s@ == local_attach_line(b, pane_id@),
                    None => res matches Err(HerdrError::Command(e)) && e@ == not_unicode_message(),
                }
            },
        },
{
    match config.validate() {
        Ok(()) => {},
        Err(e) => return Err(HerdrError::Config(e)),
    }
    match validate_pane_id(pane_id) {
        Ok(()) => {},
        Err(e) => return Err(e),
    }
    if config.uses_ssh() {
        let arguments = ["agent", "attach", pane_id, "--takeover"];
        let remote = remote_command(config.remote_herdr.as_str(), &arguments);
        assert(words_of(arguments@) == seq!["agent"@, "attach"@, pane_id@, "--takeover"@]);
        let mut out: Vec<char> = Vec::new();
        push_str(&mut out, "ssh -t -o ConnectTimeout=5 -o LogLevel=ERROR ");
        push_quoted(&mut out, &chars_of(config.ssh_target.as_str()));
        out.push(' ');
        push_quoted(&mut out, &chars_of(remote.as_str()));
        Ok(string_from_chars(&out))
    } else {
        match local_herdr_binary(config, env) {
            Some(binary) => {
                let mut out: Vec<char> = Vec::new();
                push_quoted(&mut out, &chars_of(binary.as_str()));
                push_str(&mut out, " agent attach ");
                push_quoted(&mut out, &chars_of(pane_id));
                push_str(&mut out, " --takeover");
                Ok(string_from_chars(&out))
            },
            None => Err(HerdrError::Command(String::from_str("Herdr executable path is not valid UTF-8."))),
        }
    }
}


/// Converts string slices to owned strings.
fn owned_strings(arguments: &[&str]) -> (r: Vec<String>)
    ensures
        strings_view(r@) == words_of(arguments@),
{
    let mut r: Vec<String> = Vec::new();
    for i in 0..arguments.len()
        invariant
            r@.len() == i,
            forall|k: int| 0 <= k < i ==> #[trigger] r@[k]@ == arguments@[k]@,
    {
        r.push(String::from_str(arguments[i]));
    }
    assert(strings_view(r@) =~= words_of(arguments@));
    r
}

/// The command that runs Herdr with `arguments`: over non-interactive SSH when the
/// settings name a host, otherwise with the local executable.
pub fn herdr_command(config: &ConnectionConfig, arguments: &[&str], env: &EnvValue) -> (res: Result<
    HerdrCommand,
    HerdrError,
>)
    ensures
        match config.validation_error() {
            Some(m) => res matches Err(HerdrError::Config(ConfigError::Invalid(e))) && e@ == m,
            None => res matches Ok(c) && runs_herdr(c, *config, words_of(arguments@), *env),
        },
{
    match config.validate() {
        Ok(()) => {},
        Err(e) => return Err(HerdrError::Config(e)),
    }
    if config.uses_ssh() {
        let remote = remote_command(config.remote_herdr.as_str(), arguments);
        let mut args: Vec<String> = Vec::new();
        args.push(String::from_str("-o"));
        args.push(String::from_str("BatchMode=yes"));
        args.push(String::from_str("-o"));
        args.push(String::from_str("ConnectTimeout=5"));
        args.push(String::from_str("-o"));
        args.push(String::from_str("LogLevel=ERROR"));
        args.push(config.ssh_target.clone());
        args.push(remote);
        let c = HerdrCommand { program: HerdrProgram::Named(String::from_str("ssh")), args };
        assert(strings_view(c.args@) == ssh_arguments(*config, words_of(arguments@)));
        Ok(c)
    } else {
        let program = match local_herdr_binary(config, env) {
            Some(binary) => HerdrProgram::Named(binary),
            None => HerdrProgram::HerdrBinPath,
        };
        Ok(HerdrCommand { program, args: owned_strings(arguments) })
    }
}

/// The request that lists the agents of the session: `api snapshot`.
pub fn snapshot_command(config: &ConnectionConfig, env: &EnvValue) -> (res: Result<HerdrCommand, HerdrError>)
    ensures
        match config.validation_error() {
            Some(m) => res matches Err(HerdrError::Config(ConfigError::Invalid(e))) && e@ == m,
            None => res matches Ok(c) && runs_herdr(c, *config, seq!["api"@, "snapshot"@], *env),
        },
{
    let arguments = ["api", "snapshot"];
    assert(words_of(arguments@) == seq!["api"@, "snapshot"@]);
    herdr_command(config, &arguments, env)
}

/// The request that focuses an agent's pane: `agent focus <pane>`, after the pane
/// identifier is checked.
pub fn focus_agent_command(config: &ConnectionConfig, pane_id: &str, env: &EnvValue) -> (res: Result<
    HerdrCommand,
    HerdrError,
>)
    ensures
        if !pane_id_acceptable(pane_id@) {
            res matches Err(HerdrError::Command(e)) && e@ == pane_id_message()
        } else {
            match config.validation_error() {
                Some(m) => res matches Err(HerdrError::Config(ConfigError::Invalid(e))) && e@ == m,
                None => res matches Ok(c) && runs_herdr(
                    c,
                    *config,
                    seq!["agent"@, "focus"@, pane_id@],
                    *env,
                ),
            }
        },
{
    match validate_pane_id(pane_id) {
        Ok(()) => {},
        Err(e) => return Err(e),
    }
    let arguments = ["agent", "focus", pane_id];
    assert(words_of(arguments@) == seq!["agent"@, "focus"@, pane_id@]);
    herdr_command(config, &arguments, env)
}

/// Reads the outcome of a finished Herdr process: its output when it succeeded,
/// otherwise a `Command` error with the failure message.
pub fn command_outcome(
    config: &ConnectionConfig,
    success: bool,
    stdout: Vec<u8>,
    stderr: &[u8],
    status: &str,
) -> (res: Result<Vec<u8>, HerdrError>)
    ensures
        success ==> res == Ok::<Vec<u8>, HerdrError>(stdout),
        !success ==> (res matches Err(HerdrError::Command(m)) && m@ == failure_message(
            config.spec_uses_ssh(),
            stderr@,
            status@,
        )),
{
    if success {
        return Ok(stdout);
    }
    let text = trim_chars(&chars_of(utf8_lossy(stderr).as_str()));
    if config.uses_ssh() && contains_chars(&text, &chars_of("command not found")) {
        return Err(HerdrError::Command(String::from_str(
            "Herdr was not found on the SSH host. Enter its absolute executable path in Connection settings.",
        )));
    }
    if text.len() == 0 {
        let mut out: Vec<char> = Vec::new();
        push_str(&mut out, "process exited with ");
        push_str(&mut out, status);
        return Err(HerdrError::Command(string_from_chars(&out)));
    }
    Err(HerdrError::Command(string_from_chars(&text)))
}

}
