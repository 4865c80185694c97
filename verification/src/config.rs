//! The connection settings and their validation.
use vstd::prelude::*;
use vstd::string::StringExecFns;

use crate::text::{any_control, chars_of, has_control, trim, trim_chars};

verus! {

/// Where Herdr runs: locally when `ssh_target` is blank, otherwise on that SSH host.
#[derive(Debug, Clone, PartialEq, Eq)]
pub struct ConnectionConfig {
    pub ssh_target: String,
    pub remote_herdr: String,
}

/// Why settings were refused, or could not be read or written.
#[derive(Debug)]
pub enum ConfigError {
    Invalid(String),
    Read(std::io::Error),
    Parse(serde_json::Error),
    Write(std::io::Error),
}

/// The message for an SSH host that could be read as an option or holds control characters.
pub open spec fn ssh_host_message() -> Seq<char> {
    "SSH host contains unsupported characters."@
}

/// The message for a missing or unusable Herdr executable.
pub open spec fn executable_message() -> Seq<char> {
    "Enter the Herdr executable name or path."@
}

/// The SSH host is usable: it does not start with `-` and holds no control character.
pub open spec fn ssh_target_acceptable(target: Seq<char>) -> bool {
    !(target.len() > 0 && target[0] == '-') && !has_control(target)
}

/// The executable is usable: not blank, and without control characters.
pub open spec fn executable_acceptable(binary: Seq<char>) -> bool {
    binary.len() > 0 && !has_control(binary)
}

impl ConnectionConfig {
    /// SSH is used when the trimmed host is not empty.
    pub open spec fn spec_uses_ssh(&self) -> bool {
        trim(self.ssh_target@).len() > 0
    }

    /// The message of the first check that fails, if any.
    pub open spec fn validation_error(&self) -> Option<Seq<char>> {
        if self.spec_uses_ssh() && !ssh_target_acceptable(trim(self.ssh_target@)) {
            Some(ssh_host_message())
        } else if !executable_acceptable(trim(self.remote_herdr@)) {
            Some(executable_message())
        } else {
            None
        }
    }

    pub open spec fn is_valid(&self) -> bool {
        self.validation_error() is None
    }

    pub fn uses_ssh(&self) -> (r: bool)
        ensures
            r == self.spec_uses_ssh(),
    {
        let target = trim_chars(&chars_of(self.ssh_target.as_str()));
        target.len() > 0
    }

    pub fn validate(&self) -> (res: Result<(), ConfigError>)
        ensures
            match self.validation_error() {
                None => res is Ok,
                Some(message) => res matches Err(ConfigError::Invalid(m)) && m@ == message,
            },
    {
        let target = trim_chars(&chars_of(self.ssh_target.as_str()));
        if self.uses_ssh() && ((target.len() > 0 && target[0] == '-') || any_control(&target)) {
            return Err(ConfigError::Invalid(String::from_str("SSH host contains unsupported characters.")));
        }
        let binary = trim_chars(&chars_of(self.remote_herdr.as_str()));
        if binary.len() == 0 || any_control(&binary) {
            return Err(ConfigError::Invalid(String::from_str("Enter the Herdr executable name or path.")));
        }
        Ok(())
    }
}

impl Default for ConnectionConfig {
    /// Local execution of `herdr` found on the `PATH`.
    fn default() -> (c: Self)
        ensures
            c.ssh_target@ == Seq::<char>::empty(),
            c.remote_herdr@ == "herdr"@,
    {
        ConnectionConfig { ssh_target: String::new(), remote_herdr: String::from_str("herdr") }
    }
}


/// The settings files, current and from the widget's former name.
#[derive(Debug, Clone, Copy, PartialEq, Eq)]
pub enum ConfigFile {
    Current,
    Legacy,
}

/// Which settings file to read: the current one when it exists, else the former
/// one when that exists; none means the defaults apply.
pub fn config_file_to_load(current_exists: bool, legacy_exists: bool) -> (r: Option<ConfigFile>)
    ensures
        current_exists ==> r == Some(ConfigFile::Current),
        !current_exists && legacy_exists ==> r == Some(ConfigFile::Legacy),
        !current_exists && !legacy_exists ==> r is None,
{
    if current_exists {
        Some(ConfigFile::Current)
    } else if legacy_exists {
        Some(ConfigFile::Legacy)
    } else {
        None
    }
}

}
