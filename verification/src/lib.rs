//! Connection validation, command construction and snapshot parsing for a
//! desktop widget that shows the agents of a Herdr session.

pub mod config;
pub mod ghostty;
pub mod herdr;
pub mod json;
pub mod laws;
pub mod outside;
pub mod settings_laws;
pub mod shell;
pub mod snapshot;
pub mod text;

pub use config::{config_file_to_load, ConfigError, ConfigFile, ConnectionConfig};
pub use ghostty::{ConnectionBootstrap, GhosttyAction};
pub use herdr::{
    agent_attach_shell_command, command_outcome, focus_agent_command, herdr_command,
    snapshot_command, EnvValue, HerdrCommand, HerdrError, HerdrProgram,
};
pub use json::JsonValue;
pub use snapshot::{parse_snapshot, snapshot_agents, AgentView};
