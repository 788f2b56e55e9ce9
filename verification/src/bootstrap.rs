//! Starting an agent from the configuration file: where the file is, how the
//! workspace and state directories are resolved against it, the log level, and
//! the agent settings taken from its section.
//!
//! Checking that the file exists, parsing it and canonicalizing the workspace
//! are done by the program around the library.

use vstd::prelude::*;
use crate::agent::{AgentConfig, AgentType};
use crate::paths::{path_join, spec_path_join, path_is_absolute, is_absolute_path, parent, path_parent};
use crate::text::{lowercase, to_lowercase, str_eq};
use crate::workspace_config::AgentConfig as AgentSettings;

verus! {

/// The configuration file used when none is given.
pub const DEFAULT_CONFIG_PATH: &'static str = ".automation-rust.toml";

/// The configuration file: the one given, else `.automation-rust.toml`.
pub fn config_path_or_default(config_path: Option<String>) -> (p: String)
    ensures
        p@ == match config_path {
            Some(c) => c@,
            None => ".automation-rust.toml"@,
        },
{
    match config_path {
        Some(c) => c,
        None => DEFAULT_CONFIG_PATH.to_string(),
    }
}

/// The message when the configuration file does not exist.
pub fn config_not_found_message(config_path: &str) -> (m: String)
    ensures
        m@ == "Config file not found: "@ + config_path@
            + ". Please create a .automation-rust.toml file or specify a custom path with --config."@,
{
    let mut m = "Config file not found: ".to_string();
    m.append(config_path);
    m.append(". Please create a .automation-rust.toml file or specify a custom path with --config.");
    m
}

/// The message when the configuration file cannot be loaded.
pub fn config_load_error_message(config_path: &str, cause: &str) -> (m: String)
    ensures
        m@ == "Failed to load config from "@ + config_path@ + ": "@ + cause@,
{
    let mut m = "Failed to load config from ".to_string();
    m.append(config_path);
    m.append(": ");
    m.append(cause);
    m
}

/// The directory relative paths of the configuration are resolved against: the
/// configuration file's directory, else the current one.
pub open spec fn config_base_dir(config_path: Seq<char>) -> Seq<char> {
    match path_parent(config_path) {
        Some(d) => d,
        None => "."@,
    }
}

fn base_dir(config_path: &str) -> (d: String)
    ensures
        d@ == config_base_dir(config_path@),
{
    match parent(config_path) {
        Some(d) => d,
        None => ".".to_string(),
    }
}

/// The state directory: `.state` in the workspace when the configuration keeps
/// the default `.state`; otherwise the configured path, resolved against the
/// configuration file's directory when relative.
pub open spec fn state_dir_spec(config_path: Seq<char>, workspace: Seq<char>, state_path: Seq<char>) -> Seq<char> {
    if state_path == ".state"@ {
        spec_path_join(workspace, ".state"@)
    } else if is_absolute_path(state_path) {
        state_path
    } else {
        spec_path_join(config_base_dir(config_path), state_path)
    }
}

/// Resolves the state directory (see [`state_dir_spec`]).
pub fn resolve_state_dir(config_path: &str, workspace: &str, state_path: &str) -> (d: String)
    ensures
        d@ == state_dir_spec(config_path@, workspace@, state_path@),
{
    if str_eq(state_path, ".state") {
        path_join(workspace, ".state")
    } else if path_is_absolute(state_path) {
        state_path.to_string()
    } else {
        let base = base_dir(config_path);
        path_join(base.as_str(), state_path)
    }
}

/// The workspace directory before canonicalization: the configured path when
/// absolute, else that path joined onto the configuration file's directory; the
/// flag tells whether it was relative (and is to be canonicalized when it
/// exists).
pub fn resolve_workspace(config_path: &str, workspace_path: &str) -> (r: (String, bool))
    ensures
        r.1 == !is_absolute_path(workspace_path@),
        r.0@ == if is_absolute_path(workspace_path@) {
            workspace_path@
        } else {
            spec_path_join(config_base_dir(config_path@), workspace_path@)
        },
{
    if path_is_absolute(workspace_path) {
        (workspace_path.to_string(), false)
    } else {
        let base = base_dir(config_path);
        (path_join(base.as_str(), workspace_path), true)
    }
}

/// Log levels of an agent.
#[derive(Debug, Clone, Copy, PartialEq, Eq, Structural)]
pub enum LogLevel {
    Debug,
    Info,
    Warn,
    Error,
}

/// The log level that the configuration names, ignoring case; `info` for
/// anything else.
pub open spec fn log_level_spec(lower: Seq<char>) -> LogLevel {
    if lower == "debug"@ {
        LogLevel::Debug
    } else if lower == "warn"@ {
        LogLevel::Warn
    } else if lower == "error"@ {
        LogLevel::Error
    } else {
        LogLevel::Info
    }
}

/// Reads the configured log level (see [`log_level_spec`]).
pub fn log_level_for(level: &str) -> (l: LogLevel)
    ensures
        l == log_level_spec(lowercase(level@)),
{
    let lower = to_lowercase(level);
    proof {
        reveal_strlit("debug");
        reveal_strlit("warn");
        reveal_strlit("error");
    }
    if str_eq(lower.as_str(), "debug") {
        LogLevel::Debug
    } else if str_eq(lower.as_str(), "warn") {
        LogLevel::Warn
    } else if str_eq(lower.as_str(), "error") {
        LogLevel::Error
    } else {
        LogLevel::Info
    }
}

/// The settings of an agent of `agent_type` from its section of the
/// configuration: minutes become seconds; template, start flag and lock settings
/// are taken over.
pub fn build_agent_config(agent_type: AgentType, workspace: String, state_dir: String, settings: &AgentSettings) -> (c: AgentConfig)
    requires
        settings.interval_minutes * 60 <= u64::MAX,
        settings.timeout_minutes * 60 <= u64::MAX,
    ensures
        c.agent_type == agent_type,
        c.workspace@ == workspace@,
        c.state_dir@ == state_dir@,
        c.prompt_template@ == settings.prompt_template@,
        c.interval_seconds == settings.interval_minutes * 60,
        c.timeout_seconds == settings.timeout_minutes * 60,
        c.immediate == settings.immediate,
        c.max_lock_retries == settings.lock.max_retries,
        c.lock_timeout_seconds == settings.lock.timeout_seconds,
{
    AgentConfig {
        agent_type,
        workspace,
        state_dir,
        prompt_template: settings.prompt_template.clone(),
        interval_seconds: settings.interval_minutes * 60,
        timeout_seconds: settings.timeout_minutes * 60,
        immediate: settings.immediate,
        max_lock_retries: settings.lock.max_retries,
        lock_timeout_seconds: settings.lock.timeout_seconds,
    }
}

} // verus!
