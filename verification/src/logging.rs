//! Logging settings: the output format, and the settings that each way of
//! starting the logger (simple, from the environment, from the configuration
//! file) arrives at.
//!
//! Installing the subscriber with these settings is done by the program around
//! the library.

use vstd::prelude::*;
use crate::error::{AutomationError, Result};
use crate::text::{lowercase, to_lowercase, str_eq};
use crate::workspace_config::LoggingConfig as WorkspaceLoggingConfig;

verus! {

/// Output format of the logs.
#[derive(Debug, Clone, Copy, PartialEq, Eq, Structural)]
pub enum LogFormat {
    /// One JSON object per event.
    Json,
    /// Human-readable lines.
    Pretty,
}

impl Default for LogFormat {
    /// The format of development builds.
    fn default() -> (f: Self)
        ensures
            f == LogFormat::Pretty,
    {
        LogFormat::Pretty
    }
}

/// The format that a parsed name gives, or `None` for an unknown one.
pub open spec fn log_format_named(lower: Seq<char>) -> Option<LogFormat> {
    if lower == "json"@ {
        Some(LogFormat::Json)
    } else if lower == "pretty"@ {
        Some(LogFormat::Pretty)
    } else {
        None
    }
}

/// The default format of a build: pretty for development builds, JSON for
/// release builds.
pub open spec fn build_format(debug_build: bool) -> LogFormat {
    if debug_build { LogFormat::Pretty } else { LogFormat::Json }
}

impl LogFormat {
    /// The default format of a build: pretty for development builds, JSON for
    /// release builds.
    pub fn for_build(debug_build: bool) -> (f: Self)
        ensures
            f == build_format(debug_build),
    {
        if debug_build { LogFormat::Pretty } else { LogFormat::Json }
    }

    /// Reads a format name, ignoring case: `json` or `pretty`.
    pub fn from_str(s: &str) -> (r: core::result::Result<Self, String>)
        ensures
            match log_format_named(lowercase(s@)) {
                Some(f) => r == Ok::<LogFormat, String>(f),
                None => r matches Err(m) && m@ == "Invalid log format '"@ + s@ + "'. Valid: 'json', 'pretty'"@,
            },
    {
        let lower = to_lowercase(s);
        if str_eq(lower.as_str(), "json") {
            Ok(LogFormat::Json)
        } else if str_eq(lower.as_str(), "pretty") {
            Ok(LogFormat::Pretty)
        } else {
            let mut m = "Invalid log format '".to_string();
            m.append(s);
            m.append("'. Valid: 'json', 'pretty'");
            Err(m)
        }
    }
}

/// Settings of the logger.
#[derive(Debug, Clone)]
pub struct LoggingConfig {
    /// Level filter.
    pub level: String,
    pub format: LogFormat,
    /// Whether events show their file and line.
    pub with_file: bool,
    /// Whether events show their target.
    pub with_target: bool,
}

impl Default for LoggingConfig {
    fn default() -> (c: Self)
        ensures
            c.level@ == "info"@,
            c.format == LogFormat::Pretty,
            !c.with_file,
            c.with_target,
    {
        LoggingConfig { level: "info".to_string(), format: LogFormat::default(), with_file: false, with_target: true }
    }
}

/// The settings of a simple start at `level`: the build's format, file and line
/// shown in development builds.
pub fn simple_settings(level: &str, debug_build: bool) -> (c: LoggingConfig)
    ensures
        c.level@ == level@,
        c.format == build_format(debug_build),
        c.with_file == debug_build,
        c.with_target,
{
    LoggingConfig {
        level: level.to_string(),
        format: LogFormat::for_build(debug_build),
        with_file: debug_build,
        with_target: true,
    }
}

/// The settings of a start from the environment, given the values of
/// `LOG_LEVEL` and `LOG_FORMAT`: the level defaults to `info`; a missing or
/// unknown format gives the build's format.
pub fn env_settings(level: Option<String>, format: Option<String>, debug_build: bool) -> (c: LoggingConfig)
    ensures
        c.level@ == match level {
            Some(l) => l@,
            None => "info"@,
        },
        c.format == match format {
            Some(f) => match log_format_named(lowercase(f@)) {
                Some(x) => x,
                None => build_format(debug_build),
            },
            None => build_format(debug_build),
        },
        c.with_file == debug_build,
        c.with_target,
{
    let level = match level {
        Some(l) => l,
        None => "info".to_string(),
    };
    let fmt = match format {
        Some(f) => match LogFormat::from_str(f.as_str()) {
            Ok(x) => x,
            Err(_) => LogFormat::for_build(debug_build),
        },
        None => LogFormat::for_build(debug_build),
    };
    LoggingConfig { level, format: fmt, with_file: debug_build, with_target: true }
}

/// The settings of a start from the configuration file's logging section: its
/// level and format, with file, line and target shown; an unknown format is a
/// configuration error.
pub fn workspace_settings(config: &WorkspaceLoggingConfig) -> (r: Result<LoggingConfig>)
    ensures
        match log_format_named(lowercase(config.format@)) {
            Some(f) => r matches Ok(c) && c.level@ == config.level@ && c.format == f && c.with_file && c.with_target,
            None => r matches Err(e) && e matches AutomationError::Config(m)
                && m@ == "LOG_FORMAT: "@ + ("Invalid log format '"@ + config.format@ + "'. Valid: 'json', 'pretty'"@),
        },
{
    match LogFormat::from_str(config.format.as_str()) {
        Ok(f) => Ok(LoggingConfig { level: config.level.clone(), format: f, with_file: true, with_target: true }),
        Err(e) => {
            let mut m = "LOG_FORMAT: ".to_string();
            m.append(e.as_str());
            Err(AutomationError::Config(m))
        },
    }
}

} // verus!
