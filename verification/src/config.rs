//! Settings of a run given on the command line: the configuration file, the log
//! level and its shortcuts, and how relative paths are resolved.
//!
//! Parsing the arguments is done by the program around the library into
//! [`Config`].

use vstd::prelude::*;
use crate::paths::{path_join, spec_path_join};
use crate::text::{lowercase, to_lowercase, str_eq};

verus! {

/// The log levels that a run accepts.
pub open spec fn is_log_level(s: Seq<char>) -> bool {
    s == "trace"@ || s == "debug"@ || s == "info"@ || s == "warn"@ || s == "error"@
}

/// Settings of a run.
#[derive(Debug)]
pub struct Config {
    /// Path of the configuration file.
    pub config: String,
    /// Log level asked for, if any.
    pub log_level: Option<String>,
    /// Verbose output (debug level).
    pub verbose: bool,
    /// Debug output (debug level).
    pub debug: bool,
}

impl Default for Config {
    fn default() -> (c: Self)
        ensures
            c.config@ == ".automation-rust.toml"@,
            c.log_level is None,
            !c.verbose,
            !c.debug,
    {
        Config { config: ".automation-rust.toml".to_string(), log_level: None, verbose: false, debug: false }
    }
}

impl Config {
    /// The log level of the run: `debug` when verbose or debug output is asked
    /// for, else the level given, if any.
    pub fn get_log_level(&self) -> (l: Option<&str>)
        ensures
            match l {
                Some(s) => if self.verbose || self.debug {
                    s@ == "debug"@
                } else {
                    self.log_level matches Some(lv) && s@ == lv@
                },
                None => !(self.verbose || self.debug) && self.log_level is None,
            },
    {
        if self.verbose || self.debug {
            Some("debug")
        } else {
            match &self.log_level {
                Some(s) => Some(s.as_str()),
                None => None,
            }
        }
    }
}

/// Checks a log level given on the command line: its lowercase form when that
/// is one of trace, debug, info, warn and error, else an error naming the value.
pub fn parse_log_level(s: &str) -> (r: Result<String, String>)
    ensures
        match r {
            Ok(l) => l@ == lowercase(s@) && is_log_level(l@),
            Err(m) => !is_log_level(lowercase(s@))
                && m@ == "Invalid log level '"@ + s@ + "'. Valid options: trace, debug, info, warn, error"@,
        },
{
    let lower = to_lowercase(s);
    let l = lower.as_str();
    if str_eq(l, "trace") || str_eq(l, "debug") || str_eq(l, "info") || str_eq(l, "warn") || str_eq(l, "error") {
        Ok(lower)
    } else {
        let mut m = "Invalid log level '".to_string();
        m.append(s);
        m.append("'. Valid options: trace, debug, info, warn, error");
        Err(m)
    }
}

/// Resolves `path` against `base`: an absolute path stays as it is, a relative
/// one is joined onto `base` unchanged (`.` and `..` are kept).
pub fn resolve_path(path: &str, base: &str) -> (r: String)
    ensures
        r@ == spec_path_join(base@, path@),
{
    path_join(base, path)
}

} // verus!
