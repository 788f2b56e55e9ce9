//! Error type shared by the whole library.

use vstd::prelude::*;
use crate::text::{decimal, u64_to_decimal};
use crate::workspace_config::io_error_text;

verus! {

/// Declares `std::io::Error` so that errors of the file system can be carried.
#[verifier::external_type_specification]
#[verifier::external_body]
pub struct ExIoError(std::io::Error);

/// Declares `serde_json::Error` so that JSON errors can be carried.
#[verifier::external_type_specification]
#[verifier::external_body]
pub struct ExJsonError(serde_json::Error);

/// Errors that operations of the automation system report.
#[derive(Debug)]
pub enum AutomationError {
    /// A file system operation failed.
    FileSystem(std::io::Error),
    /// Reading or writing JSON failed.
    Json(serde_json::Error),
    /// A lock could not be taken or handled.
    LockError { task: String, message: String },
    /// Stored state is missing, inconsistent or refused the operation.
    StateError { task: String, message: String },
    /// A prompt template could not be used.
    Template(String),
    /// Running an external process failed.
    Process(String),
    /// A lock was not acquired in time; `timeout` is in milliseconds.
    LockTimeout { task: String, timeout: u64 },
    /// Configuration is invalid.
    Config(String),
    /// A schedule could not be set up or changed.
    ScheduleConfigInvalid { reason: String },
    /// An external process could not be started.
    ProcessSpawnFailed { command: String, source: std::io::Error },
}

/// Result type of the library's fallible operations.
pub type Result<T> = core::result::Result<T, AutomationError>;

/// A state error about `task` with `message`.
pub fn state_error(task: &str, message: &str) -> (e: AutomationError)
    ensures
        e matches AutomationError::StateError { task: t, message: m } && t@ == task@ && m@ == message@,
{
    AutomationError::StateError { task: task.to_string(), message: message.to_string() }
}

/// A lock error about `task` with `message`.
pub fn lock_error(task: &str, message: &str) -> (e: AutomationError)
    ensures
        e matches AutomationError::LockError { task: t, message: m } && t@ == task@ && m@ == message@,
{
    AutomationError::LockError { task: task.to_string(), message: message.to_string() }
}


/// The text of a JSON error.
///
/// Calls `Display` of `serde_json::Error`; its text is not stated.
#[verifier::external_body]
fn json_error_text(e: &serde_json::Error) -> String {
    e.to_string()
}

/// Whether `s` is the message of `e` (see [`AutomationError::message`]): the
/// text of each variant, where the texts of I/O and JSON errors come from their
/// crates and only the prefix before them is fixed.
pub open spec fn is_message_of(e: AutomationError, s: Seq<char>) -> bool {
    match e {
        AutomationError::LockError { task, message } =>
            s == "Lock error for task '"@ + task@ + "': "@ + message@,
        AutomationError::StateError { task, message } =>
            s == "State error for task '"@ + task@ + "': "@ + message@,
        AutomationError::Template(m) => s == "Template error: "@ + m@,
        AutomationError::Process(m) => s == "Process execution error: "@ + m@,
        AutomationError::LockTimeout { task, timeout } =>
            s == "Lock acquisition timeout for task '"@ + task@ + "' after "@ + decimal(timeout as nat) + "ms"@,
        AutomationError::Config(m) => s == "Configuration error: "@ + m@,
        AutomationError::ScheduleConfigInvalid { reason } => s == "Invalid schedule configuration: "@ + reason@,
        AutomationError::FileSystem(_) => s.len() >= 19 && s.subrange(0, 19) == "File system error: "@,
        AutomationError::Json(_) => s.len() >= 12 && s.subrange(0, 12) == "JSON error: "@,
        AutomationError::ProcessSpawnFailed { command, .. } => {
            let p = "Failed to spawn process '"@ + command@ + "': "@;
            s.len() >= p.len() && s.subrange(0, p.len() as int) == p
        },
    }
}

impl AutomationError {
    /// The error's message, as the program prints it. The texts of I/O and JSON
    /// errors come from their crates; only the prefix before them is stated.
    pub fn message(&self) -> (s: String)
        ensures
            is_message_of(*self, s@),
    {
        match self {
            AutomationError::FileSystem(e) => {
                proof { reveal_strlit("File system error: "); }
                let mut s = "File system error: ".to_string();
                let ghost p = s@;
                s.append(io_error_text(e).as_str());
                assert(s@.subrange(0, 19) =~= p);
                s
            },
            AutomationError::Json(e) => {
                proof { reveal_strlit("JSON error: "); }
                let mut s = "JSON error: ".to_string();
                let ghost p = s@;
                s.append(json_error_text(e).as_str());
                assert(s@.subrange(0, 12) =~= p);
                s
            },
            AutomationError::LockError { task, message } => {
                let mut s = "Lock error for task '".to_string();
                s.append(task.as_str());
                s.append("': ");
                s.append(message.as_str());
                s
            },
            AutomationError::StateError { task, message } => {
                let mut s = "State error for task '".to_string();
                s.append(task.as_str());
                s.append("': ");
                s.append(message.as_str());
                s
            },
            AutomationError::Template(m) => {
                let mut s = "Template error: ".to_string();
                s.append(m.as_str());
                s
            },
            AutomationError::Process(m) => {
                let mut s = "Process execution error: ".to_string();
                s.append(m.as_str());
                s
            },
            AutomationError::LockTimeout { task, timeout } => {
                let mut s = "Lock acquisition timeout for task '".to_string();
                s.append(task.as_str());
                s.append("' after ");
                s.append(u64_to_decimal(*timeout).as_str());
                s.append("ms");
                s
            },
            AutomationError::Config(m) => {
                let mut s = "Configuration error: ".to_string();
                s.append(m.as_str());
                s
            },
            AutomationError::ScheduleConfigInvalid { reason } => {
                let mut s = "Invalid schedule configuration: ".to_string();
                s.append(reason.as_str());
                s
            },
            AutomationError::ProcessSpawnFailed { command, source } => {
                let mut s = "Failed to spawn process '".to_string();
                s.append(command.as_str());
                s.append("': ");
                let ghost p = s@;
                s.append(io_error_text(source).as_str());
                assert(s@.subrange(0, p.len() as int) =~= p);
                s
            },
        }
    }
}

} // verus!
