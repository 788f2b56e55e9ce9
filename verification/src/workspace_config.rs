//! The workspace configuration file: its sections, their defaults, and the text
//! form of durations in it.
//!
//! Reading the TOML file is done by the program around the library, into these
//! types.

use vstd::prelude::*;
use crate::text::{decimal, digit_char, u64_to_decimal};
use crate::time::Duration;

verus! {

/// Declares `toml::de::Error` so that TOML errors can be carried.
#[verifier::external_type_specification]
#[verifier::external_body]
pub struct ExTomlError(toml::de::Error);

/// Errors of reading the configuration.
#[derive(Debug)]
pub enum ConfigError {
    /// The file could not be read.
    Io(std::io::Error),
    /// The file is no valid TOML for the configuration.
    TomlParse(toml::de::Error),
    /// A required field is missing.
    MissingField(String),
    /// A field has an invalid value.
    InvalidValue { field: String, message: String },
}

impl ConfigError {
    /// The error's message, as the program prints it; the texts of I/O and TOML
    /// errors come from their crates and are not stated.
    pub fn message(&self) -> (s: String)
        ensures
            match self {
                ConfigError::MissingField(f) => s@ == "Missing required field: "@ + f@,
                ConfigError::InvalidValue { field, message } =>
                    s@ == "Invalid value for field '"@ + field@ + "': "@ + message@,
                ConfigError::Io(_) => s@.len() >= 10 && s@.subrange(0, 10) == "IO error: "@,
                ConfigError::TomlParse(_) => s@.len() >= 20 && s@.subrange(0, 20) == "TOML parsing error: "@,
            },
    {
        match self {
            ConfigError::Io(e) => {
                proof { reveal_strlit("IO error: "); }
                let mut s = "IO error: ".to_string();
                let ghost p = s@;
                s.append(io_error_text(e).as_str());
                assert(s@.subrange(0, 10) =~= p);
                s
            },
            ConfigError::TomlParse(e) => {
                proof { reveal_strlit("TOML parsing error: "); }
                let mut s = "TOML parsing error: ".to_string();
                let ghost p = s@;
                s.append(toml_error_text(e).as_str());
                assert(s@.subrange(0, 20) =~= p);
                s
            },
            ConfigError::MissingField(f) => {
                let mut s = "Missing required field: ".to_string();
                s.append(f.as_str());
                s
            },
            ConfigError::InvalidValue { field, message } => {
                let mut s = "Invalid value for field '".to_string();
                s.append(field.as_str());
                s.append("': ");
                s.append(message.as_str());
                s
            },
        }
    }
}

/// The text of an I/O error.
///
/// Calls `Display` of `std::io::Error`; the text comes from the operating system
/// and is not stated.
#[verifier::external_body]
pub(crate) fn io_error_text(e: &std::io::Error) -> String {
    e.to_string()
}

/// The text of a TOML error.
///
/// Calls `Display` of `toml::de::Error`; its text is not stated.
#[verifier::external_body]
fn toml_error_text(e: &toml::de::Error) -> String {
    e.to_string()
}

/// Result of reading the configuration.
pub type ConfigResult<T> = core::result::Result<T, ConfigError>;

/// The whole configuration.
#[derive(Debug, Clone)]
pub struct Config {
    pub workspace: WorkspaceConfig,
    pub logging: LoggingConfig,
    pub agents: AgentsConfig,
    pub parallel: ParallelConfig,
}

impl Default for Config {
    fn default() -> (c: Self)
        ensures
            c.workspace.path@ == "."@,
            c.workspace.state_path@ == ".state"@,
            c.logging.level@ == "info"@,
            c.logging.format@ == "pretty"@,
            c.logging.colors,
            c.agents.architect.interval_minutes == 40,
            c.agents.janitor.interval_minutes == 20,
            c.agents.prompt.interval_minutes == 5,
            c.agents.code_review.interval_minutes == 30,
            !c.parallel.enabled,
    {
        Config {
            workspace: WorkspaceConfig::default(),
            logging: LoggingConfig::default(),
            agents: AgentsConfig::default(),
            parallel: ParallelConfig::default(),
        }
    }
}

impl Config {
    /// Whether several instances of an agent type may run at once.
    pub fn is_parallel_mode_enabled(&self) -> (b: bool)
        ensures
            b == self.parallel.enabled,
    {
        self.parallel.enabled
    }
}

/// Where the workspace and its state are.
#[derive(Debug, Clone)]
pub struct WorkspaceConfig {
    pub path: String,
    pub state_path: String,
}

impl Default for WorkspaceConfig {
    fn default() -> (c: Self)
        ensures
            c.path@ == "."@,
            c.state_path@ == ".state"@,
    {
        WorkspaceConfig { path: ".".to_string(), state_path: ".state".to_string() }
    }
}

/// Logging settings of the configuration file.
#[derive(Debug, Clone)]
pub struct LoggingConfig {
    pub level: String,
    pub format: String,
    pub colors: bool,
}

impl Default for LoggingConfig {
    fn default() -> (c: Self)
        ensures
            c.level@ == "info"@,
            c.format@ == "pretty"@,
            c.colors,
    {
        LoggingConfig { level: "info".to_string(), format: "pretty".to_string(), colors: true }
    }
}

/// The settings of each agent.
#[derive(Debug, Clone)]
pub struct AgentsConfig {
    pub architect: AgentConfig,
    pub janitor: AgentConfig,
    pub prompt: AgentConfig,
    pub code_review: AgentConfig,
}

impl Default for AgentsConfig {
    fn default() -> (c: Self)
        ensures
            c.architect.interval_minutes == 40 && c.architect.timeout_minutes == 30,
            c.janitor.interval_minutes == 20 && c.janitor.timeout_minutes == 15,
            c.prompt.interval_minutes == 5 && c.prompt.timeout_minutes == 3,
            c.code_review.interval_minutes == 30 && c.code_review.timeout_minutes == 25,
    {
        AgentsConfig {
            architect: AgentConfig::default_architect(),
            janitor: AgentConfig::default_janitor(),
            prompt: AgentConfig::default_prompt(),
            code_review: AgentConfig::default_code_review(),
        }
    }
}

/// The schedule and prompt of one agent.
#[derive(Debug, Clone)]
pub struct AgentConfig {
    /// Minutes between runs.
    pub interval_minutes: u64,
    /// Minutes a run may take.
    pub timeout_minutes: u64,
    /// Whether to run once at start.
    pub immediate: bool,
    /// Path of the prompt template.
    pub prompt_template: String,
    pub lock: LockConfig,
}

impl Default for AgentConfig {
    fn default() -> (c: Self)
        ensures
            c.interval_minutes == 5,
            c.timeout_minutes == 3,
            !c.immediate,
            c.prompt_template@ == Seq::<char>::empty(),
            c.lock.max_retries == 3 && c.lock.timeout_seconds == 30,
    {
        AgentConfig {
            interval_minutes: 5,
            timeout_minutes: 3,
            immediate: false,
            prompt_template: String::new(),
            lock: LockConfig::default(),
        }
    }
}

impl AgentConfig {
    /// The architect: every 40 minutes, 30 minutes at most.
    pub fn default_architect() -> (c: Self)
        ensures
            c.interval_minutes == 40,
            c.timeout_minutes == 30,
            !c.immediate,
            c.prompt_template@ == "prompts-architect/ARCHITECT.md"@,
            c.lock.max_retries == 3 && c.lock.timeout_seconds == 30,
    {
        AgentConfig {
            interval_minutes: 40,
            timeout_minutes: 30,
            immediate: false,
            prompt_template: "prompts-architect/ARCHITECT.md".to_string(),
            lock: LockConfig::default(),
        }
    }

    /// The janitor: every 20 minutes, 15 minutes at most.
    pub fn default_janitor() -> (c: Self)
        ensures
            c.interval_minutes == 20,
            c.timeout_minutes == 15,
            !c.immediate,
            c.prompt_template@ == "prompts-janitor/JANITOR.md"@,
            c.lock.max_retries == 3 && c.lock.timeout_seconds == 30,
    {
        AgentConfig {
            interval_minutes: 20,
            timeout_minutes: 15,
            immediate: false,
            prompt_template: "prompts-janitor/JANITOR.md".to_string(),
            lock: LockConfig::default(),
        }
    }

    /// The prompt agent: every 5 minutes, 3 minutes at most.
    pub fn default_prompt() -> (c: Self)
        ensures
            c.interval_minutes == 5,
            c.timeout_minutes == 3,
            !c.immediate,
            c.prompt_template@ == "prompts-prompt/PROMPT.md"@,
            c.lock.max_retries == 3 && c.lock.timeout_seconds == 30,
    {
        AgentConfig {
            interval_minutes: 5,
            timeout_minutes: 3,
            immediate: false,
            prompt_template: "prompts-prompt/PROMPT.md".to_string(),
            lock: LockConfig::default(),
        }
    }

    /// The code review agent: every 30 minutes, 25 minutes at most, no template.
    pub fn default_code_review() -> (c: Self)
        ensures
            c.interval_minutes == 30,
            c.timeout_minutes == 25,
            !c.immediate,
            c.prompt_template@ == Seq::<char>::empty(),
            c.lock.max_retries == 3 && c.lock.timeout_seconds == 30,
    {
        AgentConfig {
            interval_minutes: 30,
            timeout_minutes: 25,
            immediate: false,
            prompt_template: String::new(),
            lock: LockConfig::default(),
        }
    }
}

/// How an agent waits for its lock.
#[derive(Debug, Clone, Copy, PartialEq, Eq, Structural)]
pub struct LockConfig {
    pub max_retries: u32,
    pub timeout_seconds: u64,
}

impl Default for LockConfig {
    fn default() -> (c: Self)
        ensures
            c.max_retries == 3,
            c.timeout_seconds == 30,
    {
        LockConfig { max_retries: 3, timeout_seconds: 30 }
    }
}

/// Settings of parallel mode.
#[derive(Debug, Clone, Copy, PartialEq, Eq, Structural)]
pub struct ParallelConfig {
    /// Whether several instances of an agent type may run at once.
    pub enabled: bool,
    /// How often agents send heartbeats.
    pub heartbeat_interval: Duration,
    /// Silence after which an agent is stale.
    pub stale_agent_threshold: Duration,
    /// Length of a task lease.
    pub task_lease_duration: Duration,
    /// Cap on instances of one agent type, if any.
    pub max_instances_per_type: Option<usize>,
    /// How long completed tasks stay in the registry.
    pub completed_task_retention: Duration,
    /// How long stale agents stay in the registry.
    pub stale_agent_retention: Duration,
}

impl Default for ParallelConfig {
    fn default() -> (c: Self)
        ensures
            !c.enabled,
            c.heartbeat_interval.ms() == 30_000,
            c.stale_agent_threshold.ms() == 90_000,
            c.task_lease_duration.ms() == 600_000,
            c.max_instances_per_type is None,
            c.completed_task_retention.ms() == 604_800_000,
            c.stale_agent_retention.ms() == 3_600_000,
    {
        ParallelConfig {
            enabled: false,
            heartbeat_interval: Duration::from_secs(30),
            stale_agent_threshold: Duration::from_secs(90),
            task_lease_duration: Duration::from_secs(10 * 60),
            max_instances_per_type: None,
            completed_task_retention: Duration::from_secs(7 * 24 * 60 * 60),
            stale_agent_retention: Duration::from_secs(60 * 60),
        }
    }
}

/// Three decimal digits of `n` (below 1000), with leading zeros.
pub open spec fn three_digits(n: nat) -> Seq<char> {
    seq![digit_char(n / 100), digit_char((n / 10) % 10), digit_char(n % 10)]
}

/// The text of a duration in the configuration file: whole days, hours, minutes
/// or seconds in the largest unit that divides it (`7d`, `1h`, `10m`, `30s`), or
/// seconds with three decimals when it is not whole seconds (`1.500s`).
pub open spec fn duration_text_spec(ms: nat) -> Seq<char> {
    let secs = ms / 1000;
    let sub = ms % 1000;
    if sub == 0 {
        if secs % 86400 == 0 && secs >= 86400 {
            decimal(secs / 86400) + "d"@
        } else if secs % 3600 == 0 && secs >= 3600 {
            decimal(secs / 3600) + "h"@
        } else if secs % 60 == 0 && secs >= 60 {
            decimal(secs / 60) + "m"@
        } else {
            decimal(secs) + "s"@
        }
    } else {
        decimal(secs) + "."@ + three_digits(sub) + "s"@
    }
}

fn three_digit_text(n: u64) -> (s: String)
    requires
        n < 1000,
    ensures
        s@ == three_digits(n as nat),
{
    let mut s = u64_to_decimal(n / 100);
    s.append(u64_to_decimal((n / 10) % 10).as_str());
    s.append(u64_to_decimal(n % 10).as_str());
    s
}

/// Writes a duration as the configuration file holds it (see
/// [`duration_text_spec`]).
pub fn duration_text(d: Duration) -> (s: String)
    ensures
        s@ == duration_text_spec(d.ms()),
{
    let secs = d.millis / 1000;
    let sub = d.millis % 1000;
    if sub == 0 {
        if secs % 86400 == 0 && secs >= 86400 {
            let mut s = u64_to_decimal(secs / 86400);
            s.append("d");
            s
        } else if secs % 3600 == 0 && secs >= 3600 {
            let mut s = u64_to_decimal(secs / 3600);
            s.append("h");
            s
        } else if secs % 60 == 0 && secs >= 60 {
            let mut s = u64_to_decimal(secs / 60);
            s.append("m");
            s
        } else {
            let mut s = u64_to_decimal(secs);
            s.append("s");
            s
        }
    } else {
        let mut s = u64_to_decimal(secs);
        s.append(".");
        s.append(three_digit_text(sub).as_str());
        s.append("s");
        s
    }
}

} // verus!
