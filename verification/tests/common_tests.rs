use automation::config::{parse_log_level, resolve_path, Config};
use automation::error::{lock_error, state_error, AutomationError};
use automation::logging::{env_settings, simple_settings, workspace_settings, LogFormat, LoggingConfig};
use automation::time::Duration;
use automation::workspace_config::{
    duration_text, AgentConfig, AgentsConfig, Config as WorkspaceFileConfig, ConfigError, LockConfig,
    LoggingConfig as WorkspaceLoggingConfig, ParallelConfig, WorkspaceConfig,
};
use automation::Result;

#[test]
fn lib_it_works() {
    let result = 2 + 2;
    assert_eq!(result, 4);
}

#[test]
fn test_error_module_exists() {
    let _err = AutomationError::FileSystem(std::io::Error::new(std::io::ErrorKind::NotFound, "test error"));
}

#[test]
fn test_result_module_exists() {
    let _result: Result<i32> = Ok(42);
}

#[test]
fn test_logging_module_exists() {
    let _config = LoggingConfig {
        level: "info".to_string(),
        format: LogFormat::Pretty,
        with_file: false,
        with_target: true,
    };
}

#[test]
fn test_config_module_exists() {
    let config = Config::default();
    assert_eq!(config.config, ".automation-rust.toml");
    assert!(config.log_level.is_none());
    assert_eq!(config.verbose, false);
    assert_eq!(config.debug, false);
}

// ---- config ----

#[test]
fn test_resolve_path_absolute() {
    let resolved = resolve_path("/absolute/path", "/base");
    assert_eq!(resolved, "/absolute/path");
}

#[test]
fn test_resolve_path_relative() {
    let resolved = resolve_path("relative/path", "/base");
    assert_eq!(resolved, "/base/relative/path");
}

#[test]
fn test_resolve_path_dotslash() {
    let resolved = resolve_path("./path", "/base");
    assert_eq!(resolved, "/base/./path");
}

#[test]
fn test_resolve_path_dotdot() {
    let resolved = resolve_path("../path", "/base/dir");
    assert_eq!(resolved, "/base/dir/../path");
}

#[test]
fn resolve_path_onto_base_with_trailing_slash() {
    assert_eq!(resolve_path("x", "/base/"), "/base/x");
    assert_eq!(resolve_path("x", ""), "x");
}

#[test]
fn config_test_default_config() {
    let config = Config::default();
    assert_eq!(config.config, ".automation-rust.toml");
    assert!(config.log_level.is_none());
    assert_eq!(config.verbose, false);
    assert_eq!(config.debug, false);
}

#[test]
fn test_get_log_level() {
    let config = Config { log_level: Some("warn".to_string()), ..Default::default() };
    assert_eq!(config.get_log_level(), Some("warn"));

    let config = Config { verbose: true, ..Default::default() };
    assert_eq!(config.get_log_level(), Some("debug"));

    let config = Config { debug: true, ..Default::default() };
    assert_eq!(config.get_log_level(), Some("debug"));

    let config = Config::default();
    assert_eq!(config.get_log_level(), None);
}

#[test]
fn verbose_overrides_a_given_log_level() {
    let config = Config { log_level: Some("trace".to_string()), verbose: true, ..Default::default() };
    assert_eq!(config.get_log_level(), Some("debug"));
}

#[test]
fn parse_log_level_accepts_any_case() {
    assert_eq!(parse_log_level("TRACE"), Ok("trace".to_string()));
    assert_eq!(parse_log_level("Warn"), Ok("warn".to_string()));
    assert_eq!(parse_log_level("error"), Ok("error".to_string()));
}

#[test]
fn parse_log_level_rejects_unknown_levels() {
    assert_eq!(
        parse_log_level("loud"),
        Err("Invalid log level 'loud'. Valid options: trace, debug, info, warn, error".to_string())
    );
}

// ---- error ----

#[test]
fn test_filesystem_error() {
    let io_err = std::io::Error::new(std::io::ErrorKind::NotFound, "file not found");
    let err = AutomationError::FileSystem(io_err);
    assert!(matches!(err, AutomationError::FileSystem(_)));
    assert!(err.message().contains("File system error"));
    assert!(err.message().contains("file not found"));
}

#[test]
fn test_json_error() {
    let json_err = serde_json::from_str::<serde_json::Value>("invalid json").unwrap_err();
    let err = AutomationError::Json(json_err);
    assert!(matches!(err, AutomationError::Json(_)));
    assert!(err.message().contains("JSON error"));
}

#[test]
fn test_lock_error() {
    let err = AutomationError::LockError {
        task: "test-task".to_string(),
        message: "Could not acquire lock".to_string(),
    };
    assert!(matches!(err, AutomationError::LockError { .. }));
    assert!(err.message().contains("test-task"));
    assert!(err.message().contains("Could not acquire lock"));
}

#[test]
fn test_state_error() {
    let err = AutomationError::StateError {
        task: "test-task".to_string(),
        message: "State corrupted".to_string(),
    };
    assert!(matches!(err, AutomationError::StateError { .. }));
    assert!(err.message().contains("test-task"));
    assert!(err.message().contains("State corrupted"));
}

#[test]
fn test_template_error() {
    let err = AutomationError::Template("Invalid template syntax".to_string());
    assert!(matches!(err, AutomationError::Template(_)));
    assert!(err.message().contains("Invalid template syntax"));
}

#[test]
fn test_process_error() {
    let err = AutomationError::Process("Command failed with exit code 1".to_string());
    assert!(matches!(err, AutomationError::Process(_)));
    assert!(err.message().contains("Command failed with exit code 1"));
}

#[test]
fn error_test_lock_timeout() {
    let err = AutomationError::LockTimeout { task: "test-task".to_string(), timeout: 5000 };
    assert!(matches!(err, AutomationError::LockTimeout { .. }));
    assert!(err.message().contains("test-task"));
    assert!(err.message().contains("5000"));
}

#[test]
fn test_config_error() {
    let err = AutomationError::Config("Missing required field".to_string());
    assert!(matches!(err, AutomationError::Config(_)));
    assert!(err.message().contains("Missing required field"));
}

#[test]
fn error_test_result_ok() {
    let result: Result<i32> = Ok(42);
    assert!(result.is_ok());
    assert_eq!(result.unwrap(), 42);
}

#[test]
fn error_test_result_err() {
    let err = AutomationError::LockError { task: "test-task".to_string(), message: "Error".to_string() };
    let result: Result<i32> = Err(err);
    assert!(result.is_err());
    assert!(matches!(result.unwrap_err(), AutomationError::LockError { .. }));
}

#[test]
fn test_schedule_config_invalid() {
    let err = AutomationError::ScheduleConfigInvalid { reason: "Invalid cron expression".to_string() };
    assert!(matches!(err, AutomationError::ScheduleConfigInvalid { .. }));
    assert!(err.message().contains("Invalid schedule configuration"));
    assert!(err.message().contains("Invalid cron expression"));
}

#[test]
fn test_process_spawn_failed() {
    let io_err = std::io::Error::new(std::io::ErrorKind::NotFound, "executable not found");
    let err = AutomationError::ProcessSpawnFailed { command: "npm run build".to_string(), source: io_err };
    assert!(matches!(err, AutomationError::ProcessSpawnFailed { .. }));
    assert!(err.message().contains("Failed to spawn process"));
    assert!(err.message().contains("npm run build"));
    assert!(err.message().contains("executable not found"));
}

#[test]
fn error_messages_are_exact() {
    let err = AutomationError::LockTimeout { task: "t".to_string(), timeout: 250 };
    assert_eq!(err.message(), "Lock acquisition timeout for task 't' after 250ms");
    assert_eq!(state_error("a", "b").message(), "State error for task 'a': b");
    assert_eq!(lock_error("a", "b").message(), "Lock error for task 'a': b");
    assert_eq!(AutomationError::Config("x".to_string()).message(), "Configuration error: x");
    assert_eq!(AutomationError::Template("y".to_string()).message(), "Template error: y");
    assert_eq!(AutomationError::Process("z".to_string()).message(), "Process execution error: z");
}

// ---- result ----

#[test]
fn result_test_result_ok() {
    let result: Result<String> = Ok("success".to_string());
    assert!(result.is_ok());
    assert!(!result.is_err());
    assert_eq!(result.unwrap(), "success");
}

#[test]
fn result_test_result_err() {
    let err = AutomationError::FileSystem(std::io::Error::new(std::io::ErrorKind::NotFound, "not found"));
    let result: Result<String> = Err(err);
    assert!(result.is_err());
    assert!(!result.is_ok());
    assert!(matches!(result.unwrap_err(), AutomationError::FileSystem(_)));
}

#[test]
fn test_result_map() {
    let result: Result<i32> = Ok(5);
    let mapped = result.map(|x| x * 2);
    assert_eq!(mapped.unwrap(), 10);
}

#[test]
fn test_result_map_err() {
    let result: Result<i32> =
        Err(AutomationError::FileSystem(std::io::Error::new(std::io::ErrorKind::NotFound, "not found")));
    let mapped = result.map_err(|e| format!("Error: {}", e.message()));
    assert!(mapped.is_err());
    assert!(mapped.unwrap_err().contains("File system error"));
}

#[test]
fn test_result_and_then() {
    let result: Result<i32> = Ok(5);
    let chained = result.and_then(|x| {
        if x > 0 {
            Ok(x * 2)
        } else {
            Err(AutomationError::Config("must be positive".to_string()))
        }
    });
    assert_eq!(chained.unwrap(), 10);
}

#[test]
fn test_result_or_else() {
    let result: Result<i32> = Err(AutomationError::Config("test error".to_string()));
    let value: Result<i32> = result.or_else(|_| Ok(42));
    assert_eq!(value.unwrap(), 42);
}

// ---- workspace configuration ----

#[test]
fn workspace_config_test_default_config() {
    let config = WorkspaceFileConfig::default();
    assert_eq!(config.workspace.path, ".");
    assert_eq!(config.workspace.state_path, ".state");
    assert_eq!(config.logging.level, "info");
    assert_eq!(config.logging.format, "pretty");
    assert_eq!(config.logging.colors, true);
}

#[test]
fn test_default_workspace_config() {
    let config = WorkspaceConfig::default();
    assert_eq!(config.path, ".");
    assert_eq!(config.state_path, ".state");
}

#[test]
fn test_default_logging_config() {
    let config = WorkspaceLoggingConfig::default();
    assert_eq!(config.level, "info");
    assert_eq!(config.format, "pretty");
    assert_eq!(config.colors, true);
}

#[test]
fn test_default_lock_config() {
    let config = LockConfig::default();
    assert_eq!(config.max_retries, 3);
    assert_eq!(config.timeout_seconds, 30);
}

#[test]
fn test_default_agent_config() {
    let config = AgentConfig::default();
    assert_eq!(config.interval_minutes, 5);
    assert_eq!(config.timeout_minutes, 3);
    assert_eq!(config.immediate, false);
    assert!(config.prompt_template.is_empty());
}

#[test]
fn test_default_architect_config() {
    let config = AgentConfig::default_architect();
    assert_eq!(config.interval_minutes, 40);
    assert_eq!(config.timeout_minutes, 30);
    assert_eq!(config.immediate, false);
    assert_eq!(config.prompt_template, "prompts-architect/ARCHITECT.md");
}

#[test]
fn test_default_janitor_config() {
    let config = AgentConfig::default_janitor();
    assert_eq!(config.interval_minutes, 20);
    assert_eq!(config.timeout_minutes, 15);
    assert_eq!(config.immediate, false);
    assert_eq!(config.prompt_template, "prompts-janitor/JANITOR.md");
}

#[test]
fn test_default_prompt_config() {
    let config = AgentConfig::default_prompt();
    assert_eq!(config.interval_minutes, 5);
    assert_eq!(config.timeout_minutes, 3);
    assert_eq!(config.immediate, false);
    assert_eq!(config.prompt_template, "prompts-prompt/PROMPT.md");
}

#[test]
fn test_default_agents_config() {
    let config = AgentsConfig::default();
    assert_eq!(config.architect.interval_minutes, 40);
    assert_eq!(config.janitor.interval_minutes, 20);
    assert_eq!(config.prompt.interval_minutes, 5);
}

#[test]
fn test_default_parallel_config() {
    let config = ParallelConfig::default();
    assert_eq!(config.enabled, false);
    assert_eq!(config.heartbeat_interval, Duration::from_secs(30));
    assert_eq!(config.stale_agent_threshold, Duration::from_secs(90));
    assert_eq!(config.task_lease_duration, Duration::from_secs(600));
    assert_eq!(config.max_instances_per_type, None);
    assert_eq!(config.completed_task_retention, Duration::from_secs(604800));
    assert_eq!(config.stale_agent_retention, Duration::from_secs(3600));
}

#[test]
fn test_config_with_parallel_disabled() {
    let config = WorkspaceFileConfig::default();
    assert!(!config.is_parallel_mode_enabled());
    assert_eq!(config.parallel.enabled, false);
}

#[test]
fn parallel_mode_follows_the_enabled_flag() {
    let mut config = WorkspaceFileConfig::default();
    config.parallel.enabled = true;
    assert!(config.is_parallel_mode_enabled());
}

#[test]
fn duration_text_uses_the_largest_whole_unit() {
    assert_eq!(duration_text(Duration::from_secs(30)), "30s");
    assert_eq!(duration_text(Duration::from_secs(90)), "90s");
    assert_eq!(duration_text(Duration::from_secs(600)), "10m");
    assert_eq!(duration_text(Duration::from_secs(3600)), "1h");
    assert_eq!(duration_text(Duration::from_secs(604800)), "7d");
    assert_eq!(duration_text(Duration::from_millis(1500)), "1.500s");
    assert_eq!(duration_text(Duration::from_millis(0)), "0s");
}

#[test]
fn config_error_messages() {
    assert_eq!(ConfigError::MissingField("agents".to_string()).message(), "Missing required field: agents");
    assert_eq!(
        ConfigError::InvalidValue { field: "f".to_string(), message: "bad".to_string() }.message(),
        "Invalid value for field 'f': bad"
    );
    let io = ConfigError::Io(std::io::Error::new(std::io::ErrorKind::NotFound, "gone"));
    assert_eq!(io.message(), "IO error: gone");
}

// ---- logging ----

#[test]
fn test_logging_config_default() {
    let config = LoggingConfig::default();
    assert_eq!(config.level, "info");
    assert_eq!(config.with_file, false);
    assert_eq!(config.with_target, true);
    assert_eq!(config.format, LogFormat::Pretty);
}

#[test]
fn test_log_format_from_str() {
    assert_eq!(LogFormat::from_str("json"), Ok(LogFormat::Json));
    assert_eq!(LogFormat::from_str("JSON"), Ok(LogFormat::Json));
    assert_eq!(LogFormat::from_str("pretty"), Ok(LogFormat::Pretty));
    assert_eq!(LogFormat::from_str("PRETTY"), Ok(LogFormat::Pretty));
    assert!(LogFormat::from_str("invalid").is_err());
}

#[test]
fn log_format_error_names_the_value() {
    assert_eq!(
        LogFormat::from_str("xml"),
        Err("Invalid log format 'xml'. Valid: 'json', 'pretty'".to_string())
    );
}

#[test]
fn test_log_format_properties() {
    let json = LogFormat::Json;
    let pretty = LogFormat::Pretty;
    assert_eq!(json, LogFormat::Json);
    assert_eq!(pretty, LogFormat::Pretty);
    assert_ne!(json, pretty);
    let debug_str = format!("{:?}", json);
    assert!(debug_str.contains("Json"));
}

#[test]
fn test_logging_config_clone() {
    let config = LoggingConfig {
        level: "trace".to_string(),
        format: LogFormat::Json,
        with_file: true,
        with_target: false,
    };
    let cloned = config.clone();
    assert_eq!(config.level, cloned.level);
    assert_eq!(config.format, cloned.format);
    assert_eq!(config.with_file, cloned.with_file);
    assert_eq!(config.with_target, cloned.with_target);
}

#[test]
fn build_formats() {
    assert_eq!(LogFormat::for_build(true), LogFormat::Pretty);
    assert_eq!(LogFormat::for_build(false), LogFormat::Json);
}

#[test]
fn simple_settings_follow_the_build() {
    let c = simple_settings("warn", true);
    assert_eq!(c.level, "warn");
    assert_eq!(c.format, LogFormat::Pretty);
    assert!(c.with_file);
    assert!(c.with_target);
    let c = simple_settings("warn", false);
    assert_eq!(c.format, LogFormat::Json);
    assert!(!c.with_file);
}

#[test]
fn env_settings_default_and_unknown_format() {
    let c = env_settings(None, None, true);
    assert_eq!(c.level, "info");
    assert_eq!(c.format, LogFormat::Pretty);
    let c = env_settings(Some("debug".to_string()), Some("JSON".to_string()), true);
    assert_eq!(c.level, "debug");
    assert_eq!(c.format, LogFormat::Json);
    let c = env_settings(None, Some("invalid_format".to_string()), false);
    assert_eq!(c.format, LogFormat::Json);
}

#[test]
fn workspace_settings_reads_the_logging_section() {
    let section = WorkspaceLoggingConfig { level: "debug".to_string(), format: "json".to_string(), colors: false };
    let c = workspace_settings(&section).unwrap();
    assert_eq!(c.level, "debug");
    assert_eq!(c.format, LogFormat::Json);
    assert!(c.with_file);
    assert!(c.with_target);
}

#[test]
fn workspace_settings_refuses_an_unknown_format() {
    let section = WorkspaceLoggingConfig { level: "info".to_string(), format: "invalid".to_string(), colors: true };
    match workspace_settings(&section) {
        Err(AutomationError::Config(m)) => {
            assert_eq!(m, "LOG_FORMAT: Invalid log format 'invalid'. Valid: 'json', 'pretty'")
        }
        other => panic!("unexpected result: {:?}", other),
    }
}
