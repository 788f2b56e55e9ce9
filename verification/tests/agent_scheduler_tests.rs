use automation::agent::{
    agent_lock_path, early_termination_error, handler_executor_config, handler_output_for, handler_output_path,
    mark_run_started_at, record_run_outcome_at, render_handler_output, AgentType, HandlerOutput, ParallelSession,
};
use automation::agent_registry::{AgentInstance, AgentRegistry, AgentStatus};
use automation::bootstrap::{
    build_agent_config, config_load_error_message, config_not_found_message, config_path_or_default, log_level_for,
    resolve_state_dir, resolve_workspace, LogLevel,
};
use automation::error::AutomationError;
use automation::executor::ProcessResult;
use automation::scheduler::{
    backoff_delay, check_can_start, run_cleanup_pass_at, runs_on, CleanupSettings, ExecutionResult, RetryState,
    RetryStep, ScheduleEvent, TaskConfig, TaskStats,
};
use automation::state::State;
use automation::task_registry::{RegistryTaskState, TaskRegistry};
use automation::time::Duration;
use automation::workspace_config::{AgentConfig as AgentSettings, Config as WorkspaceFileConfig, ParallelConfig};

// ---- scheduler ----

#[test]
fn test_task_config_default() {
    let config = TaskConfig::default();
    assert_eq!(config.task_name, "unknown");
    assert_eq!(config.interval, Duration::from_secs(300));
    assert_eq!(config.immediate, false);
    assert_eq!(config.max_retries, 3);
    assert_eq!(config.retry_delay_base, Duration::from_millis(100));
}

#[test]
fn named_task_config() {
    let config = TaskConfig::named("factory-test".to_string());
    assert_eq!(config.task_name, "factory-test");
    assert_eq!(config.max_retries, 3);
}

#[test]
fn test_task_stats_record_success() {
    let mut stats = TaskStats::default();
    stats.record_success();
    stats.record_success();
    assert_eq!(stats.success_count, 2);
    assert_eq!(stats.failure_count, 0);
    assert!(stats.last_run_timestamp.is_some());
}

#[test]
fn test_task_stats_record_failure() {
    let mut stats = TaskStats::default();
    stats.record_failure();
    stats.record_failure();
    assert_eq!(stats.success_count, 0);
    assert_eq!(stats.failure_count, 2);
    assert!(stats.last_run_timestamp.is_some());
}

#[test]
fn test_task_stats_initial_state() {
    let stats = TaskStats::default();
    assert_eq!(stats.success_count, 0);
    assert_eq!(stats.failure_count, 0);
    assert!(stats.last_run_timestamp.is_none());
}

#[test]
fn test_execution_result_variants() {
    let success = ExecutionResult::Success { duration: Duration::from_millis(100) };
    match success {
        ExecutionResult::Success { duration } => assert_eq!(duration.as_millis(), 100),
        _ => panic!("Expected Success variant"),
    }
    let failure = ExecutionResult::Failure { error: anyhow::Error::msg("test error") };
    match failure {
        ExecutionResult::Failure { error } => assert_eq!(error.to_string(), "test error"),
        _ => panic!("Expected Failure variant"),
    }
    let early = ExecutionResult::EarlyTermination {
        reason: "test reason".to_string(),
        duration: Duration::from_millis(50),
    };
    match early {
        ExecutionResult::EarlyTermination { reason, duration } => {
            assert_eq!(reason, "test reason");
            assert_eq!(duration.as_millis(), 50);
        }
        _ => panic!("Expected EarlyTermination variant"),
    }
}

#[test]
fn test_exponential_backoff_calculation() {
    let base = Duration::from_millis(100);
    assert_eq!(backoff_delay(base, 1), Some(Duration::from_millis(200)));
    assert_eq!(backoff_delay(base, 2), Some(Duration::from_millis(400)));
    assert_eq!(backoff_delay(base, 3), Some(Duration::from_millis(800)));
    assert_eq!(backoff_delay(base, 0), Some(Duration::from_millis(100)));
    assert_eq!(backoff_delay(base, 64), None);
    assert_eq!(backoff_delay(Duration::from_millis(u64::MAX), 1), None);
}

#[test]
fn retries_double_and_then_give_up() {
    let base = Duration::from_millis(10);
    let mut retry = RetryState::new();
    let mut stats = TaskStats::default();
    assert_eq!(retry.after_attempt(false, 2, base, &mut stats, 1), RetryStep::RetryAfter(Duration::from_millis(20)));
    assert_eq!(retry.after_attempt(false, 2, base, &mut stats, 2), RetryStep::RetryAfter(Duration::from_millis(40)));
    assert_eq!(retry.after_attempt(false, 2, base, &mut stats, 3), RetryStep::GiveUp);
    assert_eq!(stats.failure_count, 3);
    assert_eq!(stats.last_run_timestamp, Some(3));
    let mut retry = RetryState::new();
    assert_eq!(retry.after_attempt(true, 2, base, &mut stats, 4), RetryStep::Done);
    assert_eq!(stats.success_count, 1);
    assert_eq!(retry.attempt, 0);
}

#[test]
fn no_retries_gives_up_at_once() {
    let mut retry = RetryState::new();
    let mut stats = TaskStats::default();
    assert_eq!(retry.after_attempt(false, 0, Duration::from_millis(10), &mut stats, 1), RetryStep::GiveUp);
}

#[test]
fn a_running_task_cannot_start_again() {
    assert!(check_can_start("build", false).is_ok());
    match check_can_start("build", true) {
        Err(AutomationError::ScheduleConfigInvalid { reason }) => assert_eq!(reason, "Task 'build' is already running"),
        other => panic!("unexpected: {:?}", other),
    }
}

#[test]
fn only_ticks_run_the_task() {
    assert!(runs_on(ScheduleEvent::Tick));
    assert!(!runs_on(ScheduleEvent::Shutdown));
    assert!(!runs_on(ScheduleEvent::CtrlC));
}

#[test]
fn cleanup_settings_from_parallel_config() {
    let p = ParallelConfig::default();
    let s = CleanupSettings::from_parallel_config(&p);
    assert_eq!(s.cleanup_interval, Duration::from_secs(60));
    assert_eq!(s.stale_threshold, Duration::from_secs(90));
    assert_eq!(s.completed_retention, Duration::from_secs(604800));
    assert_eq!(s.stale_agent_retention, Duration::from_secs(3600));
}

#[test]
fn test_cleanup_with_stale_agents() {
    let now = 10_000_000;
    let settings = CleanupSettings {
        cleanup_interval: Duration::from_secs(60),
        stale_threshold: Duration::from_secs(90),
        completed_retention: Duration::from_secs(600),
        stale_agent_retention: Duration::from_secs(300),
    };
    let fresh = AgentInstance::new_at("fresh".to_string(), "prompt".to_string(), "h".to_string(), 1, now - 1_000);
    let stale = AgentInstance::new_at("stale".to_string(), "prompt".to_string(), "h".to_string(), 1, now - 200_000);
    let mut gone = AgentInstance::new_at("gone".to_string(), "prompt".to_string(), "h".to_string(), 1, now - 400_000);
    gone.mark_shutdown();
    let mut agents = AgentRegistry::from_agents("a".to_string(), vec![fresh, stale, gone]).unwrap();
    let mut tasks = TaskRegistry::with_path("t".to_string());
    tasks.register_task("done".to_string(), "d".to_string()).unwrap();
    tasks.register_task("orphan".to_string(), "o".to_string()).unwrap();
    assert!(tasks.claim_task_at("done", "fresh", Duration::from_secs(60), now - 900_000));
    tasks.complete_task_at("done", "fresh", now - 800_000).unwrap();
    assert!(tasks.claim_task_at("orphan", "stale", Duration::from_secs(10), now - 200_000));

    let pass = run_cleanup_pass_at(&mut tasks, &mut agents, &settings, now).unwrap();
    assert_eq!(pass.stale_agents, vec!["stale"]);
    assert_eq!(pass.removed_agents, vec!["gone".to_string()]);
    assert_eq!(pass.removed_tasks, vec!["done"]);
    assert_eq!(pass.abandoned_tasks, vec!["orphan"]);
    assert_eq!(agents.get_agent("stale").unwrap().status, AgentStatus::Stale);
    assert!(!agents.agent_exists("gone"));
    assert_eq!(tasks.get_task("orphan").unwrap().state, RegistryTaskState::Available);
    assert!(tasks.get_task("done").is_none());
}

#[test]
fn a_cleanup_pass_with_a_retention_out_of_range_fails_but_cleans_the_rest() {
    let now = 10_000_000;
    let settings = CleanupSettings {
        cleanup_interval: Duration::from_secs(60),
        stale_threshold: Duration::from_secs(90),
        completed_retention: Duration::from_secs(600),
        stale_agent_retention: Duration::from_millis(u64::MAX),
    };
    let stale = AgentInstance::new_at("stale".to_string(), "prompt".to_string(), "h".to_string(), 1, now - 200_000);
    let mut gone = AgentInstance::new_at("gone".to_string(), "prompt".to_string(), "h".to_string(), 1, now - 400_000);
    gone.mark_shutdown();
    let mut agents = AgentRegistry::from_agents("a".to_string(), vec![stale, gone]).unwrap();
    let mut tasks = TaskRegistry::with_path("t".to_string());
    tasks.register_task("orphan".to_string(), "o".to_string()).unwrap();
    assert!(tasks.claim_task_at("orphan", "stale", Duration::from_secs(10), now - 200_000));

    match run_cleanup_pass_at(&mut tasks, &mut agents, &settings, now) {
        Err(AutomationError::StateError { task, message }) => {
            assert_eq!(task, "AgentRegistry");
            assert_eq!(message, "Cleanup window out of range");
        }
        other => panic!("unexpected: {:?}", other),
    }
    assert_eq!(agents.get_agent("stale").unwrap().status, AgentStatus::Stale);
    assert!(agents.agent_exists("gone"));
    assert_eq!(tasks.get_task("orphan").unwrap().state, RegistryTaskState::Available);
}

// ---- agents ----

#[test]
fn agent_type_names() {
    assert_eq!(AgentType::Architect.to_string(), "architect");
    assert_eq!(AgentType::Janitor.to_string(), "janitor");
    assert_eq!(AgentType::Prompt.to_string(), "prompt");
    assert_eq!(AgentType::CodeReview.to_string(), "code-review");
}

#[test]
fn handler_output_report_texts() {
    let ok = HandlerOutput::Success { stdout: "out".to_string(), stderr: "err".to_string() };
    assert_eq!(
        render_handler_output("prompt", &ok),
        "# Agent Output - prompt\n\n## STDOUT\n\nout\n\n## STDERR\n\nerr\n"
    );
    let e = HandlerOutput::Error { error: "boom".to_string() };
    assert_eq!(
        render_handler_output("prompt", &e),
        "# Agent Output - prompt\n\n**Error:** boom\n\n## STDERR\n\nNo output available\n"
    );
    let t = HandlerOutput::EarlyTermination { reason: "r".to_string(), stdout: "o".to_string(), stderr: "e".to_string() };
    assert_eq!(
        render_handler_output("janitor", &t),
        "# Agent Output - janitor\n\n**Termination:** r\n\n## STDOUT\n\no\n\n## STDERR\n\ne\n"
    );
}

#[test]
fn handler_paths() {
    assert_eq!(handler_output_path("/ws", "prompt"), "/ws/.prompt-output.md");
    assert_eq!(agent_lock_path("/ws/.state", "architect"), "/ws/.state/architect.lock");
}

#[test]
fn handler_output_of_a_result() {
    let r: automation::Result<ProcessResult> = Ok(ProcessResult {
        exit_code: Some(0),
        stdout: "o".to_string(),
        stderr: "e".to_string(),
        terminated_early: true,
        termination_reason: None,
        execution_time_ms: 1,
        error: None,
    });
    match handler_output_for(&r) {
        HandlerOutput::EarlyTermination { reason, stdout, .. } => {
            assert_eq!(reason, "Unknown");
            assert_eq!(stdout, "o");
        }
        other => panic!("unexpected: {:?}", other),
    }
    let r: automation::Result<ProcessResult> = Err(AutomationError::Process("x".to_string()));
    match handler_output_for(&r) {
        HandlerOutput::Error { error } => assert_eq!(error, "Process execution error: x"),
        other => panic!("unexpected: {:?}", other),
    }
}

#[test]
fn handler_executor_settings() {
    let c = handler_executor_config("/ws", Duration::from_secs(1800), "do it".to_string());
    assert_eq!(c.command, "kilocode");
    assert_eq!(c.args, vec!["--mode", "orchestrator", "--auto", "--timeout", "1800", "--workspace", "/ws"]);
    assert_eq!(c.input, Some("do it".to_string()));
    assert_eq!(c.timeout, Duration::from_secs(1800));
}

#[test]
fn run_outcomes_update_the_state() {
    let mut s = State::new();
    mark_run_started_at(&mut s, 10);
    assert_eq!(s.status, "running");
    assert_eq!(s.last_run, Some(10));
    record_run_outcome_at(&mut s, &HandlerOutput::Success { stdout: String::new(), stderr: String::new() }, 4000, 20);
    assert_eq!(s.status, "success");
    assert_eq!(s.average_execution_time_ms, 4000);
    let t = HandlerOutput::EarlyTermination { reason: "Timeout".to_string(), stdout: String::new(), stderr: String::new() };
    record_run_outcome_at(&mut s, &t, 2000, 30);
    assert_eq!(s.status, "failed");
    assert_eq!(s.error_count, 1);
    assert_eq!(s.early_termination_count, 1);
    assert_eq!(s.failed_terminations, 1);
    assert_eq!(s.average_execution_time_ms, 3000);
    assert_eq!(s.last_termination_reason, Some("Timeout".to_string()));
    record_run_outcome_at(&mut s, &HandlerOutput::Error { error: "x".to_string() }, 0, 40);
    assert_eq!(s.failed_terminations, 2);
    assert_eq!(s.average_execution_time_ms, 1500);
}

#[test]
fn early_termination_errors() {
    match early_termination_error("Timeout") {
        AutomationError::Process(m) => assert_eq!(m, "Early termination: Timeout"),
        other => panic!("unexpected: {:?}", other),
    }
}

#[test]
fn parallel_session_only_in_parallel_mode() {
    let config = WorkspaceFileConfig::default();
    assert!(ParallelSession::from_config(AgentType::Prompt, &config).is_none());
    let mut config = WorkspaceFileConfig::default();
    config.parallel.enabled = true;
    let session = ParallelSession::from_config(AgentType::Prompt, &config).unwrap();
    assert!(session.agent_id.starts_with("prompt-"));
    assert_eq!(session.heartbeat_interval(), Duration::from_secs(30));
}

#[test]
fn parallel_session_works_through_the_registries() {
    let mut config = WorkspaceFileConfig::default();
    config.parallel.enabled = true;
    let session = ParallelSession::from_config(AgentType::Janitor, &config).unwrap();
    let mut agents = AgentRegistry::with_path("a".to_string());
    let mut tasks = TaskRegistry::with_path("t".to_string());
    session.register_agent_at(&mut agents, AgentType::Janitor, "h".to_string(), 7, 1_000).unwrap();
    assert_eq!(agents.get_agent(&session.agent_id).unwrap().agent_type, "janitor");
    assert_eq!(session.claim_next_task_at(&mut tasks, 1_000).unwrap(), None);
    tasks.register_task("t1".to_string(), "d".to_string()).unwrap();
    assert_eq!(session.claim_next_task_at(&mut tasks, 1_000).unwrap(), Some("t1".to_string()));
    assert_eq!(tasks.get_task("t1").unwrap().lease_expires_at, Some(601_000));
    assert!(session.send_heartbeat_at(&mut agents, 2_000));
    assert!(session.renew_task_lease_at(&mut tasks, "t1", 3_000).unwrap());
    session.complete_task_at(&mut tasks, "t1", 4_000).unwrap();
    assert_eq!(tasks.get_task("t1").unwrap().state, RegistryTaskState::Completed);
    session.shutdown(&mut agents).unwrap();
    assert_eq!(agents.get_agent(&session.agent_id).unwrap().status, AgentStatus::Shutdown);
}

#[test]
fn settling_a_task_follows_the_run_outcome() {
    let mut config = WorkspaceFileConfig::default();
    config.parallel.enabled = true;
    let session = ParallelSession::from_config(AgentType::Prompt, &config).unwrap();
    let mut tasks = TaskRegistry::with_path("t".to_string());
    for id in ["ok", "early", "err"] {
        tasks.register_task(id.to_string(), "d".to_string()).unwrap();
        assert_eq!(session.claim_next_task_at(&mut tasks, 1_000).unwrap(), Some(id.to_string()));
    }
    let done = HandlerOutput::Success { stdout: String::new(), stderr: String::new() };
    session.settle_task_at(&mut tasks, "ok", &done, 2_000).unwrap();
    assert_eq!(tasks.get_task("ok").unwrap().state, RegistryTaskState::Completed);
    assert_eq!(tasks.get_task("ok").unwrap().task_description, "d");

    let early = HandlerOutput::EarlyTermination {
        reason: "Timeout".to_string(),
        stdout: String::new(),
        stderr: String::new(),
    };
    session.settle_task_at(&mut tasks, "early", &early, 2_000).unwrap();
    let t = tasks.get_task("early").unwrap();
    assert_eq!(t.state, RegistryTaskState::Failed);
    assert_eq!(t.task_description, "d [FAILED: Early termination: Timeout]");
    assert_eq!(t.completed_at, Some(2_000));

    let err = HandlerOutput::Error { error: "boom".to_string() };
    session.settle_task_at(&mut tasks, "err", &err, 3_000).unwrap();
    assert_eq!(tasks.get_task("err").unwrap().task_description, "d [FAILED: boom]");

    // A task that this instance does not hold is refused and left as it is.
    tasks.register_task("other".to_string(), "d".to_string()).unwrap();
    assert!(session.settle_task_at(&mut tasks, "other", &done, 4_000).is_err());
    assert_eq!(tasks.get_task("other").unwrap().state, RegistryTaskState::Available);
}

// ---- bootstrap ----

#[test]
fn config_path_defaults() {
    assert_eq!(config_path_or_default(None), ".automation-rust.toml");
    assert_eq!(config_path_or_default(Some("x.toml".to_string())), "x.toml");
}

#[test]
fn test_bootstrap_agent_config_not_found() {
    let m = config_not_found_message("/nonexistent/path/to/config.toml");
    assert!(m.contains("Config file not found"));
}

#[test]
fn test_bootstrap_agent_invalid_toml() {
    let m = config_load_error_message("/tmp/c.toml", "TOML parsing error: bad");
    assert!(m.contains("Failed to load config"));
    assert_eq!(m, "Failed to load config from /tmp/c.toml: TOML parsing error: bad");
}

#[test]
fn state_and_workspace_resolution() {
    assert_eq!(resolve_state_dir("/etc/a/c.toml", "/ws", ".state"), "/ws/.state");
    assert_eq!(resolve_state_dir("/etc/a/c.toml", "/ws", "/var/state"), "/var/state");
    assert_eq!(resolve_state_dir("/etc/a/c.toml", "/ws", "st"), "/etc/a/st");
    assert_eq!(resolve_workspace("/etc/a/c.toml", "/abs"), ("/abs".to_string(), false));
    assert_eq!(resolve_workspace("/etc/a/c.toml", "rel"), ("/etc/a/rel".to_string(), true));
}

#[test]
fn log_levels_ignore_case() {
    assert_eq!(log_level_for("DEBUG"), LogLevel::Debug);
    assert_eq!(log_level_for("warn"), LogLevel::Warn);
    assert_eq!(log_level_for("Error"), LogLevel::Error);
    assert_eq!(log_level_for("info"), LogLevel::Info);
    assert_eq!(log_level_for("verbose"), LogLevel::Info);
}

#[test]
fn test_bootstrap_agent_architect() {
    let settings = AgentSettings::default_architect();
    let config = build_agent_config(AgentType::Architect, "/ws".to_string(), "/ws/.state".to_string(), &settings);
    assert_eq!(config.agent_type, AgentType::Architect);
    assert_eq!(config.interval_seconds, 2400);
    assert_eq!(config.timeout_seconds, 1800);
    assert!(!config.immediate);
    assert_eq!(config.max_lock_retries, 3);
    assert_eq!(config.lock_timeout_seconds, 30);
}

#[test]
fn test_bootstrap_agent_janitor() {
    let settings = AgentSettings::default_janitor();
    let config = build_agent_config(AgentType::Janitor, "/ws".to_string(), "/ws/.state".to_string(), &settings);
    assert_eq!(config.agent_type, AgentType::Janitor);
    assert_eq!(config.interval_seconds, 1200);
    assert_eq!(config.timeout_seconds, 900);
}

#[test]
fn test_bootstrap_agent_prompt() {
    let settings = AgentSettings::default_prompt();
    let config = build_agent_config(AgentType::Prompt, "/ws".to_string(), "/ws/.state".to_string(), &settings);
    assert_eq!(config.agent_type, AgentType::Prompt);
    assert_eq!(config.interval_seconds, 300);
    assert_eq!(config.timeout_seconds, 180);
    assert_eq!(config.prompt_template, "prompts-prompt/PROMPT.md");
}
