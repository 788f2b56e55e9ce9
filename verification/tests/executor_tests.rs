use automation::error::AutomationError;
use automation::executor::{
    check_not_running, ErrorPatterns, ExecutionMonitor, ExecutorConfig, OutputBuffer, ProcessResult,
};
use automation::time::Duration;

#[test]
fn cli_test_executor_config_default() {
    let config = ExecutorConfig::default();
    assert_eq!(config.command, "kilocode");
    assert_eq!(config.workspace, "/workspace");
    assert_eq!(config.timeout, Duration::from_secs(1800));
    assert_eq!(config.output_buffer_limit, 10 * 1024 * 1024);
}

#[test]
fn executor_config_default_arguments() {
    let config = ExecutorConfig::default();
    assert_eq!(
        config.args,
        vec!["--mode", "orchestrator", "--auto", "--timeout", "1800", "--workspace", "/workspace"]
    );
    assert!(config.input.is_none());
}

#[test]
fn test_output_buffer_new() {
    let buffer = OutputBuffer::new(100);
    assert_eq!(buffer.len(), 0);
    assert!(!buffer.is_full());
}

#[test]
fn test_output_buffer_add_within_limit() {
    let mut buffer = OutputBuffer::new(100);
    let added = buffer.add_stdout(b"hello");
    assert_eq!(added, false);
    assert_eq!(buffer.len(), 5);
    assert!(!buffer.is_full());
    assert_eq!(buffer.get_stdout(), "hello");
}

#[test]
fn test_output_buffer_add_at_limit() {
    let mut buffer = OutputBuffer::new(10);
    let added = buffer.add_stdout(b"hello world");
    assert_eq!(added, true);
    assert_eq!(buffer.len(), 10);
    assert!(buffer.is_full());
    assert_eq!(buffer.get_stdout(), "hello worl");
}

#[test]
fn test_error_patterns_default() {
    let patterns = ErrorPatterns::default();
    assert!(patterns.matches(b"Mistake Limit Reached"));
    assert!(patterns.matches(b"\xE2\x9C\x97 Mistake Limit Reached"));
    assert!(!patterns.matches(b"Normal output"));
}

#[test]
fn cli_test_process_result_default() {
    let result = ProcessResult::default();
    assert_eq!(result.exit_code, None);
    assert_eq!(result.stdout, String::new());
    assert!(!result.terminated_early);
}

#[test]
fn test_output_buffer_within_limit() {
    let mut buffer = OutputBuffer::new(100);
    let data = b"Hello, world!";
    let was_full = buffer.add_stdout(data);
    assert!(!was_full, "Buffer should not be full");
    assert_eq!(buffer.get_stdout(), "Hello, world!");
    assert_eq!(buffer.len(), 13);
}

#[test]
fn test_output_buffer_at_limit() {
    let mut buffer = OutputBuffer::new(10);
    let data = b"0123456789";
    let was_full = buffer.add_stdout(data);
    assert!(!was_full, "Buffer should not be full at exact limit");
    assert_eq!(buffer.get_stdout(), "0123456789");
    assert_eq!(buffer.len(), 10);
}

#[test]
fn test_output_buffer_over_limit() {
    let mut buffer = OutputBuffer::new(10);
    let data = b"0123456789ABCDEF";
    let was_full = buffer.add_stdout(data);
    assert!(was_full, "Buffer should be marked as full");
    assert_eq!(buffer.len(), 10, "Should truncate to limit");
    assert_eq!(buffer.get_stdout(), "0123456789");
}

#[test]
fn test_output_buffer_truncation_behavior() {
    let mut buffer = OutputBuffer::new(15);
    buffer.add_stdout(b"Hello, ");
    assert_eq!(buffer.len(), 7);
    let was_full = buffer.add_stdout(b"world! This will be truncated");
    assert!(was_full);
    assert_eq!(buffer.len(), 15);
    assert_eq!(buffer.get_stdout(), "Hello, world! T");
}

#[test]
fn test_output_buffer_clear() {
    let mut buffer = OutputBuffer::new(100);
    buffer.add_stdout(b"Some data");
    buffer.add_stderr(b"Some error");
    assert!(buffer.len() > 0);
    buffer.clear();
    assert_eq!(buffer.len(), 0);
    assert_eq!(buffer.get_stdout(), "");
    assert_eq!(buffer.get_stderr(), "");
    assert!(!buffer.is_full());
}

#[test]
fn output_buffer_streams_are_bounded_separately() {
    let mut buffer = OutputBuffer::new(4);
    assert!(!buffer.add_stdout(b"abcd"));
    assert!(buffer.add_stderr(b"123456"));
    assert_eq!(buffer.get_stdout(), "abcd");
    assert_eq!(buffer.get_stderr(), "1234");
    assert_eq!(buffer.len(), 8);
    assert!(buffer.is_full());
    // Once full, later chunks keep nothing more.
    assert!(buffer.add_stdout(b"e"));
    assert_eq!(buffer.get_stdout(), "abcd");
}

#[test]
fn output_buffer_decodes_invalid_utf8_lossily() {
    let mut buffer = OutputBuffer::new(10);
    buffer.add_stdout(b"a\xFFb");
    assert_eq!(buffer.get_stdout(), "a\u{FFFD}b");
}

#[test]
fn test_error_patterns_default_mistake_limit() {
    let patterns = ErrorPatterns::default();
    assert!(patterns.matches(b"Mistake Limit Reached"), "Should match 'Mistake Limit Reached'");
    assert!(patterns.matches(b"\xE2\x9C\x97 Mistake Limit Reached"), "Should match with checkmark emoji");
    assert!(patterns.matches(b"X Mistake Limit Reached"), "Should match with X marker");
}

#[test]
fn test_error_patterns_no_match() {
    let patterns = ErrorPatterns::default();
    assert!(!patterns.matches(b"Normal output"), "Should not match normal output");
    assert!(!patterns.matches(b"Task completed successfully"), "Should not match success messages");
}

#[test]
fn test_error_patterns_find_match() {
    let patterns = ErrorPatterns::default();
    let output = b"Some output\nMistake Limit Reached\nMore output";
    let match_result = patterns.find_match(output);
    assert!(match_result.is_some(), "Should find a match");
    assert!(match_result.unwrap().contains("Mistake Limit"), "Match should contain mistake limit pattern");
}

#[test]
fn find_match_returns_the_first_pattern_in_order() {
    let patterns = ErrorPatterns::default();
    assert_eq!(patterns.find_match(b"X Mistake Limit Reached"), Some("Mistake Limit Reached".to_string()));
    assert_eq!(patterns.find_match(b"nothing here"), None);
}

#[test]
fn error_patterns_clone_keeps_the_patterns() {
    let patterns = ErrorPatterns::default();
    let cloned = patterns.clone();
    assert!(cloned.matches(b"Mistake Limit Reached"));
    assert!(!cloned.matches(b"fine"));
}

#[test]
fn integration_test_test_process_result_default() {
    let result = ProcessResult::default();
    assert_eq!(result.exit_code, None);
    assert_eq!(result.stdout, "");
    assert_eq!(result.stderr, "");
    assert!(!result.terminated_early);
    assert!(result.termination_reason.is_none());
    assert_eq!(result.execution_time_ms, 0);
    assert!(result.error.is_none());
}

#[test]
fn integration_test_test_executor_config_default() {
    let config = ExecutorConfig::default();
    assert_eq!(config.command, "kilocode");
    assert_eq!(config.workspace, "/workspace");
    assert_eq!(config.timeout, Duration::from_secs(1800));
    assert_eq!(config.output_buffer_limit, 10 * 1024 * 1024);
    assert_eq!(config.graceful_timeout, Duration::from_secs(5));
    assert_eq!(config.force_timeout, Duration::from_secs(2));
}

#[test]
fn test_executor_config_values() {
    let config = ExecutorConfig {
        command: "test-command".to_string(),
        args: vec!["arg1".to_string(), "arg2".to_string()],
        input: Some("test input".to_string()),
        workspace: "/test/workspace".to_string(),
        timeout: Duration::from_secs(300),
        output_buffer_limit: 5 * 1024 * 1024,
        graceful_timeout: Duration::from_secs(10),
        force_timeout: Duration::from_secs(5),
    };
    assert_eq!(config.command, "test-command");
    assert_eq!(config.args.len(), 2);
    assert_eq!(config.input, Some("test input".to_string()));
    assert_eq!(config.workspace, "/test/workspace");
    assert_eq!(config.output_buffer_limit, 5 * 1024 * 1024);
}

#[test]
fn timed_out_result() {
    let r = ProcessResult::timed_out(Duration::from_secs(3));
    assert_eq!(r.exit_code, None);
    assert!(r.terminated_early);
    assert_eq!(r.termination_reason, Some("Timeout".to_string()));
    assert_eq!(r.execution_time_ms, 3000);
}

#[test]
fn a_second_run_is_refused() {
    assert!(check_not_running(false).is_ok());
    match check_not_running(true) {
        Err(AutomationError::ScheduleConfigInvalid { reason }) => assert_eq!(reason, "Executor is already running"),
        other => panic!("unexpected: {:?}", other),
    }
}

#[test]
fn monitor_stops_on_a_mistake_limit_in_stderr() {
    let mut m = ExecutionMonitor::new(1024, ErrorPatterns::default());
    m.on_stdout(b"working\n");
    assert!(!m.terminated_early());
    m.on_stderr(b"oops: Mistake Limit ");
    assert!(!m.terminated_early());
    m.on_stderr(b"Reached\n");
    assert!(m.terminated_early());
    let r = m.finish(42);
    assert_eq!(r.exit_code, Some(0));
    assert_eq!(r.stdout, "working\n");
    assert_eq!(r.stderr, "oops: Mistake Limit Reached\n");
    assert!(r.terminated_early);
    assert_eq!(r.termination_reason, Some("Error pattern matched: Mistake Limit Reached".to_string()));
    assert_eq!(r.execution_time_ms, 42);
}

#[test]
fn monitor_shutdown_and_ctrl_c() {
    let mut m = ExecutionMonitor::new(8, ErrorPatterns::default());
    m.on_shutdown();
    assert!(m.terminated_early());
    let r = m.finish(1);
    assert_eq!(r.termination_reason, Some("Shutdown signal".to_string()));

    let mut m = ExecutionMonitor::new(8, ErrorPatterns::default());
    assert!(m.on_stdout(b"0123456789"));
    m.on_ctrl_c();
    let r = m.finish(2);
    assert_eq!(r.stdout, "01234567");
    assert_eq!(r.termination_reason, Some("Ctrl+C".to_string()));
}

#[test]
fn an_empty_buffer_decodes_to_empty_text() {
    let buffer = OutputBuffer::new(16);
    assert_eq!(buffer.get_stdout(), "");
    assert_eq!(buffer.get_stderr(), "");
}

#[test]
fn invalid_utf8_is_replaced_when_decoded() {
    let mut buffer = OutputBuffer::new(16);
    buffer.add_stdout(&[b'a', 0xff, b'b']);
    assert_eq!(buffer.get_stdout(), "a\u{fffd}b");
}
