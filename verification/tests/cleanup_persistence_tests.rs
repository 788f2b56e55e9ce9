use automation::cleanup::{
    backup_timestamp, backups_to_remove_at, clean_mistakes_at, get_default_cleanup_config, should_cleanup_state,
    should_cleanup_state_at, CleanupConfig, CleanupManager, CleanupReport, CleanupStats,
};
use automation::error::AutomationError;
use automation::persistence::{
    get_backup_path, get_state_file_path, get_task_state_file_path, loaded_task_state, lock_file_path_for_state,
    select_backups, sort_newest_first, DirEntryInfo, StateManager, TimedPath,
};
use automation::state::{LockInfo, Mistake, State, TaskState, TaskStatus};
use automation::time::Duration;

/// The current time in milliseconds since the epoch.
fn now_millis() -> i64 {
    chrono::Utc::now().timestamp_millis()
}

fn manager(agent: &str) -> StateManager {
    StateManager::new("/tmp/.state".to_string(), agent)
}

// ---- cleanup ----

#[test]
fn test_cleanup_config_defaults() {
    let config = CleanupConfig::default();
    assert!(config.max_backups.is_none());
    assert!(config.max_backup_age.is_none());
    assert!(config.max_state_age.is_none());
    assert!(config.max_mistake_age.is_none());
    assert!(config.stale_lock_timeout.is_none());
}

#[test]
fn test_get_default_cleanup_config() {
    let config = get_default_cleanup_config();
    assert_eq!(config.max_backups, Some(10));
    assert_eq!(config.max_backup_age, Some(Duration::from_secs(7 * 24 * 60 * 60)));
    assert_eq!(config.max_state_age, Some(Duration::from_secs(30 * 24 * 60 * 60)));
    assert_eq!(config.max_mistake_age, Some(Duration::from_secs(24 * 60 * 60)));
    assert_eq!(config.stale_lock_timeout, Some(Duration::from_secs(5 * 60)));
}

#[test]
fn test_should_cleanup_state() {
    let state = State::new();
    assert!(!should_cleanup_state(&state, Duration::from_secs(3600)));
    let mut state = State::new();
    state.update_last_run(now_millis());
    assert!(!should_cleanup_state(&state, Duration::from_secs(3600)));
    state.update_last_run(now_millis() - 7_200_000);
    assert!(should_cleanup_state(&state, Duration::from_secs(3600)));
}

#[test]
fn state_age_threshold_is_strict() {
    let mut state = State::new();
    state.update_last_run(1_000);
    assert!(!should_cleanup_state_at(&state, Duration::from_secs(1), 2_000));
    assert!(should_cleanup_state_at(&state, Duration::from_secs(1), 2_001));
}

#[test]
fn test_cleanup_stats() {
    let mut stats1 = CleanupStats::new();
    stats1.items_removed = 5;
    stats1.items_kept = 10;
    stats1.space_freed_bytes = 1024;
    let mut stats2 = CleanupStats::new();
    stats2.items_removed = 3;
    stats2.items_kept = 7;
    stats2.space_freed_bytes = 512;
    stats1.add(&stats2);
    assert_eq!(stats1.items_removed, 8);
    assert_eq!(stats1.items_kept, 17);
    assert_eq!(stats1.space_freed_bytes, 1536);
}

#[test]
fn cleanup_stats_record_removal_and_lock() {
    let mut s = CleanupStats::new();
    s.record_removal(100);
    s.record_removal(50);
    assert_eq!(s.items_removed, 2);
    assert_eq!(s.space_freed_bytes, 150);
    assert_eq!(CleanupStats::for_lock(true), CleanupStats { items_removed: 1, items_kept: 0, space_freed_bytes: 0 });
    assert_eq!(CleanupStats::for_lock(false), CleanupStats { items_removed: 0, items_kept: 1, space_freed_bytes: 0 });
}

#[test]
fn test_cleanup_report_new() {
    let report = CleanupReport::new();
    assert_eq!(report.backup_stats.items_removed, 0);
    assert_eq!(report.mistake_stats.items_removed, 0);
    assert_eq!(report.lock_stats.items_removed, 0);
    assert!(!report.state_reset);
    assert_eq!(report.total_bytes_freed, 0);
}

#[test]
fn report_sums_the_bytes_of_the_parts() {
    let b = CleanupStats { items_removed: 2, items_kept: 1, space_freed_bytes: 300 };
    let m = CleanupStats { items_removed: 1, items_kept: 0, space_freed_bytes: 0 };
    let l = CleanupStats { items_removed: 1, items_kept: 0, space_freed_bytes: 20 };
    let r = CleanupReport::assemble(b, m, l, true);
    assert_eq!(r.total_bytes_freed, 320);
    assert_eq!(r.backup_stats, b);
    assert_eq!(r.lock_stats, l);
    assert!(r.state_reset);
}

#[test]
fn test_cleanup_backups_no_backups() {
    let config = CleanupConfig { max_backups: Some(5), ..Default::default() };
    let cleanup_manager = CleanupManager::new(manager("test_agent"), config);
    let removed = cleanup_manager.cleanup_backups(Vec::new(), now_millis()).unwrap();
    assert!(removed.is_empty());
}

#[test]
fn backups_beyond_the_count_and_too_old_are_removed() {
    let now = 10_000_000;
    let backups = vec![
        TimedPath { path: "b1".to_string(), time_ms: now - 1_000 },
        TimedPath { path: "b3".to_string(), time_ms: now - 3_000 },
        TimedPath { path: "b2".to_string(), time_ms: now - 2_000 },
        TimedPath { path: "old".to_string(), time_ms: now - 9_000_000 },
    ];
    let removed = backups_to_remove_at(backups, Some(3), None, now).unwrap();
    assert_eq!(removed, vec!["old"]);
    let backups = vec![
        TimedPath { path: "b1".to_string(), time_ms: now - 1_000 },
        TimedPath { path: "b2".to_string(), time_ms: now - 2_000 },
        TimedPath { path: "old".to_string(), time_ms: now - 9_000_000 },
    ];
    let removed = backups_to_remove_at(backups, None, Some(Duration::from_secs(60)), now).unwrap();
    assert_eq!(removed, vec!["old"]);
}

#[test]
fn test_cleanup_mistakes_no_config() {
    let cleanup_manager = CleanupManager::new(manager("test_agent"), CleanupConfig::default());
    let mut state = State::new();
    let stats = cleanup_manager.cleanup_mistakes(&mut state, now_millis());
    assert_eq!(stats.items_removed, 0);
}

#[test]
fn test_cleanup_mistakes_with_config() {
    let mut state = State::new();
    state.add_mistake("Test mistake".to_string(), Some("test".to_string()));
    let config = CleanupConfig { max_mistake_age: Some(Duration::from_secs(0)), ..Default::default() };
    let cleanup_manager = CleanupManager::new(manager("test_agent"), config);
    let stats = cleanup_manager.cleanup_mistakes(&mut state, now_millis() + 10);
    assert_eq!(stats.items_removed, 1);
    assert!(state.mistakes.is_empty());
}

#[test]
fn clean_mistakes_keeps_the_fresh_ones() {
    let mut state = State::new();
    let mut old = Mistake::new("old".to_string(), None);
    old.timestamp = 0;
    state.mistakes.push(old);
    let mut fresh = Mistake::new("fresh".to_string(), None);
    fresh.timestamp = 9_500;
    state.mistakes.push(fresh);
    let stats = clean_mistakes_at(&mut state, Duration::from_secs(1), 10_000);
    assert_eq!(stats.items_removed, 1);
    assert_eq!(stats.items_kept, 1);
    assert_eq!(state.mistakes[0].error_message, "fresh");
}

#[test]
fn test_cleanup_stale_locks_no_config() {
    let cleanup_manager = CleanupManager::new(manager("test_agent"), CleanupConfig::default());
    let stats = cleanup_manager.cleanup_stale_locks(None, 1, "h".to_string(), true, false, now_millis());
    assert_eq!(stats.items_removed, 0);
    assert_eq!(stats.items_kept, 0);
}

#[test]
fn stale_lock_of_a_dead_process_is_counted() {
    let config = CleanupConfig { stale_lock_timeout: Some(Duration::from_secs(300)), ..Default::default() };
    let cleanup_manager = CleanupManager::new(manager("test_agent"), config);
    let lock = LockInfo::new_at(Some(99), Some("h".to_string()), 1_000);
    let stats = cleanup_manager.cleanup_stale_locks(Some(Some(lock)), 1, "h".to_string(), false, false, 2_000);
    assert_eq!(stats.items_removed, 1);
    let lock = LockInfo::new_at(Some(99), Some("h".to_string()), 1_000);
    let stats = cleanup_manager.cleanup_stale_locks(Some(Some(lock)), 1, "h".to_string(), true, false, 2_000);
    assert_eq!(stats.items_kept, 1);
    assert_eq!(cleanup_manager.state_lock().lock_file_path, "/tmp/.state/test_agent.lock");
}

#[test]
fn test_cleanup_all() {
    let config = CleanupConfig {
        max_mistake_age: Some(Duration::from_secs(0)),
        stale_lock_timeout: Some(Duration::from_secs(0)),
        ..Default::default()
    };
    let cleanup_manager = CleanupManager::new(manager("test_agent"), config);
    // With no data every step succeeds and does nothing.
    let report = cleanup_manager
        .cleanup_all(Ok(CleanupStats::new()), Ok(false), Ok(CleanupStats::new()), Ok(CleanupStats::new()))
        .unwrap();
    assert!(!report.state_reset);
}

#[test]
fn cleanup_all_reports_whether_the_state_was_reset() {
    let config = CleanupConfig { max_state_age: Some(Duration::from_secs(60)), ..Default::default() };
    let cleanup_manager = CleanupManager::new(manager("test_agent"), config);
    let b = CleanupStats { items_removed: 1, items_kept: 2, space_freed_bytes: 100 };
    let report = cleanup_manager
        .cleanup_all(Ok(b), Ok(false), Ok(CleanupStats::new()), Ok(CleanupStats::new()))
        .unwrap();
    assert!(!report.state_reset);
    assert_eq!(report.total_bytes_freed, 100);
    let report = cleanup_manager
        .cleanup_all(Ok(b), Ok(true), Ok(CleanupStats::new()), Ok(CleanupStats::new()))
        .unwrap();
    assert!(report.state_reset);
}

#[test]
fn cleanup_all_fails_with_the_first_failed_step() {
    let cleanup_manager = CleanupManager::new(manager("test_agent"), CleanupConfig::default());
    let failure = |m: &str| AutomationError::StateError { task: "t".to_string(), message: m.to_string() };
    let r = cleanup_manager.cleanup_all(
        Ok(CleanupStats::new()),
        Err(failure("state")),
        Err(failure("mistakes")),
        Ok(CleanupStats::new()),
    );
    match r {
        Err(AutomationError::StateError { message, .. }) => assert_eq!(message, "state"),
        other => panic!("unexpected: {:?}", other),
    }
    let r = cleanup_manager.cleanup_all(
        Ok(CleanupStats::new()),
        Ok(false),
        Ok(CleanupStats::new()),
        Err(failure("locks")),
    );
    assert!(r.is_err());
}

#[test]
fn backup_timestamps_are_read_from_the_name() {
    let t = backup_timestamp("/tmp/.state/architect.state.json.backup.2024-01-02T03:04:05Z").unwrap();
    assert_eq!(t, 1_704_164_645_000);
    match backup_timestamp("/tmp/.state/architect.state.json.backup.notadate") {
        Err(AutomationError::StateError { task, message }) => {
            assert_eq!(task, "calculate_backup_age");
            assert!(message.starts_with("Cannot parse backup timestamp: "));
        }
        other => panic!("unexpected: {:?}", other),
    }
}

// ---- persistence ----

#[test]
fn test_state_manager_creation() {
    let manager = manager("architect");
    assert_eq!(manager.state_file_path(), "/tmp/.state/architect.state.json");
    assert_eq!(manager.state_dir(), "/tmp/.state");
}

#[test]
fn test_get_state_file_path() {
    let path = get_state_file_path("/tmp/.state", "architect");
    assert_eq!(path, "/tmp/.state/architect.state.json");
}

#[test]
fn task_state_file_path() {
    assert_eq!(get_task_state_file_path("/s", "build"), "/s/build.state.json");
    assert_eq!(manager("architect").task_state_path("build"), "/tmp/.state/build.state.json");
}

#[test]
fn test_get_backup_path() {
    let backup_path = get_backup_path("/tmp/.state/architect.state.json", now_millis());
    assert!(backup_path.contains(".backup."));
    assert!(backup_path.ends_with(".bak"));
}

#[test]
fn backup_path_is_exact() {
    let p = get_backup_path("/tmp/.state/architect.state.json", 1_704_164_645_000);
    assert_eq!(p, "/tmp/.state/architect.state.json.backup.2024-01-02T03:04:05Z.bak");
}

#[test]
fn test_lock_file_path_for_state() {
    let lock_path = lock_file_path_for_state("/tmp/.state/architect.state.json");
    assert_eq!(lock_path, "/tmp/.state/architect.lock");
}

#[test]
fn lock_file_path_of_other_names() {
    assert_eq!(lock_file_path_for_state("/tmp/.state/notes.txt"), "/tmp/.state/notes.txt.lock");
}

#[test]
fn test_custom_lock_timeout() {
    let manager = StateManager::with_lock_timeout("/tmp/x".to_string(), "architect", Duration::from_secs(60));
    assert!(manager.state_file_path().ends_with("architect.state.json"));
    assert_eq!(manager.lock_manager().timeout, Duration::from_secs(60));
    assert_eq!(manager.lock_manager().lock_file_path, "/tmp/x/architect.lock");
}

#[test]
fn test_list_backups() {
    let entries = vec![
        DirEntryInfo {
            path: "/tmp/.state/architect.state.json.backup.a.bak".to_string(),
            file_name: "architect.state.json.backup.a.bak".to_string(),
            modified_ms: 100,
        },
        DirEntryInfo {
            path: "/tmp/.state/architect.state.json".to_string(),
            file_name: "architect.state.json".to_string(),
            modified_ms: 300,
        },
        DirEntryInfo {
            path: "/tmp/.state/architect.state.json.backup.b.bak".to_string(),
            file_name: "architect.state.json.backup.b.bak".to_string(),
            modified_ms: 200,
        },
        DirEntryInfo {
            path: "/tmp/.state/janitor.state.json.backup.c.bak".to_string(),
            file_name: "janitor.state.json.backup.c.bak".to_string(),
            modified_ms: 400,
        },
    ];
    let backups = select_backups("/tmp/.state/architect.state.json", entries).unwrap();
    assert_eq!(backups.len(), 2);
    assert_eq!(backups[0].path, "/tmp/.state/architect.state.json.backup.b.bak");
    assert_eq!(backups[1].path, "/tmp/.state/architect.state.json.backup.a.bak");
}

#[test]
fn sorting_puts_the_newest_first() {
    let v = vec![
        TimedPath { path: "a".to_string(), time_ms: 1 },
        TimedPath { path: "c".to_string(), time_ms: 3 },
        TimedPath { path: "b".to_string(), time_ms: 2 },
    ];
    let sorted = sort_newest_first(v);
    let names: Vec<&str> = sorted.iter().map(|t| t.path.as_str()).collect();
    assert_eq!(names, vec!["c", "b", "a"]);
}

#[test]
fn sorting_keeps_the_order_of_equal_times() {
    let v = vec![
        TimedPath { path: "x".to_string(), time_ms: 5 },
        TimedPath { path: "old".to_string(), time_ms: 1 },
        TimedPath { path: "y".to_string(), time_ms: 5 },
        TimedPath { path: "z".to_string(), time_ms: 5 },
    ];
    let sorted = sort_newest_first(v);
    let names: Vec<&str> = sorted.iter().map(|t| t.path.as_str()).collect();
    assert_eq!(names, vec!["x", "y", "z", "old"]);
}

#[test]
fn loaded_task_state_fills_missing_fields() {
    let s = loaded_task_state(None);
    assert_eq!(s.status, TaskStatus::Idle);
    let mut stored = TaskState::new();
    stored.error_count = 4;
    let s = loaded_task_state(Some(stored));
    assert_eq!(s.error_count, 4);
}

#[test]
fn state_manager_records_task_outcomes() {
    let m = manager("architect");
    let s = m.record_success_at(None, 500);
    assert_eq!(s.status, TaskStatus::Success);
    assert_eq!(s.last_success, Some(500));
    let s = m.record_failure(Some(s), "bad");
    assert_eq!(s.status, TaskStatus::Failed);
    assert_eq!(s.error_count, 1);
    assert_eq!(s.last_termination_reason, Some("bad".to_string()));
    let s = m.record_early_termination(Some(s), "stop");
    assert_eq!(s.early_termination_count, 1);
    let s = m.reset_state();
    assert_eq!(s.status, TaskStatus::Idle);
}

#[test]
fn recorded_outcomes_load_back_unchanged() {
    let m = manager("architect");
    let s = m.record_success_at(None, 500);
    let failed = m.record_failure(Some(s.clone()), "bad");
    assert_eq!(failed.successful_terminations, s.successful_terminations);
    assert_eq!(failed.failed_terminations, s.failed_terminations + 1);
    assert_eq!(failed.consecutive_failures, s.consecutive_failures + 1);
    assert!(failed.last_failure.is_some());
    let loaded = loaded_task_state(Some(failed.clone()));
    assert_eq!(loaded.last_failure, failed.last_failure);
    assert_eq!(loaded.last_success, failed.last_success);
    assert_eq!(loaded.last_termination_reason, failed.last_termination_reason);
    assert_eq!(loaded.error_count, failed.error_count);
    let early = m.record_early_termination(Some(failed.clone()), "stop");
    assert_eq!(early.early_termination_count, failed.early_termination_count + 1);
    assert_eq!(early.status, failed.status);
    assert_eq!(early.error_count, failed.error_count);
    assert_eq!(early.total_execution_time_ms, failed.total_execution_time_ms);
    assert_eq!(early.last_failure, failed.last_failure);
    let reset = loaded_task_state(Some(m.reset_state()));
    assert_eq!(reset.status, TaskStatus::Idle);
    assert_eq!(reset.error_count, 0);
    assert_eq!(reset.last_failure, None);
    assert_eq!(reset.last_termination_reason, None);
}

#[test]
fn backup_timestamps_are_read_before_the_bak_extension() {
    let t = backup_timestamp("/tmp/.state/architect.state.json.backup.2024-01-02T03:04:05Z.bak").unwrap();
    assert_eq!(t, 1_704_164_645_000);
}

#[test]
fn the_time_of_a_backup_reads_back_from_its_name() {
    let taken = 1_704_164_645_000;
    let path = get_backup_path("/tmp/.state/architect.state.json", taken);
    assert_eq!(backup_timestamp(&path).unwrap(), taken);
}

#[test]
fn early_termination_ignores_the_success_count() {
    let m = manager("architect");
    let mut s = TaskState::default();
    s.successful_terminations = u64::MAX;
    let s = m.record_early_termination(Some(s), "stop");
    assert_eq!(s.early_termination_count, 1);
    assert_eq!(s.successful_terminations, u64::MAX);
}
