use automation::error::AutomationError;
use automation::lock::{
    lease_fits_at, split_extension, LeaseData, LeaseEntryAction, LockCleanupConfig, LockEvaluationContext, LockManager,
    TaskLock, TaskLockManager, DEFAULT_LOCK_TIMEOUT_SECS,
};
use automation::state::{LockData, LockInfo};
use automation::lock::lock_info_from_legacy_at;
use automation::time::{Duration, MAX_TIMESTAMP_MS};

/// The current time in milliseconds since the epoch.
fn now_millis() -> i64 {
    chrono::Utc::now().timestamp_millis()
}

const PID: u32 = 4242;
const HOST: &str = "this-host";

fn info(acquired_at: i64, pid: Option<u32>, host: &str) -> LockInfo {
    LockInfo::new_at(pid, Some(host.to_string()), acquired_at)
}

/// The lock of a task as a lease file holds it, turned into a lock.
fn stored_lock(manager: &TaskLockManager, task_id: &str, lease: &Option<LeaseData>) -> Option<TaskLock> {
    lease.as_ref().map(|l| TaskLock::from_lease_data(manager.lease_path(task_id), l.clone()))
}

#[test]
fn test_lock_manager_creation() {
    let lock_path = "/tmp/test.lock".to_string();
    let manager = LockManager::new(lock_path.clone(), Duration::from_secs(10));
    assert_eq!(manager.lock_file_path, lock_path);
    assert_eq!(manager.timeout, Duration::from_secs(10));
}

#[test]
fn test_lock_manager_new_default() {
    let lock_path = "/tmp/test.lock".to_string();
    let manager = LockManager::new_default(lock_path.clone());
    assert_eq!(manager.lock_file_path, lock_path);
    assert_eq!(manager.timeout, Duration::from_secs(DEFAULT_LOCK_TIMEOUT_SECS));
}

#[test]
fn waiting_for_a_busy_lock_times_out() {
    let manager = LockManager::new("/tmp/busy.lock".to_string(), Duration::from_millis(250));
    assert_eq!(manager.after_busy_attempt(Duration::from_millis(0)).unwrap(), Duration::from_millis(100));
    assert_eq!(manager.after_busy_attempt(Duration::from_millis(249)).unwrap(), Duration::from_millis(100));
    match manager.after_busy_attempt(Duration::from_millis(250)) {
        Err(AutomationError::LockTimeout { task, timeout }) => {
            assert_eq!(task, "/tmp/busy.lock");
            assert_eq!(timeout, 250);
        }
        other => panic!("unexpected: {:?}", other),
    }
}

#[test]
fn lock_cleanup_config_defaults() {
    let c = LockCleanupConfig::default();
    assert_eq!(c.stale_timeout, Duration::from_secs(300));
    assert_eq!(c.cross_host_timeout, Duration::from_secs(60));
    assert!(c.check_process_alive);
}

#[test]
fn test_cleanup_stale_lock_dead_process() {
    let manager = LockManager::new_default("/tmp/test.lock".to_string());
    let now = now_millis();
    let stale = info(now, Some(9_999_999), "test-host");
    let cleaned = manager.cleanup_stale_lock(Duration::from_secs(300), Some(Some(stale)), PID, HOST.to_string(), false, false, now);
    assert!(cleaned);
}

#[test]
fn test_cleanup_stale_lock_old() {
    let manager = LockManager::new_default("/tmp/test.lock".to_string());
    let now = now_millis();
    let stale = info(now - 600_000, Some(PID), HOST);
    let cleaned = manager.cleanup_stale_lock(Duration::from_secs(300), Some(Some(stale)), PID, HOST.to_string(), true, false, now);
    assert!(cleaned);
}

#[test]
fn test_cleanup_stale_lock_cross_host() {
    let manager = LockManager::new_default("/tmp/test.lock".to_string());
    let now = now_millis();
    let stale = info(now - 70_000, Some(12345), "different-host");
    let cleaned = manager.cleanup_stale_lock(Duration::from_secs(300), Some(Some(stale)), PID, HOST.to_string(), true, false, now);
    assert!(cleaned);
}

#[test]
fn test_cleanup_stale_lock_same_pid() {
    let manager = LockManager::new_default("/tmp/test.lock".to_string());
    let now = now_millis();
    let stale = info(now - 10_000, Some(PID), HOST);
    let cleaned = manager.cleanup_stale_lock(Duration::from_secs(300), Some(Some(stale)), PID, HOST.to_string(), true, false, now);
    assert!(cleaned);
}

#[test]
fn test_cleanup_stale_lock_no_cleanup_needed() {
    let manager = LockManager::new_default("/tmp/test.lock".to_string());
    let now = now_millis();
    // The lock this process has just acquired and still holds.
    let valid = info(now, Some(PID), HOST);
    let cleaned = manager.cleanup_stale_lock(Duration::from_secs(300), Some(Some(valid)), PID, HOST.to_string(), true, true, now);
    assert!(!cleaned);
}

#[test]
fn a_lock_of_another_live_process_on_this_host_is_kept() {
    let manager = LockManager::new_default("/tmp/test.lock".to_string());
    let now = now_millis();
    let valid = info(now, Some(PID + 1), HOST);
    assert!(!manager.cleanup_stale_lock(Duration::from_secs(300), Some(Some(valid)), PID, HOST.to_string(), true, false, now));
}

#[test]
fn a_lock_of_this_process_is_stale_only_when_not_held() {
    let ctx = LockEvaluationContext::new_at(info(0, Some(PID), HOST), PID, HOST.to_string(), LockCleanupConfig::default(), 5);
    assert!(!ctx.evaluate(true, true).should_cleanup());
    match ctx.evaluate(true, false) {
        automation::lock::LockCleanupDecision::Cleanup { reason } => assert_eq!(reason, "stale lock from current process"),
        other => panic!("unexpected: {:?}", other),
    }
}

#[test]
fn recent_cross_host_lock_is_kept() {
    let manager = LockManager::new_default("/tmp/test.lock".to_string());
    let now = now_millis();
    let l = info(now - 30_000, Some(12345), "different-host");
    assert!(!manager.cleanup_stale_lock(Duration::from_secs(300), Some(Some(l)), PID, HOST.to_string(), true, false, now));
}

#[test]
fn test_cleanup_stale_lock_no_file() {
    let manager = LockManager::new_default("/tmp/test.lock".to_string());
    let cleaned = manager.cleanup_stale_lock(Duration::from_secs(300), None, PID, HOST.to_string(), true, false, now_millis());
    assert!(!cleaned);
}

#[test]
fn test_cleanup_stale_lock_corrupted_file() {
    let manager = LockManager::new_default("/tmp/test.lock".to_string());
    let cleaned = manager.cleanup_stale_lock(Duration::from_secs(300), Some(None), PID, HOST.to_string(), true, false, now_millis());
    assert!(cleaned);
}

#[test]
fn dead_process_is_ignored_when_liveness_is_not_checked() {
    let manager = LockManager::new_default("/tmp/test.lock".to_string());
    let config = LockCleanupConfig { check_process_alive: false, ..LockCleanupConfig::default() };
    let l = info(1_000, Some(PID + 1), HOST);
    assert!(!manager.cleanup_stale_lock_with_config(
        Duration::from_secs(300), config, Some(Some(l)), PID, HOST.to_string(), false, false, 2_000));
}

#[test]
fn evaluation_gives_the_reason() {
    let ctx = LockEvaluationContext::new_at(
        LockInfo::new_at(None, Some(HOST.to_string()), 0),
        PID,
        HOST.to_string(),
        LockCleanupConfig::default(),
        10,
    );
    match ctx.evaluate(true, false) {
        automation::lock::LockCleanupDecision::Cleanup { reason } => assert_eq!(reason, "no PID in lock info"),
        other => panic!("unexpected: {:?}", other),
    }
    let ctx = LockEvaluationContext::new_at(info(0, Some(PID), HOST), PID, HOST.to_string(), LockCleanupConfig::default(), 400_000);
    assert_eq!(ctx.lock_age, Duration::from_millis(400_000));
    match ctx.evaluate(true, false) {
        automation::lock::LockCleanupDecision::Cleanup { reason } => assert_eq!(reason, "lock age exceeds threshold"),
        other => panic!("unexpected: {:?}", other),
    }
    let ctx = LockEvaluationContext::new_at(info(0, Some(PID + 1), HOST), PID, HOST.to_string(), LockCleanupConfig::default(), 5);
    assert!(!ctx.evaluate(true, false).should_cleanup());
}

#[test]
fn legacy_lock_data_keeps_its_timestamp() {
    let l = lock_info_from_legacy_at(LockData::new_at(Some(3), Some("h".to_string()), 77), 1_000);
    assert_eq!(l.acquired_at, 77);
    assert_eq!(l.process_id, Some(3));
    let l = lock_info_from_legacy_at(LockData::default(), 1_000);
    assert_eq!(l.acquired_at, 1_000);
}

// ---- task locks ----

#[test]
fn test_task_lock_new() {
    let lock = TaskLock::new("/tmp/test.lease".to_string());
    assert_eq!(lock.path(), "/tmp/test.lease");
    assert!(!lock.is_held());
    assert!(lock.is_expired());
}

#[test]
fn test_task_lock_with_lease() {
    let now = now_millis();
    let expires = now + 60_000;
    let lock = TaskLock::with_lease("/tmp/test.lease".to_string(), "agent-1".to_string(), now, expires);
    assert!(lock.is_held());
    assert!(!lock.is_expired());
    assert!(lock.holder_matches("agent-1"));
    assert!(!lock.holder_matches("agent-2"));
    assert_eq!(lock.holder(), Some("agent-1"));
    assert_eq!(lock.acquired_at(), Some(now));
    assert_eq!(lock.expires_at(), Some(expires));
}

#[test]
fn test_task_lock_expired() {
    let now = now_millis();
    let lock = TaskLock::with_lease("/tmp/test.lease".to_string(), "agent-1".to_string(), now - 120_000, now - 60_000);
    assert!(lock.is_held());
    assert!(lock.is_expired());
}

#[test]
fn test_task_lock_remaining_duration() {
    let now = now_millis();
    let lock = TaskLock::with_lease("/tmp/test.lease".to_string(), "agent-1".to_string(), now, now + 60_000);
    let remaining = lock.remaining_duration();
    assert!(remaining.is_some());
    let duration = remaining.unwrap();
    assert!(duration.as_secs() >= 59);
    assert!(duration.as_secs() <= 61);
}

#[test]
fn test_task_lock_remaining_duration_expired() {
    let now = now_millis();
    let lock = TaskLock::with_lease("/tmp/test.lease".to_string(), "agent-1".to_string(), now - 120_000, now - 60_000);
    let remaining = lock.remaining_duration();
    assert_eq!(remaining, Some(Duration::zero()));
}

#[test]
fn remaining_duration_is_exact() {
    let lock = TaskLock::with_lease("p".to_string(), "a".to_string(), 0, 5_000);
    assert_eq!(lock.remaining_duration_at(1_500), Some(Duration::from_millis(3_500)));
    assert_eq!(TaskLock::new("p".to_string()).remaining_duration_at(1), None);
}

#[test]
fn default_task_lock() {
    let lock = TaskLock::default();
    assert_eq!(lock.path(), ".state/tasks/locks/default.lease");
    assert!(!lock.is_held());
}

#[test]
fn test_lease_data_new() {
    let lease = LeaseData::new_at("agent-1".to_string(), Duration::from_secs(60), now_millis());
    assert_eq!(lease.holder, "agent-1");
    assert!(!lease.is_expired_at(now_millis()));
}

#[test]
fn test_lease_data_renew() {
    let mut lease = LeaseData::new_at("agent-1".to_string(), Duration::from_secs(60), 1_000);
    let old_expires = lease.expires_at;
    lease.renew_at(Duration::from_secs(120), 1_010);
    assert!(lease.expires_at > old_expires);
    assert_eq!(lease.acquired_at, 1_010);
    assert_eq!(lease.expires_at, 121_010);
}

#[test]
fn test_lease_data_expired() {
    let lease = LeaseData::new_at("agent-1".to_string(), Duration::from_millis(10), 1_000);
    assert!(!lease.is_expired_at(1_010));
    assert!(lease.is_expired_at(1_020));
}

#[test]
fn test_task_lock_manager_new() {
    let manager = TaskLockManager::new("/tmp/x/locks".to_string());
    assert_eq!(manager.base_dir, "/tmp/x/locks");
}

#[test]
fn test_task_lock_manager_default() {
    let manager = TaskLockManager::new_default();
    assert_eq!(manager.base_dir, TaskLockManager::DEFAULT_BASE_DIR);
    assert_eq!(manager.base_dir, ".state/tasks/locks");
}

#[test]
fn test_task_lock_lease_path() {
    let manager = TaskLockManager::new("/tmp/x/locks".to_string());
    assert_eq!(manager.lease_path("task-1"), "/tmp/x/locks/task-1.lease");
}

#[test]
fn test_task_lock_acquire_release() {
    let manager = TaskLockManager::new("/tmp/x/locks".to_string());
    let now = now_millis();
    let mut stored: Option<LeaseData> = None;
    let lease = manager
        .acquire_lock_at(&stored_lock(&manager, "task-1", &stored), "task-1", "agent-1", Duration::from_secs(60), now)
        .unwrap();
    stored = Some(lease);
    let lock = stored_lock(&manager, "task-1", &stored).unwrap();
    assert!(lock.is_held());
    assert!(lock.holder_matches("agent-1"));
    assert!(manager.is_locked(&stored_lock(&manager, "task-1", &stored), now));
    let released = manager.release_lock(&stored, "agent-1");
    assert!(released);
    stored = None;
    assert!(!manager.is_locked(&stored_lock(&manager, "task-1", &stored), now));
}

#[test]
fn test_task_lock_acquire_conflict() {
    let manager = TaskLockManager::new("/tmp/x/locks".to_string());
    let now = now_millis();
    let lease = manager.acquire_lock_at(&None, "task-1", "agent-1", Duration::from_secs(60), now).unwrap();
    let stored = Some(lease);
    let result =
        manager.acquire_lock_at(&stored_lock(&manager, "task-1", &stored), "task-1", "agent-2", Duration::from_secs(60), now);
    assert!(result.is_err());
    match result {
        Err(AutomationError::LockError { task, message }) => {
            assert_eq!(task, "task-1");
            assert!(message.contains("already locked"));
            assert!(message.contains("agent-1"));
        }
        _ => panic!("Expected LockError"),
    }
}

#[test]
fn test_task_lock_acquire_expired() {
    let manager = TaskLockManager::new("/tmp/x/locks".to_string());
    let t0 = 1_000_000;
    let lease = manager.acquire_lock_at(&None, "task-1", "agent-1", Duration::from_millis(10), t0).unwrap();
    let stored = Some(lease);
    let lock = stored_lock(&manager, "task-1", &stored);
    let lease2 = manager.acquire_lock_at(&lock, "task-1", "agent-2", Duration::from_secs(60), t0 + 20).unwrap();
    let lock2 = TaskLock::from_lease_data(manager.lease_path("task-1"), lease2);
    assert!(lock2.holder_matches("agent-2"));
}

#[test]
fn the_holder_may_acquire_again() {
    let manager = TaskLockManager::new("/tmp/x/locks".to_string());
    let lease = manager.acquire_lock_at(&None, "t", "a", Duration::from_secs(60), 0).unwrap();
    let stored = Some(lease);
    let again = manager.acquire_lock_at(&stored_lock(&manager, "t", &stored), "t", "a", Duration::from_secs(60), 5).unwrap();
    assert_eq!(again.acquired_at, 5);
    assert_eq!(again.expires_at, 60_005);
}

#[test]
fn acquire_by_the_clock() {
    let manager = TaskLockManager::new("/tmp/x/locks".to_string());
    let lease = manager.acquire_lock(&None, "task-1", "agent-1", Duration::from_secs(60)).unwrap();
    assert_eq!(lease.holder, "agent-1");
    assert_eq!(lease.expires_at - lease.acquired_at, 60_000);
}

#[test]
fn test_task_lock_renew_lease() {
    let manager = TaskLockManager::new("/tmp/x/locks".to_string());
    let t0 = 1_000_000;
    let lease = manager.acquire_lock_at(&None, "task-1", "agent-1", Duration::from_millis(100), t0).unwrap();
    let renewed = manager.renew_lease(Some(lease), "agent-1", Duration::from_secs(60), t0 + 20);
    assert!(renewed.is_some());
    let stored = renewed;
    assert!(manager.is_locked(&stored_lock(&manager, "task-1", &stored), t0 + 20));
    assert_eq!(stored.unwrap().expires_at, t0 + 20 + 60_000);
}

#[test]
fn test_task_lock_renew_lease_wrong_agent() {
    let manager = TaskLockManager::new("/tmp/x/locks".to_string());
    let lease = manager.acquire_lock_at(&None, "task-1", "agent-1", Duration::from_secs(60), 0).unwrap();
    let renewed = manager.renew_lease(Some(lease), "agent-2", Duration::from_secs(60), 10);
    assert!(renewed.is_none());
}

#[test]
fn test_task_lock_renew_lease_nonexistent() {
    let manager = TaskLockManager::new("/tmp/x/locks".to_string());
    let renewed = manager.renew_lease(None, "agent-1", Duration::from_secs(60), 10);
    assert!(renewed.is_none());
}

#[test]
fn test_task_lock_is_locked() {
    let manager = TaskLockManager::new("/tmp/x/locks".to_string());
    let now = now_millis();
    let mut stored: Option<LeaseData> = None;
    assert!(!manager.is_locked(&stored_lock(&manager, "task-1", &stored), now));
    stored = Some(manager.acquire_lock_at(&None, "task-1", "agent-1", Duration::from_secs(60), now).unwrap());
    assert!(manager.is_locked(&stored_lock(&manager, "task-1", &stored), now));
    assert!(manager.release_lock(&stored, "agent-1"));
    stored = None;
    assert!(!manager.is_locked(&stored_lock(&manager, "task-1", &stored), now));
}

#[test]
fn test_task_lock_is_locked_expired() {
    let manager = TaskLockManager::new("/tmp/x/locks".to_string());
    let t0 = 1_000_000;
    let stored = Some(manager.acquire_lock_at(&None, "task-1", "agent-1", Duration::from_millis(10), t0).unwrap());
    assert!(!manager.is_locked(&stored_lock(&manager, "task-1", &stored), t0 + 20));
}

#[test]
fn test_task_lock_release_wrong_agent() {
    let manager = TaskLockManager::new("/tmp/x/locks".to_string());
    let now = now_millis();
    let stored = Some(manager.acquire_lock_at(&None, "task-1", "agent-1", Duration::from_secs(60), now).unwrap());
    let released = manager.release_lock(&stored, "agent-2");
    assert!(!released);
    assert!(manager.is_locked(&stored_lock(&manager, "task-1", &stored), now));
}

#[test]
fn test_task_lock_cleanup_expired_leases() {
    let manager = TaskLockManager::new("/tmp/x/locks".to_string());
    let t0 = 1_000_000;
    let l1 = Some(manager.acquire_lock_at(&None, "task-1", "agent-1", Duration::from_millis(10), t0).unwrap());
    let l2 = Some(manager.acquire_lock_at(&None, "task-2", "agent-2", Duration::from_secs(60), t0).unwrap());
    let l3 = Some(manager.acquire_lock_at(&None, "task-3", "agent-3", Duration::from_millis(10), t0).unwrap());
    let later = t0 + 20;
    let mut cleaned = Vec::new();
    for (name, lease) in [("task-1.lease", &l1), ("task-2.lease", &l2), ("task-3.lease", &l3)] {
        if let LeaseEntryAction::RemoveExpired { task_id } = manager.classify_lease_entry(name, lease, Duration::from_secs(0), later) {
            cleaned.push(task_id);
        }
    }
    assert_eq!(cleaned.len(), 2);
    assert!(cleaned.contains(&"task-1".to_string()) || cleaned.contains(&"task-3".to_string()));
    assert!(manager.is_locked(&stored_lock(&manager, "task-2", &l2), later));
}

#[test]
fn lease_directory_entries_are_classified() {
    let manager = TaskLockManager::new("/tmp/x/locks".to_string());
    let live = Some(LeaseData::new_at("a".to_string(), Duration::from_secs(60), 0));
    assert!(matches!(manager.classify_lease_entry("notes.txt", &live, Duration::from_secs(0), 1), LeaseEntryAction::Skip));
    assert!(matches!(manager.classify_lease_entry("broken.lease", &None, Duration::from_secs(0), 1), LeaseEntryAction::RemoveInvalid));
    assert!(matches!(manager.classify_lease_entry("t.lease", &live, Duration::from_secs(0), 1), LeaseEntryAction::Keep));
    assert!(matches!(manager.classify_lease_entry(".lease", &live, Duration::from_secs(0), 1), LeaseEntryAction::Skip));
}

#[test]
fn file_names_split_at_the_last_dot() {
    assert_eq!(split_extension("a.b.lease"), ("a.b".to_string(), Some("lease".to_string())));
    assert_eq!(split_extension("noext"), ("noext".to_string(), None));
    assert_eq!(split_extension(".hidden"), (".hidden".to_string(), None));
    assert_eq!(split_extension("trailing."), ("trailing".to_string(), Some(String::new())));
}

#[test]
fn a_lease_fits_only_within_the_representable_instants() {
    assert!(lease_fits_at(Duration::from_secs(60), 0));
    assert!(lease_fits_at(Duration::from_secs(60), MAX_TIMESTAMP_MS - 60_000));
    assert!(!lease_fits_at(Duration::from_secs(60), MAX_TIMESTAMP_MS - 59_999));
    assert!(!lease_fits_at(Duration::from_secs(60), -1));
    // A length beyond what a signed delta holds counts as the fallback lease.
    assert!(lease_fits_at(Duration::from_millis(u64::MAX), MAX_TIMESTAMP_MS - 300_000));
    assert!(!lease_fits_at(Duration::from_millis(u64::MAX), MAX_TIMESTAMP_MS - 299_999));
}

#[test]
fn an_expired_lease_younger_than_the_limit_is_kept() {
    let manager = TaskLockManager::new("/tmp/x/locks".to_string());
    let lease = Some(LeaseData::new_at("a".to_string(), Duration::from_millis(10), 1_000));
    // Run out at 1_010; at 1_500 it is 500 ms old.
    assert!(matches!(
        manager.classify_lease_entry("t.lease", &lease, Duration::from_secs(1), 1_500),
        LeaseEntryAction::Keep
    ));
    match manager.classify_lease_entry("t.lease", &lease, Duration::from_secs(1), 2_001) {
        LeaseEntryAction::RemoveExpired { task_id } => assert_eq!(task_id, "t"),
        other => panic!("unexpected: {:?}", other),
    }
    // Exactly as old as the limit: kept.
    assert!(matches!(
        manager.classify_lease_entry("t.lease", &lease, Duration::from_secs(1), 2_000),
        LeaseEntryAction::Keep
    ));
}
