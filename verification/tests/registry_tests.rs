use automation::agent_registry::{generate_agent_id, AgentInstance, AgentRegistry, AgentStatus};
use automation::error::AutomationError;
use automation::task_registry::{RegistryTaskState, TaskAssignment, TaskRegistry};
use automation::time::Duration;

/// The current time in milliseconds since the epoch.
fn now_millis() -> i64 {
    chrono::Utc::now().timestamp_millis()
}

fn task_registry() -> TaskRegistry {
    TaskRegistry::with_path("/tmp/tasks/registry.json".to_string())
}

fn agent_registry() -> AgentRegistry {
    AgentRegistry::with_path("/tmp/agents/registry.json".to_string())
}

fn agent(id: &str, agent_type: &str) -> AgentInstance {
    AgentInstance::new(id.to_string(), agent_type.to_string(), "host-a".to_string(), 4242)
}

// ---- task states ----

#[test]
fn test_task_state_is_claimable() {
    assert!(RegistryTaskState::Available.is_claimable());
    assert!(!RegistryTaskState::InProgress.is_claimable());
    assert!(!RegistryTaskState::Completed.is_claimable());
    assert!(!RegistryTaskState::Failed.is_claimable());
}

#[test]
fn test_task_state_is_in_progress() {
    assert!(!RegistryTaskState::Available.is_in_progress());
    assert!(RegistryTaskState::InProgress.is_in_progress());
    assert!(!RegistryTaskState::Completed.is_in_progress());
    assert!(!RegistryTaskState::Failed.is_in_progress());
}

#[test]
fn test_task_state_is_terminal() {
    assert!(!RegistryTaskState::Available.is_terminal());
    assert!(!RegistryTaskState::InProgress.is_terminal());
    assert!(RegistryTaskState::Completed.is_terminal());
    assert!(RegistryTaskState::Failed.is_terminal());
}

#[test]
fn test_task_state_default() {
    assert_eq!(RegistryTaskState::default(), RegistryTaskState::Available);
}

// ---- task assignments ----

#[test]
fn test_task_assignment_new() {
    let task = TaskAssignment::new("task-1".to_string(), "Test task".to_string());
    assert_eq!(task.task_id, "task-1");
    assert_eq!(task.task_description, "Test task");
    assert_eq!(task.state, RegistryTaskState::Available);
    assert!(task.assigned_to.is_none());
    assert!(task.claimed_at.is_none());
    assert!(task.lease_expires_at.is_none());
    assert!(task.completed_at.is_none());
    assert_eq!(task.attempts, 0);
    assert!(task.last_heartbeat_at.is_none());
}

#[test]
fn test_task_assignment_is_lease_expired() {
    let mut task = TaskAssignment::new("task-1".to_string(), "Test task".to_string());
    assert!(!task.is_lease_expired());
    task.lease_expires_at = Some(now_millis() - 60_000);
    assert!(task.is_lease_expired());
    task.lease_expires_at = Some(now_millis() + 60_000);
    assert!(!task.is_lease_expired());
}

#[test]
fn test_task_assignment_is_completed_older_than() {
    let mut task = TaskAssignment::new("task-1".to_string(), "Test task".to_string());
    assert!(!task.is_completed_older_than(Duration::from_secs(60)));
    task.state = RegistryTaskState::Completed;
    task.completed_at = Some(now_millis() - 30_000);
    assert!(!task.is_completed_older_than(Duration::from_secs(60)));
    task.completed_at = Some(now_millis() - 120_000);
    assert!(task.is_completed_older_than(Duration::from_secs(60)));
}

#[test]
fn failed_tasks_never_count_as_completed_long_ago() {
    let mut task = TaskAssignment::new("task-1".to_string(), "Test task".to_string());
    task.state = RegistryTaskState::Failed;
    task.completed_at = Some(0);
    assert!(!task.is_completed_older_than_at(Duration::from_secs(1), 1_000_000));
}

#[test]
fn test_task_assignment_record_heartbeat() {
    let mut task = TaskAssignment::new("task-1".to_string(), "Test task".to_string());
    assert!(task.last_heartbeat_at.is_none());
    task.record_heartbeat();
    assert!(task.last_heartbeat_at.is_some());
    let age = now_millis() - task.last_heartbeat_at.unwrap();
    assert!(age < 5_000);
}

#[test]
fn test_task_assignment_is_heartbeat_stale() {
    let mut task = TaskAssignment::new("task-1".to_string(), "Test task".to_string());
    assert!(!task.is_heartbeat_stale(Duration::from_secs(60)));
    task.last_heartbeat_at = Some(now_millis() - 30_000);
    assert!(!task.is_heartbeat_stale(Duration::from_secs(60)));
    task.last_heartbeat_at = Some(now_millis() - 120_000);
    assert!(task.is_heartbeat_stale(Duration::from_secs(60)));
}

#[test]
fn lease_expiry_is_strict() {
    let mut task = TaskAssignment::new("t".to_string(), "d".to_string());
    task.lease_expires_at = Some(1_000);
    assert!(!task.is_lease_expired_at(1_000));
    assert!(task.is_lease_expired_at(1_001));
}

// ---- task registry ----

#[test]
fn test_registry_register_task() {
    let mut registry = task_registry();
    registry.register_task("task-1".to_string(), "Test task".to_string()).unwrap();
    assert_eq!(registry.task_count(), 1);
    assert_eq!(registry.all_task_ids(), vec!["task-1"]);
    let task = registry.get_task("task-1");
    assert!(task.is_some());
    assert_eq!(task.unwrap().task_description, "Test task");
}

#[test]
fn test_registry_register_duplicate_task() {
    let mut registry = task_registry();
    registry.register_task("task-1".to_string(), "Test task".to_string()).unwrap();
    let result = registry.register_task("task-1".to_string(), "Duplicate task".to_string());
    assert!(result.is_err());
    match result {
        Err(AutomationError::StateError { task, message }) => {
            assert_eq!(task, "task-1");
            assert_eq!(message, "Task already exists in registry");
        }
        _ => panic!("expected a state error"),
    }
    assert_eq!(registry.get_task("task-1").unwrap().task_description, "Test task");
}

#[test]
fn test_registry_claim_task() {
    let mut registry = task_registry();
    registry.register_task("task-1".to_string(), "Test task".to_string()).unwrap();
    let claimed = registry.claim_task("task-1", "agent-1", Duration::from_secs(60)).unwrap();
    assert!(claimed);
    let task = registry.get_task("task-1").unwrap();
    assert_eq!(task.state, RegistryTaskState::InProgress);
    assert_eq!(task.assigned_to, Some("agent-1".to_string()));
    assert_eq!(task.attempts, 1);
    assert!(task.claimed_at.is_some());
    assert!(task.lease_expires_at.is_some());
    assert!(task.last_heartbeat_at.is_some());
}

#[test]
fn claim_at_sets_the_lease_from_now() {
    let mut registry = task_registry();
    registry.register_task("t".to_string(), "d".to_string()).unwrap();
    assert!(registry.claim_task_at("t", "a", Duration::from_secs(60), 1_000));
    let task = registry.get_task("t").unwrap();
    assert_eq!(task.claimed_at, Some(1_000));
    assert_eq!(task.lease_expires_at, Some(61_000));
    assert_eq!(task.last_heartbeat_at, Some(1_000));
}

#[test]
fn test_registry_claim_nonexistent_task() {
    let mut registry = task_registry();
    let claimed = registry.claim_task("nonexistent", "agent-1", Duration::from_secs(60)).unwrap();
    assert!(!claimed);
}

#[test]
fn test_registry_claim_already_claimed_task() {
    let mut registry = task_registry();
    registry.register_task("task-1".to_string(), "Test task".to_string()).unwrap();
    registry.claim_task("task-1", "agent-1", Duration::from_secs(60)).unwrap();
    let claimed = registry.claim_task("task-1", "agent-2", Duration::from_secs(60)).unwrap();
    assert!(!claimed);
    assert_eq!(registry.get_task("task-1").unwrap().assigned_to, Some("agent-1".to_string()));
}

#[test]
fn test_registry_renew_lease() {
    let mut registry = task_registry();
    registry.register_task("task-1".to_string(), "Test task".to_string()).unwrap();
    registry.claim_task("task-1", "agent-1", Duration::from_secs(60)).unwrap();
    let original_expires = registry.get_task("task-1").unwrap().lease_expires_at.unwrap();
    let renewed = registry.renew_lease("task-1", "agent-1", Duration::from_secs(120)).unwrap();
    assert!(renewed);
    let new_expires = registry.get_task("task-1").unwrap().lease_expires_at.unwrap();
    assert!(new_expires > original_expires);
}

#[test]
fn test_registry_renew_lease_wrong_agent() {
    let mut registry = task_registry();
    registry.register_task("task-1".to_string(), "Test task".to_string()).unwrap();
    registry.claim_task("task-1", "agent-1", Duration::from_secs(60)).unwrap();
    let renewed = registry.renew_lease("task-1", "agent-2", Duration::from_secs(60)).unwrap();
    assert!(!renewed);
}

#[test]
fn test_registry_complete_task() {
    let mut registry = task_registry();
    registry.register_task("task-1".to_string(), "Test task".to_string()).unwrap();
    registry.claim_task("task-1", "agent-1", Duration::from_secs(60)).unwrap();
    registry.complete_task("task-1", "agent-1").unwrap();
    let task = registry.get_task("task-1").unwrap();
    assert_eq!(task.state, RegistryTaskState::Completed);
    assert!(task.completed_at.is_some());
}

#[test]
fn test_registry_complete_task_wrong_agent() {
    let mut registry = task_registry();
    registry.register_task("task-1".to_string(), "Test task".to_string()).unwrap();
    registry.claim_task("task-1", "agent-1", Duration::from_secs(60)).unwrap();
    let result = registry.complete_task("task-1", "agent-2");
    assert!(result.is_err());
    assert_eq!(registry.get_task("task-1").unwrap().state, RegistryTaskState::InProgress);
}

#[test]
fn completing_an_unknown_task_is_refused() {
    let mut registry = task_registry();
    match registry.complete_task_at("missing", "agent-1", 5) {
        Err(AutomationError::StateError { task, message }) => {
            assert_eq!(task, "missing");
            assert_eq!(message, "Task not found in registry");
        }
        _ => panic!("expected a state error"),
    }
}

#[test]
fn test_registry_fail_task() {
    let mut registry = task_registry();
    registry.register_task("task-1".to_string(), "Test task".to_string()).unwrap();
    registry.claim_task("task-1", "agent-1", Duration::from_secs(60)).unwrap();
    registry.fail_task("task-1", "agent-1", "Timeout error".to_string()).unwrap();
    let task = registry.get_task("task-1").unwrap();
    assert_eq!(task.state, RegistryTaskState::Failed);
    assert!(task.completed_at.is_some());
    assert!(task.task_description.contains("[FAILED: Timeout error]"));
}

#[test]
fn fail_task_appends_the_reason_to_the_description() {
    let mut registry = task_registry();
    registry.register_task("t".to_string(), "Build".to_string()).unwrap();
    assert!(registry.claim_task_at("t", "a", Duration::from_secs(60), 10));
    registry.fail_task_at("t", "a", "boom".to_string(), 20).unwrap();
    let task = registry.get_task("t").unwrap();
    assert_eq!(task.task_description, "Build [FAILED: boom]");
    assert_eq!(task.completed_at, Some(20));
}

#[test]
fn a_failed_task_cannot_be_completed() {
    let mut registry = task_registry();
    registry.register_task("t".to_string(), "Build".to_string()).unwrap();
    assert!(registry.claim_task_at("t", "a", Duration::from_secs(60), 10));
    registry.fail_task_at("t", "a", "boom".to_string(), 20).unwrap();
    match registry.complete_task_at("t", "a", 30) {
        Err(AutomationError::StateError { task, message }) => {
            assert_eq!(task, "t");
            assert_eq!(message, "Task is not in progress");
        }
        _ => panic!("expected a state error"),
    }
    let task = registry.get_task("t").unwrap();
    assert_eq!(task.state, RegistryTaskState::Failed);
    assert_eq!(task.completed_at, Some(20));
    assert_eq!(task.task_description, "Build [FAILED: boom]");
}

#[test]
fn a_completed_task_cannot_be_failed() {
    let mut registry = task_registry();
    registry.register_task("t".to_string(), "Build".to_string()).unwrap();
    assert!(registry.claim_task_at("t", "a", Duration::from_secs(60), 10));
    registry.complete_task_at("t", "a", 20).unwrap();
    assert!(registry.fail_task_at("t", "a", "late".to_string(), 30).is_err());
    let task = registry.get_task("t").unwrap();
    assert_eq!(task.state, RegistryTaskState::Completed);
    assert_eq!(task.task_description, "Build");
}

#[test]
fn test_registry_fail_task_wrong_agent() {
    let mut registry = task_registry();
    registry.register_task("task-1".to_string(), "Test task".to_string()).unwrap();
    registry.claim_task("task-1", "agent-1", Duration::from_secs(60)).unwrap();
    let result = registry.fail_task("task-1", "agent-2", "Error".to_string());
    assert!(result.is_err());
}

#[test]
fn test_registry_get_available_tasks() {
    let mut registry = task_registry();
    registry.register_task("task-1".to_string(), "Task 1".to_string()).unwrap();
    registry.register_task("task-2".to_string(), "Task 2".to_string()).unwrap();
    registry.register_task("task-3".to_string(), "Task 3".to_string()).unwrap();
    let available = registry.get_available_tasks(2);
    assert_eq!(available.len(), 2);
    let ids: Vec<_> = available.iter().map(|t| t.task_id.as_str()).collect();
    assert!(ids.len() == 2);
    assert!(ids.contains(&"task-1") || ids.contains(&"task-2") || ids.contains(&"task-3"));
}

#[test]
fn test_registry_get_available_tasks_excludes_claimed() {
    let mut registry = task_registry();
    registry.register_task("task-1".to_string(), "Task 1".to_string()).unwrap();
    registry.register_task("task-2".to_string(), "Task 2".to_string()).unwrap();
    registry.claim_task("task-1", "agent-1", Duration::from_secs(60)).unwrap();
    let available = registry.get_available_tasks(10);
    assert_eq!(available.len(), 1);
    assert_eq!(available[0].task_id, "task-2");
}

#[test]
fn test_registry_get_tasks_in_progress() {
    let mut registry = task_registry();
    registry.register_task("task-1".to_string(), "Task 1".to_string()).unwrap();
    registry.register_task("task-2".to_string(), "Task 2".to_string()).unwrap();
    registry.claim_task("task-1", "agent-1", Duration::from_secs(60)).unwrap();
    let in_progress = registry.get_tasks_in_progress();
    assert_eq!(in_progress.len(), 1);
    assert_eq!(in_progress[0].task_id, "task-1");
}

#[test]
fn test_registry_get_task() {
    let mut registry = task_registry();
    registry.register_task("task-1".to_string(), "Test task".to_string()).unwrap();
    let task = registry.get_task("task-1");
    assert!(task.is_some());
    assert_eq!(task.unwrap().task_description, "Test task");
    assert!(registry.get_task("nonexistent").is_none());
}

#[test]
fn test_registry_abandon_stale_tasks() {
    let mut registry = task_registry();
    registry.register_task("task-1".to_string(), "Task 1".to_string()).unwrap();
    registry.register_task("task-2".to_string(), "Task 2".to_string()).unwrap();
    let t0 = 1_000_000;
    assert!(registry.claim_task_at("task-1", "agent-1", Duration::from_secs(1), t0));
    assert!(registry.claim_task_at("task-2", "agent-2", Duration::from_secs(1), t0));
    // 1.1 s later both leases have run out.
    let abandoned = registry.abandon_stale_tasks_at(Duration::from_secs(0), t0 + 1_100);
    assert_eq!(abandoned.len(), 2);
    let available = registry.get_available_tasks(10);
    assert_eq!(available.len(), 2);
    assert!(available[0].assigned_to.is_none());
}

#[test]
fn test_registry_abandon_stale_tasks_with_threshold() {
    let mut registry = task_registry();
    registry.register_task("task-1".to_string(), "Task 1".to_string()).unwrap();
    let t0 = 1_000_000;
    assert!(registry.claim_task_at("task-1", "agent-1", Duration::from_secs(1), t0));
    let abandoned = registry.abandon_stale_tasks_at(Duration::from_secs(60), t0 + 1_100);
    assert_eq!(abandoned.len(), 0);
    assert_eq!(registry.get_tasks_in_progress().len(), 1);
}

#[test]
fn abandon_stale_tasks_by_the_clock_keeps_live_leases() {
    let mut registry = task_registry();
    registry.register_task("task-1".to_string(), "Task 1".to_string()).unwrap();
    registry.claim_task("task-1", "agent-1", Duration::from_secs(600)).unwrap();
    let abandoned = registry.abandon_stale_tasks(Duration::from_secs(0)).unwrap();
    assert!(abandoned.is_empty());
}

#[test]
fn test_registry_cleanup_completed_tasks() {
    let mut registry = task_registry();
    registry.register_task("task-1".to_string(), "Task 1".to_string()).unwrap();
    registry.register_task("task-2".to_string(), "Task 2".to_string()).unwrap();
    registry.register_task("task-3".to_string(), "Task 3".to_string()).unwrap();
    let now = now_millis();
    assert!(registry.claim_task_at("task-1", "agent-1", Duration::from_secs(60), now - 200_000));
    registry.complete_task_at("task-1", "agent-1", now - 120_000).unwrap();
    registry.claim_task("task-2", "agent-2", Duration::from_secs(60)).unwrap();
    registry.complete_task("task-2", "agent-2").unwrap();
    let removed = registry.cleanup_completed_tasks(Duration::from_secs(60)).unwrap();
    assert_eq!(removed.len(), 1);
    assert_eq!(removed[0], "task-1");
    assert_eq!(registry.task_count(), 2);
}

#[test]
fn test_registry_cleanup_completed_tasks_preserves_failed() {
    let mut registry = task_registry();
    registry.register_task("task-1".to_string(), "Task 1".to_string()).unwrap();
    registry.register_task("task-2".to_string(), "Task 2".to_string()).unwrap();
    let now = now_millis();
    assert!(registry.claim_task_at("task-1", "agent-1", Duration::from_secs(60), now - 200_000));
    registry.complete_task_at("task-1", "agent-1", now - 120_000).unwrap();
    assert!(registry.claim_task_at("task-2", "agent-2", Duration::from_secs(60), now - 200_000));
    registry.fail_task_at("task-2", "agent-2", "Error".to_string(), now - 120_000).unwrap();
    let removed = registry.cleanup_completed_tasks(Duration::from_secs(60)).unwrap();
    assert_eq!(removed.len(), 1);
    assert_eq!(removed[0], "task-1");
    assert_eq!(registry.task_count(), 1);
    assert_eq!(registry.get_task("task-2").unwrap().state, RegistryTaskState::Failed);
}

#[test]
fn test_registry_record_heartbeat() {
    let mut registry = task_registry();
    registry.register_task("task-1".to_string(), "Task 1".to_string()).unwrap();
    registry.claim_task("task-1", "agent-1", Duration::from_secs(60)).unwrap();
    let recorded = registry.record_heartbeat("task-1", "agent-1").unwrap();
    assert!(recorded);
    assert!(registry.get_task("task-1").unwrap().last_heartbeat_at.is_some());
}

#[test]
fn test_registry_record_heartbeat_wrong_agent() {
    let mut registry = task_registry();
    registry.register_task("task-1".to_string(), "Task 1".to_string()).unwrap();
    registry.claim_task("task-1", "agent-1", Duration::from_secs(60)).unwrap();
    let recorded = registry.record_heartbeat("task-1", "agent-2").unwrap();
    assert!(!recorded);
}

#[test]
fn test_registry_task_count_and_all_ids() {
    let mut registry = task_registry();
    assert_eq!(registry.task_count(), 0);
    assert_eq!(registry.all_task_ids().len(), 0);
    registry.register_task("task-1".to_string(), "Task 1".to_string()).unwrap();
    registry.register_task("task-2".to_string(), "Task 2".to_string()).unwrap();
    assert_eq!(registry.task_count(), 2);
    let ids = registry.all_task_ids();
    assert_eq!(ids.len(), 2);
    assert!(ids.contains(&"task-1".to_string()));
    assert!(ids.contains(&"task-2".to_string()));
}

#[test]
fn registry_from_tasks_refuses_duplicate_ids() {
    let tasks = vec![
        TaskAssignment::new("a".to_string(), "1".to_string()),
        TaskAssignment::new("a".to_string(), "2".to_string()),
    ];
    assert!(TaskRegistry::from_tasks("p".to_string(), tasks).is_err());
    let tasks = vec![
        TaskAssignment::new("a".to_string(), "1".to_string()),
        TaskAssignment::new("b".to_string(), "2".to_string()),
    ];
    let registry = TaskRegistry::from_tasks("p".to_string(), tasks).unwrap();
    assert_eq!(registry.registry_path(), "p");
    assert_eq!(registry.all_task_ids(), vec!["a", "b"]);
}

#[test]
fn claim_next_available_takes_the_first_available_task() {
    let mut registry = task_registry();
    registry.register_task("a".to_string(), "1".to_string()).unwrap();
    registry.register_task("b".to_string(), "2".to_string()).unwrap();
    assert!(registry.claim_task_at("a", "x", Duration::from_secs(10), 5));
    let next = registry.claim_next_available_at("y", Duration::from_secs(10), 6);
    assert_eq!(next, Some("b".to_string()));
    assert_eq!(registry.get_task("b").unwrap().assigned_to, Some("y".to_string()));
    assert_eq!(registry.claim_next_available_at("z", Duration::from_secs(10), 7), None);
}

#[test]
fn a_completed_task_cannot_be_claimed_again() {
    let mut registry = task_registry();
    registry.register_task("a".to_string(), "1".to_string()).unwrap();
    assert!(registry.claim_task_at("a", "x", Duration::from_secs(10), 5));
    registry.complete_task_at("a", "x", 6).unwrap();
    assert!(!registry.claim_task_at("a", "y", Duration::from_secs(10), 7));
    assert_eq!(registry.get_task("a").unwrap().state, RegistryTaskState::Completed);
}

// ---- agent states and instances ----

#[test]
fn test_agent_status_default() {
    let status = AgentStatus::default();
    assert_eq!(status, AgentStatus::Active);
}

#[test]
fn test_agent_status_is_active() {
    assert!(AgentStatus::Active.is_active());
    assert!(!AgentStatus::Stale.is_active());
    assert!(!AgentStatus::Shutdown.is_active());
}

#[test]
fn test_agent_status_is_stale() {
    assert!(!AgentStatus::Active.is_stale());
    assert!(AgentStatus::Stale.is_stale());
    assert!(!AgentStatus::Shutdown.is_stale());
}

#[test]
fn test_agent_status_is_shutdown() {
    assert!(!AgentStatus::Active.is_shutdown());
    assert!(!AgentStatus::Stale.is_shutdown());
    assert!(AgentStatus::Shutdown.is_shutdown());
}

#[test]
fn test_agent_instance_new() {
    let agent = agent("test-agent-1", "test");
    assert_eq!(agent.agent_id, "test-agent-1");
    assert_eq!(agent.agent_type, "test");
    assert_eq!(agent.status, AgentStatus::Active);
    assert!(agent.tasks_assigned.is_empty());
    assert!(agent.hostname.is_some());
    assert!(agent.pid.is_some());
    assert_eq!(agent.started_at, agent.last_heartbeat_at);
}

#[test]
fn test_agent_instance_update_heartbeat() {
    let mut agent = AgentInstance::new_at("a".to_string(), "test".to_string(), "h".to_string(), 1, 100);
    agent.update_heartbeat_at(110);
    assert_eq!(agent.last_heartbeat_at, 110);
    assert_eq!(agent.status, AgentStatus::Active);
}

#[test]
fn test_agent_instance_update_heartbeat_reactivates_stale() {
    let mut agent = agent("test-agent-1", "test");
    agent.mark_stale();
    agent.update_heartbeat();
    assert_eq!(agent.status, AgentStatus::Active);
}

#[test]
fn heartbeat_does_not_revive_a_shut_down_agent() {
    let mut agent = agent("test-agent-1", "test");
    agent.mark_shutdown();
    agent.update_heartbeat();
    assert_eq!(agent.status, AgentStatus::Shutdown);
}

#[test]
fn test_agent_instance_mark_shutdown() {
    let mut agent = agent("test-agent-1", "test");
    agent.mark_shutdown();
    assert_eq!(agent.status, AgentStatus::Shutdown);
}

#[test]
fn test_agent_instance_mark_stale() {
    let mut agent = agent("test-agent-1", "test");
    agent.mark_stale();
    assert_eq!(agent.status, AgentStatus::Stale);
}

#[test]
fn test_agent_instance_assign_task() {
    let mut agent = agent("test-agent-1", "test");
    assert!(agent.assign_task("task-1"));
    assert!(agent.assign_task("task-2"));
    assert!(!agent.assign_task("task-1"));
    assert_eq!(agent.tasks_assigned.len(), 2);
}

#[test]
fn test_agent_instance_unassign_task() {
    let mut agent = agent("test-agent-1", "test");
    agent.assign_task("task-1");
    agent.assign_task("task-2");
    assert!(agent.unassign_task("task-1"));
    assert!(!agent.unassign_task("task-3"));
    assert_eq!(agent.tasks_assigned.len(), 1);
    assert_eq!(agent.tasks_assigned, vec!["task-2"]);
}

#[test]
fn test_agent_instance_is_heartbeat_stale() {
    let agent = AgentInstance::new_at("a".to_string(), "test".to_string(), "h".to_string(), 1, 1_000);
    assert!(!agent.is_heartbeat_stale_at(Duration::from_secs(60), 1_001));
    assert!(agent.is_heartbeat_stale_at(Duration::from_secs(0), 1_001));
    assert!(!agent.is_heartbeat_stale_at(Duration::from_secs(1), 2_000));
    assert!(agent.is_heartbeat_stale_at(Duration::from_secs(1), 2_001));
}

#[test]
fn fresh_agent_is_not_stale_by_the_clock() {
    let agent = agent("test-agent-1", "test");
    assert!(!agent.is_heartbeat_stale(Duration::from_secs(60)));
}

#[test]
fn test_agent_instance_uptime() {
    let agent = AgentInstance::new_at("a".to_string(), "test".to_string(), "h".to_string(), 1, 1_000);
    assert_eq!(agent.uptime_at(1_010), Duration::from_millis(10));
    assert_eq!(agent.uptime_at(900), Duration::from_millis(0));
}

#[test]
fn test_agent_instance_last_heartbeat_age() {
    let mut agent = AgentInstance::new_at("a".to_string(), "test".to_string(), "h".to_string(), 1, 1_000);
    agent.update_heartbeat_at(2_000);
    assert_eq!(agent.last_heartbeat_age_at(2_010), Duration::from_millis(10));
    assert_eq!(agent.uptime_at(2_010), Duration::from_millis(1_010));
}

// ---- agent registry ----

#[test]
fn test_agent_registry_register_agent() {
    let mut registry = agent_registry();
    registry.register_agent("agent-1".to_string(), "prompt".to_string(), "h".to_string(), 1).unwrap();
    assert!(registry.agent_exists("agent-1"));
    assert_eq!(registry.agent_count(), 1);
}

#[test]
fn test_agent_registry_register_duplicate_agent() {
    let mut registry = agent_registry();
    registry.register_agent("agent-1".to_string(), "prompt".to_string(), "h".to_string(), 1).unwrap();
    let result = registry.register_agent("agent-1".to_string(), "code".to_string(), "h".to_string(), 1);
    assert!(result.is_err());
    assert_eq!(registry.get_agent("agent-1").unwrap().agent_type, "prompt");
}

#[test]
fn test_agent_registry_update_heartbeat() {
    let mut registry = agent_registry();
    registry.register_agent_at("agent-1".to_string(), "prompt".to_string(), "h".to_string(), 1, 100).unwrap();
    let updated = registry.update_heartbeat_at("agent-1", 110);
    assert!(updated);
    assert_eq!(registry.get_agent("agent-1").unwrap().last_heartbeat_at, 110);
}

#[test]
fn test_agent_registry_update_heartbeat_not_found() {
    let mut registry = agent_registry();
    let updated = registry.update_heartbeat("nonexistent").unwrap();
    assert!(!updated);
}

#[test]
fn test_agent_registry_assign_task() {
    let mut registry = agent_registry();
    registry.register_agent("agent-1".to_string(), "prompt".to_string(), "h".to_string(), 1).unwrap();
    registry.assign_task("agent-1", "task-1").unwrap();
    let agent = registry.get_agent("agent-1").unwrap();
    assert!(agent.tasks_assigned.contains(&"task-1".to_string()));
}

#[test]
fn test_agent_registry_assign_task_not_found() {
    let mut registry = agent_registry();
    let result = registry.assign_task("nonexistent", "task-1");
    assert!(result.is_err());
    match result {
        Err(AutomationError::StateError { task, message }) => {
            assert_eq!(task, "nonexistent");
            assert_eq!(message, "Agent not found");
        }
        _ => panic!("expected a state error"),
    }
}

#[test]
fn test_agent_registry_unassign_task() {
    let mut registry = agent_registry();
    registry.register_agent("agent-1".to_string(), "prompt".to_string(), "h".to_string(), 1).unwrap();
    registry.assign_task("agent-1", "task-1").unwrap();
    registry.unassign_task("agent-1", "task-1").unwrap();
    let agent = registry.get_agent("agent-1").unwrap();
    assert!(!agent.tasks_assigned.contains(&"task-1".to_string()));
}

#[test]
fn test_agent_registry_mark_shutdown() {
    let mut registry = agent_registry();
    registry.register_agent("agent-1".to_string(), "prompt".to_string(), "h".to_string(), 1).unwrap();
    registry.mark_shutdown("agent-1").unwrap();
    let agent = registry.get_agent("agent-1").unwrap();
    assert_eq!(agent.status, AgentStatus::Shutdown);
}

#[test]
fn test_agent_registry_get_agent() {
    let mut registry = agent_registry();
    registry.register_agent("agent-1".to_string(), "prompt".to_string(), "h".to_string(), 1).unwrap();
    let agent = registry.get_agent("agent-1");
    assert!(agent.is_some());
    assert_eq!(agent.unwrap().agent_type, "prompt");
}

#[test]
fn test_agent_registry_get_agent_not_found() {
    let registry = agent_registry();
    assert!(registry.get_agent("nonexistent").is_none());
}

#[test]
fn test_agent_registry_get_agents_by_type() {
    let mut registry = agent_registry();
    registry.register_agent("prompt-1".to_string(), "prompt".to_string(), "h".to_string(), 1).unwrap();
    registry.register_agent("prompt-2".to_string(), "prompt".to_string(), "h".to_string(), 1).unwrap();
    registry.register_agent("code-1".to_string(), "code".to_string(), "h".to_string(), 1).unwrap();
    assert_eq!(registry.get_agents_by_type("prompt").len(), 2);
    assert_eq!(registry.get_agents_by_type("code").len(), 1);
}

#[test]
fn test_agent_registry_get_active_agents() {
    let mut registry = agent_registry();
    registry.register_agent("active-1".to_string(), "prompt".to_string(), "h".to_string(), 1).unwrap();
    registry.register_agent("active-2".to_string(), "prompt".to_string(), "h".to_string(), 1).unwrap();
    registry.mark_shutdown("active-1").unwrap();
    let active_agents = registry.get_active_agents();
    assert_eq!(active_agents.len(), 1);
    assert_eq!(active_agents[0].agent_id, "active-2");
}

#[test]
fn test_agent_registry_mark_stale_agents() {
    let now = now_millis();
    let fresh = AgentInstance::new_at("fresh-1".to_string(), "prompt".to_string(), "h".to_string(), 1, now);
    let stale = AgentInstance::new_at("stale-1".to_string(), "prompt".to_string(), "h".to_string(), 1, now - 120_000);
    let mut registry = AgentRegistry::from_agents("p".to_string(), vec![fresh, stale]).unwrap();
    let stale_agents = registry.mark_stale_agents(Duration::from_secs(60)).unwrap();
    assert_eq!(stale_agents.len(), 1);
    assert!(stale_agents.contains(&"stale-1".to_string()));
    assert_eq!(registry.get_agent("stale-1").unwrap().status, AgentStatus::Stale);
    assert_eq!(registry.get_agent("fresh-1").unwrap().status, AgentStatus::Active);
}

#[test]
fn test_agent_registry_cleanup_stale_agents() {
    let now = now_millis();
    let mut old_stale = AgentInstance::new_at("old-stale".to_string(), "prompt".to_string(), "h".to_string(), 1, now - 600_000);
    old_stale.mark_stale();
    let mut recent_stale = AgentInstance::new_at("recent-stale".to_string(), "prompt".to_string(), "h".to_string(), 1, now - 10_000);
    recent_stale.mark_stale();
    let mut registry = AgentRegistry::from_agents("p".to_string(), vec![old_stale, recent_stale]).unwrap();
    let removed = registry.cleanup_stale_agents(Duration::from_secs(300)).unwrap();
    assert_eq!(removed.len(), 1);
    assert!(removed.contains(&"old-stale".to_string()));
    assert!(registry.agent_exists("recent-stale"));
    assert!(!registry.agent_exists("old-stale"));
}

#[test]
fn test_agent_registry_cleanup_shutdown_agents() {
    let now = now_millis();
    let mut old_shutdown =
        AgentInstance::new_at("old-shutdown".to_string(), "prompt".to_string(), "h".to_string(), 1, now - 600_000);
    old_shutdown.mark_shutdown();
    let mut recent_shutdown =
        AgentInstance::new_at("recent-shutdown".to_string(), "prompt".to_string(), "h".to_string(), 1, now - 10_000);
    recent_shutdown.mark_shutdown();
    let mut registry = AgentRegistry::from_agents("p".to_string(), vec![old_shutdown, recent_shutdown]).unwrap();
    let removed = registry.cleanup_shutdown_agents(Duration::from_secs(300)).unwrap();
    assert_eq!(removed.len(), 1);
    assert!(removed.contains(&"old-shutdown".to_string()));
    assert!(registry.agent_exists("recent-shutdown"));
    assert!(!registry.agent_exists("old-shutdown"));
}

#[test]
fn test_agent_registry_get_agent_stats() {
    let mut registry = agent_registry();
    registry.register_agent_at("agent-1".to_string(), "prompt".to_string(), "h".to_string(), 1, 1_000).unwrap();
    registry.assign_task("agent-1", "task-1").unwrap();
    registry.assign_task("agent-1", "task-2").unwrap();
    let stats = registry.get_agent_stats_at("agent-1", 4_000).unwrap();
    assert_eq!(stats.agent_id, "agent-1");
    assert_eq!(stats.agent_type, "prompt");
    assert_eq!(stats.tasks_assigned, 2);
    assert_eq!(stats.status, AgentStatus::Active);
    assert_eq!(stats.uptime, Duration::from_secs(3));
    assert_eq!(stats.last_heartbeat_age, Duration::from_secs(3));
}

#[test]
fn test_agent_registry_get_agent_stats_not_found() {
    let registry = agent_registry();
    assert!(registry.get_agent_stats("nonexistent").is_none());
}

#[test]
fn test_agent_registry_agent_count() {
    let mut registry = agent_registry();
    assert_eq!(registry.agent_count(), 0);
    registry.register_agent("agent-1".to_string(), "prompt".to_string(), "h".to_string(), 1).unwrap();
    registry.register_agent("agent-2".to_string(), "code".to_string(), "h".to_string(), 1).unwrap();
    assert_eq!(registry.agent_count(), 2);
}

#[test]
fn test_agent_registry_list_agent_ids() {
    let mut registry = agent_registry();
    registry.register_agent("agent-1".to_string(), "prompt".to_string(), "h".to_string(), 1).unwrap();
    registry.register_agent("agent-2".to_string(), "code".to_string(), "h".to_string(), 1).unwrap();
    let ids = registry.list_agent_ids();
    assert_eq!(ids.len(), 2);
    assert!(ids.contains(&"agent-1".to_string()));
    assert!(ids.contains(&"agent-2".to_string()));
}

#[test]
fn test_generate_agent_id() {
    let agent_id = generate_agent_id("prompt");
    assert!(agent_id.starts_with("prompt-"));
    assert_ne!(agent_id, generate_agent_id("prompt"));
    let code_id = generate_agent_id("code");
    assert!(code_id.starts_with("code-"));
    assert_ne!(agent_id, code_id);
}

#[test]
fn generated_agent_id_carries_a_uuid_v4() {
    let id = generate_agent_id("prompt");
    assert_eq!(id.len(), "prompt-".len() + 36);
    let uuid = &id["prompt-".len()..];
    assert_eq!(uuid.as_bytes()[14], b'4');
    assert_eq!(uuid.matches('-').count(), 4);
}
