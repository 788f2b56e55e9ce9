//! State data structures for the automation system.
//!
//! A [`State`] tracks one agent's runs: timestamps of the last run, success and
//! failure, error and termination counters, execution-time totals and their
//! average, recorded mistakes, and lock information. A [`TaskState`] tracks the
//! same for a single task.
//!
//! Timestamps are milliseconds since the Unix epoch.

use vstd::prelude::*;
use crate::error::Result;
use crate::ids::{new_uuid_v4, is_uuid_v4_text};
use crate::task_registry::opt_str_view;
use crate::time::{Duration, spec_delta_ms, now_millis, MAX_TIMESTAMP_MS, MIN_TIMESTAMP_MS};

verus! {

/// Status of a task execution.
#[derive(Debug, Clone, Copy, PartialEq, Eq, Structural)]
pub enum TaskStatus {
    /// Task is idle (not running)
    Idle,
    /// Task is currently running
    Running,
    /// Task completed successfully
    Success,
    /// Task failed
    Failed,
}

impl TaskStatus {
    /// Returns true if the task is currently running.
    pub fn is_running(&self) -> (r: bool)
        ensures
            r == (*self == TaskStatus::Running),
    {
        matches!(self, TaskStatus::Running)
    }

    /// Returns true if the task completed successfully.
    pub fn is_success(&self) -> (r: bool)
        ensures
            r == (*self == TaskStatus::Success),
    {
        matches!(self, TaskStatus::Success)
    }

    /// Returns true if the task failed.
    pub fn is_failed(&self) -> (r: bool)
        ensures
            r == (*self == TaskStatus::Failed),
    {
        matches!(self, TaskStatus::Failed)
    }

    /// Returns true if the task is idle.
    pub fn is_idle(&self) -> (r: bool)
        ensures
            r == (*self == TaskStatus::Idle),
    {
        matches!(self, TaskStatus::Idle)
    }
}

impl Default for TaskStatus {
    fn default() -> (s: Self)
        ensures
            s == TaskStatus::Idle,
    {
        TaskStatus::Idle
    }
}

/// Lock data of a process holding a file lock.
#[derive(Debug)]
pub struct LockData {
    /// Process ID of the process holding the lock
    pub pid: Option<u32>,
    /// When the lock was acquired
    pub timestamp: Option<i64>,
    /// Hostname of the machine holding the lock
    pub host: Option<String>,
}

impl LockData {
    /// Lock data stamped with `now`.
    pub fn new_at(pid: Option<u32>, host: Option<String>, now: i64) -> (d: Self)
        ensures
            d.pid == pid,
            d.timestamp == Some(now),
            opt_str_view(d.host) == opt_str_view(host),
    {
        LockData { pid, timestamp: Some(now), host }
    }

    /// Lock data stamped with the current time.
    pub fn new(pid: Option<u32>, host: Option<String>) -> (d: Self)
        ensures
            d.pid == pid,
            d.timestamp matches Some(t) && 0 <= t <= MAX_TIMESTAMP_MS,
            opt_str_view(d.host) == opt_str_view(host),
    {
        let now = now_millis();
        Self::new_at(pid, host, now)
    }
}

impl Default for LockData {
    fn default() -> (d: Self)
        ensures
            d.pid is None && d.timestamp is None && d.host is None,
    {
        LockData { pid: None, timestamp: None, host: None }
    }
}

/// State of a single task: execution history, errors, performance and terminations.
#[derive(Debug)]
pub struct TaskState {
    /// Last run
    pub last_run: Option<i64>,
    /// Last successful completion
    pub last_success: Option<i64>,
    /// Last failure
    pub last_failure: Option<i64>,
    /// Total count of errors
    pub error_count: u64,
    /// Count of consecutive failures
    pub consecutive_failures: u64,
    /// Current status
    pub status: TaskStatus,
    /// Reason for the last early termination
    pub last_termination_reason: Option<String>,
    /// Count of early terminations
    pub early_termination_count: u64,
    /// Total execution time in milliseconds
    pub total_execution_time_ms: u64,
    /// Average execution time in milliseconds
    pub average_execution_time_ms: u64,
    /// Count of successful terminations
    pub successful_terminations: u64,
    /// Count of failed terminations
    pub failed_terminations: u64,
}

/// Abstract value of a [`TaskState`].
pub struct TaskStateView {
    pub last_run: Option<i64>,
    pub last_success: Option<i64>,
    pub last_failure: Option<i64>,
    pub error_count: u64,
    pub consecutive_failures: u64,
    pub status: TaskStatus,
    pub last_termination_reason: Option<Seq<char>>,
    pub early_termination_count: u64,
    pub total_execution_time_ms: u64,
    pub average_execution_time_ms: u64,
    pub successful_terminations: u64,
    pub failed_terminations: u64,
}

impl View for TaskState {
    type V = TaskStateView;

    open spec fn view(&self) -> TaskStateView {
        TaskStateView {
            last_run: self.last_run,
            last_success: self.last_success,
            last_failure: self.last_failure,
            error_count: self.error_count,
            consecutive_failures: self.consecutive_failures,
            status: self.status,
            last_termination_reason: opt_str_view(self.last_termination_reason),
            early_termination_count: self.early_termination_count,
            total_execution_time_ms: self.total_execution_time_ms,
            average_execution_time_ms: self.average_execution_time_ms,
            successful_terminations: self.successful_terminations,
            failed_terminations: self.failed_terminations,
        }
    }
}

/// The initial task state: nothing recorded, idle.
pub open spec fn default_task_state() -> TaskStateView {
    TaskStateView {
        last_run: None,
        last_success: None,
        last_failure: None,
        error_count: 0,
        consecutive_failures: 0,
        status: TaskStatus::Idle,
        last_termination_reason: None,
        early_termination_count: 0,
        total_execution_time_ms: 0,
        average_execution_time_ms: 0,
        successful_terminations: 0,
        failed_terminations: 0,
    }
}

/// The average execution time after a change of the totals: the total divided by
/// the number of timed executions (early terminations plus successes); unchanged
/// when there are none.
pub open spec fn recalculated_average(total: u64, early: u64, successes: u64, previous: u64) -> u64 {
    if early + successes > 0 {
        (total as int / (early + successes)) as u64
    } else {
        previous
    }
}

/// An optional value of `a`, or `b` where `a` has none.
pub open spec fn or_else_opt<A>(a: Option<A>, b: Option<A>) -> Option<A> {
    match a {
        Some(x) => Some(x),
        None => b,
    }
}

/// Merging fills the fields that are missing (`None`) from `other`; every other
/// field keeps its value.
pub open spec fn merged_task_state(s: TaskStateView, other: TaskStateView) -> TaskStateView {
    TaskStateView {
        last_run: or_else_opt(s.last_run, other.last_run),
        last_success: or_else_opt(s.last_success, other.last_success),
        last_failure: or_else_opt(s.last_failure, other.last_failure),
        last_termination_reason: or_else_opt(s.last_termination_reason, other.last_termination_reason),
        ..s
    }
}

/// Counters of a task state that recording a success increases stay in range.
pub open spec fn task_success_fits(s: TaskStateView, execution_time_ms: u64) -> bool {
    &&& s.successful_terminations < u64::MAX
    &&& s.total_execution_time_ms + execution_time_ms <= u64::MAX
    &&& s.early_termination_count + s.successful_terminations + 1 <= u64::MAX
}

/// The task state after a success at `timestamp` that took `execution_time_ms`.
pub open spec fn task_success_view(s: TaskStateView, timestamp: i64, execution_time_ms: u64) -> TaskStateView {
    let total = (s.total_execution_time_ms + execution_time_ms) as u64;
    let successes = (s.successful_terminations + 1) as u64;
    TaskStateView {
        last_success: Some(timestamp),
        status: TaskStatus::Success,
        consecutive_failures: 0,
        successful_terminations: successes,
        total_execution_time_ms: total,
        average_execution_time_ms: recalculated_average(total, s.early_termination_count, successes, s.average_execution_time_ms),
        ..s
    }
}

/// The task state after a failure at `now` with message `error`.
pub open spec fn task_failure_view(s: TaskStateView, error: Seq<char>, now: i64) -> TaskStateView {
    TaskStateView {
        last_failure: Some(now),
        error_count: (s.error_count + 1) as u64,
        consecutive_failures: (s.consecutive_failures + 1) as u64,
        failed_terminations: (s.failed_terminations + 1) as u64,
        status: TaskStatus::Failed,
        last_termination_reason: Some(error),
        ..s
    }
}

/// The task state after an early termination for `reason`, optionally timed.
pub open spec fn task_early_termination_view(s: TaskStateView, reason: Seq<char>, execution_time_ms: Option<u64>) -> TaskStateView {
    let early = (s.early_termination_count + 1) as u64;
    match execution_time_ms {
        Some(t) => {
            let total = (s.total_execution_time_ms + t) as u64;
            TaskStateView {
                last_termination_reason: Some(reason),
                early_termination_count: early,
                total_execution_time_ms: total,
                average_execution_time_ms: recalculated_average(total, early, s.successful_terminations, s.average_execution_time_ms),
                ..s
            }
        },
        None => TaskStateView { last_termination_reason: Some(reason), early_termination_count: early, ..s },
    }
}

/// Counters that an early termination increases stay in range; a timed one also
/// adds to the total time and counts the timed executions for the average.
pub open spec fn task_early_termination_fits(s: TaskStateView, execution_time_ms: Option<u64>) -> bool {
    &&& s.early_termination_count < u64::MAX
    &&& (execution_time_ms matches Some(t) ==> {
        &&& s.total_execution_time_ms + t <= u64::MAX
        &&& s.early_termination_count + 1 + s.successful_terminations <= u64::MAX
    })
}

fn recalculate(total: u64, early: u64, successes: u64, previous: u64) -> (r: u64)
    requires
        early + successes <= u64::MAX,
    ensures
        r == recalculated_average(total, early, successes, previous),
{
    let executions = early + successes;
    if executions > 0 {
        total / executions
    } else {
        previous
    }
}

pub(crate) fn clone_opt(o: &Option<String>) -> (r: Option<String>)
    ensures
        opt_str_view(r) == opt_str_view(*o),
{
    match o {
        Some(s) => Some(s.clone()),
        None => None,
    }
}

impl Clone for TaskState {
    fn clone(&self) -> (r: Self)
        ensures
            r@ == self@,
    {
        TaskState {
            last_run: self.last_run,
            last_success: self.last_success,
            last_failure: self.last_failure,
            error_count: self.error_count,
            consecutive_failures: self.consecutive_failures,
            status: self.status,
            last_termination_reason: clone_opt(&self.last_termination_reason),
            early_termination_count: self.early_termination_count,
            total_execution_time_ms: self.total_execution_time_ms,
            average_execution_time_ms: self.average_execution_time_ms,
            successful_terminations: self.successful_terminations,
            failed_terminations: self.failed_terminations,
        }
    }
}

impl Default for TaskState {
    fn default() -> (s: Self)
        ensures
            s@ == default_task_state(),
    {
        TaskState {
            last_run: None,
            last_success: None,
            last_failure: None,
            error_count: 0,
            consecutive_failures: 0,
            status: TaskStatus::Idle,
            last_termination_reason: None,
            early_termination_count: 0,
            total_execution_time_ms: 0,
            average_execution_time_ms: 0,
            successful_terminations: 0,
            failed_terminations: 0,
        }
    }
}

impl TaskState {
    /// Creates a task state with nothing recorded.
    pub fn new() -> (s: Self)
        ensures
            s@ == default_task_state(),
    {
        TaskState::default()
    }

    /// Updates the last run timestamp.
    pub fn update_last_run(&mut self, timestamp: i64)
        ensures
            final(self)@ == (TaskStateView { last_run: Some(timestamp), ..old(self)@ }),
    {
        self.last_run = Some(timestamp);
    }

    /// Records a successful completion at `timestamp` that took `execution_time_ms`.
    pub fn record_success(&mut self, timestamp: i64, execution_time_ms: u64)
        requires
            task_success_fits(old(self)@, execution_time_ms),
        ensures
            final(self)@ == task_success_view(old(self)@, timestamp, execution_time_ms),
    {
        self.last_success = Some(timestamp);
        self.status = TaskStatus::Success;
        self.consecutive_failures = 0;
        self.successful_terminations = self.successful_terminations + 1;
        self.total_execution_time_ms = self.total_execution_time_ms + execution_time_ms;
        self.average_execution_time_ms = recalculate(
            self.total_execution_time_ms,
            self.early_termination_count,
            self.successful_terminations,
            self.average_execution_time_ms,
        );
    }

    /// Records a failure at `now` with message `error`.
    pub fn record_failure_at(&mut self, error: &str, now: i64)
        requires
            old(self)@.error_count < u64::MAX,
            old(self)@.consecutive_failures < u64::MAX,
            old(self)@.failed_terminations < u64::MAX,
        ensures
            final(self)@ == task_failure_view(old(self)@, error@, now),
    {
        self.last_failure = Some(now);
        self.error_count = self.error_count + 1;
        self.consecutive_failures = self.consecutive_failures + 1;
        self.failed_terminations = self.failed_terminations + 1;
        self.status = TaskStatus::Failed;
        self.last_termination_reason = Some(error.to_string());
    }

    /// Records a failure at the current time with message `error`.
    pub fn record_failure(&mut self, error: &str)
        requires
            old(self)@.error_count < u64::MAX,
            old(self)@.consecutive_failures < u64::MAX,
            old(self)@.failed_terminations < u64::MAX,
        ensures
            final(self)@.last_failure matches Some(t) && 0 <= t <= MAX_TIMESTAMP_MS,
            final(self)@ == task_failure_view(old(self)@, error@, final(self)@.last_failure->0),
    {
        let now = now_millis();
        self.record_failure_at(error, now);
    }

    /// Records an early termination for `reason`, with its execution time if known.
    pub fn record_early_termination(&mut self, reason: &str, execution_time_ms: Option<u64>)
        requires
            task_early_termination_fits(old(self)@, execution_time_ms),
        ensures
            final(self)@ == task_early_termination_view(old(self)@, reason@, execution_time_ms),
    {
        self.last_termination_reason = Some(reason.to_string());
        self.early_termination_count = self.early_termination_count + 1;
        if let Some(time_ms) = execution_time_ms {
            self.total_execution_time_ms = self.total_execution_time_ms + time_ms;
            self.average_execution_time_ms = recalculate(
                self.total_execution_time_ms,
                self.early_termination_count,
                self.successful_terminations,
                self.average_execution_time_ms,
            );
        }
    }

    /// Resets the state to nothing recorded.
    pub fn reset(&mut self)
        ensures
            final(self)@ == default_task_state(),
    {
        *self = TaskState::default();
    }

    /// Fills the missing fields of this state from `other` (for reading state files
    /// written before a field existed); present fields are kept.
    pub fn merge_missing_fields(&mut self, other: &TaskState)
        ensures
            final(self)@ == merged_task_state(old(self)@, other@),
    {
        if self.last_run.is_none() {
            self.last_run = other.last_run;
        }
        if self.last_success.is_none() {
            self.last_success = other.last_success;
        }
        if self.last_failure.is_none() {
            self.last_failure = other.last_failure;
        }
        if self.last_termination_reason.is_none() {
            self.last_termination_reason = clone_opt(&other.last_termination_reason);
        }
    }
}

/// Types that can fill their missing fields from another value of the type.
pub trait Mergeable: Sized {
    /// Fills the fields of `self` that are missing (absent, or an empty list of
    /// records) from `other`; present fields are kept, nested records are merged
    /// field by field.
    fn merge_from(&mut self, other: &Self) -> Result<()>;
}

impl Mergeable for TaskState {
    fn merge_from(&mut self, other: &TaskState) -> (r: Result<()>)
        ensures
            r is Ok,
            final(self)@ == merged_task_state(old(self)@, other@),
    {
        self.merge_missing_fields(other);
        Ok(())
    }
}

/// A mistake record: an error kept for later analysis.
#[derive(Debug)]
pub struct Mistake {
    /// Unique identifier (a random UUID)
    pub id: String,
    /// When the mistake occurred
    pub timestamp: i64,
    /// Human-readable error message
    pub error_message: String,
    /// Name of the task that caused the mistake
    pub task: Option<String>,
    /// Additional context or stack trace
    pub context: Option<String>,
}

/// Abstract value of a [`Mistake`].
pub struct MistakeView {
    pub id: Seq<char>,
    pub timestamp: i64,
    pub error_message: Seq<char>,
    pub task: Option<Seq<char>>,
    pub context: Option<Seq<char>>,
}

impl View for Mistake {
    type V = MistakeView;

    open spec fn view(&self) -> MistakeView {
        MistakeView {
            id: self.id@,
            timestamp: self.timestamp,
            error_message: self.error_message@,
            task: opt_str_view(self.task),
            context: opt_str_view(self.context),
        }
    }
}

impl Clone for Mistake {
    fn clone(&self) -> (r: Self)
        ensures
            r@ == self@,
    {
        Mistake {
            id: self.id.clone(),
            timestamp: self.timestamp,
            error_message: self.error_message.clone(),
            task: clone_opt(&self.task),
            context: clone_opt(&self.context),
        }
    }
}

/// Generates a unique mistake id: a random version-4 UUID.
pub fn generate_mistake_id() -> (id: String)
    ensures
        is_uuid_v4_text(id@),
{
    new_uuid_v4()
}

impl Mistake {
    /// A mistake recorded now with a fresh id and no context.
    pub fn new(error_message: String, task: Option<String>) -> (m: Self)
        ensures
            is_uuid_v4_text(m@.id),
            0 <= m@.timestamp <= MAX_TIMESTAMP_MS,
            m@.error_message == error_message@,
            m@.task == opt_str_view(task),
            m@.context is None,
    {
        Mistake {
            id: generate_mistake_id(),
            timestamp: now_millis(),
            error_message,
            task,
            context: None,
        }
    }

    /// A mistake recorded now with a fresh id and additional context.
    pub fn new_with_context(error_message: String, task: Option<String>, context: String) -> (m: Self)
        ensures
            is_uuid_v4_text(m@.id),
            0 <= m@.timestamp <= MAX_TIMESTAMP_MS,
            m@.error_message == error_message@,
            m@.task == opt_str_view(task),
            m@.context == Some(context@),
    {
        Mistake {
            id: generate_mistake_id(),
            timestamp: now_millis(),
            error_message,
            task,
            context: Some(context),
        }
    }

    /// The age of the mistake at `now`, in milliseconds.
    pub fn age_at(&self, now: i64) -> (ms: i64)
        requires
            MIN_TIMESTAMP_MS <= self.timestamp <= MAX_TIMESTAMP_MS,
            0 <= now <= MAX_TIMESTAMP_MS,
        ensures
            ms == now - self.timestamp,
    {
        now - self.timestamp
    }

    /// The age of the mistake, by the system clock, in milliseconds.
    pub fn age(&self) -> (ms: i64)
        requires
            MIN_TIMESTAMP_MS <= self.timestamp <= MAX_TIMESTAMP_MS,
        ensures
            exists|now: i64| 0 <= now <= MAX_TIMESTAMP_MS && #[trigger] (now - self.timestamp) == ms,
    {
        let now = now_millis();
        self.age_at(now)
    }
}

/// Lock information: when a lock was acquired, by which process on which host.
#[derive(Debug)]
pub struct LockInfo {
    /// When the lock was acquired
    pub acquired_at: i64,
    /// Process ID of the process holding the lock
    pub process_id: Option<u32>,
    /// Hostname of the machine holding the lock
    pub hostname: Option<String>,
}

/// Abstract value of a [`LockInfo`].
pub struct LockInfoView {
    pub acquired_at: i64,
    pub process_id: Option<u32>,
    pub hostname: Option<Seq<char>>,
}

impl View for LockInfo {
    type V = LockInfoView;

    open spec fn view(&self) -> LockInfoView {
        LockInfoView { acquired_at: self.acquired_at, process_id: self.process_id, hostname: opt_str_view(self.hostname) }
    }
}

impl Clone for LockInfo {
    fn clone(&self) -> (r: Self)
        ensures
            r@ == self@,
    {
        LockInfo { acquired_at: self.acquired_at, process_id: self.process_id, hostname: clone_opt(&self.hostname) }
    }
}

impl LockInfo {
    /// Lock information stamped with `now`.
    pub fn new_at(process_id: Option<u32>, hostname: Option<String>, now: i64) -> (l: Self)
        ensures
            l@ == (LockInfoView { acquired_at: now, process_id, hostname: opt_str_view(hostname) }),
    {
        LockInfo { acquired_at: now, process_id, hostname }
    }

    /// Lock information stamped with the current time.
    pub fn new(process_id: Option<u32>, hostname: Option<String>) -> (l: Self)
        ensures
            0 <= l@.acquired_at <= MAX_TIMESTAMP_MS,
            l@ == (LockInfoView { acquired_at: l@.acquired_at, process_id, hostname: opt_str_view(hostname) }),
    {
        let now = now_millis();
        Self::new_at(process_id, hostname, now)
    }

    /// The age of the lock at `now`, in milliseconds.
    pub fn age_at(&self, now: i64) -> (ms: i64)
        requires
            MIN_TIMESTAMP_MS <= self.acquired_at <= MAX_TIMESTAMP_MS,
            0 <= now <= MAX_TIMESTAMP_MS,
        ensures
            ms == now - self.acquired_at,
    {
        now - self.acquired_at
    }

    /// The age of the lock, by the system clock, in milliseconds.
    pub fn age(&self) -> (ms: i64)
        requires
            MIN_TIMESTAMP_MS <= self.acquired_at <= MAX_TIMESTAMP_MS,
        ensures
            exists|now: i64| 0 <= now <= MAX_TIMESTAMP_MS && #[trigger] (now - self.acquired_at) == ms,
    {
        let now = now_millis();
        self.age_at(now)
    }
}

/// Creates lock information stamped with the current time.
pub fn create_lock_info(process_id: Option<u32>, hostname: Option<String>) -> (l: LockInfo)
    ensures
        0 <= l@.acquired_at <= MAX_TIMESTAMP_MS,
        l@ == (LockInfoView { acquired_at: l@.acquired_at, process_id, hostname: opt_str_view(hostname) }),
{
    LockInfo::new(process_id, hostname)
}

/// An agent's state: run timestamps, error and termination counters, execution
/// times, mistakes and lock information.
#[derive(Debug)]
pub struct State {
    /// Last run
    pub last_run: Option<i64>,
    /// Last successful completion
    pub last_success: Option<i64>,
    /// Last failure
    pub last_failure: Option<i64>,
    /// Total count of errors
    pub error_count: u64,
    /// Count of consecutive failures
    pub consecutive_failures: u64,
    /// Current status ("idle", "running", "success", "error", "failed")
    pub status: String,
    /// Reason for the last early termination
    pub last_termination_reason: Option<String>,
    /// Count of early terminations
    pub early_termination_count: u64,
    /// Total execution time in milliseconds
    pub total_execution_time_ms: u64,
    /// Average execution time in milliseconds
    pub average_execution_time_ms: u64,
    /// Count of successful terminations
    pub successful_terminations: u64,
    /// Count of failed terminations
    pub failed_terminations: u64,
    /// Mistake records, oldest first
    pub mistakes: Vec<Mistake>,
    /// Lock information
    pub lock: Option<LockInfo>,
}

/// Abstract value of a [`State`].
pub struct StateView {
    pub last_run: Option<i64>,
    pub last_success: Option<i64>,
    pub last_failure: Option<i64>,
    pub error_count: u64,
    pub consecutive_failures: u64,
    pub status: Seq<char>,
    pub last_termination_reason: Option<Seq<char>>,
    pub early_termination_count: u64,
    pub total_execution_time_ms: u64,
    pub average_execution_time_ms: u64,
    pub successful_terminations: u64,
    pub failed_terminations: u64,
    pub mistakes: Seq<MistakeView>,
    pub lock: Option<LockInfoView>,
}

/// The view of an optional lock.
pub open spec fn opt_lock_view(l: Option<LockInfo>) -> Option<LockInfoView> {
    match l {
        Some(x) => Some(x@),
        None => None,
    }
}

impl View for State {
    type V = StateView;

    open spec fn view(&self) -> StateView {
        StateView {
            last_run: self.last_run,
            last_success: self.last_success,
            last_failure: self.last_failure,
            error_count: self.error_count,
            consecutive_failures: self.consecutive_failures,
            status: self.status@,
            last_termination_reason: opt_str_view(self.last_termination_reason),
            early_termination_count: self.early_termination_count,
            total_execution_time_ms: self.total_execution_time_ms,
            average_execution_time_ms: self.average_execution_time_ms,
            successful_terminations: self.successful_terminations,
            failed_terminations: self.failed_terminations,
            mistakes: self.mistakes@.map_values(|m: Mistake| m@),
            lock: opt_lock_view(self.lock),
        }
    }
}

/// The initial state: nothing recorded, status "idle", no mistakes, no lock.
pub open spec fn initial_state() -> StateView {
    StateView {
        last_run: None,
        last_success: None,
        last_failure: None,
        error_count: 0,
        consecutive_failures: 0,
        status: "idle"@,
        last_termination_reason: None,
        early_termination_count: 0,
        total_execution_time_ms: 0,
        average_execution_time_ms: 0,
        successful_terminations: 0,
        failed_terminations: 0,
        mistakes: Seq::empty(),
        lock: None,
    }
}

/// The state after a success at `timestamp` that took `execution_time_ms`.
pub open spec fn state_success_view(s: StateView, timestamp: i64, execution_time_ms: u64) -> StateView {
    let total = (s.total_execution_time_ms + execution_time_ms) as u64;
    let successes = (s.successful_terminations + 1) as u64;
    StateView {
        last_success: Some(timestamp),
        status: "success"@,
        consecutive_failures: 0,
        successful_terminations: successes,
        total_execution_time_ms: total,
        average_execution_time_ms: recalculated_average(total, s.early_termination_count, successes, s.average_execution_time_ms),
        ..s
    }
}

/// Counters that recording a success increases stay in range.
pub open spec fn state_success_fits(s: StateView, execution_time_ms: u64) -> bool {
    &&& s.successful_terminations < u64::MAX
    &&& s.total_execution_time_ms + execution_time_ms <= u64::MAX
    &&& s.early_termination_count + s.successful_terminations + 1 <= u64::MAX
}

/// The state after an early termination for `reason`, counted as successful or
/// failed, optionally timed.
pub open spec fn state_early_termination_view(s: StateView, reason: Seq<char>, execution_time_ms: Option<u64>, was_successful: bool) -> StateView {
    let early = (s.early_termination_count + 1) as u64;
    let successes = if was_successful { (s.successful_terminations + 1) as u64 } else { s.successful_terminations };
    let failures = if was_successful { s.failed_terminations } else { (s.failed_terminations + 1) as u64 };
    let base = StateView {
        last_termination_reason: Some(reason),
        early_termination_count: early,
        successful_terminations: successes,
        failed_terminations: failures,
        ..s
    };
    match execution_time_ms {
        Some(t) => {
            let total = (s.total_execution_time_ms + t) as u64;
            StateView {
                total_execution_time_ms: total,
                average_execution_time_ms: recalculated_average(total, early, successes, s.average_execution_time_ms),
                ..base
            }
        },
        None => base,
    }
}

/// Counters that an early termination increases stay in range.
pub open spec fn state_early_termination_fits(s: StateView, execution_time_ms: Option<u64>) -> bool {
    &&& s.early_termination_count < u64::MAX
    &&& s.successful_terminations < u64::MAX
    &&& s.failed_terminations < u64::MAX
    &&& s.early_termination_count + s.successful_terminations + 2 <= u64::MAX
    &&& (execution_time_ms matches Some(t) ==> s.total_execution_time_ms + t <= u64::MAX)
}

/// A mistake is stale at `now` when at least `reset_interval` has passed since it.
pub open spec fn mistake_is_stale(m: MistakeView, reset_interval: Duration, now: int) -> bool {
    now - m.timestamp >= reset_interval.ms()
}

/// Selects the mistakes that clearing stale ones keeps.
pub open spec fn fresh_mistake_pred(reset_interval: Duration, now: int) -> spec_fn(MistakeView) -> bool {
    |m: MistakeView| !mistake_is_stale(m, reset_interval, now)
}

impl State {
    /// Creates a state with nothing recorded and status "idle".
    pub fn new() -> (s: Self)
        ensures
            s@ == initial_state(),
    {
        let s = State {
            last_run: None,
            last_success: None,
            last_failure: None,
            error_count: 0,
            consecutive_failures: 0,
            status: "idle".to_string(),
            last_termination_reason: None,
            early_termination_count: 0,
            total_execution_time_ms: 0,
            average_execution_time_ms: 0,
            successful_terminations: 0,
            failed_terminations: 0,
            mistakes: Vec::new(),
            lock: None,
        };
        assert(s@.mistakes =~= Seq::<MistakeView>::empty());
        s
    }

    /// Adds a mistake recorded now and returns its id.
    pub fn add_mistake(&mut self, error_message: String, task: Option<String>) -> (id: String)
        ensures
            final(self)@ == (StateView { mistakes: final(self)@.mistakes, ..old(self)@ }),
            final(self)@.mistakes.len() == old(self)@.mistakes.len() + 1,
            final(self)@.mistakes.drop_last() == old(self)@.mistakes,
            final(self)@.mistakes.last().id == id@,
            is_uuid_v4_text(id@),
            final(self)@.mistakes.last().error_message == error_message@,
            final(self)@.mistakes.last().task == opt_str_view(task),
            final(self)@.mistakes.last().context is None,
            0 <= final(self)@.mistakes.last().timestamp <= MAX_TIMESTAMP_MS,
    {
        let mistake = Mistake::new(error_message, task);
        let id = mistake.id.clone();
        let ghost before = self@.mistakes;
        let ghost mv = mistake@;
        self.mistakes.push(mistake);
        assert(self@.mistakes =~= before.push(mv));
        id
    }

    /// Adds a mistake with context, recorded now, and returns its id.
    pub fn add_mistake_with_context(&mut self, error_message: String, task: Option<String>, context: String) -> (id: String)
        ensures
            final(self)@ == (StateView { mistakes: final(self)@.mistakes, ..old(self)@ }),
            final(self)@.mistakes.len() == old(self)@.mistakes.len() + 1,
            final(self)@.mistakes.drop_last() == old(self)@.mistakes,
            final(self)@.mistakes.last().id == id@,
            is_uuid_v4_text(id@),
            final(self)@.mistakes.last().error_message == error_message@,
            final(self)@.mistakes.last().task == opt_str_view(task),
            final(self)@.mistakes.last().context == Some(context@),
            0 <= final(self)@.mistakes.last().timestamp <= MAX_TIMESTAMP_MS,
    {
        let mistake = Mistake::new_with_context(error_message, task, context);
        let id = mistake.id.clone();
        let ghost before = self@.mistakes;
        let ghost mv = mistake@;
        self.mistakes.push(mistake);
        assert(self@.mistakes =~= before.push(mv));
        id
    }

    /// Removes all mistakes.
    pub fn clear_mistakes(&mut self)
        ensures
            final(self)@ == (StateView { mistakes: Seq::empty(), ..old(self)@ }),
    {
        self.mistakes.clear();
        assert(self@.mistakes =~= Seq::<MistakeView>::empty());
    }

    /// Removes the mistakes that at `now` are at least `reset_interval` old and
    /// returns how many were removed; the others keep their order.
    pub fn clear_stale_mistakes_at(&mut self, reset_interval: Duration, now: i64) -> (removed: usize)
        requires
            spec_delta_ms(reset_interval) is Some,
        ensures
            final(self)@ == (StateView { mistakes: old(self)@.mistakes.filter(fresh_mistake_pred(reset_interval, now as int)), ..old(self)@ }),
            removed == old(self)@.mistakes.len() - final(self)@.mistakes.len(),
    {
        let ghost before = self@.mistakes;
        let ghost p = fresh_mistake_pred(reset_interval, now as int);
        let interval = reset_interval.as_millis() as i128;
        let mut kept: Vec<Mistake> = Vec::new();
        let n = self.mistakes.len();
        let mut i: usize = 0;
        while i < n
            invariant
                n == self.mistakes@.len(),
                before == self@.mistakes,
                p == fresh_mistake_pred(reset_interval, now as int),
                interval == reset_interval.ms(),
                0 <= i <= n,
                kept@.map_values(|m: Mistake| m@) == before.take(i as int).filter(p),
            decreases n - i,
        {
            assert(before[i as int] == self.mistakes@[i as int]@);
            proof {
                assert(before.take(i + 1) =~= before.take(i as int).push(before[i as int]));
                before.take(i as int).lemma_filter_push(before[i as int], p);
            }
            if (now as i128) - (self.mistakes[i].timestamp as i128) < interval {
                let ghost k0 = kept@.map_values(|m: Mistake| m@);
                kept.push(self.mistakes[i].clone());
                assert(kept@.map_values(|m: Mistake| m@) =~= k0.push(before[i as int]));
            }
            i += 1;
        }
        assert(before.take(n as int) =~= before);
        proof { broadcast use vstd::seq_lib::group_filter_ensures; }
        let removed = n - kept.len();
        self.mistakes = kept;
        removed
    }

    /// Removes the mistakes at least `reset_interval` old, by the system clock.
    pub fn clear_stale_mistakes(&mut self, reset_interval: Duration) -> (removed: usize)
        requires
            spec_delta_ms(reset_interval) is Some,
        ensures
            exists|now: i64| 0 <= now <= MAX_TIMESTAMP_MS && final(self)@ == (StateView {
                mistakes: old(self)@.mistakes.filter(#[trigger] fresh_mistake_pred(reset_interval, now as int)), ..old(self)@ }),
            removed == old(self)@.mistakes.len() - final(self)@.mistakes.len(),
    {
        let now = now_millis();
        self.clear_stale_mistakes_at(reset_interval, now)
    }

    /// Updates the last run timestamp.
    pub fn update_last_run(&mut self, timestamp: i64)
        ensures
            final(self)@ == (StateView { last_run: Some(timestamp), ..old(self)@ }),
    {
        self.last_run = Some(timestamp);
    }

    /// Records a success timestamp: consecutive failures reset, status "success".
    pub fn update_last_success(&mut self, timestamp: i64)
        ensures
            final(self)@ == (StateView { last_success: Some(timestamp), consecutive_failures: 0, status: "success"@, ..old(self)@ }),
    {
        self.last_success = Some(timestamp);
        self.consecutive_failures = 0;
        self.status = "success".to_string();
    }

    /// Records a failure timestamp: one more consecutive failure, status "error".
    pub fn update_last_failure(&mut self, timestamp: i64)
        requires
            old(self)@.consecutive_failures < u64::MAX,
        ensures
            final(self)@ == (StateView {
                last_failure: Some(timestamp),
                consecutive_failures: (old(self)@.consecutive_failures + 1) as u64,
                status: "error"@,
                ..old(self)@
            }),
    {
        self.last_failure = Some(timestamp);
        self.consecutive_failures = self.consecutive_failures + 1;
        self.status = "error".to_string();
    }

    /// Records an early termination for `reason`, counted as successful or failed,
    /// with its execution time if known.
    pub fn record_early_termination(&mut self, reason: String, execution_time_ms: Option<u64>, was_successful: bool)
        requires
            state_early_termination_fits(old(self)@, execution_time_ms),
        ensures
            final(self)@ == state_early_termination_view(old(self)@, reason@, execution_time_ms, was_successful),
    {
        self.last_termination_reason = Some(reason);
        self.early_termination_count = self.early_termination_count + 1;
        if was_successful {
            self.successful_terminations = self.successful_terminations + 1;
        } else {
            self.failed_terminations = self.failed_terminations + 1;
        }
        if let Some(time_ms) = execution_time_ms {
            self.total_execution_time_ms = self.total_execution_time_ms + time_ms;
            self.average_execution_time_ms = recalculate(
                self.total_execution_time_ms,
                self.early_termination_count,
                self.successful_terminations,
                self.average_execution_time_ms,
            );
        }
    }

    /// Records a successful completion at `timestamp` that took `execution_time_ms`.
    pub fn record_success(&mut self, timestamp: i64, execution_time_ms: u64)
        requires
            state_success_fits(old(self)@, execution_time_ms),
        ensures
            final(self)@ == state_success_view(old(self)@, timestamp, execution_time_ms),
    {
        self.last_success = Some(timestamp);
        self.status = "success".to_string();
        self.consecutive_failures = 0;
        self.successful_terminations = self.successful_terminations + 1;
        self.total_execution_time_ms = self.total_execution_time_ms + execution_time_ms;
        self.average_execution_time_ms = recalculate(
            self.total_execution_time_ms,
            self.early_termination_count,
            self.successful_terminations,
            self.average_execution_time_ms,
        );
    }

    /// Increments the error count.
    pub fn increment_error_count(&mut self)
        requires
            old(self)@.error_count < u64::MAX,
        ensures
            final(self)@ == (StateView { error_count: (old(self)@.error_count + 1) as u64, ..old(self)@ }),
    {
        self.error_count = self.error_count + 1;
    }

    /// Sets the lock information.
    pub fn set_lock(&mut self, lock: LockInfo)
        ensures
            final(self)@ == (StateView { lock: Some(lock@), ..old(self)@ }),
    {
        self.lock = Some(lock);
    }

    /// Clears the lock information.
    pub fn clear_lock(&mut self)
        ensures
            final(self)@ == (StateView { lock: None, ..old(self)@ }),
    {
        self.lock = None;
    }

    /// Whether any mistake is recorded.
    pub fn has_mistakes(&self) -> (r: bool)
        ensures
            r == (self@.mistakes.len() > 0),
    {
        self.mistakes.len() > 0
    }

    /// Whether lock information is set.
    pub fn is_locked(&self) -> (r: bool)
        ensures
            r == (self@.lock is Some),
    {
        self.lock.is_some()
    }

    /// Resets the state to its initial value, keeping the mistakes if asked to.
    pub fn reset(&mut self, keep_mistakes: bool)
        ensures
            final(self)@ == (StateView {
                mistakes: if keep_mistakes { old(self)@.mistakes } else { Seq::empty() },
                ..initial_state()
            }),
    {
        let mut mistakes: Vec<Mistake> = Vec::new();
        if keep_mistakes {
            std::mem::swap(&mut mistakes, &mut self.mistakes);
        }
        let ghost kept = mistakes@.map_values(|m: Mistake| m@);
        let mut fresh = State::new();
        fresh.mistakes = mistakes;
        *self = fresh;
        assert(self@.mistakes =~= (if keep_mistakes { old(self)@.mistakes } else { Seq::<MistakeView>::empty() }));
    }
}

impl Default for State {
    fn default() -> (s: Self)
        ensures
            s@ == initial_state(),
    {
        State::new()
    }
}

/// Merging lock information fills its missing fields from `other`.
pub open spec fn merged_lock(s: Option<LockInfoView>, other: Option<LockInfoView>) -> Option<LockInfoView> {
    match (s, other) {
        (Some(a), Some(b)) => Some(LockInfoView {
            process_id: or_else_opt(a.process_id, b.process_id),
            hostname: or_else_opt(a.hostname, b.hostname),
            ..a
        }),
        (Some(a), None) => Some(a),
        (None, b) => b,
    }
}

/// Merging a state fills the missing fields from `other`: absent optional values,
/// an empty mistake list, and missing fields of the lock information.
pub open spec fn merged_state(s: StateView, other: StateView) -> StateView {
    StateView {
        last_run: or_else_opt(s.last_run, other.last_run),
        last_success: or_else_opt(s.last_success, other.last_success),
        last_failure: or_else_opt(s.last_failure, other.last_failure),
        last_termination_reason: or_else_opt(s.last_termination_reason, other.last_termination_reason),
        mistakes: if s.mistakes.len() == 0 { other.mistakes } else { s.mistakes },
        lock: merged_lock(s.lock, other.lock),
        ..s
    }
}

fn clone_mistakes(v: &Vec<Mistake>) -> (r: Vec<Mistake>)
    ensures
        r@.map_values(|m: Mistake| m@) == v@.map_values(|m: Mistake| m@),
{
    let mut out: Vec<Mistake> = Vec::new();
    let n = v.len();
    let mut i: usize = 0;
    while i < n
        invariant
            n == v@.len(),
            0 <= i <= n,
            out@.len() == i,
            forall|j: int| 0 <= j < i ==> #[trigger] out@[j]@ == v@[j]@,
        decreases n - i,
    {
        out.push(v[i].clone());
        i += 1;
    }
    assert(out@.map_values(|m: Mistake| m@) =~= v@.map_values(|m: Mistake| m@));
    out
}

impl Mergeable for State {
    fn merge_from(&mut self, other: &State) -> (r: Result<()>)
        ensures
            r is Ok,
            final(self)@ == merged_state(old(self)@, other@),
    {
        if self.last_run.is_none() {
            self.last_run = other.last_run;
        }
        if self.last_success.is_none() {
            self.last_success = other.last_success;
        }
        if self.last_failure.is_none() {
            self.last_failure = other.last_failure;
        }
        if self.last_termination_reason.is_none() {
            self.last_termination_reason = clone_opt(&other.last_termination_reason);
        }
        if self.mistakes.len() == 0 {
            self.mistakes = clone_mistakes(&other.mistakes);
        }
        let merged = match (&self.lock, &other.lock) {
            (Some(a), Some(b)) => Some(LockInfo {
                acquired_at: a.acquired_at,
                process_id: if a.process_id.is_some() { a.process_id } else { b.process_id },
                hostname: if a.hostname.is_some() { clone_opt(&a.hostname) } else { clone_opt(&b.hostname) },
            }),
            (Some(a), None) => Some(a.clone()),
            (None, Some(b)) => Some(b.clone()),
            (None, None) => None,
        };
        self.lock = merged;
        Ok(())
    }
}

/// After a success, the average execution time is the total time divided by the
/// number of timed executions (early terminations plus successes).
pub proof fn law_average_after_success(s: StateView, timestamp: i64, execution_time_ms: u64)
    requires
        state_success_fits(s, execution_time_ms),
    ensures
        ({
            let t = state_success_view(s, timestamp, execution_time_ms);
            &&& t.total_execution_time_ms == s.total_execution_time_ms + execution_time_ms
            &&& t.average_execution_time_ms == t.total_execution_time_ms as int / (t.early_termination_count + t.successful_terminations)
            &&& t.consecutive_failures == 0
        }),
{
}

/// Merging keeps every field that is present, and merging in the initial state
/// (what a newer, empty state holds) changes nothing.
pub proof fn law_merge_preserves_present(s: StateView, other: StateView)
    ensures
        s.last_run is Some ==> merged_state(s, other).last_run == s.last_run,
        s.mistakes.len() > 0 ==> merged_state(s, other).mistakes == s.mistakes,
        merged_state(s, other).error_count == s.error_count,
        merged_state(s, other).status == s.status,
        merged_state(s, initial_state()) == s,
        merged_state(s, s) == s,
{
    assert(merged_state(s, initial_state()).mistakes =~= s.mistakes);
}

/// Merging a task state keeps its present fields, and merging in the default
/// state changes nothing.
pub proof fn law_task_merge_preserves_present(s: TaskStateView, other: TaskStateView)
    ensures
        merged_task_state(s, default_task_state()) == s,
        merged_task_state(s, s) == s,
        merged_task_state(s, other).error_count == s.error_count,
        merged_task_state(s, other).status == s.status,
        s.last_run is Some ==> merged_task_state(s, other).last_run == s.last_run,
{
}

} // verus!
