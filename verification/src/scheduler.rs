//! Scheduling of agent runs: task settings and statistics, the retry policy
//! with exponential backoff, the decisions of the scheduling loop, and the
//! periodic cleanup pass over the task and agent registries.
//!
//! Timers, signals and the spawning of tasks are done by the program around the
//! library, which hands each event to the decisions made here.

use vstd::prelude::*;
use vstd::arithmetic::power2::pow2;
use crate::agent_registry::{AgentRegistry, AgentInstanceView, AgentStatus, mark_stale_model, mark_stale_pred,
    agent_ids_of, retain_pred, remove_pred, window_fits};
use crate::error::{AutomationError, Result, is_message_of};
use crate::task_registry::{TaskRegistry, TaskAssignmentView, abandon_model, abandoned_ids, cleanup_model, cleaned_ids,
    should_abandon};
use crate::time::{Duration, spec_delta_ms, MAX_TIMESTAMP_MS, MIN_TIMESTAMP_MS, now_millis};
use crate::workspace_config::ParallelConfig;

verus! {

/// Declares `anyhow::Error` so that a handler's error can be carried.
#[verifier::external_type_specification]
#[verifier::external_body]
pub struct ExAnyhowError(anyhow::Error);

/// Counts of the runs of a task.
#[derive(Debug, Clone, Copy, PartialEq, Eq, Structural)]
pub struct TaskStats {
    pub success_count: u32,
    pub failure_count: u32,
    /// When the task last ran.
    pub last_run_timestamp: Option<i64>,
}

impl Default for TaskStats {
    fn default() -> (s: Self)
        ensures
            s.success_count == 0 && s.failure_count == 0 && s.last_run_timestamp is None,
    {
        TaskStats { success_count: 0, failure_count: 0, last_run_timestamp: None }
    }
}

impl TaskStats {
    /// Counts a successful run at `now`.
    pub fn record_success_at(&mut self, now: i64)
        requires
            old(self).success_count < u32::MAX,
        ensures
            *final(self) == (TaskStats { success_count: (old(self).success_count + 1) as u32, last_run_timestamp: Some(now), ..*old(self) }),
    {
        self.success_count = self.success_count + 1;
        self.last_run_timestamp = Some(now);
    }

    /// Counts a successful run now, by the system clock.
    pub fn record_success(&mut self)
        requires
            old(self).success_count < u32::MAX,
        ensures
            final(self).last_run_timestamp matches Some(t) && 0 <= t <= MAX_TIMESTAMP_MS,
            *final(self) == (TaskStats { success_count: (old(self).success_count + 1) as u32, last_run_timestamp: final(self).last_run_timestamp, ..*old(self) }),
    {
        let now = now_millis();
        self.record_success_at(now);
    }

    /// Counts a failed run at `now`.
    pub fn record_failure_at(&mut self, now: i64)
        requires
            old(self).failure_count < u32::MAX,
        ensures
            *final(self) == (TaskStats { failure_count: (old(self).failure_count + 1) as u32, last_run_timestamp: Some(now), ..*old(self) }),
    {
        self.failure_count = self.failure_count + 1;
        self.last_run_timestamp = Some(now);
    }

    /// Counts a failed run now, by the system clock.
    pub fn record_failure(&mut self)
        requires
            old(self).failure_count < u32::MAX,
        ensures
            final(self).last_run_timestamp matches Some(t) && 0 <= t <= MAX_TIMESTAMP_MS,
            *final(self) == (TaskStats { failure_count: (old(self).failure_count + 1) as u32, last_run_timestamp: final(self).last_run_timestamp, ..*old(self) }),
    {
        let now = now_millis();
        self.record_failure_at(now);
    }
}

/// How a run of a task ended.
#[derive(Debug)]
pub enum ExecutionResult {
    /// It succeeded after `duration`.
    Success { duration: Duration },
    /// It failed with `error`.
    Failure { error: anyhow::Error },
    /// It was stopped early for `reason` after `duration`.
    EarlyTermination { reason: String, duration: Duration },
}

/// Settings of a scheduled task.
#[derive(Debug)]
pub struct TaskConfig {
    pub task_name: String,
    /// Time between runs.
    pub interval: Duration,
    /// Whether to run once at start.
    pub immediate: bool,
    /// Retries after a failed run.
    pub max_retries: u32,
    /// Base of the exponential backoff between retries.
    pub retry_delay_base: Duration,
}

impl Default for TaskConfig {
    fn default() -> (c: Self)
        ensures
            c.task_name@ == "unknown"@,
            c.interval.ms() == 300_000,
            !c.immediate,
            c.max_retries == 3,
            c.retry_delay_base.ms() == 100,
    {
        TaskConfig {
            task_name: "unknown".to_string(),
            interval: Duration::from_secs(300),
            immediate: false,
            max_retries: 3,
            retry_delay_base: Duration::from_millis(100),
        }
    }
}

impl TaskConfig {
    /// The settings of a task named `task_name` with the default schedule: every
    /// 5 minutes, not at start, 3 retries from a 100 ms backoff base.
    pub fn named(task_name: String) -> (c: Self)
        ensures
            c.task_name@ == task_name@,
            c.interval.ms() == 300_000,
            !c.immediate,
            c.max_retries == 3,
            c.retry_delay_base.ms() == 100,
    {
        let d = TaskConfig::default();
        TaskConfig { task_name, ..d }
    }
}

/// Refuses to start a task that already runs.
pub fn check_can_start(task_name: &str, running: bool) -> (r: Result<()>)
    ensures
        running <==> r is Err,
        r matches Err(e) ==> e matches AutomationError::ScheduleConfigInvalid { reason }
            && reason@ == "Task '"@ + task_name@ + "' is already running"@,
{
    if running {
        let mut reason = "Task '".to_string();
        reason.append(task_name);
        reason.append("' is already running");
        Err(AutomationError::ScheduleConfigInvalid { reason })
    } else {
        Ok(())
    }
}

/// What wakes a scheduling loop.
#[derive(Debug, Clone, Copy, PartialEq, Eq, Structural)]
pub enum ScheduleEvent {
    /// The interval elapsed.
    Tick,
    /// A shutdown was requested.
    Shutdown,
    /// Ctrl+C was pressed.
    CtrlC,
}

/// Whether the loop runs the task on `event` (`true`) or stops (`false`).
pub fn runs_on(event: ScheduleEvent) -> (run: bool)
    ensures
        run == (event == ScheduleEvent::Tick),
{
    matches!(event, ScheduleEvent::Tick)
}

/// The backoff before retry number `attempt`: the base times two to the power
/// of the attempt.
pub open spec fn backoff_ms(base: Duration, attempt: nat) -> int {
    (base.ms() * pow2(attempt)) as int
}

/// The backoff before retry number `attempt`, or `None` when it exceeds what a
/// `u64` of milliseconds holds.
pub fn backoff_delay(base: Duration, attempt: u32) -> (d: Option<Duration>)
    ensures
        match d {
            Some(x) => x.ms() == backoff_ms(base, attempt as nat),
            None => backoff_ms(base, attempt as nat) > u64::MAX || attempt >= 64,
        },
{
    if attempt >= 64 {
        return None;
    }
    let mut p: u64 = 1;
    let mut i: u32 = 0;
    proof { vstd::arithmetic::power2::lemma2_to64(); }
    while i < attempt
        invariant
            0 <= i <= attempt < 64,
            p == pow2(i as nat),
        decreases attempt - i,
    {
        proof {
            vstd::arithmetic::power2::lemma_pow2_unfold((i + 1) as nat);
            vstd::arithmetic::power2::lemma_pow2_strictly_increases((i + 1) as nat, 64);
            vstd::arithmetic::power2::lemma2_to64();
        }
        p = p * 2;
        i += 1;
    }
    match base.millis.checked_mul(p) {
        Some(ms) => Some(Duration::from_millis(ms)),
        None => None,
    }
}

/// What to do after a run.
#[derive(Debug, Clone, Copy, PartialEq, Eq, Structural)]
pub enum RetryStep {
    /// The run succeeded.
    Done,
    /// The run failed and no retry is left.
    GiveUp,
    /// The run failed; run again after the delay.
    RetryAfter(Duration),
}

/// The step after a run, given the failures counted before it.
pub open spec fn retry_step_model(failures_before: nat, succeeded: bool, max_retries: nat, base: Duration) -> (nat, Option<Option<int>>) {
    if succeeded {
        (failures_before, None)
    } else if failures_before + 1 > max_retries {
        (failures_before + 1, Some(None))
    } else {
        (failures_before + 1, Some(Some(backoff_ms(base, failures_before + 1))))
    }
}

/// The retry state of one scheduled run: the failures counted so far.
#[derive(Debug, Clone, Copy, PartialEq, Eq, Structural)]
pub struct RetryState {
    pub attempt: u32,
}

impl RetryState {
    /// A run that has not failed yet.
    pub fn new() -> (s: Self)
        ensures
            s.attempt == 0,
    {
        RetryState { attempt: 0 }
    }

    /// Whether the step after a failure can be computed without overflow: when
    /// a retry is left, its backoff fits in a `u64` of milliseconds.
    pub open spec fn next_fits(self, max_retries: u32, base: Duration) -> bool {
        &&& self.attempt < u32::MAX
        &&& self.attempt + 1 <= max_retries ==> self.attempt + 1 < 64 && backoff_ms(base, (self.attempt + 1) as nat) <= u64::MAX
    }

    /// Takes the outcome of a run at `now`: a success is counted and ends the
    /// run; a failure is counted and leads to a retry after `base * 2^n` for the
    /// n-th failure, until more than `max_retries` failures have been seen.
    pub fn after_attempt(&mut self, succeeded: bool, max_retries: u32, base: Duration, stats: &mut TaskStats, now: i64) -> (step: RetryStep)
        requires
            succeeded ==> old(stats).success_count < u32::MAX,
            !succeeded ==> old(stats).failure_count < u32::MAX,
            !succeeded ==> old(self).next_fits(max_retries, base),
        ensures
            succeeded ==> step == RetryStep::Done && *final(self) == *old(self)
                && *final(stats) == (TaskStats { success_count: (old(stats).success_count + 1) as u32, last_run_timestamp: Some(now), ..*old(stats) }),
            !succeeded ==> {
                &&& final(self).attempt == old(self).attempt + 1
                &&& *final(stats) == (TaskStats { failure_count: (old(stats).failure_count + 1) as u32, last_run_timestamp: Some(now), ..*old(stats) })
                &&& if final(self).attempt > max_retries {
                    step == RetryStep::GiveUp
                } else {
                    step matches RetryStep::RetryAfter(d) && d.ms() == backoff_ms(base, final(self).attempt as nat)
                }
            },
    {
        if succeeded {
            stats.record_success_at(now);
            return RetryStep::Done;
        }
        self.attempt = self.attempt + 1;
        stats.record_failure_at(now);
        if self.attempt > max_retries {
            return RetryStep::GiveUp;
        }
        match backoff_delay(base, self.attempt) {
            Some(d) => RetryStep::RetryAfter(d),
            None => RetryStep::GiveUp,
        }
    }
}

/// Each retry waits twice as long as the one before.
pub proof fn law_backoff_doubles(base: Duration, attempt: nat)
    ensures
        backoff_ms(base, attempt + 1) == 2 * backoff_ms(base, attempt),
{
    vstd::arithmetic::power2::lemma_pow2_unfold(attempt + 1);
    assert(base.ms() * (2 * pow2(attempt)) == 2 * (base.ms() * pow2(attempt))) by (nonlinear_arith);
}

/// A run is tried at most `max_retries + 1` times: the failure that brings the
/// count of failures above `max_retries` ends it, and every earlier failure
/// leads to a retry.
pub proof fn law_retries_are_bounded(failures_before: nat, max_retries: nat, base: Duration)
    ensures
        retry_step_model(failures_before, false, max_retries, base).1 == Some(None::<int>)
            <==> failures_before + 1 > max_retries,
        retry_step_model(failures_before, false, max_retries, base).0 == failures_before + 1,
        retry_step_model(failures_before, true, max_retries, base).1 is None,
{
}

/// The time thresholds of the periodic cleanup pass.
#[derive(Debug, Clone, Copy, PartialEq, Eq, Structural)]
pub struct CleanupSettings {
    /// Time between passes.
    pub cleanup_interval: Duration,
    /// Silence after which an agent is stale, and lease overrun after which a
    /// task is abandoned.
    pub stale_threshold: Duration,
    /// How long completed tasks are kept.
    pub completed_retention: Duration,
    /// How long shut down agents are kept.
    pub stale_agent_retention: Duration,
}

impl CleanupSettings {
    /// The settings that parallel mode gives: a pass every minute, with its
    /// stale threshold and retention times.
    pub fn from_parallel_config(config: &ParallelConfig) -> (s: Self)
        ensures
            s.cleanup_interval.ms() == 60_000,
            s.stale_threshold == config.stale_agent_threshold,
            s.completed_retention == config.completed_task_retention,
            s.stale_agent_retention == config.stale_agent_retention,
    {
        CleanupSettings {
            cleanup_interval: Duration::from_secs(60),
            stale_threshold: config.stale_agent_threshold,
            completed_retention: config.completed_task_retention,
            stale_agent_retention: config.stale_agent_retention,
        }
    }
}

/// What a cleanup pass did.
#[derive(Debug)]
pub struct CleanupPass {
    /// Agents marked stale.
    pub stale_agents: Vec<String>,
    /// Shut down agents removed.
    pub removed_agents: Vec<String>,
    /// Completed tasks removed.
    pub removed_tasks: Vec<String>,
    /// Tasks returned to `Available` after their lease ran out.
    pub abandoned_tasks: Vec<String>,
}

/// The agent registry after a cleanup pass at `now`.
pub open spec fn agents_after_pass(s: Seq<AgentInstanceView>, settings: CleanupSettings, now: int) -> Seq<AgentInstanceView> {
    let marked = mark_stale_model(s, settings.stale_threshold, now);
    if window_fits(settings.stale_agent_retention, now) {
        marked.filter(retain_pred(AgentStatus::Shutdown, now - settings.stale_agent_retention.ms()))
    } else {
        marked
    }
}

/// The task registry after a cleanup pass at `now`.
pub open spec fn tasks_after_pass(s: Seq<TaskAssignmentView>, settings: CleanupSettings, now: int) -> Seq<TaskAssignmentView> {
    abandon_model(cleanup_model(s, settings.completed_retention, now), settings.stale_threshold, now)
}

/// The error of a cleanup pass whose retention of shut down agents reaches back
/// past the earliest representable instant.
pub open spec fn is_window_error(e: AutomationError) -> bool {
    e matches AutomationError::StateError { task, message }
        && task@ == "AgentRegistry"@ && message@ == "Cleanup window out of range"@
}

/// Runs a cleanup pass at `now`, in order: marks agents stale, removes shut
/// down agents past their retention, removes completed tasks past theirs, and
/// returns tasks whose lease ran out to `Available`.
///
/// Fails exactly when the retention of shut down agents reaches back past the
/// earliest representable instant; no agent is removed then, and the other
/// steps still take effect.
pub fn run_cleanup_pass_at(
    tasks: &mut TaskRegistry,
    agents: &mut AgentRegistry,
    settings: &CleanupSettings,
    now: i64,
) -> (r: Result<CleanupPass>)
    ensures
        final(agents)@ == agents_after_pass(old(agents)@, *settings, now as int),
        final(tasks)@ == tasks_after_pass(old(tasks)@, *settings, now as int),
        r is Ok <==> window_fits(settings.stale_agent_retention, now as int),
        r matches Err(e) ==> is_window_error(e),
        r matches Ok(p) ==> {
            &&& p.stale_agents@.map_values(|s: String| s@)
                == agent_ids_of(old(agents)@.filter(mark_stale_pred(settings.stale_threshold, now as int)))
            &&& p.removed_agents@.map_values(|s: String| s@) == agent_ids_of(
                    mark_stale_model(old(agents)@, settings.stale_threshold, now as int)
                        .filter(remove_pred(AgentStatus::Shutdown, now - settings.stale_agent_retention.ms())))
            &&& p.removed_tasks@.map_values(|s: String| s@) == cleaned_ids(old(tasks)@, settings.completed_retention, now as int)
            &&& p.abandoned_tasks@.map_values(|s: String| s@)
                == abandoned_ids(cleanup_model(old(tasks)@, settings.completed_retention, now as int), settings.stale_threshold, now as int)
        },
        final(tasks).path_view() == old(tasks).path_view(),
        final(agents).path_view() == old(agents).path_view(),
{
    let stale_agents = agents.mark_stale_agents_at(settings.stale_threshold, now);
    let fits = match crate::time::delta_ms(settings.stale_agent_retention) {
        Some(r) => now as i128 - r as i128 >= MIN_TIMESTAMP_MS as i128,
        None => false,
    };
    let removed_agents = if fits {
        Some(agents.cleanup_shutdown_agents_at(settings.stale_agent_retention, now))
    } else {
        None
    };
    let removed_tasks = tasks.cleanup_completed_tasks_at(settings.completed_retention, now);
    let abandoned_tasks = tasks.abandon_stale_tasks_at(settings.stale_threshold, now);
    match removed_agents {
        Some(removed_agents) => Ok(CleanupPass { stale_agents, removed_agents, removed_tasks, abandoned_tasks }),
        None => Err(AutomationError::StateError {
            task: "AgentRegistry".to_string(),
            message: "Cleanup window out of range".to_string(),
        }),
    }
}

/// Runs a cleanup pass now, by the system clock; fails as
/// [`run_cleanup_pass_at`] does at the time read.
pub fn run_cleanup_pass(tasks: &mut TaskRegistry, agents: &mut AgentRegistry, settings: &CleanupSettings) -> (r: Result<CleanupPass>)
    ensures
        exists|now: int| {
            &&& 0 <= now <= MAX_TIMESTAMP_MS
            &&& final(agents)@ == #[trigger] agents_after_pass(old(agents)@, *settings, now)
            &&& final(tasks)@ == tasks_after_pass(old(tasks)@, *settings, now)
            &&& (r is Ok <==> window_fits(settings.stale_agent_retention, now))
        },
        r matches Err(e) ==> is_window_error(e),
{
    let now = now_millis();
    run_cleanup_pass_at(tasks, agents, settings, now)
}

/// After a cleanup pass no task in progress has overrun its lease by the stale
/// threshold, and no active agent has been silent longer than it.
pub proof fn law_cleanup_pass_leaves_no_stale_work(
    tasks: Seq<TaskAssignmentView>,
    agents: Seq<AgentInstanceView>,
    settings: CleanupSettings,
    now: int,
)
    ensures
        forall|i: int| 0 <= i < tasks_after_pass(tasks, settings, now).len()
            ==> !should_abandon(#[trigger] tasks_after_pass(tasks, settings, now)[i], settings.stale_threshold, now),
        forall|i: int| 0 <= i < agents_after_pass(agents, settings, now).len()
            ==> !mark_stale_pred(settings.stale_threshold, now)(#[trigger] agents_after_pass(agents, settings, now)[i]),
{
    let kept = cleanup_model(tasks, settings.completed_retention, now);
    let marked = mark_stale_model(agents, settings.stale_threshold, now);
    assert forall|i: int| 0 <= i < marked.len() implies !mark_stale_pred(settings.stale_threshold, now)(#[trigger] marked[i]) by {}
    if window_fits(settings.stale_agent_retention, now) {
        let p = retain_pred(AgentStatus::Shutdown, now - settings.stale_agent_retention.ms());
        assert forall|i: int| 0 <= i < marked.filter(p).len() implies !mark_stale_pred(settings.stale_threshold, now)(#[trigger] marked.filter(p)[i]) by {
            assert(marked.filter(p).contains(marked.filter(p)[i]));
            marked.lemma_filter_contains_rev(p, marked.filter(p)[i]);
            let j = choose|j: int| 0 <= j < marked.len() && marked[j] == marked.filter(p)[i];
            assert(!mark_stale_pred(settings.stale_threshold, now)(marked[j]));
        }
    }
}

/// The error of a failed heartbeat of `agent_id`: a state error naming the
/// agent, with the cause's message.
pub fn heartbeat_error(agent_id: &str, cause: &AutomationError) -> (e: AutomationError)
    ensures
        e matches AutomationError::StateError { task, message }
            && task@ == "heartbeat update for agent "@ + agent_id@
            && message@.len() >= 28 && message@.subrange(0, 28) == "Failed to update heartbeat: "@
            && is_message_of(*cause, message@.subrange(28, message@.len() as int)),
{
    let mut task = "heartbeat update for agent ".to_string();
    task.append(agent_id);
    proof { reveal_strlit("Failed to update heartbeat: "); }
    let mut message = "Failed to update heartbeat: ".to_string();
    let ghost p = message@;
    let text = cause.message();
    message.append(text.as_str());
    assert(message@.subrange(0, 28) =~= p);
    assert(message@.subrange(28, message@.len() as int) =~= text@);
    AutomationError::StateError { task, message }
}

} // verus!
