//! Agents: their kinds and settings, what one scheduled run of an agent decides
//! (which task to take, which files and lock to use, how the command is called,
//! what the run's outcome does to the stored state and to the task registry,
//! and the report written after it), and the operations of an agent instance in
//! parallel mode.
//!
//! Reading the workspace files and the prompt template, rendering the template,
//! running the command and writing files are done by the program around the
//! library with the values computed here.

use vstd::prelude::*;
use crate::agent_registry::{AgentRegistry, AgentInstanceView, AgentStatus, generate_agent_id, agent_heartbeat_model,
    mark_stale_model, mark_stale_pred, agent_ids_of, retain_pred, remove_pred, window_fits, register_agent_model,
    has_agent, update_agent, agent_index};
use crate::error::{AutomationError, Result, state_error, is_message_of};
use crate::executor::{ExecutorConfig, ProcessResult};
use crate::paths::{path_join, spec_path_join};
use crate::state::{State, StateView};
use crate::task_registry::{TaskRegistry, TaskAssignment, TaskAssignmentView, available_model, claim_model, claim_succeeds, task_index,
    lease_fits, abandon_model, abandoned_ids, cleanup_model, cleaned_ids, renew_model, complete_model, fail_model};
use crate::text::{decimal, u64_to_decimal};
use crate::time::{Duration, spec_delta_ms, delta_ms, MAX_TIMESTAMP_MS, MIN_TIMESTAMP_MS, now_millis};
use crate::workspace_config::{Config as WorkspaceConfig, ParallelConfig};

verus! {

/// The kinds of agent.
#[derive(Debug, Clone, Copy, PartialEq, Eq, Structural)]
pub enum AgentType {
    Architect,
    Janitor,
    Prompt,
    CodeReview,
}

impl AgentType {
    /// The name of the kind: `architect`, `janitor`, `prompt` or `code-review`.
    pub open spec fn name(self) -> Seq<char> {
        match self {
            AgentType::Architect => "architect"@,
            AgentType::Janitor => "janitor"@,
            AgentType::Prompt => "prompt"@,
            AgentType::CodeReview => "code-review"@,
        }
    }

    /// The name of the kind (see [`AgentType::name`]).
    pub fn to_string(&self) -> (s: String)
        ensures
            s@ == self.name(),
    {
        match self {
            AgentType::Architect => "architect".to_string(),
            AgentType::Janitor => "janitor".to_string(),
            AgentType::Prompt => "prompt".to_string(),
            AgentType::CodeReview => "code-review".to_string(),
        }
    }
}

/// What a run of an agent produced.
#[derive(Debug)]
pub enum HandlerOutput {
    /// The command finished.
    Success { stdout: String, stderr: String },
    /// The command could not be run.
    Error { error: String },
    /// The command was stopped early.
    EarlyTermination { reason: String, stdout: String, stderr: String },
}

/// The report of a run of the agent named `agent`.
pub open spec fn handler_output_text(agent: Seq<char>, o: HandlerOutput) -> Seq<char> {
    match o {
        HandlerOutput::Success { stdout, stderr } =>
            "# Agent Output - "@ + agent + "\n\n## STDOUT\n\n"@ + stdout@ + "\n\n## STDERR\n\n"@ + stderr@ + "\n"@,
        HandlerOutput::Error { error } =>
            "# Agent Output - "@ + agent + "\n\n**Error:** "@ + error@ + "\n\n## STDERR\n\nNo output available\n"@,
        HandlerOutput::EarlyTermination { reason, stdout, stderr } =>
            "# Agent Output - "@ + agent + "\n\n**Termination:** "@ + reason@ + "\n\n## STDOUT\n\n"@ + stdout@
                + "\n\n## STDERR\n\n"@ + stderr@ + "\n"@,
    }
}

/// Writes the report of a run of the agent named `agent_type_str`.
pub fn render_handler_output(agent_type_str: &str, output: &HandlerOutput) -> (s: String)
    ensures
        s@ == handler_output_text(agent_type_str@, *output),
{
    let mut s = "# Agent Output - ".to_string();
    s.append(agent_type_str);
    match output {
        HandlerOutput::Success { stdout, stderr } => {
            s.append("\n\n## STDOUT\n\n");
            s.append(stdout.as_str());
            s.append("\n\n## STDERR\n\n");
            s.append(stderr.as_str());
            s.append("\n");
        },
        HandlerOutput::Error { error } => {
            s.append("\n\n**Error:** ");
            s.append(error.as_str());
            s.append("\n\n## STDERR\n\nNo output available\n");
        },
        HandlerOutput::EarlyTermination { reason, stdout, stderr } => {
            s.append("\n\n**Termination:** ");
            s.append(reason.as_str());
            s.append("\n\n## STDOUT\n\n");
            s.append(stdout.as_str());
            s.append("\n\n## STDERR\n\n");
            s.append(stderr.as_str());
            s.append("\n");
        },
    }
    s
}

/// Where the report of a run is written: `.<agent>-output.md` in the workspace.
pub fn handler_output_path(workspace: &str, agent_type_str: &str) -> (p: String)
    ensures
        p@ == spec_path_join(workspace@, "."@ + agent_type_str@ + "-output.md"@),
{
    let mut name = ".".to_string();
    name.append(agent_type_str);
    name.append("-output.md");
    path_join(workspace, name.as_str())
}

/// What a run of the command gives, as the report shows it: the output of a
/// finished command, the reason (`Unknown` when none was given) and output of a
/// stopped one, or the message of the error.
pub fn handler_output_for(result: &Result<ProcessResult>) -> (o: HandlerOutput)
    ensures
        match result {
            Ok(p) => if p.terminated_early {
                o matches HandlerOutput::EarlyTermination { reason, stdout, stderr }
                    && reason@ == match p.termination_reason {
                        Some(r) => r@,
                        None => "Unknown"@,
                    }
                    && stdout@ == p.stdout@ && stderr@ == p.stderr@
            } else {
                o matches HandlerOutput::Success { stdout, stderr } && stdout@ == p.stdout@ && stderr@ == p.stderr@
            },
            Err(e) => o matches HandlerOutput::Error { error } && is_message_of(*e, error@),
        },
{
    match result {
        Ok(p) => {
            if p.terminated_early {
                let reason = match &p.termination_reason {
                    Some(r) => r.clone(),
                    None => "Unknown".to_string(),
                };
                HandlerOutput::EarlyTermination { reason, stdout: p.stdout.clone(), stderr: p.stderr.clone() }
            } else {
                HandlerOutput::Success { stdout: p.stdout.clone(), stderr: p.stderr.clone() }
            }
        },
        Err(e) => HandlerOutput::Error { error: e.message() },
    }
}

/// What a run works on: the agent, the task and the workspace.
#[derive(Debug)]
pub struct AgentContext {
    pub agent_id: String,
    pub task_id: String,
    pub workspace_dir: String,
}

/// Settings of an agent.
#[derive(Debug)]
pub struct AgentConfig {
    pub agent_type: AgentType,
    /// Workspace directory.
    pub workspace: String,
    /// State directory.
    pub state_dir: String,
    /// Prompt template, relative to the workspace.
    pub prompt_template: String,
    /// Seconds between runs.
    pub interval_seconds: u64,
    /// Seconds a run may take.
    pub timeout_seconds: u64,
    /// Whether to run once at start.
    pub immediate: bool,
    pub max_lock_retries: u32,
    pub lock_timeout_seconds: u64,
}

/// The lock file of an agent's runs: `<agent>.lock` in the state directory.
pub fn agent_lock_path(state_dir: &str, agent_type_str: &str) -> (p: String)
    ensures
        p@ == spec_path_join(state_dir@, agent_type_str@ + ".lock"@),
{
    let mut name = agent_type_str.to_string();
    name.append(".lock");
    path_join(state_dir, name.as_str())
}

/// How a run calls the coding agent: `kilocode` in orchestrator mode, automatic,
/// with the timeout in whole seconds and the workspace, the prompt on standard
/// input, 10 MB of output kept per stream.
pub fn handler_executor_config(workspace: &str, timeout: Duration, prompt: String) -> (c: ExecutorConfig)
    ensures
        c.command@ == "kilocode"@,
        c.args@.map_values(|a: String| a@) == seq![
            "--mode"@, "orchestrator"@, "--auto"@, "--timeout"@, decimal(timeout.ms() / 1000), "--workspace"@, workspace@,
        ],
        c.input matches Some(i) && i@ == prompt@,
        c.workspace@ == workspace@,
        c.timeout == timeout,
        c.output_buffer_limit == 10 * 1024 * 1024,
        c.graceful_timeout.ms() == 5_000,
        c.force_timeout.ms() == 2_000,
{
    let mut args: Vec<String> = Vec::new();
    args.push("--mode".to_string());
    args.push("orchestrator".to_string());
    args.push("--auto".to_string());
    args.push("--timeout".to_string());
    args.push(u64_to_decimal(timeout.as_secs()));
    args.push("--workspace".to_string());
    args.push(workspace.to_string());
    let c = ExecutorConfig {
        command: "kilocode".to_string(),
        args,
        input: Some(prompt),
        workspace: workspace.to_string(),
        timeout,
        output_buffer_limit: 10 * 1024 * 1024,
        graceful_timeout: Duration::from_secs(5),
        force_timeout: Duration::from_secs(2),
    };
    assert(c.args@.map_values(|a: String| a@) =~= seq![
        "--mode"@, "orchestrator"@, "--auto"@, "--timeout"@, decimal(timeout.ms() / 1000), "--workspace"@, workspace@,
    ]);
    c
}

/// The state once a run starts at `now`.
pub open spec fn run_started_view(s: StateView, now: i64) -> StateView {
    StateView { last_run: Some(now), status: "running"@, ..s }
}

/// Marks the state as running since `now`.
pub fn mark_run_started_at(state: &mut State, now: i64)
    ensures
        final(state)@ == run_started_view(old(state)@, now),
{
    state.last_run = Some(now);
    state.status = "running".to_string();
}

/// Counters that a run's outcome increases stay in range.
pub open spec fn outcome_fits(s: StateView, execution_time_ms: u64) -> bool {
    &&& s.error_count < u64::MAX
    &&& s.consecutive_failures < u64::MAX
    &&& s.failed_terminations < u64::MAX
    &&& s.total_execution_time_ms + execution_time_ms <= u64::MAX
    &&& s.early_termination_count + s.successful_terminations + s.failed_terminations + 1 <= u64::MAX
}

/// The state after a run that ended as `output`, taking `ms` milliseconds, at
/// `now`. A finished run is a success; a stopped or failed run a failure with its
/// reason. The average run time counts finished and stopped runs, and also
/// failed runs after a failure.
pub open spec fn outcome_view(s: StateView, output: HandlerOutput, ms: u64, now: i64) -> StateView {
    let total = (s.total_execution_time_ms + ms) as u64;
    match output {
        HandlerOutput::Success { .. } => {
            let succ = (s.successful_terminations + 1) as u64;
            StateView {
                last_success: Some(now),
                status: "success"@,
                consecutive_failures: 0,
                successful_terminations: succ,
                total_execution_time_ms: total,
                average_execution_time_ms: (total as int / (s.early_termination_count + succ)) as u64,
                ..s
            }
        },
        HandlerOutput::EarlyTermination { reason, .. } => {
            let early = (s.early_termination_count + 1) as u64;
            StateView {
                last_failure: Some(now),
                error_count: (s.error_count + 1) as u64,
                consecutive_failures: (s.consecutive_failures + 1) as u64,
                status: "failed"@,
                last_termination_reason: Some(reason@),
                early_termination_count: early,
                total_execution_time_ms: total,
                average_execution_time_ms: (total as int / (early + s.successful_terminations)) as u64,
                failed_terminations: (s.failed_terminations + 1) as u64,
                ..s
            }
        },
        HandlerOutput::Error { error } => {
            let failed = (s.failed_terminations + 1) as u64;
            StateView {
                last_failure: Some(now),
                error_count: (s.error_count + 1) as u64,
                consecutive_failures: (s.consecutive_failures + 1) as u64,
                status: "failed"@,
                last_termination_reason: Some(error@),
                failed_terminations: failed,
                total_execution_time_ms: total,
                average_execution_time_ms:
                    (total as int / (s.early_termination_count + s.successful_terminations + failed)) as u64,
                ..s
            }
        },
    }
}

/// Records in the state a run that ended as `output`, taking
/// `execution_time_ms`, at `now` (see [`outcome_view`]).
pub fn record_run_outcome_at(state: &mut State, output: &HandlerOutput, execution_time_ms: u64, now: i64)
    requires
        outcome_fits(old(state)@, execution_time_ms),
    ensures
        final(state)@ == outcome_view(old(state)@, *output, execution_time_ms, now),
{
    let total = state.total_execution_time_ms + execution_time_ms;
    match output {
        HandlerOutput::Success { .. } => {
            state.last_success = Some(now);
            state.status = "success".to_string();
            state.consecutive_failures = 0;
            state.successful_terminations = state.successful_terminations + 1;
            state.total_execution_time_ms = total;
            state.average_execution_time_ms = total / (state.early_termination_count + state.successful_terminations);
        },
        HandlerOutput::EarlyTermination { reason, .. } => {
            state.last_failure = Some(now);
            state.error_count = state.error_count + 1;
            state.consecutive_failures = state.consecutive_failures + 1;
            state.status = "failed".to_string();
            state.last_termination_reason = Some(reason.clone());
            state.early_termination_count = state.early_termination_count + 1;
            state.total_execution_time_ms = total;
            state.average_execution_time_ms = total / (state.early_termination_count + state.successful_terminations);
            state.failed_terminations = state.failed_terminations + 1;
        },
        HandlerOutput::Error { error } => {
            state.last_failure = Some(now);
            state.error_count = state.error_count + 1;
            state.consecutive_failures = state.consecutive_failures + 1;
            state.status = "failed".to_string();
            state.last_termination_reason = Some(error.clone());
            state.failed_terminations = state.failed_terminations + 1;
            state.total_execution_time_ms = total;
            state.average_execution_time_ms =
                total / (state.early_termination_count + state.successful_terminations + state.failed_terminations);
        },
    }
}

/// The message that a failed task gets in the registry for a run that ended as
/// `output`: `Early termination: <reason>` or the error's message; `None` for a
/// finished run.
pub open spec fn failure_note(output: HandlerOutput) -> Option<Seq<char>> {
    match output {
        HandlerOutput::Success { .. } => None,
        HandlerOutput::EarlyTermination { reason, .. } => Some("Early termination: "@ + reason@),
        HandlerOutput::Error { error } => Some(error@),
    }
}

/// The error a run returns when it was stopped early for `reason`.
pub fn early_termination_error(reason: &str) -> (e: AutomationError)
    ensures
        e matches AutomationError::Process(m) && m@ == "Early termination: "@ + reason@,
{
    let mut m = "Early termination: ".to_string();
    m.append(reason);
    AutomationError::Process(m)
}

/// An agent instance in parallel mode: its id and the parallel settings.
#[derive(Debug)]
pub struct ParallelSession {
    pub agent_id: String,
    pub config: ParallelConfig,
}

impl ParallelSession {
    /// The session of a new instance of `agent_type` when the configuration
    /// enables parallel mode (`None` otherwise), with a fresh id
    /// `<agent type>-<uuid>`.
    pub fn from_config(agent_type: AgentType, config: &WorkspaceConfig) -> (s: Option<Self>)
        ensures
            config.parallel.enabled <==> s is Some,
            match s {
                Some(x) => x.config == config.parallel
                    && x.agent_id@.len() == agent_type.name().len() + 37
                    && x.agent_id@.subrange(0, agent_type.name().len() as int) == agent_type.name(),
                None => true,
            },
    {
        if !config.is_parallel_mode_enabled() {
            return None;
        }
        let name = agent_type.to_string();
        let agent_id = generate_agent_id(name.as_str());
        Some(ParallelSession { agent_id, config: config.parallel })
    }

    /// The heartbeat interval, in whole seconds.
    pub fn heartbeat_interval(&self) -> (d: Duration)
        ensures
            d.ms() == (self.config.heartbeat_interval.ms() / 1000) * 1000,
    {
        Duration::from_secs(self.config.heartbeat_interval.as_secs())
    }

    /// Claims, at `now`, the first available task of the registry for this
    /// agent; `None` when no task is available. A lease that would end beyond
    /// what a UTC date-time holds, or a task claimed too often to count, is a
    /// state error and changes nothing.
    pub fn claim_next_task_at(&self, registry: &mut TaskRegistry, now: i64) -> (r: Result<Option<String>>)
        requires
            0 <= now <= MAX_TIMESTAMP_MS,
        ensures
            final(registry).path_view() == old(registry).path_view(),
            available_model(old(registry)@).len() == 0 ==> (r matches Ok(None) && final(registry)@ == old(registry)@),
            available_model(old(registry)@).len() > 0 ==> {
                let t = available_model(old(registry)@)[0];
                match r {
                    Ok(Some(id)) => id@ == t.task_id
                        && (final(registry)@, true) == claim_model(old(registry)@, t.task_id, self.agent_id@, self.config.task_lease_duration, now),
                    Ok(None) => false,
                    Err(_) => final(registry)@ == old(registry)@
                        && (!lease_fits(self.config.task_lease_duration, now as int) || t.attempts == u32::MAX),
                }
            },
    {
        let available = registry.get_available_tasks(10);
        assert(available@.map_values(|x: TaskAssignment| x@).len() == available@.len());
        if available.len() == 0 {
            return Ok(None);
        }
        assert(available@.map_values(|x: TaskAssignment| x@)[0] == available@[0]@);
        assert(available@[0]@ == available_model(registry@)[0]);
        let fits = match delta_ms(self.config.task_lease_duration) {
            Some(ms) => (now as i128) + (ms as i128) <= MAX_TIMESTAMP_MS as i128,
            None => false,
        };
        if !fits || available[0].attempts == u32::MAX {
            return Err(state_error("TaskRegistry", "task lease cannot be taken"));
        }
        Ok(registry.claim_next_available_at(self.agent_id.as_str(), self.config.task_lease_duration, now))
    }

    /// Registers this instance, of kind `agent_type`, on `hostname` with process
    /// `pid`, at `now`; refused as [`AgentRegistry::register_agent_at`] is.
    pub fn register_agent_at(&self, agents: &mut AgentRegistry, agent_type: AgentType, hostname: String, pid: u32, now: i64) -> (r: Result<()>)
        ensures
            r is Ok <==> register_agent_model(old(agents)@, self.agent_id@, agent_type.name(), hostname@, pid, now) is Some,
            r is Ok ==> final(agents)@ == register_agent_model(old(agents)@, self.agent_id@, agent_type.name(), hostname@, pid, now)->0,
            r is Err ==> final(agents)@ == old(agents)@,
            final(agents).path_view() == old(agents).path_view(),
    {
        agents.register_agent_at(self.agent_id.clone(), agent_type.to_string(), hostname, pid, now)
    }

    /// Records a heartbeat of this instance at `now`; `false` when it is not
    /// registered.
    pub fn send_heartbeat_at(&self, agents: &mut AgentRegistry, now: i64) -> (updated: bool)
        ensures
            (final(agents)@, updated) == agent_heartbeat_model(old(agents)@, self.agent_id@, now),
            final(agents).path_view() == old(agents).path_view(),
    {
        agents.update_heartbeat_at(self.agent_id.as_str(), now)
    }

    /// Renews, at `now`, this instance's lease on `task_id` for the lease length
    /// of the settings; `false` when the task is not assigned to it. A lease that
    /// would end beyond what a UTC date-time holds is a state error and changes
    /// nothing.
    pub fn renew_task_lease_at(&self, tasks: &mut TaskRegistry, task_id: &str, now: i64) -> (r: Result<bool>)
        requires
            0 <= now <= MAX_TIMESTAMP_MS,
        ensures
            r is Err <==> !lease_fits(self.config.task_lease_duration, now as int),
            r matches Ok(b) ==> (final(tasks)@, b) == renew_model(old(tasks)@, task_id@, self.agent_id@, self.config.task_lease_duration, now),
            r is Err ==> final(tasks)@ == old(tasks)@,
            final(tasks).path_view() == old(tasks).path_view(),
    {
        let fits = match delta_ms(self.config.task_lease_duration) {
            Some(ms) => (now as i128) + (ms as i128) <= MAX_TIMESTAMP_MS as i128,
            None => false,
        };
        if !fits {
            return Err(state_error("TaskRegistry", "task lease cannot be renewed"));
        }
        Ok(tasks.renew_lease_at(task_id, self.agent_id.as_str(), self.config.task_lease_duration, now))
    }

    /// Marks `task_id` completed by this instance at `now`; refused as
    /// [`TaskRegistry::complete_task_at`] is.
    pub fn complete_task_at(&self, tasks: &mut TaskRegistry, task_id: &str, now: i64) -> (r: Result<()>)
        ensures
            r is Ok <==> complete_model(old(tasks)@, task_id@, self.agent_id@, now) is Some,
            r is Ok ==> final(tasks)@ == complete_model(old(tasks)@, task_id@, self.agent_id@, now)->0,
            r is Err ==> final(tasks)@ == old(tasks)@,
            final(tasks).path_view() == old(tasks).path_view(),
    {
        tasks.complete_task_at(task_id, self.agent_id.as_str(), now)
    }

    /// Settles the task `task_id` that this instance ran, once the run ended as
    /// `output`: completed after a finished run, else failed with the run's
    /// failure note (see [`failure_note`]).
    pub fn settle_task_at(&self, tasks: &mut TaskRegistry, task_id: &str, output: &HandlerOutput, now: i64) -> (r: Result<()>)
        ensures
            match failure_note(*output) {
                None => (r is Ok <==> complete_model(old(tasks)@, task_id@, self.agent_id@, now) is Some)
                    && (r is Ok ==> final(tasks)@ == complete_model(old(tasks)@, task_id@, self.agent_id@, now)->0),
                Some(note) => (r is Ok <==> fail_model(old(tasks)@, task_id@, self.agent_id@, note, now) is Some)
                    && (r is Ok ==> final(tasks)@ == fail_model(old(tasks)@, task_id@, self.agent_id@, note, now)->0),
            },
            r is Err ==> final(tasks)@ == old(tasks)@,
            final(tasks).path_view() == old(tasks).path_view(),
    {
        match output {
            HandlerOutput::Success { .. } => self.complete_task_at(tasks, task_id, now),
            HandlerOutput::EarlyTermination { reason, .. } => {
                let mut note = "Early termination: ".to_string();
                note.append(reason.as_str());
                self.fail_task_at(tasks, task_id, note, now)
            },
            HandlerOutput::Error { error } => self.fail_task_at(tasks, task_id, error.clone(), now),
        }
    }

    /// Marks `task_id` failed by this instance for `reason` at `now`; refused as
    /// [`TaskRegistry::fail_task_at`] is.
    pub fn fail_task_at(&self, tasks: &mut TaskRegistry, task_id: &str, reason: String, now: i64) -> (r: Result<()>)
        ensures
            r is Ok <==> fail_model(old(tasks)@, task_id@, self.agent_id@, reason@, now) is Some,
            r is Ok ==> final(tasks)@ == fail_model(old(tasks)@, task_id@, self.agent_id@, reason@, now)->0,
            r is Err ==> final(tasks)@ == old(tasks)@,
            final(tasks).path_view() == old(tasks).path_view(),
    {
        tasks.fail_task_at(task_id, self.agent_id.as_str(), reason, now)
    }

    /// Returns to `Available`, at `now`, the tasks whose lease ran out at least a
    /// lease length ago, and gives their ids.
    pub fn recover_orphaned_tasks_at(&self, tasks: &mut TaskRegistry, now: i64) -> (r: Vec<String>)
        ensures
            final(tasks)@ == abandon_model(old(tasks)@, self.config.task_lease_duration, now as int),
            r@.map_values(|s: String| s@) == abandoned_ids(old(tasks)@, self.config.task_lease_duration, now as int),
            final(tasks).path_view() == old(tasks).path_view(),
    {
        tasks.abandon_stale_tasks_at(self.config.task_lease_duration, now)
    }

    /// Cleans the registries at `now`: marks agents stale after the stale
    /// threshold, removes shut down agents past their retention, then removes
    /// completed tasks past theirs. A retention that reaches back past the
    /// earliest representable instant is a state error that stops the cleanup
    /// after the agents were marked.
    pub fn cleanup_stale_resources_at(&self, tasks: &mut TaskRegistry, agents: &mut AgentRegistry, now: i64) -> (r: Result<()>)
        ensures
            r is Err <==> !window_fits(self.config.stale_agent_retention, now as int),
            r is Ok ==> final(agents)@ == mark_stale_model(old(agents)@, self.config.stale_agent_threshold, now as int)
                .filter(retain_pred(AgentStatus::Shutdown, now - self.config.stale_agent_retention.ms())),
            r is Ok ==> final(tasks)@ == cleanup_model(old(tasks)@, self.config.completed_task_retention, now as int),
            r is Err ==> final(agents)@ == mark_stale_model(old(agents)@, self.config.stale_agent_threshold, now as int)
                && final(tasks)@ == old(tasks)@,
            final(tasks).path_view() == old(tasks).path_view(),
            final(agents).path_view() == old(agents).path_view(),
    {
        let _ = agents.mark_stale_agents_at(self.config.stale_agent_threshold, now);
        let fits = match delta_ms(self.config.stale_agent_retention) {
            Some(ms) => (now as i128) - (ms as i128) >= MIN_TIMESTAMP_MS as i128,
            None => false,
        };
        if !fits {
            return Err(state_error("AgentRegistry", "retention reaches before the earliest instant"));
        }
        let _ = agents.cleanup_shutdown_agents_at(self.config.stale_agent_retention, now);
        let _ = tasks.cleanup_completed_tasks_at(self.config.completed_task_retention, now);
        Ok(())
    }

    /// Marks this instance as shut down; refused when it is not registered.
    pub fn shutdown(&self, agents: &mut AgentRegistry) -> (r: Result<()>)
        ensures
            r is Ok <==> has_agent(old(agents)@, self.agent_id@),
            r is Ok ==> final(agents)@ == update_agent(old(agents)@, self.agent_id@,
                AgentInstanceView { status: AgentStatus::Shutdown, ..old(agents)@[agent_index(old(agents)@, self.agent_id@)] }),
            r is Err ==> final(agents)@ == old(agents)@,
            final(agents).path_view() == old(agents).path_view(),
    {
        agents.mark_shutdown(self.agent_id.as_str())
    }
}

/// A finished run ends the failure streak: after it the state counts no
/// consecutive failures, is marked successful at `now`, counts one more success
/// and its run time, and keeps its error and failure counts. A run that failed or
/// was stopped extends the streak by one and counts one more error.
pub proof fn law_success_ends_failure_streak(s: StateView, output: HandlerOutput, ms: u64, now: i64)
    requires
        outcome_fits(s, ms),
    ensures
        ({
            let n = outcome_view(s, output, ms, now);
            &&& output is Success ==> {
                &&& n.consecutive_failures == 0
                &&& n.status == "success"@
                &&& n.last_success == Some(now)
                &&& n.successful_terminations == s.successful_terminations + 1
                &&& n.total_execution_time_ms == s.total_execution_time_ms + ms
                &&& n.error_count == s.error_count
                &&& n.failed_terminations == s.failed_terminations
                &&& n.last_failure == s.last_failure
                &&& n.mistakes == s.mistakes
            }
            &&& !(output is Success) ==> {
                &&& n.consecutive_failures == s.consecutive_failures + 1
                &&& n.error_count == s.error_count + 1
                &&& n.status == "failed"@
                &&& n.last_failure == Some(now)
                &&& n.last_success == s.last_success
                &&& n.successful_terminations == s.successful_terminations
                &&& n.mistakes == s.mistakes
            }
        }),
{
}

} // verus!
