//! Task registry for tracking tasks with assignments, leases, and state transitions.
//!
//! The registry lets parallel agents share a list of tasks: a task is registered as
//! `Available`, claimed by one agent under a lease (`InProgress`), and ends as
//! `Completed` or `Failed`. Expired leases return a task to `Available`, and old
//! completed tasks are removed.
//!
//! Every operation is specified as a transition of the abstract model, a sequence of
//! [`TaskAssignmentView`] values in registry order with pairwise distinct task ids.
//! Persisting the registry to disk and locking the file around each change are done
//! by the program that holds the registry.

use vstd::prelude::*;
use crate::error::{AutomationError, Result};
use crate::time::{Duration, spec_delta_ms, spec_delta_or_zero, delta_ms, delta_or_zero, now_millis, MAX_TIMESTAMP_MS};

verus! {

/// Lifecycle state of a task in the registry.
#[derive(Debug, Clone, Copy, PartialEq, Eq, Structural)]
pub enum RegistryTaskState {
    /// Task is available for claiming
    Available,
    /// Task is currently being worked on by an agent
    InProgress,
    /// Task completed successfully
    Completed,
    /// Task failed with an error
    Failed,
}

impl RegistryTaskState {
    /// Returns true if the task can be claimed.
    pub fn is_claimable(&self) -> (r: bool)
        ensures
            r == (*self == RegistryTaskState::Available),
    {
        matches!(self, RegistryTaskState::Available)
    }

    /// Returns true if the task is currently being worked on.
    pub fn is_in_progress(&self) -> (r: bool)
        ensures
            r == (*self == RegistryTaskState::InProgress),
    {
        matches!(self, RegistryTaskState::InProgress)
    }

    /// Returns true if the task has reached a terminal state.
    pub fn is_terminal(&self) -> (r: bool)
        ensures
            r == (*self == RegistryTaskState::Completed || *self == RegistryTaskState::Failed),
    {
        matches!(self, RegistryTaskState::Completed | RegistryTaskState::Failed)
    }
}

impl Default for RegistryTaskState {
    fn default() -> (s: Self)
        ensures
            s == RegistryTaskState::Available,
    {
        RegistryTaskState::Available
    }
}

/// Task assignment information: state, assignee, timestamps and attempt count.
///
/// Timestamps are milliseconds since the Unix epoch.
#[derive(Debug)]
pub struct TaskAssignment {
    /// Unique identifier for the task
    pub task_id: String,
    /// Human-readable description of the task
    pub task_description: String,
    /// Current state of the task
    pub state: RegistryTaskState,
    /// Id of the agent the task is assigned to, if any
    pub assigned_to: Option<String>,
    /// When the task was claimed
    pub claimed_at: Option<i64>,
    /// When the task lease expires
    pub lease_expires_at: Option<i64>,
    /// When the task was completed or failed
    pub completed_at: Option<i64>,
    /// How many times the task has been claimed
    pub attempts: u32,
    /// Last heartbeat from the assigned agent
    pub last_heartbeat_at: Option<i64>,
}

/// Abstract value of a [`TaskAssignment`]: strings are taken by their characters.
pub struct TaskAssignmentView {
    pub task_id: Seq<char>,
    pub task_description: Seq<char>,
    pub state: RegistryTaskState,
    pub assigned_to: Option<Seq<char>>,
    pub claimed_at: Option<i64>,
    pub lease_expires_at: Option<i64>,
    pub completed_at: Option<i64>,
    pub attempts: u32,
    pub last_heartbeat_at: Option<i64>,
}

/// The characters of an optional string.
pub open spec fn opt_str_view(o: Option<String>) -> Option<Seq<char>> {
    match o {
        Some(s) => Some(s@),
        None => None,
    }
}

impl View for TaskAssignment {
    type V = TaskAssignmentView;

    open spec fn view(&self) -> TaskAssignmentView {
        TaskAssignmentView {
            task_id: self.task_id@,
            task_description: self.task_description@,
            state: self.state,
            assigned_to: opt_str_view(self.assigned_to),
            claimed_at: self.claimed_at,
            lease_expires_at: self.lease_expires_at,
            completed_at: self.completed_at,
            attempts: self.attempts,
            last_heartbeat_at: self.last_heartbeat_at,
        }
    }
}

fn clone_opt_string(o: &Option<String>) -> (r: Option<String>)
    ensures
        opt_str_view(r) == opt_str_view(*o),
{
    match o {
        Some(s) => Some(s.clone()),
        None => None,
    }
}

impl Clone for TaskAssignment {
    fn clone(&self) -> (r: Self)
        ensures
            r@ == self@,
    {
        TaskAssignment {
            task_id: self.task_id.clone(),
            task_description: self.task_description.clone(),
            state: self.state,
            assigned_to: clone_opt_string(&self.assigned_to),
            claimed_at: self.claimed_at,
            lease_expires_at: self.lease_expires_at,
            completed_at: self.completed_at,
            attempts: self.attempts,
            last_heartbeat_at: self.last_heartbeat_at,
        }
    }
}

// ---------------------------------------------------------------------------
// The abstract model
// ---------------------------------------------------------------------------

/// A fresh task: available, unassigned, never claimed.
pub open spec fn new_task_view(id: Seq<char>, description: Seq<char>) -> TaskAssignmentView {
    TaskAssignmentView {
        task_id: id,
        task_description: description,
        state: RegistryTaskState::Available,
        assigned_to: None,
        claimed_at: None,
        lease_expires_at: None,
        completed_at: None,
        attempts: 0,
        last_heartbeat_at: None,
    }
}

/// A lease is expired when it has an expiration instant earlier than `now`.
pub open spec fn lease_expired_at(t: TaskAssignmentView, now: int) -> bool {
    match t.lease_expires_at {
        Some(e) => now > e,
        None => false,
    }
}

/// A completed task is older than `threshold` when more than that much time has
/// passed since its completion (a threshold too long to be a time delta counts as zero).
pub open spec fn completed_older_than_at(t: TaskAssignmentView, threshold: Duration, now: int) -> bool {
    t.state == RegistryTaskState::Completed && match t.completed_at {
        Some(c) => now - c > spec_delta_or_zero(threshold),
        None => false,
    }
}

/// A heartbeat is stale when more than `threshold` has passed since it was recorded.
pub open spec fn heartbeat_stale_at(t: TaskAssignmentView, threshold: Duration, now: int) -> bool {
    match t.last_heartbeat_at {
        Some(h) => now - h > spec_delta_or_zero(threshold),
        None => false,
    }
}

/// Task ids are pairwise distinct.
pub open spec fn unique_ids(s: Seq<TaskAssignmentView>) -> bool {
    forall|i: int, j: int| 0 <= i < s.len() && 0 <= j < s.len() && i != j ==> s[i].task_id != s[j].task_id
}

/// Whether a task with this id is in the registry.
pub open spec fn has_task(s: Seq<TaskAssignmentView>, id: Seq<char>) -> bool {
    exists|i: int| 0 <= i < s.len() && s[i].task_id == id
}

/// Position of the task with this id (meaningful when `has_task`).
pub open spec fn task_index(s: Seq<TaskAssignmentView>, id: Seq<char>) -> int {
    choose|i: int| 0 <= i < s.len() && s[i].task_id == id
}

/// Whether the task `id` is assigned to `agent`.
pub open spec fn assigned_to_agent(s: Seq<TaskAssignmentView>, id: Seq<char>, agent: Seq<char>) -> bool {
    has_task(s, id) && s[task_index(s, id)].assigned_to == Some(agent)
}

/// A lease of `lease` taken at `now` ends within the representable range.
pub open spec fn lease_fits(lease: Duration, now: int) -> bool {
    spec_delta_ms(lease) is Some && now + lease.ms() <= MAX_TIMESTAMP_MS
}

/// Registering adds a fresh task at the end; it is refused (`None`) when the id exists.
pub open spec fn register_model(s: Seq<TaskAssignmentView>, id: Seq<char>, description: Seq<char>) -> Option<Seq<TaskAssignmentView>> {
    if has_task(s, id) {
        None
    } else {
        Some(s.push(new_task_view(id, description)))
    }
}

/// The task after a successful claim by `agent` at `now` with `lease`.
pub open spec fn claimed_view(t: TaskAssignmentView, agent: Seq<char>, lease: Duration, now: i64) -> TaskAssignmentView {
    TaskAssignmentView {
        state: RegistryTaskState::InProgress,
        assigned_to: Some(agent),
        claimed_at: Some(now),
        lease_expires_at: Some((now + lease.ms()) as i64),
        last_heartbeat_at: Some(now),
        attempts: (t.attempts + 1) as u32,
        ..t
    }
}

/// Whether a claim of `id` succeeds: the task exists and is available.
pub open spec fn claim_succeeds(s: Seq<TaskAssignmentView>, id: Seq<char>) -> bool {
    has_task(s, id) && s[task_index(s, id)].state == RegistryTaskState::Available
}

/// A claim either changes exactly the claimed task, or leaves the registry as it is.
pub open spec fn claim_model(s: Seq<TaskAssignmentView>, id: Seq<char>, agent: Seq<char>, lease: Duration, now: i64) -> (Seq<TaskAssignmentView>, bool) {
    if claim_succeeds(s, id) {
        let i = task_index(s, id);
        (s.update(i, claimed_view(s[i], agent, lease, now)), true)
    } else {
        (s, false)
    }
}

/// What a claim needs so that its timestamps can be computed: a lease that is a
/// valid time delta and ends within the representable range, and an attempt
/// counter that can grow.
pub open spec fn claim_computable(s: Seq<TaskAssignmentView>, id: Seq<char>, lease: Duration, now: i64) -> bool {
    claim_succeeds(s, id) ==> lease_fits(lease, now as int) && s[task_index(s, id)].attempts < u32::MAX
}

/// The task after its lease is renewed at `now`.
pub open spec fn renewed_view(t: TaskAssignmentView, lease: Duration, now: i64) -> TaskAssignmentView {
    TaskAssignmentView {
        lease_expires_at: Some((now + lease.ms()) as i64),
        last_heartbeat_at: Some(now),
        ..t
    }
}

/// A renewal succeeds only for the agent the task is assigned to.
pub open spec fn renew_model(s: Seq<TaskAssignmentView>, id: Seq<char>, agent: Seq<char>, lease: Duration, now: i64) -> (Seq<TaskAssignmentView>, bool) {
    if assigned_to_agent(s, id, agent) {
        let i = task_index(s, id);
        (s.update(i, renewed_view(s[i], lease, now)), true)
    } else {
        (s, false)
    }
}

/// What a renewal needs so that the new expiration can be computed.
pub open spec fn renew_computable(s: Seq<TaskAssignmentView>, id: Seq<char>, agent: Seq<char>, lease: Duration, now: i64) -> bool {
    assigned_to_agent(s, id, agent) ==> lease_fits(lease, now as int)
}

/// A task can be completed or failed by `agent` when it exists, is assigned to
/// `agent` and is in progress.
pub open spec fn settleable(s: Seq<TaskAssignmentView>, id: Seq<char>, agent: Seq<char>) -> bool {
    assigned_to_agent(s, id, agent) && s[task_index(s, id)].state == RegistryTaskState::InProgress
}

/// Completing marks the task `Completed` at `now`; refused (`None`) unless the task
/// exists, is assigned to `agent` and is in progress.
pub open spec fn complete_model(s: Seq<TaskAssignmentView>, id: Seq<char>, agent: Seq<char>, now: i64) -> Option<Seq<TaskAssignmentView>> {
    if settleable(s, id, agent) {
        let i = task_index(s, id);
        Some(s.update(i, TaskAssignmentView { state: RegistryTaskState::Completed, completed_at: Some(now), ..s[i] }))
    } else {
        None
    }
}

/// The description of a failed task: the old one followed by ` [FAILED: <reason>]`.
pub open spec fn failed_description(description: Seq<char>, reason: Seq<char>) -> Seq<char> {
    description + " [FAILED: "@ + reason + "]"@
}

/// Failing marks the task `Failed` at `now` and records the reason in its
/// description; refused (`None`) unless the task exists, is assigned to `agent` and
/// is in progress.
pub open spec fn fail_model(s: Seq<TaskAssignmentView>, id: Seq<char>, agent: Seq<char>, reason: Seq<char>, now: i64) -> Option<Seq<TaskAssignmentView>> {
    if settleable(s, id, agent) {
        let i = task_index(s, id);
        Some(s.update(i, TaskAssignmentView {
            state: RegistryTaskState::Failed,
            completed_at: Some(now),
            task_description: failed_description(s[i].task_description, reason),
            ..s[i]
        }))
    } else {
        None
    }
}

/// Recording a heartbeat succeeds only for the assigned agent.
pub open spec fn heartbeat_model(s: Seq<TaskAssignmentView>, id: Seq<char>, agent: Seq<char>, now: i64) -> (Seq<TaskAssignmentView>, bool) {
    if assigned_to_agent(s, id, agent) {
        let i = task_index(s, id);
        (s.update(i, TaskAssignmentView { last_heartbeat_at: Some(now), ..s[i] }), true)
    } else {
        (s, false)
    }
}

/// Selects available tasks.
pub open spec fn available_pred() -> spec_fn(TaskAssignmentView) -> bool {
    |t: TaskAssignmentView| t.state == RegistryTaskState::Available
}

/// Selects tasks in progress.
pub open spec fn in_progress_pred() -> spec_fn(TaskAssignmentView) -> bool {
    |t: TaskAssignmentView| t.state == RegistryTaskState::InProgress
}

/// The available tasks, in registry order.
pub open spec fn available_model(s: Seq<TaskAssignmentView>) -> Seq<TaskAssignmentView> {
    s.filter(available_pred())
}

/// The tasks in progress, in registry order.
pub open spec fn in_progress_model(s: Seq<TaskAssignmentView>) -> Seq<TaskAssignmentView> {
    s.filter(in_progress_pred())
}

/// The first `n` elements of `s`, or all of them when there are fewer.
pub open spec fn take_at_most<A>(s: Seq<A>, n: int) -> Seq<A> {
    if n <= s.len() { s.take(n) } else { s }
}

/// A task is abandoned when it is in progress and its lease expired at least
/// `threshold` ago.
pub open spec fn should_abandon(t: TaskAssignmentView, threshold: Duration, now: int) -> bool {
    &&& t.state == RegistryTaskState::InProgress
    &&& lease_expired_at(t, now)
    &&& now - t.lease_expires_at->0 >= spec_delta_or_zero(threshold)
}

/// An abandoned task is available again; its attempts are kept.
pub open spec fn abandoned_view(t: TaskAssignmentView) -> TaskAssignmentView {
    TaskAssignmentView {
        state: RegistryTaskState::Available,
        assigned_to: None,
        claimed_at: None,
        lease_expires_at: None,
        last_heartbeat_at: None,
        ..t
    }
}

/// The registry after abandoning stale tasks.
pub open spec fn abandon_model(s: Seq<TaskAssignmentView>, threshold: Duration, now: int) -> Seq<TaskAssignmentView> {
    s.map_values(|t: TaskAssignmentView| if should_abandon(t, threshold, now) { abandoned_view(t) } else { t })
}

/// Selects the tasks that abandoning returns to `Available`.
pub open spec fn abandon_pred(threshold: Duration, now: int) -> spec_fn(TaskAssignmentView) -> bool {
    |t: TaskAssignmentView| should_abandon(t, threshold, now)
}

/// The ids of a sequence of tasks.
pub open spec fn ids_of(s: Seq<TaskAssignmentView>) -> Seq<Seq<char>> {
    s.map_values(|t: TaskAssignmentView| t.task_id)
}

/// The ids of the tasks that abandoning returns to `Available`, in registry order.
pub open spec fn abandoned_ids(s: Seq<TaskAssignmentView>, threshold: Duration, now: int) -> Seq<Seq<char>> {
    ids_of(s.filter(abandon_pred(threshold, now)))
}

/// Selects the completed tasks that cleanup removes.
pub open spec fn cleanup_pred(older_than: Duration, now: int) -> spec_fn(TaskAssignmentView) -> bool {
    |t: TaskAssignmentView| completed_older_than_at(t, older_than, now)
}

/// Selects the tasks that cleanup keeps.
pub open spec fn keep_pred(older_than: Duration, now: int) -> spec_fn(TaskAssignmentView) -> bool {
    |t: TaskAssignmentView| !completed_older_than_at(t, older_than, now)
}

/// The registry after removing completed tasks older than `older_than`.
pub open spec fn cleanup_model(s: Seq<TaskAssignmentView>, older_than: Duration, now: int) -> Seq<TaskAssignmentView> {
    s.filter(keep_pred(older_than, now))
}

/// The ids of the tasks that cleanup removes, in registry order.
pub open spec fn cleaned_ids(s: Seq<TaskAssignmentView>, older_than: Duration, now: int) -> Seq<Seq<char>> {
    ids_of(s.filter(cleanup_pred(older_than, now)))
}

// ---------------------------------------------------------------------------
// Single assignments
// ---------------------------------------------------------------------------

impl TaskAssignment {
    /// Creates an available, unassigned task.
    pub fn new(task_id: String, task_description: String) -> (t: Self)
        ensures
            t@ == new_task_view(task_id@, task_description@),
    {
        TaskAssignment {
            task_id,
            task_description,
            state: RegistryTaskState::Available,
            assigned_to: None,
            claimed_at: None,
            lease_expires_at: None,
            completed_at: None,
            attempts: 0,
            last_heartbeat_at: None,
        }
    }

    /// Whether the lease had expired at `now`.
    pub fn is_lease_expired_at(&self, now: i64) -> (r: bool)
        ensures
            r == lease_expired_at(self@, now as int),
    {
        match self.lease_expires_at {
            Some(expires_at) => now > expires_at,
            None => false,
        }
    }

    /// Whether the lease has expired, by the system clock.
    pub fn is_lease_expired(&self) -> (r: bool)
        ensures
            exists|now: i64| 0 <= now <= MAX_TIMESTAMP_MS && r == lease_expired_at(self@, now as int),
    {
        let now = now_millis();
        self.is_lease_expired_at(now)
    }

    /// Whether the task was completed more than `threshold` before `now`.
    pub fn is_completed_older_than_at(&self, threshold: Duration, now: i64) -> (r: bool)
        ensures
            r == completed_older_than_at(self@, threshold, now as int),
    {
        if self.state != RegistryTaskState::Completed {
            return false;
        }
        match self.completed_at {
            Some(completed_at) => {
                let age: i128 = now as i128 - completed_at as i128;
                age > delta_or_zero(threshold) as i128
            },
            None => false,
        }
    }

    /// Whether the task was completed more than `threshold` ago, by the system clock.
    pub fn is_completed_older_than(&self, threshold: Duration) -> (r: bool)
        ensures
            exists|now: i64| 0 <= now <= MAX_TIMESTAMP_MS && r == completed_older_than_at(self@, threshold, now as int),
    {
        let now = now_millis();
        self.is_completed_older_than_at(threshold, now)
    }

    /// Records a heartbeat at `now`.
    pub fn record_heartbeat_at(&mut self, now: i64)
        ensures
            final(self)@ == (TaskAssignmentView { last_heartbeat_at: Some(now), ..old(self)@ }),
    {
        self.last_heartbeat_at = Some(now);
    }

    /// Records a heartbeat at the current time.
    pub fn record_heartbeat(&mut self)
        ensures
            final(self)@.last_heartbeat_at matches Some(now) && 0 <= now <= MAX_TIMESTAMP_MS,
            final(self)@ == (TaskAssignmentView { last_heartbeat_at: final(self)@.last_heartbeat_at, ..old(self)@ }),
    {
        let now = now_millis();
        self.record_heartbeat_at(now);
    }

    /// Whether more than `threshold` had passed since the last heartbeat at `now`.
    pub fn is_heartbeat_stale_at(&self, threshold: Duration, now: i64) -> (r: bool)
        ensures
            r == heartbeat_stale_at(self@, threshold, now as int),
    {
        match self.last_heartbeat_at {
            Some(heartbeat_at) => {
                let age: i128 = now as i128 - heartbeat_at as i128;
                age > delta_or_zero(threshold) as i128
            },
            None => false,
        }
    }

    /// Whether the last heartbeat is older than `threshold`, by the system clock.
    pub fn is_heartbeat_stale(&self, threshold: Duration) -> (r: bool)
        ensures
            exists|now: i64| 0 <= now <= MAX_TIMESTAMP_MS && r == heartbeat_stale_at(self@, threshold, now as int),
    {
        let now = now_millis();
        self.is_heartbeat_stale_at(threshold, now)
    }
}


// ---------------------------------------------------------------------------
// The registry
// ---------------------------------------------------------------------------

/// Registry of tasks shared by parallel agents.
///
/// Tasks are kept in registration order with pairwise distinct ids. The registry
/// file path names where the program that owns the registry persists it.
#[derive(Debug)]
pub struct TaskRegistry {
    tasks: Vec<TaskAssignment>,
    registry_path: String,
}

/// Default directory of the task registry.
pub const REGISTRY_BASE_PATH: &'static str = ".state/tasks";

/// File name of the task registry inside its directory.
pub const REGISTRY_FILE_NAME: &'static str = "registry.json";

impl View for TaskRegistry {
    type V = Seq<TaskAssignmentView>;

    closed spec fn view(&self) -> Seq<TaskAssignmentView> {
        self.tasks@.map_values(|t: TaskAssignment| t@)
    }
}

impl TaskRegistry {
    #[verifier::type_invariant]
    spec fn well_formed(self) -> bool {
        unique_ids(self@)
    }

    /// The path of the registry file.
    pub closed spec fn path_view(self) -> Seq<char> {
        self.registry_path@
    }

    /// An empty registry persisted at `registry_path`.
    pub fn with_path(registry_path: String) -> (r: Self)
        ensures
            r@ == Seq::<TaskAssignmentView>::empty(),
            r.path_view() == registry_path@,
    {
        let r = TaskRegistry { tasks: Vec::new(), registry_path };
        assert(r@ =~= Seq::<TaskAssignmentView>::empty());
        r
    }

    /// A registry holding `tasks` (as loaded from disk), persisted at `registry_path`.
    ///
    /// Refused with a state error when two tasks share an id.
    pub fn from_tasks(registry_path: String, tasks: Vec<TaskAssignment>) -> (r: Result<Self>)
        ensures
            r matches Ok(reg) ==> reg@ == tasks@.map_values(|t: TaskAssignment| t@) && reg.path_view() == registry_path@,
            r is Ok <==> unique_ids(tasks@.map_values(|t: TaskAssignment| t@)),
    {
        let ghost vs = tasks@.map_values(|t: TaskAssignment| t@);
        let n = tasks.len();
        let mut i: usize = 0;
        while i < n
            invariant
                n == tasks@.len(),
                vs == tasks@.map_values(|t: TaskAssignment| t@),
                0 <= i <= n,
                forall|a: int, b: int| 0 <= a < i && 0 <= b < n && a != b ==> vs[a].task_id != vs[b].task_id,
            decreases n - i,
        {
            let mut j: usize = 0;
            while j < n
                invariant
                    n == tasks@.len(),
                    vs == tasks@.map_values(|t: TaskAssignment| t@),
                    0 <= i < n,
                    0 <= j <= n,
                    forall|a: int, b: int| 0 <= a < i && 0 <= b < n && a != b ==> vs[a].task_id != vs[b].task_id,
                    forall|b: int| 0 <= b < j && b != i ==> vs[i as int].task_id != vs[b].task_id,
                decreases n - j,
            {
                if j != i && tasks[i].task_id == tasks[j].task_id {
                    assert(vs[i as int].task_id == vs[j as int].task_id);
                    return Err(AutomationError::StateError {
                        task: tasks[i].task_id.clone(),
                        message: "Duplicate task id in registry".to_string(),
                    });
                }
                j += 1;
            }
            i += 1;
        }
        let r = TaskRegistry { tasks, registry_path };
        Ok(r)
    }

    /// Returns the path to the registry file.
    pub fn registry_path(&self) -> (p: &str)
        ensures
            p@ == self.path_view(),
    {
        self.registry_path.as_str()
    }

    /// Gets the total number of tasks in the registry.
    pub fn task_count(&self) -> (n: usize)
        ensures
            n == self@.len(),
    {
        self.tasks.len()
    }

    /// Position of the task with id `id`, if any.
    fn find(&self, id: &String) -> (r: Option<usize>)
        ensures
            r is Some <==> has_task(self@, id@),
            r matches Some(i) ==> i == task_index(self@, id@) && i < self@.len(),
    {
        proof { use_type_invariant(self); }
        let n = self.tasks.len();
        let mut i: usize = 0;
        while i < n
            invariant
                n == self.tasks@.len(),
                0 <= i <= n,
                forall|j: int| 0 <= j < i ==> self@[j].task_id != id@,
                unique_ids(self@),
            decreases n - i,
        {
            assert(self@[i as int] == self.tasks@[i as int]@);
            if self.tasks[i].task_id == *id {
                proof {
                    assert(self@[i as int].task_id == id@);
                    assert(has_task(self@, id@));
                    let k = task_index(self@, id@);
                    assert(self@[k].task_id == id@);
                    assert(unique_ids(self@));
                    assert(k == i as int);
                    assert(self@.len() == n);
                }
                return Some(i);
            }
            i += 1;
        }
        None
    }

    /// Gets a specific task by id.
    pub fn get_task(&self, task_id: &str) -> (r: Option<&TaskAssignment>)
        ensures
            r is Some <==> has_task(self@, task_id@),
            r matches Some(t) ==> t@ == self@[task_index(self@, task_id@)],
    {
        let id = task_id.to_string();
        match self.find(&id) {
            Some(i) => Some(&self.tasks[i]),
            None => None,
        }
    }

    /// Gets a list of all task ids, in registry order.
    pub fn all_task_ids(&self) -> (ids: Vec<String>)
        ensures
            ids@.map_values(|s: String| s@) == self@.map_values(|t: TaskAssignmentView| t.task_id),
    {
        let mut ids: Vec<String> = Vec::new();
        let n = self.tasks.len();
        let mut i: usize = 0;
        while i < n
            invariant
                n == self.tasks@.len(),
                0 <= i <= n,
                ids@.len() == i,
                forall|j: int| 0 <= j < i ==> #[trigger] ids@[j]@ == self@[j].task_id,
            decreases n - i,
        {
            assert(self@[i as int] == self.tasks@[i as int]@);
            ids.push(self.tasks[i].task_id.clone());
            i += 1;
        }
        assert(ids@.map_values(|s: String| s@) =~= self@.map_values(|t: TaskAssignmentView| t.task_id));
        ids
    }

    /// Registers a new available task.
    ///
    /// Refused with a state error about `task_id` when a task with that id exists.
    pub fn register_task(&mut self, task_id: String, description: String) -> (r: Result<()>)
        ensures
            r is Ok <==> register_model(old(self)@, task_id@, description@) is Some,
            r is Ok ==> final(self)@ == register_model(old(self)@, task_id@, description@)->0,
            r is Err ==> final(self)@ == old(self)@,
            r matches Err(AutomationError::StateError { task, message }) ==> task@ == task_id@
                && message@ == "Task already exists in registry"@,
            r is Err ==> r matches Err(AutomationError::StateError { .. }),
            final(self).path_view() == old(self).path_view(),
    {
        proof { use_type_invariant(&*self); }
        if let Some(_) = self.find(&task_id) {
            return Err(AutomationError::StateError {
                task: task_id,
                message: "Task already exists in registry".to_string(),
            });
        }
        let ghost old_view = self@;
        let mut tasks: Vec<TaskAssignment> = Vec::new();
        std::mem::swap(&mut tasks, &mut self.tasks);
        let ghost id_view = task_id@;
        let ghost desc_view = description@;
        tasks.push(TaskAssignment::new(task_id, description));
        proof {
            let nv = old_view.push(new_task_view(id_view, desc_view));
            assert(tasks@.map_values(|t: TaskAssignment| t@) =~= nv);
            assert(unique_ids(nv));
        }
        self.tasks = tasks;
        Ok(())
    }
}


impl TaskRegistry {
    /// Replaces the task at position `i` by one with the same id.
    fn replace_at(&mut self, i: usize, t: TaskAssignment)
        requires
            i < old(self)@.len(),
            t@.task_id == old(self)@[i as int].task_id,
        ensures
            final(self)@ == old(self)@.update(i as int, t@),
            final(self).path_view() == old(self).path_view(),
    {
        proof { use_type_invariant(&*self); }
        let ghost old_view = self@;
        let ghost tv = t@;
        let mut tasks: Vec<TaskAssignment> = Vec::new();
        std::mem::swap(&mut tasks, &mut self.tasks);
        tasks[i] = t;
        proof {
            assert(tasks@.map_values(|t: TaskAssignment| t@) =~= old_view.update(i as int, tv));
        }
        self.tasks = tasks;
    }

    /// Whether the task at position `i` is assigned to `agent`.
    fn is_assigned_at(&self, i: usize, agent: &String) -> (r: bool)
        requires
            i < self@.len(),
        ensures
            r == (self@[i as int].assigned_to == Some(agent@)),
    {
        assert(self@[i as int] == self.tasks@[i as int]@);
        match &self.tasks[i].assigned_to {
            Some(a) => *a == *agent,
            None => false,
        }
    }

    /// Claims the task `task_id` for `agent_id` at `now` with a lease of
    /// `lease_duration`.
    ///
    /// Returns `false`, changing nothing, when the task does not exist or is not
    /// available. Of two claims of one task, only the first succeeds.
    pub fn claim_task_at(&mut self, task_id: &str, agent_id: &str, lease_duration: Duration, now: i64) -> (r: bool)
        requires
            0 <= now <= MAX_TIMESTAMP_MS,
            claim_computable(old(self)@, task_id@, lease_duration, now),
        ensures
            (final(self)@, r) == claim_model(old(self)@, task_id@, agent_id@, lease_duration, now),
            final(self).path_view() == old(self).path_view(),
    {
        let id = task_id.to_string();
        let i = match self.find(&id) {
            Some(i) => i,
            None => return false,
        };
        assert(self@[i as int] == self.tasks@[i as int]@);
        if !self.tasks[i].state.is_claimable() {
            return false;
        }
        let lease_ms = lease_duration.as_millis() as i64;
        let t = &self.tasks[i];
        let claimed = TaskAssignment {
            task_id: t.task_id.clone(),
            task_description: t.task_description.clone(),
            state: RegistryTaskState::InProgress,
            assigned_to: Some(agent_id.to_string()),
            claimed_at: Some(now),
            lease_expires_at: Some(now + lease_ms),
            completed_at: t.completed_at,
            attempts: t.attempts + 1,
            last_heartbeat_at: Some(now),
        };
        assert(claimed@ == claimed_view(self@[i as int], agent_id@, lease_duration, now));
        self.replace_at(i, claimed);
        true
    }

    /// Claims the task `task_id` for `agent_id` at the current time.
    ///
    /// `Ok(false)` when the task does not exist or is not available. A state error
    /// (and no change) when the lease would end past the latest representable instant.
    pub fn claim_task(&mut self, task_id: &str, agent_id: &str, lease_duration: Duration) -> (r: Result<bool>)
        requires
            claim_succeeds(old(self)@, task_id@) ==> old(self)@[task_index(old(self)@, task_id@)].attempts < u32::MAX,
        ensures
            exists|now: i64| {
                &&& 0 <= now <= MAX_TIMESTAMP_MS
                &&& (#[trigger] lease_fits(lease_duration, now as int) || !claim_succeeds(old(self)@, task_id@))
                    ==> (r matches Ok(b) && claim_model(old(self)@, task_id@, agent_id@, lease_duration, now) == (final(self)@, b))
                &&& (!lease_fits(lease_duration, now as int) && claim_succeeds(old(self)@, task_id@))
                    ==> r is Err && final(self)@ == old(self)@
            },
            final(self).path_view() == old(self).path_view(),
    {
        let now = now_millis();
        let fits = match delta_ms(lease_duration) {
            Some(ms) => (now as i128) + (ms as i128) <= MAX_TIMESTAMP_MS as i128,
            None => false,
        };
        if !fits && self.claimable(task_id) {
            assert(!lease_fits(lease_duration, now as int));
            return Err(AutomationError::StateError {
                task: task_id.to_string(),
                message: "Lease duration out of range".to_string(),
            });
        }
        assert(fits == lease_fits(lease_duration, now as int));
        let ghost before = self@;
        let b = self.claim_task_at(task_id, agent_id, lease_duration, now);
        assert((self@, b) == claim_model(before, task_id@, agent_id@, lease_duration, now));
        assert(lease_fits(lease_duration, now as int) || !lease_fits(lease_duration, now as int));
        Ok(b)
    }

    /// Whether a claim of `task_id` would succeed now.
    fn claimable(&self, task_id: &str) -> (r: bool)
        ensures
            r == claim_succeeds(self@, task_id@),
    {
        let id = task_id.to_string();
        match self.find(&id) {
            Some(i) => {
                assert(self@[i as int] == self.tasks@[i as int]@);
                self.tasks[i].state.is_claimable()
            },
            None => false,
        }
    }
}

/// The message of the error refusing an operation by an agent the task is not assigned to.
pub open spec fn not_assigned_message(agent: Seq<char>) -> Seq<char> {
    "Task is not assigned to agent '"@ + agent + "'"@
}

/// The error that completing or failing `id` by `agent` reports, when it is refused.
pub open spec fn refusal_matches(s: Seq<TaskAssignmentView>, id: Seq<char>, agent: Seq<char>, e: AutomationError) -> bool {
    match e {
        AutomationError::StateError { task, message } => task@ == id && if has_task(s, id) {
            message@ == not_assigned_message(agent)
        } else {
            message@ == "Task not found in registry"@
        },
        _ => false,
    }
}

/// The error that completing or failing `id` by `agent` reports, when it is refused:
/// as [`refusal_matches`] says for a missing or foreign task, and "Task is not in
/// progress" for a task of `agent` in any other state.
pub open spec fn settle_refusal_matches(s: Seq<TaskAssignmentView>, id: Seq<char>, agent: Seq<char>, e: AutomationError) -> bool {
    if assigned_to_agent(s, id, agent) {
        match e {
            AutomationError::StateError { task, message } => task@ == id && message@ == "Task is not in progress"@,
            _ => false,
        }
    } else {
        refusal_matches(s, id, agent, e)
    }
}

impl TaskRegistry {
    /// Position of `task_id` when it is assigned to `agent_id` and in progress, or
    /// the error that refuses completing or failing it.
    fn settle_position(&self, task_id: &str, agent_id: &str) -> (r: core::result::Result<usize, AutomationError>)
        ensures
            r is Ok <==> settleable(self@, task_id@, agent_id@),
            r matches Ok(i) ==> i == task_index(self@, task_id@) && i < self@.len(),
            r matches Err(e) ==> settle_refusal_matches(self@, task_id@, agent_id@, e),
    {
        let i = match self.assigned_position(task_id, agent_id) {
            Ok(i) => i,
            Err(e) => return Err(e),
        };
        assert(self@[i as int] == self.tasks@[i as int]@);
        if self.tasks[i].state.is_in_progress() {
            Ok(i)
        } else {
            Err(AutomationError::StateError {
                task: task_id.to_string(),
                message: "Task is not in progress".to_string(),
            })
        }
    }

    /// Position of `task_id` when it is assigned to `agent_id`, or the error that
    /// refuses the operation.
    fn assigned_position(&self, task_id: &str, agent_id: &str) -> (r: core::result::Result<usize, AutomationError>)
        ensures
            r is Ok <==> assigned_to_agent(self@, task_id@, agent_id@),
            r matches Ok(i) ==> i == task_index(self@, task_id@) && i < self@.len(),
            r matches Err(e) ==> refusal_matches(self@, task_id@, agent_id@, e),
    {
        let id = task_id.to_string();
        let agent = agent_id.to_string();
        match self.find(&id) {
            None => Err(AutomationError::StateError {
                task: id,
                message: "Task not found in registry".to_string(),
            }),
            Some(i) => {
                if self.is_assigned_at(i, &agent) {
                    Ok(i)
                } else {
                    let mut message = "Task is not assigned to agent '".to_string();
                    message.append(agent_id);
                    message.append("'");
                    Err(AutomationError::StateError { task: id, message })
                }
            },
        }
    }

    /// Renews the lease of `task_id` held by `agent_id`: at `now` the lease is set to
    /// end `lease_duration` later and a heartbeat is recorded.
    ///
    /// Returns `false`, changing nothing, unless the task exists and is assigned to
    /// `agent_id`.
    pub fn renew_lease_at(&mut self, task_id: &str, agent_id: &str, lease_duration: Duration, now: i64) -> (r: bool)
        requires
            0 <= now <= MAX_TIMESTAMP_MS,
            renew_computable(old(self)@, task_id@, agent_id@, lease_duration, now),
        ensures
            (final(self)@, r) == renew_model(old(self)@, task_id@, agent_id@, lease_duration, now),
            final(self).path_view() == old(self).path_view(),
    {
        let i = match self.assigned_position(task_id, agent_id) {
            Ok(i) => i,
            Err(_) => return false,
        };
        assert(self@[i as int] == self.tasks@[i as int]@);
        let lease_ms = lease_duration.as_millis() as i64;
        let t = &self.tasks[i];
        let renewed = TaskAssignment {
            task_id: t.task_id.clone(),
            task_description: t.task_description.clone(),
            state: t.state,
            assigned_to: clone_opt_string(&t.assigned_to),
            claimed_at: t.claimed_at,
            lease_expires_at: Some(now + lease_ms),
            completed_at: t.completed_at,
            attempts: t.attempts,
            last_heartbeat_at: Some(now),
        };
        assert(renewed@ == renewed_view(self@[i as int], lease_duration, now));
        self.replace_at(i, renewed);
        true
    }

    /// Renews the lease of `task_id` held by `agent_id` at the current time.
    ///
    /// `Ok(false)` unless the task is assigned to `agent_id`. A state error (and no
    /// change) when the lease would end past the latest representable instant.
    pub fn renew_lease(&mut self, task_id: &str, agent_id: &str, lease_duration: Duration) -> (r: Result<bool>)
        ensures
            exists|now: i64| {
                &&& 0 <= now <= MAX_TIMESTAMP_MS
                &&& (#[trigger] lease_fits(lease_duration, now as int) || !assigned_to_agent(old(self)@, task_id@, agent_id@))
                    ==> (r matches Ok(b) && renew_model(old(self)@, task_id@, agent_id@, lease_duration, now) == (final(self)@, b))
                &&& (!lease_fits(lease_duration, now as int) && assigned_to_agent(old(self)@, task_id@, agent_id@))
                    ==> r is Err && final(self)@ == old(self)@
            },
            final(self).path_view() == old(self).path_view(),
    {
        let now = now_millis();
        let fits = match delta_ms(lease_duration) {
            Some(ms) => (now as i128) + (ms as i128) <= MAX_TIMESTAMP_MS as i128,
            None => false,
        };
        if !fits && self.assigned_position(task_id, agent_id).is_ok() {
            assert(!lease_fits(lease_duration, now as int));
            return Err(AutomationError::StateError {
                task: task_id.to_string(),
                message: "Lease duration out of range".to_string(),
            });
        }
        assert(fits == lease_fits(lease_duration, now as int));
        let ghost before = self@;
        let b = self.renew_lease_at(task_id, agent_id, lease_duration, now);
        assert((self@, b) == renew_model(before, task_id@, agent_id@, lease_duration, now));
        assert(lease_fits(lease_duration, now as int) || !lease_fits(lease_duration, now as int));
        Ok(b)
    }

    /// Marks `task_id` completed at `now`.
    ///
    /// Refused with a state error about `task_id`, changing nothing, when the task
    /// does not exist ("Task not found in registry"), is not assigned to `agent_id`,
    /// or is not in progress. Once completed, the task cannot be claimed again.
    pub fn complete_task_at(&mut self, task_id: &str, agent_id: &str, now: i64) -> (r: Result<()>)
        ensures
            r is Ok <==> complete_model(old(self)@, task_id@, agent_id@, now) is Some,
            r is Ok ==> final(self)@ == complete_model(old(self)@, task_id@, agent_id@, now)->0,
            r matches Err(e) ==> final(self)@ == old(self)@ && settle_refusal_matches(old(self)@, task_id@, agent_id@, e),
            final(self).path_view() == old(self).path_view(),
    {
        let i = match self.settle_position(task_id, agent_id) {
            Ok(i) => i,
            Err(e) => return Err(e),
        };
        assert(self@[i as int] == self.tasks@[i as int]@);
        let t = &self.tasks[i];
        let completed = TaskAssignment {
            task_id: t.task_id.clone(),
            task_description: t.task_description.clone(),
            state: RegistryTaskState::Completed,
            assigned_to: clone_opt_string(&t.assigned_to),
            claimed_at: t.claimed_at,
            lease_expires_at: t.lease_expires_at,
            completed_at: Some(now),
            attempts: t.attempts,
            last_heartbeat_at: t.last_heartbeat_at,
        };
        self.replace_at(i, completed);
        Ok(())
    }

    /// Marks `task_id` completed at the current time; refused as
    /// [`TaskRegistry::complete_task_at`] is.
    pub fn complete_task(&mut self, task_id: &str, agent_id: &str) -> (r: Result<()>)
        ensures
            r is Ok <==> settleable(old(self)@, task_id@, agent_id@),
            r is Ok ==> exists|now: i64| 0 <= now <= MAX_TIMESTAMP_MS
                && #[trigger] complete_model(old(self)@, task_id@, agent_id@, now) == Some(final(self)@),
            r matches Err(e) ==> final(self)@ == old(self)@ && settle_refusal_matches(old(self)@, task_id@, agent_id@, e),
            final(self).path_view() == old(self).path_view(),
    {
        let now = now_millis();
        self.complete_task_at(task_id, agent_id, now)
    }

    /// Marks `task_id` failed at `now`, appending ` [FAILED: <reason>]` to its
    /// description.
    ///
    /// Refused as [`TaskRegistry::complete_task_at`] is. Once failed, the task cannot
    /// be claimed again.
    pub fn fail_task_at(&mut self, task_id: &str, agent_id: &str, reason: String, now: i64) -> (r: Result<()>)
        ensures
            r is Ok <==> fail_model(old(self)@, task_id@, agent_id@, reason@, now) is Some,
            r is Ok ==> final(self)@ == fail_model(old(self)@, task_id@, agent_id@, reason@, now)->0,
            r matches Err(e) ==> final(self)@ == old(self)@ && settle_refusal_matches(old(self)@, task_id@, agent_id@, e),
            final(self).path_view() == old(self).path_view(),
    {
        let i = match self.settle_position(task_id, agent_id) {
            Ok(i) => i,
            Err(e) => return Err(e),
        };
        assert(self@[i as int] == self.tasks@[i as int]@);
        let t = &self.tasks[i];
        let mut description = t.task_description.clone();
        description.append(" [FAILED: ");
        description.append(reason.as_str());
        description.append("]");
        let failed = TaskAssignment {
            task_id: t.task_id.clone(),
            task_description: description,
            state: RegistryTaskState::Failed,
            assigned_to: clone_opt_string(&t.assigned_to),
            claimed_at: t.claimed_at,
            lease_expires_at: t.lease_expires_at,
            completed_at: Some(now),
            attempts: t.attempts,
            last_heartbeat_at: t.last_heartbeat_at,
        };
        self.replace_at(i, failed);
        Ok(())
    }

    /// Marks `task_id` failed at the current time; refused as
    /// [`TaskRegistry::complete_task_at`] is.
    pub fn fail_task(&mut self, task_id: &str, agent_id: &str, reason: String) -> (r: Result<()>)
        ensures
            r is Ok <==> settleable(old(self)@, task_id@, agent_id@),
            r is Ok ==> exists|now: i64| 0 <= now <= MAX_TIMESTAMP_MS
                && #[trigger] fail_model(old(self)@, task_id@, agent_id@, reason@, now) == Some(final(self)@),
            r matches Err(e) ==> final(self)@ == old(self)@ && settle_refusal_matches(old(self)@, task_id@, agent_id@, e),
            final(self).path_view() == old(self).path_view(),
    {
        let now = now_millis();
        self.fail_task_at(task_id, agent_id, reason, now)
    }

    /// Records a heartbeat at `now` for `task_id` held by `agent_id`.
    ///
    /// Returns `false`, changing nothing, unless the task is assigned to `agent_id`.
    pub fn record_heartbeat_at(&mut self, task_id: &str, agent_id: &str, now: i64) -> (r: bool)
        ensures
            (final(self)@, r) == heartbeat_model(old(self)@, task_id@, agent_id@, now),
            final(self).path_view() == old(self).path_view(),
    {
        let i = match self.assigned_position(task_id, agent_id) {
            Ok(i) => i,
            Err(_) => return false,
        };
        assert(self@[i as int] == self.tasks@[i as int]@);
        let mut t = self.tasks[i].clone();
        t.record_heartbeat_at(now);
        self.replace_at(i, t);
        true
    }

    /// Records a heartbeat at the current time for `task_id` held by `agent_id`.
    pub fn record_heartbeat(&mut self, task_id: &str, agent_id: &str) -> (r: Result<bool>)
        ensures
            r matches Ok(b) && exists|now: i64| 0 <= now <= MAX_TIMESTAMP_MS
                && #[trigger] heartbeat_model(old(self)@, task_id@, agent_id@, now) == (final(self)@, b),
            final(self).path_view() == old(self).path_view(),
    {
        let now = now_millis();
        Ok(self.record_heartbeat_at(task_id, agent_id, now))
    }
}

/// Filtering a prefix yields a prefix of filtering the whole sequence.
proof fn lemma_filter_prefix<A>(s: Seq<A>, i: int, p: spec_fn(A) -> bool)
    requires
        0 <= i <= s.len(),
    ensures
        s.take(i).filter(p).len() <= s.filter(p).len(),
        s.filter(p).take(s.take(i).filter(p).len() as int) == s.take(i).filter(p),
{
    assert(s =~= s.take(i) + s.skip(i));
    Seq::filter_distributes_over_add(s.take(i), s.skip(i), p);
    let a = s.take(i).filter(p);
    let b = s.skip(i).filter(p);
    assert((a + b).take(a.len() as int) =~= a);
}

/// One more element of the prefix of `s` added to its filtered prefix.
proof fn lemma_filter_take_step<A>(s: Seq<A>, i: int, p: spec_fn(A) -> bool)
    requires
        0 <= i < s.len(),
    ensures
        s.take(i + 1).filter(p) == if p(s[i]) { s.take(i).filter(p).push(s[i]) } else { s.take(i).filter(p) },
{
    assert(s.take(i + 1) =~= s.take(i).push(s[i]));
    s.take(i).lemma_filter_push(s[i], p);
}

impl TaskRegistry {
    /// The tasks, in registry order (for persisting them).
    pub fn tasks(&self) -> (t: &Vec<TaskAssignment>)
        ensures
            t@.map_values(|x: TaskAssignment| x@) == self@,
    {
        &self.tasks
    }

    /// Gets up to `limit` available tasks: the first ones in registry order.
    /// Claims, at `now`, the first available task for `agent_id` and returns
    /// its id; `None`, changing nothing, when no task is available.
    pub fn claim_next_available_at(&mut self, agent_id: &str, lease_duration: Duration, now: i64) -> (r: Option<String>)
        requires
            0 <= now <= MAX_TIMESTAMP_MS,
            available_model(old(self)@).len() > 0 ==> lease_fits(lease_duration, now as int)
                && available_model(old(self)@)[0].attempts < u32::MAX,
        ensures
            available_model(old(self)@).len() == 0 ==> r is None && final(self)@ == old(self)@,
            available_model(old(self)@).len() > 0 ==> (r matches Some(id)
                && id@ == available_model(old(self)@)[0].task_id
                && (final(self)@, true) == claim_model(old(self)@, id@, agent_id@, lease_duration, now)),
            final(self).path_view() == old(self).path_view(),
    {
        proof { use_type_invariant(&*self); }
        let first = self.get_available_tasks(1);
        assert(first@.map_values(|x: TaskAssignment| x@).len() == first@.len());
        if first.len() == 0 {
            assert(available_model(self@).len() == 0);
            return None;
        }
        let ghost s = self@;
        let ghost t = available_model(s)[0];
        assert(first@.map_values(|x: TaskAssignment| x@)[0] == first@[0]@);
        assert(first@[0]@ == t);
        proof {
            assert(s.filter(available_pred()).contains(t));
            s.lemma_filter_contains_rev(available_pred(), t);
            let j = choose|j: int| 0 <= j < s.len() && s[j] == t;
            assert(s[j].task_id == t.task_id);
            assert(has_task(s, t.task_id));
            let k = task_index(s, t.task_id);
            if k != j {
                assert(s[k].task_id == s[j].task_id);
            }
            broadcast use vstd::seq_lib::group_filter_ensures;
            assert(available_pred()(t));
            assert(s[k] == t);
            assert(claim_succeeds(s, t.task_id));
        }
        let id = first[0].task_id.clone();
        let claimed = self.claim_task_at(id.as_str(), agent_id, lease_duration, now);
        assert(claimed);
        Some(id)
    }

    /// The first `limit` claimable tasks, in the registry's order.
    pub fn get_available_tasks(&self, limit: usize) -> (r: Vec<TaskAssignment>)
        ensures
            r@.map_values(|x: TaskAssignment| x@) == take_at_most(available_model(self@), limit as int),
    {
        let mut out: Vec<TaskAssignment> = Vec::new();
        let n = self.tasks.len();
        let mut i: usize = 0;
        while i < n && out.len() < limit
            invariant
                n == self.tasks@.len(),
                n == self@.len(),
                0 <= i <= n,
                out@.len() <= limit,
                out@.map_values(|x: TaskAssignment| x@) == self@.take(i as int).filter(available_pred()),
            decreases n - i,
        {
            assert(self@[i as int] == self.tasks@[i as int]@);
            proof { lemma_filter_take_step(self@, i as int, available_pred()); }
            if self.tasks[i].state.is_claimable() {
                let ghost before = out@.map_values(|x: TaskAssignment| x@);
                out.push(self.tasks[i].clone());
                assert(out@.map_values(|x: TaskAssignment| x@) =~= before.push(self@[i as int]));
            }
            i += 1;
        }
        proof {
            lemma_filter_prefix(self@, i as int, available_pred());
            if i == n {
                assert(self@.take(i as int) =~= self@);
            }
        }
        out
    }

    /// Gets the tasks currently in progress, in registry order.
    pub fn get_tasks_in_progress(&self) -> (r: Vec<TaskAssignment>)
        ensures
            r@.map_values(|x: TaskAssignment| x@) == in_progress_model(self@),
    {
        let mut out: Vec<TaskAssignment> = Vec::new();
        let n = self.tasks.len();
        let mut i: usize = 0;
        while i < n
            invariant
                n == self.tasks@.len(),
                n == self@.len(),
                0 <= i <= n,
                out@.map_values(|x: TaskAssignment| x@) == self@.take(i as int).filter(in_progress_pred()),
            decreases n - i,
        {
            assert(self@[i as int] == self.tasks@[i as int]@);
            proof { lemma_filter_take_step(self@, i as int, in_progress_pred()); }
            if self.tasks[i].state.is_in_progress() {
                let ghost before = out@.map_values(|x: TaskAssignment| x@);
                out.push(self.tasks[i].clone());
                assert(out@.map_values(|x: TaskAssignment| x@) =~= before.push(self@[i as int]));
            }
            i += 1;
        }
        assert(self@.take(n as int) =~= self@);
        out
    }
}

impl TaskRegistry {
    /// Returns tasks whose lease expired at least `stale_threshold` before `now` to
    /// `Available` (keeping their attempt counts) and lists their ids in registry
    /// order. A threshold too long to be a time delta counts as zero.
    pub fn abandon_stale_tasks_at(&mut self, stale_threshold: Duration, now: i64) -> (r: Vec<String>)
        ensures
            final(self)@ == abandon_model(old(self)@, stale_threshold, now as int),
            r@.map_values(|s: String| s@) == abandoned_ids(old(self)@, stale_threshold, now as int),
            final(self).path_view() == old(self).path_view(),
    {
        proof { use_type_invariant(&*self); }
        let ghost old_view = self@;
        let ghost p = abandon_pred(stale_threshold, now as int);
        let threshold = delta_or_zero(stale_threshold) as i128;
        let mut tasks: Vec<TaskAssignment> = Vec::new();
        std::mem::swap(&mut tasks, &mut self.tasks);
        assert(tasks@.map_values(|x: TaskAssignment| x@) == old_view);
        let mut ids: Vec<String> = Vec::new();
        let n = tasks.len();
        let mut i: usize = 0;
        while i < n
            invariant
                n == tasks@.len(),
                n == old_view.len(),
                0 <= i <= n,
                threshold == spec_delta_or_zero(stale_threshold),
                p == abandon_pred(stale_threshold, now as int),
                forall|j: int| 0 <= j < i ==> #[trigger] tasks@[j]@ == (if should_abandon(old_view[j], stale_threshold, now as int) { abandoned_view(old_view[j]) } else { old_view[j] }),
                forall|j: int| i <= j < n ==> #[trigger] tasks@[j]@ == old_view[j],
                ids@.map_values(|s: String| s@) == ids_of(old_view.take(i as int).filter(p)),
            decreases n - i,
        {
            assert(tasks@[i as int]@ == old_view[i as int]);
            proof { lemma_filter_take_step(old_view, i as int, p); }
            let abandon = match tasks[i].lease_expires_at {
                Some(expires_at) => tasks[i].state == RegistryTaskState::InProgress && now > expires_at
                    && (now as i128) - (expires_at as i128) >= threshold,
                None => false,
            };
            assert(abandon == should_abandon(old_view[i as int], stale_threshold, now as int));
            if abandon {
                let ghost before = ids@.map_values(|s: String| s@);
                let ghost f = old_view.take(i as int).filter(p);
                ids.push(tasks[i].task_id.clone());
                assert(ids@.map_values(|s: String| s@) =~= before.push(old_view[i as int].task_id));
                assert(ids_of(f.push(old_view[i as int])) =~= ids_of(f).push(old_view[i as int].task_id));
                let t = &tasks[i];
                let reset = TaskAssignment {
                    task_id: t.task_id.clone(),
                    task_description: t.task_description.clone(),
                    state: RegistryTaskState::Available,
                    assigned_to: None,
                    claimed_at: None,
                    lease_expires_at: None,
                    completed_at: t.completed_at,
                    attempts: t.attempts,
                    last_heartbeat_at: None,
                };
                tasks[i] = reset;
            }
            i += 1;
        }
        proof {
            assert(old_view.take(n as int) =~= old_view);
            let nv = tasks@.map_values(|x: TaskAssignment| x@);
            assert(nv =~= abandon_model(old_view, stale_threshold, now as int));
            assert forall|a: int, b: int| 0 <= a < nv.len() && 0 <= b < nv.len() && a != b implies nv[a].task_id != nv[b].task_id by {
                assert(nv[a].task_id == old_view[a].task_id);
                assert(nv[b].task_id == old_view[b].task_id);
            }
        }
        self.tasks = tasks;
        ids
    }

    /// Returns tasks whose lease expired at least `stale_threshold` ago to
    /// `Available`, by the system clock.
    pub fn abandon_stale_tasks(&mut self, stale_threshold: Duration) -> (r: Result<Vec<String>>)
        ensures
            r matches Ok(ids) && exists|now: i64| 0 <= now <= MAX_TIMESTAMP_MS
                && #[trigger] abandon_model(old(self)@, stale_threshold, now as int) == final(self)@
                && ids@.map_values(|s: String| s@) == abandoned_ids(old(self)@, stale_threshold, now as int),
            final(self).path_view() == old(self).path_view(),
    {
        let now = now_millis();
        Ok(self.abandon_stale_tasks_at(stale_threshold, now))
    }

    /// Removes completed tasks that were completed more than `older_than` before
    /// `now`, and lists their ids in registry order. Failed tasks are kept.
    pub fn cleanup_completed_tasks_at(&mut self, older_than: Duration, now: i64) -> (r: Vec<String>)
        ensures
            final(self)@ == cleanup_model(old(self)@, older_than, now as int),
            r@.map_values(|s: String| s@) == cleaned_ids(old(self)@, older_than, now as int),
            final(self).path_view() == old(self).path_view(),
    {
        proof { use_type_invariant(&*self); }
        let ghost old_view = self@;
        let ghost keep = keep_pred(older_than, now as int);
        let ghost drop = cleanup_pred(older_than, now as int);
        let mut tasks: Vec<TaskAssignment> = Vec::new();
        std::mem::swap(&mut tasks, &mut self.tasks);
        assert(tasks@.map_values(|x: TaskAssignment| x@) == old_view);
        let mut kept: Vec<TaskAssignment> = Vec::new();
        let mut removed: Vec<String> = Vec::new();
        let n = tasks.len();
        let mut i: usize = 0;
        while i < n
            invariant
                n == tasks@.len(),
                n == old_view.len(),
                0 <= i <= n,
                unique_ids(old_view),
                keep == keep_pred(older_than, now as int),
                drop == cleanup_pred(older_than, now as int),
                forall|j: int| 0 <= j < n ==> #[trigger] tasks@[j]@ == old_view[j],
                kept@.map_values(|x: TaskAssignment| x@) == old_view.take(i as int).filter(keep),
                removed@.map_values(|s: String| s@) == ids_of(old_view.take(i as int).filter(drop)),
                unique_ids(kept@.map_values(|x: TaskAssignment| x@)),
                forall|a: int| 0 <= a < kept@.len() ==> exists|k: int| 0 <= k < i && #[trigger] kept@[a]@.task_id == old_view[k].task_id,
            decreases n - i,
        {
            proof {
                lemma_filter_take_step(old_view, i as int, keep);
                lemma_filter_take_step(old_view, i as int, drop);
            }
            let old_kept = Ghost(kept@.map_values(|x: TaskAssignment| x@));
            if tasks[i].is_completed_older_than_at(older_than, now) {
                let ghost before = removed@.map_values(|s: String| s@);
                let ghost f = old_view.take(i as int).filter(drop);
                removed.push(tasks[i].task_id.clone());
                assert(removed@.map_values(|s: String| s@) =~= before.push(old_view[i as int].task_id));
                assert(ids_of(f.push(old_view[i as int])) =~= ids_of(f).push(old_view[i as int].task_id));
            } else {
                let ghost kept_before = kept@;
                kept.push(tasks[i].clone());
                proof {
                    let kv = kept@.map_values(|x: TaskAssignment| x@);
                    assert(kv =~= old_kept@.push(old_view[i as int]));
                    assert forall|a: int| 0 <= a < kept@.len() implies exists|k: int| 0 <= k < i + 1 && #[trigger] kept@[a]@.task_id == old_view[k].task_id by {
                        if a < kept@.len() - 1 {
                            assert(kept@[a] == kept_before[a]);
                        } else {
                            assert(kept@[a]@.task_id == old_view[i as int].task_id);
                        }
                    }
                    assert forall|a: int, b: int| 0 <= a < kv.len() && 0 <= b < kv.len() && a != b implies kv[a].task_id != kv[b].task_id by {
                        if a == kv.len() - 1 && b < kv.len() - 1 {
                            assert(kept@[b]@.task_id == kv[b].task_id);
                            let k = choose|k: int| 0 <= k < i && #[trigger] kept@[b]@.task_id == old_view[k].task_id;
                        } else if b == kv.len() - 1 && a < kv.len() - 1 {
                            assert(kept@[a]@.task_id == kv[a].task_id);
                            let k = choose|k: int| 0 <= k < i && #[trigger] kept@[a]@.task_id == old_view[k].task_id;
                        } else {
                            assert(kv[a] == old_kept@[a]);
                            assert(kv[b] == old_kept@[b]);
                        }
                    }
                }
            }
            i += 1;
        }
        assert(old_view.take(n as int) =~= old_view);
        self.tasks = kept;
        removed
    }

    /// Removes completed tasks older than `older_than`, by the system clock.
    pub fn cleanup_completed_tasks(&mut self, older_than: Duration) -> (r: Result<Vec<String>>)
        ensures
            r matches Ok(ids) && exists|now: i64| 0 <= now <= MAX_TIMESTAMP_MS
                && #[trigger] cleanup_model(old(self)@, older_than, now as int) == final(self)@
                && ids@.map_values(|s: String| s@) == cleaned_ids(old(self)@, older_than, now as int),
            final(self).path_view() == old(self).path_view(),
    {
        let now = now_millis();
        Ok(self.cleanup_completed_tasks_at(older_than, now))
    }
}

// ---------------------------------------------------------------------------
// Laws of the registry
// ---------------------------------------------------------------------------

/// Position lookup is exact in a registry with distinct ids: the task found for an
/// id carries that id, and an update that keeps the id keeps the position.
proof fn lemma_index_after_update(s: Seq<TaskAssignmentView>, id: Seq<char>, t: TaskAssignmentView)
    requires
        unique_ids(s),
        has_task(s, id),
        t.task_id == id,
    ensures
        has_task(s.update(task_index(s, id), t), id),
        task_index(s.update(task_index(s, id), t), id) == task_index(s, id),
        unique_ids(s.update(task_index(s, id), t)),
{
    let i = task_index(s, id);
    let s2 = s.update(i, t);
    assert(s2[i].task_id == id);
    let k = task_index(s2, id);
    assert(s2[k].task_id == id);
    if k != i {
        assert(s[k].task_id == s2[k].task_id);
    }
}

/// Claims are exclusive: once an agent has claimed a task, a second claim of that
/// task, by any agent, fails and changes nothing.
pub proof fn law_claim_is_exclusive(
    s: Seq<TaskAssignmentView>,
    id: Seq<char>,
    first: Seq<char>,
    second: Seq<char>,
    lease1: Duration,
    lease2: Duration,
    now1: i64,
    now2: i64,
)
    requires
        unique_ids(s),
        claim_model(s, id, first, lease1, now1).1,
    ensures
        claim_model(claim_model(s, id, first, lease1, now1).0, id, second, lease2, now2)
            == (claim_model(s, id, first, lease1, now1).0, false),
{
    let i = task_index(s, id);
    lemma_index_after_update(s, id, claimed_view(s[i], first, lease1, now1));
}

/// A successful claim puts the task in progress, assigned to the claiming agent,
/// with one more attempt, and leaves every other task as it was.
pub proof fn law_claim_assigns(s: Seq<TaskAssignmentView>, id: Seq<char>, agent: Seq<char>, lease: Duration, now: i64)
    requires
        unique_ids(s),
        claim_model(s, id, agent, lease, now).1,
        claim_computable(s, id, lease, now),
    ensures
        ({
            let s2 = claim_model(s, id, agent, lease, now).0;
            &&& unique_ids(s2)
            &&& assigned_to_agent(s2, id, agent)
            &&& s2[task_index(s2, id)].state == RegistryTaskState::InProgress
            &&& s2[task_index(s2, id)].attempts == s[task_index(s, id)].attempts + 1
            &&& s2.len() == s.len()
            &&& forall|j: int| 0 <= j < s.len() && s[j].task_id != id ==> s2[j] == s[j]
        }),
{
    let i = task_index(s, id);
    lemma_index_after_update(s, id, claimed_view(s[i], agent, lease, now));
}

/// Completed and failed tasks cannot be claimed again.
pub proof fn law_finished_tasks_are_not_claimable(
    s: Seq<TaskAssignmentView>,
    id: Seq<char>,
    agent: Seq<char>,
    reason: Seq<char>,
    now: i64,
    claimer: Seq<char>,
    lease: Duration,
    later: i64,
)
    requires
        unique_ids(s),
    ensures
        complete_model(s, id, agent, now) matches Some(s2) ==> !claim_model(s2, id, claimer, lease, later).1,
        fail_model(s, id, agent, reason, now) matches Some(s2) ==> !claim_model(s2, id, claimer, lease, later).1,
{
    if assigned_to_agent(s, id, agent) {
        let i = task_index(s, id);
        lemma_index_after_update(s, id, TaskAssignmentView { state: RegistryTaskState::Completed, completed_at: Some(now), ..s[i] });
        lemma_index_after_update(s, id, TaskAssignmentView {
            state: RegistryTaskState::Failed,
            completed_at: Some(now),
            task_description: failed_description(s[i].task_description, reason),
            ..s[i]
        });
    }
}

/// A completed or failed task can be neither completed nor failed again, by any agent.
pub proof fn law_finished_tasks_stay_finished(
    s: Seq<TaskAssignmentView>,
    id: Seq<char>,
    agent: Seq<char>,
    reason: Seq<char>,
    now: i64,
    other: Seq<char>,
    other_reason: Seq<char>,
    later: i64,
)
    requires
        unique_ids(s),
    ensures
        complete_model(s, id, agent, now) matches Some(s2) ==> complete_model(s2, id, other, later) is None
            && fail_model(s2, id, other, other_reason, later) is None,
        fail_model(s, id, agent, reason, now) matches Some(s2) ==> complete_model(s2, id, other, later) is None
            && fail_model(s2, id, other, other_reason, later) is None,
{
    if settleable(s, id, agent) {
        let i = task_index(s, id);
        lemma_index_after_update(s, id, TaskAssignmentView { state: RegistryTaskState::Completed, completed_at: Some(now), ..s[i] });
        lemma_index_after_update(s, id, TaskAssignmentView {
            state: RegistryTaskState::Failed,
            completed_at: Some(now),
            task_description: failed_description(s[i].task_description, reason),
            ..s[i]
        });
    }
}

/// Only the agent a task is assigned to can renew its lease, complete it, fail it or
/// record its heartbeat; any other request leaves the registry as it was.
pub proof fn law_only_holder_acts(s: Seq<TaskAssignmentView>, id: Seq<char>, other: Seq<char>, reason: Seq<char>, lease: Duration, now: i64)
    requires
        !assigned_to_agent(s, id, other),
    ensures
        renew_model(s, id, other, lease, now) == (s, false),
        complete_model(s, id, other, now) is None,
        fail_model(s, id, other, reason, now) is None,
        heartbeat_model(s, id, other, now) == (s, false),
{
}

/// A registered task can be found, available and unclaimed, and the ids stay
/// distinct.
pub proof fn law_register_then_get(s: Seq<TaskAssignmentView>, id: Seq<char>, description: Seq<char>)
    requires
        unique_ids(s),
        !has_task(s, id),
    ensures
        register_model(s, id, description) matches Some(s2) && unique_ids(s2) && has_task(s2, id)
            && s2[task_index(s2, id)] == new_task_view(id, description),
{
    let s2 = s.push(new_task_view(id, description));
    assert(s2[s.len() as int].task_id == id);
    let k = task_index(s2, id);
    if k != s.len() {
        assert(s[k] == s2[k]);
    }
}

/// Abandoning keeps every task, its id and its attempt count, returns exactly the
/// listed tasks to `Available` unassigned, and keeps the ids distinct.
pub proof fn law_abandon_returns_tasks(s: Seq<TaskAssignmentView>, threshold: Duration, now: int)
    requires
        unique_ids(s),
    ensures
        ({
            let s2 = abandon_model(s, threshold, now);
            &&& s2.len() == s.len()
            &&& unique_ids(s2)
            &&& forall|j: int| 0 <= j < s.len() ==> #[trigger] s2[j].task_id == s[j].task_id && s2[j].attempts == s[j].attempts
            &&& forall|j: int| 0 <= j < s.len() && should_abandon(s[j], threshold, now) ==>
                    #[trigger] s2[j].state == RegistryTaskState::Available && s2[j].assigned_to is None
            &&& forall|j: int| 0 <= j < s.len() && !should_abandon(s[j], threshold, now) ==> #[trigger] s2[j] == s[j]
        }),
{
    let s2 = abandon_model(s, threshold, now);
    assert forall|a: int, b: int| 0 <= a < s2.len() && 0 <= b < s2.len() && a != b implies s2[a].task_id != s2[b].task_id by {
        assert(s2[a].task_id == s[a].task_id);
        assert(s2[b].task_id == s[b].task_id);
    }
}

/// Cleanup removes only completed tasks: every task that is not completed, failed
/// ones among them, is still in the registry afterwards.
pub proof fn law_cleanup_keeps_unfinished_and_failed(s: Seq<TaskAssignmentView>, older_than: Duration, now: int, j: int)
    requires
        0 <= j < s.len(),
        s[j].state != RegistryTaskState::Completed,
    ensures
        cleanup_model(s, older_than, now).contains(s[j]),
{
    broadcast use vstd::seq_lib::group_filter_ensures;
    assert(keep_pred(older_than, now)(s[j]));
}

} // verus!
