//! Agent registry for tracking agent instances with heartbeats and status.
//!
//! Each agent instance registers under a unique id, sends heartbeats, and is marked
//! `Stale` when its heartbeats stop and `Shutdown` when it ends. Old stale and shut
//! down agents are removed by cleanup.
//!
//! Operations are specified as transitions of the abstract model: a sequence of
//! [`AgentInstanceView`] values in registration order with pairwise distinct agent
//! ids. Persisting the registry and locking its file are done by the program that
//! holds the registry.

use vstd::prelude::*;
use crate::error::{AutomationError, Result};
use crate::ids::{new_uuid_v4, is_uuid_v4_text};
use crate::task_registry::opt_str_view;
use crate::time::{Duration, spec_delta_ms, spec_delta_or_zero, delta_ms, delta_or_zero, now_millis, MAX_TIMESTAMP_MS, MIN_TIMESTAMP_MS};

verus! {

/// Health status of an agent instance.
#[derive(Debug, Clone, Copy, PartialEq, Eq, Structural)]
pub enum AgentStatus {
    /// Agent is running and sending heartbeats
    Active,
    /// Agent has stopped sending heartbeats
    Stale,
    /// Agent has shut down
    Shutdown,
}

impl AgentStatus {
    /// Returns true if the agent is active.
    pub fn is_active(&self) -> (r: bool)
        ensures
            r == (*self == AgentStatus::Active),
    {
        matches!(self, AgentStatus::Active)
    }

    /// Returns true if the agent is stale.
    pub fn is_stale(&self) -> (r: bool)
        ensures
            r == (*self == AgentStatus::Stale),
    {
        matches!(self, AgentStatus::Stale)
    }

    /// Returns true if the agent has shut down.
    pub fn is_shutdown(&self) -> (r: bool)
        ensures
            r == (*self == AgentStatus::Shutdown),
    {
        matches!(self, AgentStatus::Shutdown)
    }
}

impl Default for AgentStatus {
    fn default() -> (s: Self)
        ensures
            s == AgentStatus::Active,
    {
        AgentStatus::Active
    }
}

/// An agent instance: identity, host, status, heartbeat and assigned tasks.
///
/// Timestamps are milliseconds since the Unix epoch. `tasks_assigned` is used as a
/// set of task ids.
#[derive(Debug)]
pub struct AgentInstance {
    /// Unique identifier of the instance
    pub agent_id: String,
    /// Type of agent (e.g. "prompt", "architect")
    pub agent_type: String,
    /// Current status
    pub status: AgentStatus,
    /// When the instance started
    pub started_at: i64,
    /// When the last heartbeat was received
    pub last_heartbeat_at: i64,
    /// Host the instance runs on
    pub hostname: Option<String>,
    /// Process id of the instance
    pub pid: Option<u32>,
    /// Ids of the tasks assigned to the instance
    pub tasks_assigned: Vec<String>,
}

/// Abstract value of an [`AgentInstance`].
pub struct AgentInstanceView {
    pub agent_id: Seq<char>,
    pub agent_type: Seq<char>,
    pub status: AgentStatus,
    pub started_at: i64,
    pub last_heartbeat_at: i64,
    pub hostname: Option<Seq<char>>,
    pub pid: Option<u32>,
    pub tasks_assigned: Seq<Seq<char>>,
}

impl View for AgentInstance {
    type V = AgentInstanceView;

    open spec fn view(&self) -> AgentInstanceView {
        AgentInstanceView {
            agent_id: self.agent_id@,
            agent_type: self.agent_type@,
            status: self.status,
            started_at: self.started_at,
            last_heartbeat_at: self.last_heartbeat_at,
            hostname: opt_str_view(self.hostname),
            pid: self.pid,
            tasks_assigned: self.tasks_assigned@.map_values(|s: String| s@),
        }
    }
}

fn clone_strings(v: &Vec<String>) -> (r: Vec<String>)
    ensures
        r@.map_values(|s: String| s@) == v@.map_values(|s: String| s@),
{
    let mut out: Vec<String> = Vec::new();
    let n = v.len();
    let mut i: usize = 0;
    while i < n
        invariant
            n == v@.len(),
            0 <= i <= n,
            out@.len() == i,
            forall|j: int| 0 <= j < i ==> #[trigger] out@[j]@ == v@[j]@,
        decreases n - i,
    {
        out.push(v[i].clone());
        i += 1;
    }
    assert(out@.map_values(|s: String| s@) =~= v@.map_values(|s: String| s@));
    out
}

impl Clone for AgentInstance {
    fn clone(&self) -> (r: Self)
        ensures
            r@ == self@,
    {
        AgentInstance {
            agent_id: self.agent_id.clone(),
            agent_type: self.agent_type.clone(),
            status: self.status,
            started_at: self.started_at,
            last_heartbeat_at: self.last_heartbeat_at,
            hostname: match &self.hostname {
                Some(h) => Some(h.clone()),
                None => None,
            },
            pid: self.pid,
            tasks_assigned: clone_strings(&self.tasks_assigned),
        }
    }
}

// ---------------------------------------------------------------------------
// The abstract model
// ---------------------------------------------------------------------------

/// A freshly registered instance: active, with no tasks, started and last heard
/// from at `now`.
pub open spec fn new_agent_view(id: Seq<char>, agent_type: Seq<char>, hostname: Seq<char>, pid: u32, now: i64) -> AgentInstanceView {
    AgentInstanceView {
        agent_id: id,
        agent_type,
        status: AgentStatus::Active,
        started_at: now,
        last_heartbeat_at: now,
        hostname: Some(hostname),
        pid: Some(pid),
        tasks_assigned: Seq::empty(),
    }
}

/// A heartbeat at `now`: records the time, and a stale instance becomes active again.
pub open spec fn heartbeat_view(a: AgentInstanceView, now: i64) -> AgentInstanceView {
    AgentInstanceView {
        last_heartbeat_at: now,
        status: if a.status == AgentStatus::Stale { AgentStatus::Active } else { a.status },
        ..a
    }
}

/// Assigning a task adds its id unless it is already there.
pub open spec fn assign_view(a: AgentInstanceView, task: Seq<char>) -> AgentInstanceView {
    if a.tasks_assigned.contains(task) {
        a
    } else {
        AgentInstanceView { tasks_assigned: a.tasks_assigned.push(task), ..a }
    }
}

/// Selects the task ids different from `task`.
pub open spec fn other_task_pred(task: Seq<char>) -> spec_fn(Seq<char>) -> bool {
    |t: Seq<char>| t != task
}

/// Unassigning a task removes its id.
pub open spec fn unassign_view(a: AgentInstanceView, task: Seq<char>) -> AgentInstanceView {
    AgentInstanceView { tasks_assigned: a.tasks_assigned.filter(other_task_pred(task)), ..a }
}

/// The heartbeat is stale when more than `threshold` passed since it (a threshold
/// too long to be a time delta counts as zero).
pub open spec fn agent_heartbeat_stale_at(a: AgentInstanceView, threshold: Duration, now: int) -> bool {
    now - a.last_heartbeat_at > spec_delta_or_zero(threshold)
}

/// The time from `since` to `now`, or zero when `since` is later.
pub open spec fn elapsed_ms(since: int, now: int) -> int {
    if now >= since { now - since } else { 0 }
}

/// Agent ids are pairwise distinct.
pub open spec fn unique_agent_ids(s: Seq<AgentInstanceView>) -> bool {
    forall|i: int, j: int| 0 <= i < s.len() && 0 <= j < s.len() && i != j ==> s[i].agent_id != s[j].agent_id
}

/// Whether an agent with this id is registered.
pub open spec fn has_agent(s: Seq<AgentInstanceView>, id: Seq<char>) -> bool {
    exists|i: int| 0 <= i < s.len() && s[i].agent_id == id
}

/// Position of the agent with this id (meaningful when `has_agent`).
pub open spec fn agent_index(s: Seq<AgentInstanceView>, id: Seq<char>) -> int {
    choose|i: int| 0 <= i < s.len() && s[i].agent_id == id
}

/// Applies `f` to the agent `id`, or refuses (`None`) when it is not registered.
pub open spec fn update_agent(s: Seq<AgentInstanceView>, id: Seq<char>, a: AgentInstanceView) -> Seq<AgentInstanceView> {
    s.update(agent_index(s, id), a)
}

/// Selects active agents whose heartbeat is stale.
pub open spec fn mark_stale_pred(threshold: Duration, now: int) -> spec_fn(AgentInstanceView) -> bool {
    |a: AgentInstanceView| a.status == AgentStatus::Active && agent_heartbeat_stale_at(a, threshold, now)
}

/// The registry after marking active agents with stale heartbeats as stale.
pub open spec fn mark_stale_model(s: Seq<AgentInstanceView>, threshold: Duration, now: int) -> Seq<AgentInstanceView> {
    s.map_values(|a: AgentInstanceView| if mark_stale_pred(threshold, now)(a) { AgentInstanceView { status: AgentStatus::Stale, ..a } } else { a })
}

/// Selects the agents with `status` whose last heartbeat is not after `cutoff`:
/// those that removal takes away.
pub open spec fn remove_pred(status: AgentStatus, cutoff: int) -> spec_fn(AgentInstanceView) -> bool {
    |a: AgentInstanceView| a.status == status && a.last_heartbeat_at <= cutoff
}

/// Selects the agents that removal keeps.
pub open spec fn retain_pred(status: AgentStatus, cutoff: int) -> spec_fn(AgentInstanceView) -> bool {
    |a: AgentInstanceView| !(a.status == status && a.last_heartbeat_at <= cutoff)
}

/// The ids of a sequence of agents.
pub open spec fn agent_ids_of(s: Seq<AgentInstanceView>) -> Seq<Seq<char>> {
    s.map_values(|a: AgentInstanceView| a.agent_id)
}

/// Removal of old stale or shut down agents needs a window that is a time delta and
/// a cutoff (`now` minus the window) within the representable range.
pub open spec fn window_fits(older_than: Duration, now: int) -> bool {
    spec_delta_ms(older_than) is Some && now - older_than.ms() >= MIN_TIMESTAMP_MS
}

// ---------------------------------------------------------------------------
// Single instances
// ---------------------------------------------------------------------------

impl AgentInstance {
    /// Creates an active instance started at `now` on `hostname` as process `pid`.
    pub fn new_at(agent_id: String, agent_type: String, hostname: String, pid: u32, now: i64) -> (a: Self)
        ensures
            a@ == new_agent_view(agent_id@, agent_type@, hostname@, pid, now),
    {
        let a = AgentInstance {
            agent_id,
            agent_type,
            status: AgentStatus::Active,
            started_at: now,
            last_heartbeat_at: now,
            hostname: Some(hostname),
            pid: Some(pid),
            tasks_assigned: Vec::new(),
        };
        assert(a@.tasks_assigned =~= Seq::<Seq<char>>::empty());
        a
    }

    /// Creates an active instance started now on `hostname` as process `pid`.
    pub fn new(agent_id: String, agent_type: String, hostname: String, pid: u32) -> (a: Self)
        ensures
            0 <= a@.started_at <= MAX_TIMESTAMP_MS,
            a@ == new_agent_view(agent_id@, agent_type@, hostname@, pid, a@.started_at),
    {
        let now = now_millis();
        Self::new_at(agent_id, agent_type, hostname, pid, now)
    }

    /// Records a heartbeat at `now`; a stale instance becomes active again.
    pub fn update_heartbeat_at(&mut self, now: i64)
        ensures
            final(self)@ == heartbeat_view(old(self)@, now),
    {
        self.last_heartbeat_at = now;
        if self.status == AgentStatus::Stale {
            self.status = AgentStatus::Active;
        }
    }

    /// Records a heartbeat at the current time.
    pub fn update_heartbeat(&mut self)
        ensures
            0 <= final(self)@.last_heartbeat_at <= MAX_TIMESTAMP_MS,
            final(self)@ == heartbeat_view(old(self)@, final(self)@.last_heartbeat_at),
    {
        let now = now_millis();
        self.update_heartbeat_at(now);
    }

    /// Marks the instance as shut down.
    pub fn mark_shutdown(&mut self)
        ensures
            final(self)@ == (AgentInstanceView { status: AgentStatus::Shutdown, ..old(self)@ }),
    {
        self.status = AgentStatus::Shutdown;
    }

    /// Marks the instance as stale.
    pub fn mark_stale(&mut self)
        ensures
            final(self)@ == (AgentInstanceView { status: AgentStatus::Stale, ..old(self)@ }),
    {
        self.status = AgentStatus::Stale;
    }

    /// Assigns a task; returns whether it was not assigned before.
    pub fn assign_task(&mut self, task_id: &str) -> (r: bool)
        ensures
            r == !old(self)@.tasks_assigned.contains(task_id@),
            final(self)@ == assign_view(old(self)@, task_id@),
    {
        let id = task_id.to_string();
        assert(id@ == task_id@);
        let n = self.tasks_assigned.len();
        let mut i: usize = 0;
        while i < n
            invariant
                n == self.tasks_assigned@.len(),
                0 <= i <= n,
                forall|j: int| 0 <= j < i ==> self@.tasks_assigned[j] != task_id@,
                id@ == task_id@,
            decreases n - i,
        {
            assert(self@.tasks_assigned[i as int] == self.tasks_assigned@[i as int]@);
            if self.tasks_assigned[i] == id {
                assert(self@.tasks_assigned.contains(task_id@));
                return false;
            }
            i += 1;
        }
        let ghost before = self@.tasks_assigned;
        self.tasks_assigned.push(id);
        assert(self@.tasks_assigned =~= before.push(task_id@));
        true
    }

    /// Unassigns a task; returns whether it was assigned.
    pub fn unassign_task(&mut self, task_id: &str) -> (r: bool)
        ensures
            r == old(self)@.tasks_assigned.contains(task_id@),
            final(self)@ == unassign_view(old(self)@, task_id@),
    {
        let id = task_id.to_string();
        let ghost before = self@.tasks_assigned;
        let ghost p = other_task_pred(task_id@);
        let mut kept: Vec<String> = Vec::new();
        let mut found = false;
        let n = self.tasks_assigned.len();
        let mut i: usize = 0;
        while i < n
            invariant
                n == self.tasks_assigned@.len(),
                before == self@.tasks_assigned,
                p == other_task_pred(task_id@),
                0 <= i <= n,
                kept@.map_values(|s: String| s@) == before.take(i as int).filter(p),
                found == before.take(i as int).contains(task_id@),
                id@ == task_id@,
            decreases n - i,
        {
            assert(before[i as int] == self.tasks_assigned@[i as int]@);
            assert(before.take(i + 1) =~= before.take(i as int).push(before[i as int]));
            proof { before.take(i as int).lemma_filter_push(before[i as int], p); }
            proof {
                broadcast use vstd::seq_lib::group_seq_properties;
                assert(before.take(i + 1).contains(task_id@) == (before.take(i as int).contains(task_id@) || before[i as int] == task_id@));
            }
            if self.tasks_assigned[i] == id {
                found = true;
            } else {
                let ghost k0 = kept@.map_values(|s: String| s@);
                kept.push(self.tasks_assigned[i].clone());
                assert(kept@.map_values(|s: String| s@) =~= k0.push(before[i as int]));
            }
            i += 1;
        }
        assert(before.take(n as int) =~= before);
        self.tasks_assigned = kept;
        found
    }

    /// Whether more than `threshold` had passed since the last heartbeat at `now`.
    pub fn is_heartbeat_stale_at(&self, threshold: Duration, now: i64) -> (r: bool)
        ensures
            r == agent_heartbeat_stale_at(self@, threshold, now as int),
    {
        let age: i128 = now as i128 - self.last_heartbeat_at as i128;
        age > delta_or_zero(threshold) as i128
    }

    /// Whether the last heartbeat is older than `threshold`, by the system clock.
    pub fn is_heartbeat_stale(&self, threshold: Duration) -> (r: bool)
        ensures
            exists|now: i64| 0 <= now <= MAX_TIMESTAMP_MS && r == #[trigger] agent_heartbeat_stale_at(self@, threshold, now as int),
    {
        let now = now_millis();
        self.is_heartbeat_stale_at(threshold, now)
    }

    /// How long the instance had been running at `now` (zero if it started later).
    pub fn uptime_at(&self, now: i64) -> (d: Duration)
        ensures
            d.ms() == elapsed_ms(self@.started_at as int, now as int),
    {
        elapsed_between(self.started_at, now)
    }

    /// How long the instance has been running, by the system clock.
    pub fn uptime(&self) -> (d: Duration)
        ensures
            exists|now: i64| 0 <= now <= MAX_TIMESTAMP_MS && d.ms() == #[trigger] elapsed_ms(self@.started_at as int, now as int),
    {
        let now = now_millis();
        self.uptime_at(now)
    }

    /// How long ago, at `now`, the last heartbeat was (zero if it is later).
    pub fn last_heartbeat_age_at(&self, now: i64) -> (d: Duration)
        ensures
            d.ms() == elapsed_ms(self@.last_heartbeat_at as int, now as int),
    {
        elapsed_between(self.last_heartbeat_at, now)
    }

    /// How long ago the last heartbeat was, by the system clock.
    pub fn last_heartbeat_age(&self) -> (d: Duration)
        ensures
            exists|now: i64| 0 <= now <= MAX_TIMESTAMP_MS && d.ms() == #[trigger] elapsed_ms(self@.last_heartbeat_at as int, now as int),
    {
        let now = now_millis();
        self.last_heartbeat_age_at(now)
    }
}

/// The span from `since` to `now`, or zero when `since` is later.
fn elapsed_between(since: i64, now: i64) -> (d: Duration)
    ensures
        d.ms() == elapsed_ms(since as int, now as int),
{
    if now >= since {
        let diff: i128 = now as i128 - since as i128;
        Duration::from_millis(diff as u64)
    } else {
        Duration::from_millis(0)
    }
}

/// Statistics about one agent instance.
#[derive(Debug)]
pub struct AgentStats {
    /// Id of the instance
    pub agent_id: String,
    /// Type of the instance
    pub agent_type: String,
    /// How long the instance has been running
    pub uptime: Duration,
    /// Number of tasks assigned to the instance
    pub tasks_assigned: usize,
    /// How long ago the last heartbeat was
    pub last_heartbeat_age: Duration,
    /// Status of the instance
    pub status: AgentStatus,
}

/// Generates an agent id: the agent type, a hyphen, and a random UUID.
pub fn generate_agent_id(agent_type: &str) -> (id: String)
    ensures
        id@.len() == agent_type@.len() + 37,
        id@.subrange(0, agent_type@.len() as int) == agent_type@,
        id@[agent_type@.len() as int] == '-',
        is_uuid_v4_text(id@.subrange(agent_type@.len() as int + 1, id@.len() as int)),
{
    let uuid = new_uuid_v4();
    let mut id = agent_type.to_string();
    id.append("-");
    id.append(uuid.as_str());
    proof {
        reveal_strlit("-");
        assert(id@ =~= agent_type@ + "-"@ + uuid@);
        assert(id@.subrange(0, agent_type@.len() as int) =~= agent_type@);
        assert(id@.subrange(agent_type@.len() as int + 1, id@.len() as int) =~= uuid@);
    }
    id
}

// ---------------------------------------------------------------------------
// The registry
// ---------------------------------------------------------------------------

/// Registers an agent unless its id is taken (`None`).
pub open spec fn register_agent_model(s: Seq<AgentInstanceView>, id: Seq<char>, agent_type: Seq<char>, hostname: Seq<char>, pid: u32, now: i64) -> Option<Seq<AgentInstanceView>> {
    if has_agent(s, id) {
        None
    } else {
        Some(s.push(new_agent_view(id, agent_type, hostname, pid, now)))
    }
}

/// Records a heartbeat for agent `id` at `now`; `false` when it is not registered.
pub open spec fn agent_heartbeat_model(s: Seq<AgentInstanceView>, id: Seq<char>, now: i64) -> (Seq<AgentInstanceView>, bool) {
    if has_agent(s, id) {
        (update_agent(s, id, heartbeat_view(s[agent_index(s, id)], now)), true)
    } else {
        (s, false)
    }
}

/// The error that refuses an operation on an agent that is not registered.
pub open spec fn agent_not_found(e: AutomationError, id: Seq<char>) -> bool {
    e matches AutomationError::StateError { task, message } && task@ == id && message@ == "Agent not found"@
}

/// Registry of agent instances.
///
/// Agents are kept in registration order with pairwise distinct ids. The registry
/// file path names where the program that owns the registry persists it.
#[derive(Debug)]
pub struct AgentRegistry {
    agents: Vec<AgentInstance>,
    registry_path: String,
}

/// Default directory of the agent registry.
pub const AGENT_REGISTRY_BASE_PATH: &'static str = ".state/agents";

impl View for AgentRegistry {
    type V = Seq<AgentInstanceView>;

    closed spec fn view(&self) -> Seq<AgentInstanceView> {
        self.agents@.map_values(|a: AgentInstance| a@)
    }
}

impl AgentRegistry {
    #[verifier::type_invariant]
    spec fn well_formed(self) -> bool {
        unique_agent_ids(self@)
    }

    /// The path of the registry file.
    pub closed spec fn path_view(self) -> Seq<char> {
        self.registry_path@
    }

    /// An empty registry persisted at `registry_path`.
    pub fn with_path(registry_path: String) -> (r: Self)
        ensures
            r@ == Seq::<AgentInstanceView>::empty(),
            r.path_view() == registry_path@,
    {
        let r = AgentRegistry { agents: Vec::new(), registry_path };
        assert(r@ =~= Seq::<AgentInstanceView>::empty());
        r
    }

    /// A registry holding `agents` (as loaded from disk), persisted at
    /// `registry_path`. Refused with a state error when two agents share an id.
    pub fn from_agents(registry_path: String, agents: Vec<AgentInstance>) -> (r: Result<Self>)
        ensures
            r matches Ok(reg) ==> reg@ == agents@.map_values(|a: AgentInstance| a@) && reg.path_view() == registry_path@,
            r is Ok <==> unique_agent_ids(agents@.map_values(|a: AgentInstance| a@)),
    {
        let ghost vs = agents@.map_values(|a: AgentInstance| a@);
        let n = agents.len();
        let mut i: usize = 0;
        while i < n
            invariant
                n == agents@.len(),
                vs == agents@.map_values(|a: AgentInstance| a@),
                0 <= i <= n,
                forall|a: int, b: int| 0 <= a < i && 0 <= b < n && a != b ==> vs[a].agent_id != vs[b].agent_id,
            decreases n - i,
        {
            let mut j: usize = 0;
            while j < n
                invariant
                    n == agents@.len(),
                    vs == agents@.map_values(|a: AgentInstance| a@),
                    0 <= i < n,
                    0 <= j <= n,
                    forall|a: int, b: int| 0 <= a < i && 0 <= b < n && a != b ==> vs[a].agent_id != vs[b].agent_id,
                    forall|b: int| 0 <= b < j && b != i ==> vs[i as int].agent_id != vs[b].agent_id,
                decreases n - j,
            {
                if j != i && agents[i].agent_id == agents[j].agent_id {
                    assert(vs[i as int].agent_id == vs[j as int].agent_id);
                    return Err(AutomationError::StateError {
                        task: agents[i].agent_id.clone(),
                        message: "Duplicate agent id in registry".to_string(),
                    });
                }
                j += 1;
            }
            i += 1;
        }
        Ok(AgentRegistry { agents, registry_path })
    }

    /// Returns the path to the registry file.
    pub fn registry_path(&self) -> (p: &str)
        ensures
            p@ == self.path_view(),
    {
        self.registry_path.as_str()
    }

    /// The agents, in registration order (for persisting them).
    pub fn agents(&self) -> (a: &Vec<AgentInstance>)
        ensures
            a@.map_values(|x: AgentInstance| x@) == self@,
    {
        &self.agents
    }

    /// Number of registered agents.
    pub fn agent_count(&self) -> (n: usize)
        ensures
            n == self@.len(),
    {
        self.agents.len()
    }

    /// Position of the agent `id`, if registered.
    fn find(&self, id: &String) -> (r: Option<usize>)
        ensures
            r is Some <==> has_agent(self@, id@),
            r matches Some(i) ==> i == agent_index(self@, id@) && i < self@.len(),
    {
        proof { use_type_invariant(self); }
        let n = self.agents.len();
        let mut i: usize = 0;
        while i < n
            invariant
                n == self.agents@.len(),
                0 <= i <= n,
                forall|j: int| 0 <= j < i ==> self@[j].agent_id != id@,
                unique_agent_ids(self@),
            decreases n - i,
        {
            assert(self@[i as int] == self.agents@[i as int]@);
            if self.agents[i].agent_id == *id {
                proof {
                    assert(has_agent(self@, id@));
                    let k = agent_index(self@, id@);
                    assert(self@[k].agent_id == id@);
                    assert(k == i as int);
                }
                return Some(i);
            }
            i += 1;
        }
        None
    }

    /// Whether agent `agent_id` is registered.
    pub fn agent_exists(&self, agent_id: &str) -> (r: bool)
        ensures
            r == has_agent(self@, agent_id@),
    {
        let id = agent_id.to_string();
        self.find(&id).is_some()
    }

    /// Gets the agent `agent_id`, if registered.
    pub fn get_agent(&self, agent_id: &str) -> (r: Option<&AgentInstance>)
        ensures
            r is Some <==> has_agent(self@, agent_id@),
            r matches Some(a) ==> a@ == self@[agent_index(self@, agent_id@)],
    {
        let id = agent_id.to_string();
        match self.find(&id) {
            Some(i) => Some(&self.agents[i]),
            None => None,
        }
    }

    /// Lists the ids of all agents, in registration order.
    pub fn list_agent_ids(&self) -> (ids: Vec<String>)
        ensures
            ids@.map_values(|s: String| s@) == agent_ids_of(self@),
    {
        let mut ids: Vec<String> = Vec::new();
        let n = self.agents.len();
        let mut i: usize = 0;
        while i < n
            invariant
                n == self.agents@.len(),
                0 <= i <= n,
                ids@.len() == i,
                forall|j: int| 0 <= j < i ==> #[trigger] ids@[j]@ == self@[j].agent_id,
            decreases n - i,
        {
            assert(self@[i as int] == self.agents@[i as int]@);
            ids.push(self.agents[i].agent_id.clone());
            i += 1;
        }
        assert(ids@.map_values(|s: String| s@) =~= agent_ids_of(self@));
        ids
    }

    /// Replaces the agent at position `i` by one with the same id.
    fn replace_at(&mut self, i: usize, a: AgentInstance)
        requires
            i < old(self)@.len(),
            a@.agent_id == old(self)@[i as int].agent_id,
        ensures
            final(self)@ == old(self)@.update(i as int, a@),
            final(self).path_view() == old(self).path_view(),
    {
        proof { use_type_invariant(&*self); }
        let ghost old_view = self@;
        let ghost av = a@;
        let mut agents: Vec<AgentInstance> = Vec::new();
        std::mem::swap(&mut agents, &mut self.agents);
        agents[i] = a;
        proof {
            let nv = agents@.map_values(|x: AgentInstance| x@);
            assert(nv =~= old_view.update(i as int, av));
            assert forall|p: int, q: int| 0 <= p < nv.len() && 0 <= q < nv.len() && p != q implies nv[p].agent_id != nv[q].agent_id by {
                assert(nv[p].agent_id == old_view[p].agent_id);
                assert(nv[q].agent_id == old_view[q].agent_id);
            }
        }
        self.agents = agents;
    }

    /// Registers an agent instance started at `now` on `hostname` as process `pid`.
    ///
    /// Refused with a state error about `agent_id` ("Agent already exists in
    /// registry"), changing nothing, when the id is taken.
    pub fn register_agent_at(&mut self, agent_id: String, agent_type: String, hostname: String, pid: u32, now: i64) -> (r: Result<()>)
        ensures
            r is Ok <==> register_agent_model(old(self)@, agent_id@, agent_type@, hostname@, pid, now) is Some,
            r is Ok ==> final(self)@ == register_agent_model(old(self)@, agent_id@, agent_type@, hostname@, pid, now)->0,
            r is Err ==> final(self)@ == old(self)@,
            r matches Err(e) ==> e matches AutomationError::StateError { task, message } && task@ == agent_id@
                && message@ == "Agent already exists in registry"@,
            final(self).path_view() == old(self).path_view(),
    {
        proof { use_type_invariant(&*self); }
        if self.find(&agent_id).is_some() {
            return Err(AutomationError::StateError {
                task: agent_id,
                message: "Agent already exists in registry".to_string(),
            });
        }
        let ghost old_view = self@;
        let ghost nv = old_view.push(new_agent_view(agent_id@, agent_type@, hostname@, pid, now));
        let mut agents: Vec<AgentInstance> = Vec::new();
        std::mem::swap(&mut agents, &mut self.agents);
        agents.push(AgentInstance::new_at(agent_id, agent_type, hostname, pid, now));
        assert(agents@.map_values(|x: AgentInstance| x@) =~= nv);
        self.agents = agents;
        Ok(())
    }

    /// Registers an agent instance started now; refused as
    /// [`AgentRegistry::register_agent_at`] is.
    pub fn register_agent(&mut self, agent_id: String, agent_type: String, hostname: String, pid: u32) -> (r: Result<()>)
        ensures
            r is Ok <==> !has_agent(old(self)@, agent_id@),
            r is Ok ==> exists|now: i64| 0 <= now <= MAX_TIMESTAMP_MS
                && #[trigger] register_agent_model(old(self)@, agent_id@, agent_type@, hostname@, pid, now) == Some(final(self)@),
            r is Err ==> final(self)@ == old(self)@,
            r matches Err(e) ==> e matches AutomationError::StateError { task, message } && task@ == agent_id@
                && message@ == "Agent already exists in registry"@,
            final(self).path_view() == old(self).path_view(),
    {
        let now = now_millis();
        self.register_agent_at(agent_id, agent_type, hostname, pid, now)
    }

    /// Records a heartbeat for `agent_id` at `now`; a stale agent becomes active.
    /// Returns `false`, changing nothing, when the agent is not registered.
    pub fn update_heartbeat_at(&mut self, agent_id: &str, now: i64) -> (r: bool)
        ensures
            (final(self)@, r) == agent_heartbeat_model(old(self)@, agent_id@, now),
            final(self).path_view() == old(self).path_view(),
    {
        let id = agent_id.to_string();
        match self.find(&id) {
            Some(i) => {
                assert(self@[i as int] == self.agents@[i as int]@);
                let mut a = self.agents[i].clone();
                a.update_heartbeat_at(now);
                self.replace_at(i, a);
                true
            },
            None => false,
        }
    }

    /// Records a heartbeat for `agent_id` at the current time.
    pub fn update_heartbeat(&mut self, agent_id: &str) -> (r: Result<bool>)
        ensures
            r matches Ok(b) && exists|now: i64| 0 <= now <= MAX_TIMESTAMP_MS
                && #[trigger] agent_heartbeat_model(old(self)@, agent_id@, now) == (final(self)@, b),
            final(self).path_view() == old(self).path_view(),
    {
        let now = now_millis();
        Ok(self.update_heartbeat_at(agent_id, now))
    }

    /// Assigns task `task_id` to agent `agent_id`.
    ///
    /// Refused with a state error about `agent_id` ("Agent not found"), changing
    /// nothing, when the agent is not registered.
    pub fn assign_task(&mut self, agent_id: &str, task_id: &str) -> (r: Result<()>)
        ensures
            r is Ok <==> has_agent(old(self)@, agent_id@),
            r is Ok ==> final(self)@ == update_agent(old(self)@, agent_id@, assign_view(old(self)@[agent_index(old(self)@, agent_id@)], task_id@)),
            r matches Err(e) ==> final(self)@ == old(self)@ && agent_not_found(e, agent_id@),
            final(self).path_view() == old(self).path_view(),
    {
        let id = agent_id.to_string();
        match self.find(&id) {
            Some(i) => {
                assert(self@[i as int] == self.agents@[i as int]@);
                let mut a = self.agents[i].clone();
                a.assign_task(task_id);
                self.replace_at(i, a);
                Ok(())
            },
            None => Err(AutomationError::StateError { task: id, message: "Agent not found".to_string() }),
        }
    }

    /// Unassigns task `task_id` from agent `agent_id`; refused as
    /// [`AgentRegistry::assign_task`] is.
    pub fn unassign_task(&mut self, agent_id: &str, task_id: &str) -> (r: Result<()>)
        ensures
            r is Ok <==> has_agent(old(self)@, agent_id@),
            r is Ok ==> final(self)@ == update_agent(old(self)@, agent_id@, unassign_view(old(self)@[agent_index(old(self)@, agent_id@)], task_id@)),
            r matches Err(e) ==> final(self)@ == old(self)@ && agent_not_found(e, agent_id@),
            final(self).path_view() == old(self).path_view(),
    {
        let id = agent_id.to_string();
        match self.find(&id) {
            Some(i) => {
                assert(self@[i as int] == self.agents@[i as int]@);
                let mut a = self.agents[i].clone();
                a.unassign_task(task_id);
                self.replace_at(i, a);
                Ok(())
            },
            None => Err(AutomationError::StateError { task: id, message: "Agent not found".to_string() }),
        }
    }

    /// Marks agent `agent_id` as shut down; refused as
    /// [`AgentRegistry::assign_task`] is.
    pub fn mark_shutdown(&mut self, agent_id: &str) -> (r: Result<()>)
        ensures
            r is Ok <==> has_agent(old(self)@, agent_id@),
            r is Ok ==> final(self)@ == update_agent(old(self)@, agent_id@,
                AgentInstanceView { status: AgentStatus::Shutdown, ..old(self)@[agent_index(old(self)@, agent_id@)] }),
            r matches Err(e) ==> final(self)@ == old(self)@ && agent_not_found(e, agent_id@),
            final(self).path_view() == old(self).path_view(),
    {
        let id = agent_id.to_string();
        match self.find(&id) {
            Some(i) => {
                assert(self@[i as int] == self.agents@[i as int]@);
                let mut a = self.agents[i].clone();
                a.mark_shutdown();
                self.replace_at(i, a);
                Ok(())
            },
            None => Err(AutomationError::StateError { task: id, message: "Agent not found".to_string() }),
        }
    }
}

/// Selects agents of type `t`.
pub open spec fn type_pred(t: Seq<char>) -> spec_fn(AgentInstanceView) -> bool {
    |a: AgentInstanceView| a.agent_type == t
}

/// Selects active agents.
pub open spec fn active_pred() -> spec_fn(AgentInstanceView) -> bool {
    |a: AgentInstanceView| a.status == AgentStatus::Active
}

/// Statistics of agent `a` at `now`.
pub open spec fn stats_match(st: AgentStats, a: AgentInstanceView, now: int) -> bool {
    &&& st.agent_id@ == a.agent_id
    &&& st.agent_type@ == a.agent_type
    &&& st.uptime.ms() == elapsed_ms(a.started_at as int, now)
    &&& st.tasks_assigned == a.tasks_assigned.len()
    &&& st.last_heartbeat_age.ms() == elapsed_ms(a.last_heartbeat_at as int, now)
    &&& st.status == a.status
}

/// One more element of the prefix added to its filtered prefix.
proof fn lemma_take_filter_step<A>(s: Seq<A>, i: int, p: spec_fn(A) -> bool)
    requires
        0 <= i < s.len(),
    ensures
        s.take(i + 1).filter(p) == if p(s[i]) { s.take(i).filter(p).push(s[i]) } else { s.take(i).filter(p) },
{
    assert(s.take(i + 1) =~= s.take(i).push(s[i]));
    s.take(i).lemma_filter_push(s[i], p);
}

impl AgentRegistry {
    /// The agents of type `agent_type`, in registration order.
    pub fn get_agents_by_type(&self, agent_type: &str) -> (r: Vec<&AgentInstance>)
        ensures
            r@.map_values(|a: &AgentInstance| a@) == self@.filter(type_pred(agent_type@)),
    {
        let t = agent_type.to_string();
        let ghost p = type_pred(agent_type@);
        let mut out: Vec<&AgentInstance> = Vec::new();
        let n = self.agents.len();
        let mut i: usize = 0;
        while i < n
            invariant
                n == self.agents@.len(),
                n == self@.len(),
                0 <= i <= n,
                t@ == agent_type@,
                p == type_pred(agent_type@),
                out@.map_values(|a: &AgentInstance| a@) == self@.take(i as int).filter(p),
            decreases n - i,
        {
            assert(self@[i as int] == self.agents@[i as int]@);
            proof { lemma_take_filter_step(self@, i as int, p); }
            if self.agents[i].agent_type == t {
                let ghost before = out@.map_values(|a: &AgentInstance| a@);
                out.push(&self.agents[i]);
                assert(out@.map_values(|a: &AgentInstance| a@) =~= before.push(self@[i as int]));
            }
            i += 1;
        }
        assert(self@.take(n as int) =~= self@);
        out
    }

    /// The active agents, in registration order.
    pub fn get_active_agents(&self) -> (r: Vec<&AgentInstance>)
        ensures
            r@.map_values(|a: &AgentInstance| a@) == self@.filter(active_pred()),
    {
        let ghost p = active_pred();
        let mut out: Vec<&AgentInstance> = Vec::new();
        let n = self.agents.len();
        let mut i: usize = 0;
        while i < n
            invariant
                n == self.agents@.len(),
                n == self@.len(),
                0 <= i <= n,
                p == active_pred(),
                out@.map_values(|a: &AgentInstance| a@) == self@.take(i as int).filter(p),
            decreases n - i,
        {
            assert(self@[i as int] == self.agents@[i as int]@);
            proof { lemma_take_filter_step(self@, i as int, p); }
            if self.agents[i].status.is_active() {
                let ghost before = out@.map_values(|a: &AgentInstance| a@);
                out.push(&self.agents[i]);
                assert(out@.map_values(|a: &AgentInstance| a@) =~= before.push(self@[i as int]));
            }
            i += 1;
        }
        assert(self@.take(n as int) =~= self@);
        out
    }

    /// Marks active agents whose last heartbeat is more than `stale_threshold` before
    /// `now` as stale, and lists their ids in registration order.
    pub fn mark_stale_agents_at(&mut self, stale_threshold: Duration, now: i64) -> (r: Vec<String>)
        ensures
            final(self)@ == mark_stale_model(old(self)@, stale_threshold, now as int),
            r@.map_values(|s: String| s@) == agent_ids_of(old(self)@.filter(mark_stale_pred(stale_threshold, now as int))),
            final(self).path_view() == old(self).path_view(),
    {
        proof { use_type_invariant(&*self); }
        let ghost old_view = self@;
        let ghost p = mark_stale_pred(stale_threshold, now as int);
        let mut agents: Vec<AgentInstance> = Vec::new();
        std::mem::swap(&mut agents, &mut self.agents);
        assert(agents@.map_values(|x: AgentInstance| x@) == old_view);
        let mut ids: Vec<String> = Vec::new();
        let n = agents.len();
        let mut i: usize = 0;
        while i < n
            invariant
                n == agents@.len(),
                n == old_view.len(),
                0 <= i <= n,
                p == mark_stale_pred(stale_threshold, now as int),
                forall|j: int| 0 <= j < i ==> #[trigger] agents@[j]@ == (if p(old_view[j]) { AgentInstanceView { status: AgentStatus::Stale, ..old_view[j] } } else { old_view[j] }),
                forall|j: int| i <= j < n ==> #[trigger] agents@[j]@ == old_view[j],
                ids@.map_values(|s: String| s@) == agent_ids_of(old_view.take(i as int).filter(p)),
            decreases n - i,
        {
            assert(agents@[i as int]@ == old_view[i as int]);
            proof { lemma_take_filter_step(old_view, i as int, p); }
            if agents[i].status.is_active() && agents[i].is_heartbeat_stale_at(stale_threshold, now) {
                let ghost before = ids@.map_values(|s: String| s@);
                let ghost f = old_view.take(i as int).filter(p);
                ids.push(agents[i].agent_id.clone());
                assert(ids@.map_values(|s: String| s@) =~= before.push(old_view[i as int].agent_id));
                assert(agent_ids_of(f.push(old_view[i as int])) =~= agent_ids_of(f).push(old_view[i as int].agent_id));
                let mut a = agents[i].clone();
                a.mark_stale();
                agents[i] = a;
            }
            i += 1;
        }
        proof {
            assert(old_view.take(n as int) =~= old_view);
            let nv = agents@.map_values(|x: AgentInstance| x@);
            assert(nv =~= mark_stale_model(old_view, stale_threshold, now as int));
            assert forall|a: int, b: int| 0 <= a < nv.len() && 0 <= b < nv.len() && a != b implies nv[a].agent_id != nv[b].agent_id by {
                assert(nv[a].agent_id == old_view[a].agent_id);
                assert(nv[b].agent_id == old_view[b].agent_id);
            }
        }
        self.agents = agents;
        ids
    }

    /// Marks active agents with stale heartbeats as stale, by the system clock.
    pub fn mark_stale_agents(&mut self, stale_threshold: Duration) -> (r: Result<Vec<String>>)
        ensures
            r matches Ok(ids) && exists|now: i64| 0 <= now <= MAX_TIMESTAMP_MS
                && #[trigger] mark_stale_model(old(self)@, stale_threshold, now as int) == final(self)@
                && ids@.map_values(|s: String| s@) == agent_ids_of(old(self)@.filter(mark_stale_pred(stale_threshold, now as int))),
            final(self).path_view() == old(self).path_view(),
    {
        let now = now_millis();
        Ok(self.mark_stale_agents_at(stale_threshold, now))
    }

    /// Removes the agents with `status` whose last heartbeat is not after `cutoff`,
    /// returning their ids in registration order.
    fn remove_old(&mut self, status: AgentStatus, cutoff: i64) -> (r: Vec<String>)
        ensures
            final(self)@ == old(self)@.filter(retain_pred(status, cutoff as int)),
            r@.map_values(|s: String| s@) == agent_ids_of(old(self)@.filter(remove_pred(status, cutoff as int))),
            final(self).path_view() == old(self).path_view(),
    {
        proof { use_type_invariant(&*self); }
        let ghost old_view = self@;
        let ghost keep = retain_pred(status, cutoff as int);
        let ghost drop = remove_pred(status, cutoff as int);
        let mut agents: Vec<AgentInstance> = Vec::new();
        std::mem::swap(&mut agents, &mut self.agents);
        assert(agents@.map_values(|x: AgentInstance| x@) == old_view);
        let mut kept: Vec<AgentInstance> = Vec::new();
        let mut removed: Vec<String> = Vec::new();
        let n = agents.len();
        let mut i: usize = 0;
        while i < n
            invariant
                n == agents@.len(),
                n == old_view.len(),
                0 <= i <= n,
                unique_agent_ids(old_view),
                keep == retain_pred(status, cutoff as int),
                drop == remove_pred(status, cutoff as int),
                forall|j: int| 0 <= j < n ==> #[trigger] agents@[j]@ == old_view[j],
                kept@.map_values(|x: AgentInstance| x@) == old_view.take(i as int).filter(keep),
                removed@.map_values(|s: String| s@) == agent_ids_of(old_view.take(i as int).filter(drop)),
                unique_agent_ids(kept@.map_values(|x: AgentInstance| x@)),
                forall|a: int| 0 <= a < kept@.len() ==> exists|k: int| 0 <= k < i && #[trigger] kept@[a]@.agent_id == old_view[k].agent_id,
            decreases n - i,
        {
            proof {
                lemma_take_filter_step(old_view, i as int, keep);
                lemma_take_filter_step(old_view, i as int, drop);
            }
            assert(agents@[i as int]@ == old_view[i as int]);
            let gone = agents[i].status == status && agents[i].last_heartbeat_at <= cutoff;
            assert(gone == drop(old_view[i as int]));
            assert(!gone == keep(old_view[i as int]));
            if gone {
                let ghost before = removed@.map_values(|s: String| s@);
                let ghost f = old_view.take(i as int).filter(drop);
                removed.push(agents[i].agent_id.clone());
                assert(removed@.map_values(|s: String| s@) =~= before.push(old_view[i as int].agent_id));
                assert(agent_ids_of(f.push(old_view[i as int])) =~= agent_ids_of(f).push(old_view[i as int].agent_id));
            } else {
                let ghost kept_before = kept@;
                let ghost kv0 = kept@.map_values(|x: AgentInstance| x@);
                kept.push(agents[i].clone());
                proof {
                    let kv = kept@.map_values(|x: AgentInstance| x@);
                    assert(kv =~= kv0.push(old_view[i as int]));
                    assert forall|a: int| 0 <= a < kept@.len() implies exists|k: int| 0 <= k < i + 1 && #[trigger] kept@[a]@.agent_id == old_view[k].agent_id by {
                        if a < kept@.len() - 1 {
                            assert(kept@[a] == kept_before[a]);
                        } else {
                            assert(kept@[a]@.agent_id == old_view[i as int].agent_id);
                        }
                    }
                    assert forall|a: int, b: int| 0 <= a < kv.len() && 0 <= b < kv.len() && a != b implies kv[a].agent_id != kv[b].agent_id by {
                        if a == kv.len() - 1 && b < kv.len() - 1 {
                            assert(kept@[b]@.agent_id == kv[b].agent_id);
                            let k = choose|k: int| 0 <= k < i && #[trigger] kept@[b]@.agent_id == old_view[k].agent_id;
                        } else if b == kv.len() - 1 && a < kv.len() - 1 {
                            assert(kept@[a]@.agent_id == kv[a].agent_id);
                            let k = choose|k: int| 0 <= k < i && #[trigger] kept@[a]@.agent_id == old_view[k].agent_id;
                        } else {
                            assert(kv[a] == kv0[a]);
                            assert(kv[b] == kv0[b]);
                        }
                    }
                }
            }
            i += 1;
        }
        assert(old_view.take(n as int) =~= old_view);
        self.agents = kept;
        removed
    }

    /// Removes stale agents whose last heartbeat is at least `older_than` before
    /// `now`, returning their ids in registration order.
    pub fn cleanup_stale_agents_at(&mut self, older_than: Duration, now: i64) -> (r: Vec<String>)
        requires
            window_fits(older_than, now as int),
        ensures
            final(self)@ == old(self)@.filter(retain_pred(AgentStatus::Stale, now - older_than.ms())),
            r@.map_values(|s: String| s@) == agent_ids_of(old(self)@.filter(remove_pred(AgentStatus::Stale, now - older_than.ms()))),
            final(self).path_view() == old(self).path_view(),
    {
        let cutoff = now - older_than.as_millis() as i64;
        self.remove_old(AgentStatus::Stale, cutoff)
    }

    /// Removes shut down agents whose last heartbeat is at least `older_than` before
    /// `now`, returning their ids in registration order.
    pub fn cleanup_shutdown_agents_at(&mut self, older_than: Duration, now: i64) -> (r: Vec<String>)
        requires
            window_fits(older_than, now as int),
        ensures
            final(self)@ == old(self)@.filter(retain_pred(AgentStatus::Shutdown, now - older_than.ms())),
            r@.map_values(|s: String| s@) == agent_ids_of(old(self)@.filter(remove_pred(AgentStatus::Shutdown, now - older_than.ms()))),
            final(self).path_view() == old(self).path_view(),
    {
        let cutoff = now - older_than.as_millis() as i64;
        self.remove_old(AgentStatus::Shutdown, cutoff)
    }

    /// Removes old stale agents, by the system clock.
    ///
    /// A state error, changing nothing, when `older_than` reaches back past the
    /// earliest representable instant.
    pub fn cleanup_stale_agents(&mut self, older_than: Duration) -> (r: Result<Vec<String>>)
        ensures
            exists|now: i64| {
                &&& 0 <= now <= MAX_TIMESTAMP_MS
                &&& #[trigger] window_fits(older_than, now as int) ==> (r matches Ok(ids)
                    && final(self)@ == old(self)@.filter(retain_pred(AgentStatus::Stale, now - older_than.ms()))
                    && ids@.map_values(|s: String| s@) == agent_ids_of(old(self)@.filter(remove_pred(AgentStatus::Stale, now - older_than.ms()))))
                &&& !window_fits(older_than, now as int) ==> (r is Err && final(self)@ == old(self)@)
            },
            final(self).path_view() == old(self).path_view(),
    {
        let now = now_millis();
        if !window_ok(older_than, now) {
            return Err(AutomationError::StateError {
                task: "AgentRegistry".to_string(),
                message: "Cleanup window out of range".to_string(),
            });
        }
        Ok(self.cleanup_stale_agents_at(older_than, now))
    }

    /// Removes old shut down agents, by the system clock; refused as
    /// [`AgentRegistry::cleanup_stale_agents`] is.
    pub fn cleanup_shutdown_agents(&mut self, older_than: Duration) -> (r: Result<Vec<String>>)
        ensures
            exists|now: i64| {
                &&& 0 <= now <= MAX_TIMESTAMP_MS
                &&& #[trigger] window_fits(older_than, now as int) ==> (r matches Ok(ids)
                    && final(self)@ == old(self)@.filter(retain_pred(AgentStatus::Shutdown, now - older_than.ms()))
                    && ids@.map_values(|s: String| s@) == agent_ids_of(old(self)@.filter(remove_pred(AgentStatus::Shutdown, now - older_than.ms()))))
                &&& !window_fits(older_than, now as int) ==> (r is Err && final(self)@ == old(self)@)
            },
            final(self).path_view() == old(self).path_view(),
    {
        let now = now_millis();
        if !window_ok(older_than, now) {
            return Err(AutomationError::StateError {
                task: "AgentRegistry".to_string(),
                message: "Cleanup window out of range".to_string(),
            });
        }
        Ok(self.cleanup_shutdown_agents_at(older_than, now))
    }

    /// Statistics of agent `agent_id` at `now`, if registered.
    pub fn get_agent_stats_at(&self, agent_id: &str, now: i64) -> (r: Option<AgentStats>)
        ensures
            r is Some <==> has_agent(self@, agent_id@),
            r matches Some(st) ==> stats_match(st, self@[agent_index(self@, agent_id@)], now as int),
    {
        let id = agent_id.to_string();
        match self.find(&id) {
            Some(i) => {
                assert(self@[i as int] == self.agents@[i as int]@);
                let a = &self.agents[i];
                Some(AgentStats {
                    agent_id: a.agent_id.clone(),
                    agent_type: a.agent_type.clone(),
                    uptime: a.uptime_at(now),
                    tasks_assigned: a.tasks_assigned.len(),
                    last_heartbeat_age: a.last_heartbeat_age_at(now),
                    status: a.status,
                })
            },
            None => None,
        }
    }

    /// Statistics of agent `agent_id` by the system clock, if registered.
    pub fn get_agent_stats(&self, agent_id: &str) -> (r: Option<AgentStats>)
        ensures
            r is Some <==> has_agent(self@, agent_id@),
            r matches Some(st) ==> exists|now: i64| 0 <= now <= MAX_TIMESTAMP_MS
                && #[trigger] stats_match(st, self@[agent_index(self@, agent_id@)], now as int),
    {
        let now = now_millis();
        self.get_agent_stats_at(agent_id, now)
    }
}

/// Whether a cleanup window of `older_than` at `now` stays in range.
fn window_ok(older_than: Duration, now: i64) -> (r: bool)
    ensures
        r == window_fits(older_than, now as int),
{
    match delta_ms(older_than) {
        Some(ms) => (now as i128) - (ms as i128) >= MIN_TIMESTAMP_MS as i128,
        None => false,
    }
}

// ---------------------------------------------------------------------------
// Laws of the registry
// ---------------------------------------------------------------------------

/// A heartbeat brings a stale agent back to active, keeps an active one active, and
/// does not revive a shut down one.
pub proof fn law_heartbeat_revives(a: AgentInstanceView, now: i64)
    ensures
        heartbeat_view(a, now).status == (if a.status == AgentStatus::Shutdown { AgentStatus::Shutdown } else { AgentStatus::Active }),
        heartbeat_view(a, now).last_heartbeat_at == now,
{
}

/// Task assignment behaves as a set: assigning twice is the same as once, and after
/// unassigning, the task is not assigned (whatever was assigned before).
pub proof fn law_assignment_is_a_set(a: AgentInstanceView, task: Seq<char>)
    ensures
        assign_view(assign_view(a, task), task) == assign_view(a, task),
        assign_view(a, task).tasks_assigned.contains(task),
        !unassign_view(assign_view(a, task), task).tasks_assigned.contains(task),
{
    broadcast use vstd::seq_lib::group_filter_ensures;
    let b = assign_view(a, task);
    assert(b.tasks_assigned.contains(task)) by {
        if !a.tasks_assigned.contains(task) {
            assert(b.tasks_assigned[a.tasks_assigned.len() as int] == task);
        }
    }
    let f = b.tasks_assigned.filter(other_task_pred(task));
    if f.contains(task) {
        let k = choose|k: int| 0 <= k < f.len() && f[k] == task;
        assert(other_task_pred(task)(f[k]));
    }
}

/// Marking stale changes only active agents whose heartbeat is stale; all others,
/// shut down ones among them, keep their status.
pub proof fn law_mark_stale_only_active(s: Seq<AgentInstanceView>, threshold: Duration, now: int, j: int)
    requires
        0 <= j < s.len(),
    ensures
        mark_stale_model(s, threshold, now)[j] == (if s[j].status == AgentStatus::Active && agent_heartbeat_stale_at(s[j], threshold, now) {
            AgentInstanceView { status: AgentStatus::Stale, ..s[j] }
        } else {
            s[j]
        }),
{
}

/// Removing old agents of one status keeps every agent of another status, and
/// every agent of that status heard from after the cutoff.
pub proof fn law_removal_keeps_others(s: Seq<AgentInstanceView>, status: AgentStatus, cutoff: int, j: int)
    requires
        0 <= j < s.len(),
        s[j].status != status || s[j].last_heartbeat_at > cutoff,
    ensures
        s.filter(retain_pred(status, cutoff)).contains(s[j]),
{
    broadcast use vstd::seq_lib::group_filter_ensures;
    assert(retain_pred(status, cutoff)(s[j]));
}

} // verus!
