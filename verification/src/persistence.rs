//! Where state lives on disk: the names of state, lock and backup files, the
//! order in which backups are listed, and what a state file read from disk
//! becomes.
//!
//! Reading and writing the files, and taking the lock around it, are done by the
//! program around the library with the paths and values computed here.

use vstd::prelude::*;
use crate::error::{AutomationError, Result, state_error};
use crate::lock::{LockManager, DEFAULT_LOCK_TIMEOUT_SECS};
use crate::paths::{path_join, spec_path_join, file_name, parent, path_file_name, path_parent};
use crate::state::{TaskState, TaskStateView, TaskStatus, Mergeable, merged_task_state, default_task_state, task_early_termination_fits, task_early_termination_view, task_failure_view, task_success_fits, task_success_view};
use crate::text::{strip_suffix_or_keep, strip_suffix_or_self, starts_with, has_prefix};
use crate::sorting::{stably_sorted_desc, lemma_insert_keeps_stable, lemma_empty_is_stable};
use crate::time::{Duration, MAX_TIMESTAMP_MS, MIN_TIMESTAMP_MS, now_millis};

verus! {

/// Suffix of state file names.
pub const STATE_FILE_SUFFIX: &'static str = ".state.json";

/// Marker of backup file names.
pub const BACKUP_FILE_SUFFIX: &'static str = ".backup";

/// Format of the timestamp in backup file names.
pub const BACKUP_TIMESTAMP_FORMAT: &'static str = "%Y-%m-%dT%H:%M:%SZ";

/// The file of the state of `agent_type` in `state_dir`: `<agent_type>.state.json`.
pub open spec fn state_file_path_spec(state_dir: Seq<char>, agent_type: Seq<char>) -> Seq<char> {
    spec_path_join(state_dir, agent_type + ".state.json"@)
}

/// The state file of `agent_type` in `state_dir`.
pub fn get_state_file_path(state_dir: &str, agent_type: &str) -> (p: String)
    ensures
        p@ == state_file_path_spec(state_dir@, agent_type@),
{
    let mut name = agent_type.to_string();
    name.append(".state.json");
    path_join(state_dir, name.as_str())
}

/// The state file of the task `task_name` in `state_dir`.
pub fn get_task_state_file_path(state_dir: &str, task_name: &str) -> (p: String)
    ensures
        p@ == state_file_path_spec(state_dir@, task_name@),
{
    get_state_file_path(state_dir, task_name)
}

/// The lock file of a state file: `<agent type>.lock` beside it, the agent type
/// being the state file's name without `.state.json` (`state` when the path has
/// no file name, the current directory when it has no parent).
pub open spec fn lock_file_path_spec(state_file: Seq<char>) -> Seq<char> {
    let name = match path_file_name(state_file) {
        Some(n) => n,
        None => "state"@,
    };
    let dir = match path_parent(state_file) {
        Some(d) => d,
        None => "."@,
    };
    spec_path_join(dir, strip_suffix_or_self(name, ".state.json"@) + ".lock"@)
}

/// The lock file of the state file `state_file_path`.
pub fn lock_file_path_for_state(state_file_path: &str) -> (p: String)
    ensures
        p@ == lock_file_path_spec(state_file_path@),
{
    let name = match file_name(state_file_path) {
        Some(n) => n,
        None => "state".to_string(),
    };
    let mut agent_type = strip_suffix_or_keep(name.as_str(), STATE_FILE_SUFFIX);
    agent_type.append(".lock");
    let dir = match parent(state_file_path) {
        Some(d) => d,
        None => ".".to_string(),
    };
    path_join(dir.as_str(), agent_type.as_str())
}

/// The text that `chrono` gives for the UTC instant `ms` (milliseconds since the
/// epoch) formatted with `format`.
pub uninterp spec fn utc_formatted(ms: i64, format: Seq<char>) -> Seq<char>;

/// Formats the UTC instant `ms` with the backup timestamp format.
///
/// Calls `chrono::DateTime::<Utc>::from_timestamp_millis` and `format`; the text
/// is left to the name [`utc_formatted`]. Only [`BACKUP_TIMESTAMP_FORMAT`] is
/// admitted: chrono's `to_string` panics on a format with an invalid item, and
/// that format has none. Instants outside chrono's range are excluded too.
#[verifier::external_body]
pub(crate) fn format_utc(ms: i64, format: &str) -> (s: String)
    requires
        MIN_TIMESTAMP_MS <= ms <= MAX_TIMESTAMP_MS,
        format@ == BACKUP_TIMESTAMP_FORMAT@,
    ensures
        s@ == utc_formatted(ms, format@),
{
    chrono::DateTime::<chrono::Utc>::from_timestamp_millis(ms).unwrap().format(format).to_string()
}

/// The path `p` with its file name replaced by `name`, as
/// `Path::with_file_name` gives it.
pub uninterp spec fn path_with_file_name(p: Seq<char>, name: Seq<char>) -> Seq<char>;

/// Replaces the file name of `p` by `name`.
///
/// Calls `std::path::Path::with_file_name`; the resulting path is left to the
/// name [`path_with_file_name`].
#[verifier::external_body]
pub(crate) fn with_file_name(p: &str, name: &str) -> (r: String)
    ensures
        r@ == path_with_file_name(p@, name@),
{
    std::path::Path::new(p).with_file_name(name).to_string_lossy().to_string()
}

/// The name of the backup of a state file named `name` taken at `timestamp`:
/// `<name>.backup.<timestamp>.bak`.
pub open spec fn backup_name_spec(name: Seq<char>, timestamp: i64) -> Seq<char> {
    name + ".backup."@ + utc_formatted(timestamp, "%Y-%m-%dT%H:%M:%SZ"@) + ".bak"@
}

/// The backup of `state_file` taken at `timestamp`, beside it.
pub open spec fn backup_path_spec(state_file: Seq<char>, timestamp: i64) -> Seq<char> {
    let name = match path_file_name(state_file) {
        Some(n) => n,
        None => "state"@,
    };
    path_with_file_name(state_file, backup_name_spec(name, timestamp))
}

/// The path of the backup of `state_file_path` taken at `timestamp`.
pub fn get_backup_path(state_file_path: &str, timestamp: i64) -> (p: String)
    requires
        MIN_TIMESTAMP_MS <= timestamp <= MAX_TIMESTAMP_MS,
    ensures
        p@ == backup_path_spec(state_file_path@, timestamp),
{
    let mut name = match file_name(state_file_path) {
        Some(n) => n,
        None => "state".to_string(),
    };
    let stamp = format_utc(timestamp, BACKUP_TIMESTAMP_FORMAT);
    name.append(".backup.");
    name.append(stamp.as_str());
    name.append(".bak");
    with_file_name(state_file_path, name.as_str())
}

/// A file with a point in time: a backup and when it was written.
#[derive(Debug)]
pub struct TimedPath {
    pub path: String,
    pub time_ms: i64,
}

impl Clone for TimedPath {
    fn clone(&self) -> (r: Self)
        ensures
            r.path@ == self.path@,
            r.time_ms == self.time_ms,
    {
        TimedPath { path: self.path.clone(), time_ms: self.time_ms }
    }
}

/// The abstract value of a list of timed paths.
pub open spec fn timed_view(v: Seq<TimedPath>) -> Seq<(Seq<char>, i64)> {
    v.map_values(|t: TimedPath| (t.path@, t.time_ms))
}

/// Whether a list of timed paths runs from the newest to the oldest.
pub open spec fn newest_first(s: Seq<(Seq<char>, i64)>) -> bool {
    forall|i: int, j: int| 0 <= i < j < s.len() ==> s[i].1 >= s[j].1
}

/// The time of a timed path, by which backups are ordered.
pub open spec fn by_time() -> spec_fn((Seq<char>, i64)) -> int {
    |x: (Seq<char>, i64)| x.1 as int
}

/// Orders timed paths from the newest to the oldest; paths with the same time
/// keep their order.
pub fn sort_newest_first(v: Vec<TimedPath>) -> (r: Vec<TimedPath>)
    ensures
        stably_sorted_desc(timed_view(r@), timed_view(v@), by_time()),
        newest_first(timed_view(r@)),
        timed_view(r@).to_multiset() == timed_view(v@).to_multiset(),
{
    broadcast use vstd::seq_lib::group_to_multiset_ensures;
    let mut r: Vec<TimedPath> = Vec::new();
    let mut k: usize = 0;
    proof {
        lemma_empty_is_stable(by_time());
        assert(timed_view(r@) =~= Seq::<(Seq<char>, i64)>::empty());
        assert(timed_view(v@.subrange(0, 0)) =~= Seq::<(Seq<char>, i64)>::empty());
    }
    while k < v.len()
        invariant
            0 <= k <= v.len(),
            stably_sorted_desc(timed_view(r@), timed_view(v@.subrange(0, k as int)), by_time()),
            newest_first(timed_view(r@)),
            timed_view(r@).to_multiset() == timed_view(v@.subrange(0, k as int)).to_multiset(),
        decreases v.len() - k,
    {
        let x = v[k].clone();
        let t = x.time_ms;
        let mut p: usize = 0;
        while p < r.len() && r[p].time_ms >= t
            invariant
                0 <= p <= r.len(),
                forall|i: int| 0 <= i < p ==> r@[i].time_ms >= t,
            decreases r.len() - p,
        {
            p += 1;
        }
        let ghost before = r@;
        r.insert(p, x);
        proof {
            let xv = (x.path@, x.time_ms);
            assert(timed_view(r@) =~= timed_view(before).insert(p as int, xv));
            assert(p < before.len() ==> before[p as int].time_ms < t);
            assert forall|i: int, j: int| 0 <= i < j < timed_view(r@).len() implies
                timed_view(r@)[i].1 >= timed_view(r@)[j].1 by {
                if j < p {
                    assert(timed_view(before)[i].1 >= timed_view(before)[j].1);
                } else if j == p {
                    assert(before[i].time_ms >= t);
                } else if i < p {
                    assert(before[i].time_ms >= t);
                    assert(before[p as int].time_ms < t);
                    assert(timed_view(before)[p as int].1 >= timed_view(before)[j - 1].1);
                } else if i == p {
                    assert(before[p as int].time_ms < t);
                    assert(timed_view(before)[p as int].1 >= timed_view(before)[j - 1].1);
                } else {
                    assert(timed_view(before)[i - 1].1 >= timed_view(before)[j - 1].1);
                }
            }
            assert(v@.subrange(0, k + 1) =~= v@.subrange(0, k as int).push(v@[k as int]));
            assert(timed_view(v@.subrange(0, k + 1)) =~= timed_view(v@.subrange(0, k as int)).push(xv));
            vstd::seq_lib::to_multiset_insert(timed_view(before), p as int, xv);
            vstd::seq_lib::to_multiset_build(timed_view(v@.subrange(0, k as int)), xv);
            assert forall|i: int| 0 <= i < p implies by_time()(timed_view(before)[i]) >= by_time()(xv) by {
                assert(before[i].time_ms >= t);
            }
            lemma_insert_keeps_stable(timed_view(before), timed_view(v@.subrange(0, k as int)), by_time(), p as int, xv);
        }
        k += 1;
    }
    assert(v@.subrange(0, v.len() as int) =~= v@);
    r
}

/// A file found beside a state file, with its name and modification time.
#[derive(Debug)]
pub struct DirEntryInfo {
    pub path: String,
    pub file_name: String,
    pub modified_ms: i64,
}

/// The prefix of the names of the backups of a state file named `name`.
pub open spec fn backup_prefix(name: Seq<char>) -> Seq<char> {
    name + ".backup"@
}

/// The entries that are backups of a state file named `name`, as timed paths.
pub open spec fn backup_entries(entries: Seq<DirEntryInfo>, name: Seq<char>) -> Seq<(Seq<char>, i64)> {
    entries.filter(|e: DirEntryInfo| has_prefix(e.file_name@, backup_prefix(name)))
        .map_values(|e: DirEntryInfo| (e.path@, e.modified_ms))
}

/// Selects, among the entries of the directory of `state_file_path`, the backups
/// of that state file, newest first (backups of the same time in the order of the
/// entries). Fails with a state error when the path has no
/// parent directory or no file name.
pub fn select_backups(state_file_path: &str, entries: Vec<DirEntryInfo>) -> (r: Result<Vec<TimedPath>>)
    ensures
        match r {
            Ok(b) => {
                &&& path_parent(state_file_path@) is Some
                &&& path_file_name(state_file_path@) matches Some(name)
                &&& stably_sorted_desc(timed_view(b@), backup_entries(entries@, name), by_time())
                &&& newest_first(timed_view(b@))
                &&& timed_view(b@).to_multiset() == backup_entries(entries@, name).to_multiset()
            },
            Err(e) => {
                &&& path_parent(state_file_path@) is None || path_file_name(state_file_path@) is None
                &&& e matches AutomationError::StateError { task, .. } && task@ == "list_backups"@
            },
        },
{
    if parent(state_file_path).is_none() {
        return Err(state_error("list_backups", "state file has no parent directory"));
    }
    let name = match file_name(state_file_path) {
        Some(n) => n,
        None => return Err(state_error("list_backups", "state file has no file name")),
    };
    let mut prefix = name.clone();
    prefix.append(BACKUP_FILE_SUFFIX);
    let ghost pred = |e: DirEntryInfo| has_prefix(e.file_name@, backup_prefix(name@));
    let ghost f = |e: DirEntryInfo| (e.path@, e.modified_ms);
    let mut found: Vec<TimedPath> = Vec::new();
    let mut i: usize = 0;
    while i < entries.len()
        invariant
            0 <= i <= entries.len(),
            prefix@ == backup_prefix(name@),
            pred == (|e: DirEntryInfo| has_prefix(e.file_name@, backup_prefix(name@))),
            f == (|e: DirEntryInfo| (e.path@, e.modified_ms)),
            timed_view(found@) == entries@.subrange(0, i as int).filter(pred).map_values(f),
        decreases entries.len() - i,
    {
        let e = &entries[i];
        proof {
            entries@.subrange(0, i as int).lemma_filter_push(entries@[i as int], pred);
            assert(entries@.subrange(0, i + 1) =~= entries@.subrange(0, i as int).push(entries@[i as int]));
        }
        if starts_with(e.file_name.as_str(), prefix.as_str()) {
            let ghost before = found@;
            found.push(TimedPath { path: e.path.clone(), time_ms: e.modified_ms });
            assert(timed_view(found@) =~= timed_view(before).push(f(entries@[i as int])));
            assert(entries@.subrange(0, i + 1).filter(pred).map_values(f)
                =~= entries@.subrange(0, i as int).filter(pred).map_values(f).push(f(entries@[i as int])));
        }
        i += 1;
    }
    assert(entries@.subrange(0, entries.len() as int) =~= entries@);
    Ok(sort_newest_first(found))
}

/// The view of what a task state read from disk becomes (see
/// [`loaded_task_state`]).
pub open spec fn loaded_view(stored: Option<TaskState>) -> TaskStateView {
    match stored {
        Some(t) => merged_task_state(t@, default_task_state()),
        None => default_task_state(),
    }
}

/// What a task state read from disk becomes: the fields missing from it filled
/// from the default state; a task without a state file starts from the default.
pub fn loaded_task_state(stored: Option<TaskState>) -> (s: TaskState)
    ensures
        s@ == match stored {
            Some(t) => merged_task_state(t@, default_task_state()),
            None => default_task_state(),
        },
{
    match stored {
        Some(mut t) => {
            let d = TaskState::default();
            let _ = t.merge_from(&d);
            t
        },
        None => TaskState::default(),
    }
}

/// Where an agent's state is kept: the state directory, the state file in it, and
/// the lock taken around each access.
#[derive(Debug)]
pub struct StateManager {
    state_dir: String,
    state_file_path: String,
    lock_manager: LockManager,
}

impl Clone for StateManager {
    fn clone(&self) -> (r: Self)
        ensures
            r.state_dir()@ == self.state_dir()@,
            r.state_file_path()@ == self.state_file_path()@,
            r.lock_manager().lock_file_path@ == self.lock_manager().lock_file_path@,
            r.lock_manager().timeout == self.lock_manager().timeout,
    {
        StateManager {
            state_dir: self.state_dir.clone(),
            state_file_path: self.state_file_path.clone(),
            lock_manager: self.lock_manager.clone(),
        }
    }
}

impl StateManager {
    /// The state of `agent_type` in `state_dir`, locked with the default timeout
    /// of 30 seconds.
    pub fn new(state_dir: String, agent_type: &str) -> (m: Self)
        ensures
            m.state_dir()@ == state_dir@,
            m.state_file_path()@ == state_file_path_spec(state_dir@, agent_type@),
            m.lock_manager().lock_file_path@ == lock_file_path_spec(state_file_path_spec(state_dir@, agent_type@)),
            m.lock_manager().timeout.ms() == DEFAULT_LOCK_TIMEOUT_SECS * 1000,
    {
        Self::with_lock_timeout(state_dir, agent_type, Duration::from_secs(DEFAULT_LOCK_TIMEOUT_SECS))
    }

    /// The state of `agent_type` in `state_dir`, locked with `lock_timeout`.
    pub fn with_lock_timeout(state_dir: String, agent_type: &str, lock_timeout: Duration) -> (m: Self)
        ensures
            m.state_dir()@ == state_dir@,
            m.state_file_path()@ == state_file_path_spec(state_dir@, agent_type@),
            m.lock_manager().lock_file_path@ == lock_file_path_spec(state_file_path_spec(state_dir@, agent_type@)),
            m.lock_manager().timeout == lock_timeout,
    {
        let state_file_path = get_state_file_path(state_dir.as_str(), agent_type);
        let lock_path = lock_file_path_for_state(state_file_path.as_str());
        let lock_manager = LockManager::new(lock_path, lock_timeout);
        StateManager { state_dir, state_file_path, lock_manager }
    }

    /// The state directory.
    #[verifier::when_used_as_spec(spec_state_dir)]
    pub fn state_dir(&self) -> (d: &String)
        ensures
            d == self.spec_state_dir(),
    {
        &self.state_dir
    }

    /// The state directory.
    pub closed spec fn spec_state_dir(&self) -> &String {
        &self.state_dir
    }

    /// The state file.
    #[verifier::when_used_as_spec(spec_state_file_path)]
    pub fn state_file_path(&self) -> (p: &String)
        ensures
            p == self.spec_state_file_path(),
    {
        &self.state_file_path
    }

    /// The state file.
    pub closed spec fn spec_state_file_path(&self) -> &String {
        &self.state_file_path
    }

    /// The lock taken around each access to the state file.
    #[verifier::when_used_as_spec(spec_lock_manager)]
    pub fn lock_manager(&self) -> (l: &LockManager)
        ensures
            l == self.spec_lock_manager(),
    {
        &self.lock_manager
    }

    /// The lock taken around each access to the state file.
    pub closed spec fn spec_lock_manager(&self) -> &LockManager {
        &self.lock_manager
    }

    /// The state file of the task `task_name` in the state directory.
    pub fn task_state_path(&self, task_name: &str) -> (p: String)
        ensures
            p@ == state_file_path_spec(self.state_dir()@, task_name@),
    {
        get_task_state_file_path(self.state_dir.as_str(), task_name)
    }
    /// The task state to write when recording an early termination for
    /// `reason`, given the stored state (`None`: there is none).
    pub fn record_early_termination(&self, stored: Option<TaskState>, reason: &str) -> (s: TaskState)
        requires
            task_early_termination_fits(loaded_view(stored), None),
        ensures
            s@ == task_early_termination_view(loaded_view(stored), reason@, None),
    {
        let mut t = loaded_task_state(stored);
        t.record_early_termination(reason, None);
        t
    }

    /// The task state to write when recording a success at `now`, given the
    /// stored state.
    pub fn record_success_at(&self, stored: Option<TaskState>, now: i64) -> (s: TaskState)
        requires
            task_success_fits(loaded_view(stored), 0),
        ensures
            s@ == task_success_view(loaded_view(stored), now, 0),
    {
        let mut t = loaded_task_state(stored);
        t.record_success(now, 0);
        t
    }

    /// The task state to write when recording a success now, by the system clock.
    pub fn record_success(&self, stored: Option<TaskState>) -> (s: TaskState)
        requires
            task_success_fits(loaded_view(stored), 0),
        ensures
            exists|now: i64| 0 <= now <= MAX_TIMESTAMP_MS && s@ == #[trigger] task_success_view(loaded_view(stored), now, 0),
    {
        let now = now_millis();
        self.record_success_at(stored, now)
    }

    /// The task state to write when recording a failure with message `error`,
    /// stamped now, given the stored state.
    pub fn record_failure(&self, stored: Option<TaskState>, error: &str) -> (s: TaskState)
        requires
            loaded_view(stored).error_count < u64::MAX,
            loaded_view(stored).consecutive_failures < u64::MAX,
            loaded_view(stored).failed_terminations < u64::MAX,
        ensures
            s@.last_failure matches Some(t) && 0 <= t <= MAX_TIMESTAMP_MS,
            s@ == task_failure_view(loaded_view(stored), error@, s@.last_failure->0),
    {
        let mut t = loaded_task_state(stored);
        t.record_failure(error);
        t
    }

    /// The task state to write when resetting a task: the default state.
    pub fn reset_state(&self) -> (s: TaskState)
        ensures
            s@ == default_task_state(),
    {
        TaskState::default()
    }
}

/// A task state that was stored loads back as itself: merging with the default
/// state fills only fields that are missing, and the default has none to give.
pub proof fn law_stored_state_loads_back(t: TaskStateView)
    ensures
        merged_task_state(t, default_task_state()) == t,
{
}

/// After a reset, the task state read back is the default state, whatever was
/// stored before.
pub proof fn law_reset_reads_back_as_default(reset: TaskState)
    requires
        reset@ == default_task_state(),
    ensures
        loaded_view(Some(reset)) == default_task_state(),
{
    law_stored_state_loads_back(reset@);
}

/// Recording a failure with message `error` at `now` increases the error count,
/// the consecutive failures and the failed terminations by one, marks the task
/// failed with `error` as the last termination reason and `now` as the last
/// failure, and leaves every other field (the successful terminations among them)
/// as it was; the state read back after storing it is the same.
pub proof fn law_failure_is_recorded(s: TaskStateView, error: Seq<char>, now: i64)
    requires
        s.error_count < u64::MAX,
        s.consecutive_failures < u64::MAX,
        s.failed_terminations < u64::MAX,
    ensures
        ({
            let n = task_failure_view(s, error, now);
            &&& n.error_count == s.error_count + 1
            &&& n.consecutive_failures == s.consecutive_failures + 1
            &&& n.failed_terminations == s.failed_terminations + 1
            &&& n.status == TaskStatus::Failed
            &&& n.last_termination_reason == Some(error)
            &&& n.last_failure == Some(now)
            &&& n.successful_terminations == s.successful_terminations
            &&& n == (TaskStateView {
                error_count: n.error_count,
                consecutive_failures: n.consecutive_failures,
                failed_terminations: n.failed_terminations,
                status: TaskStatus::Failed,
                last_termination_reason: Some(error),
                last_failure: Some(now),
                ..s
            })
            &&& merged_task_state(n, default_task_state()) == n
        }),
{
    law_stored_state_loads_back(task_failure_view(s, error, now));
}

/// Recording an early termination for `reason` (untimed) increases the early
/// termination count by one, sets `reason` as the last termination reason, and
/// leaves every other field as it was; the state read back after storing it is
/// the same.
pub proof fn law_early_termination_is_recorded(s: TaskStateView, reason: Seq<char>)
    requires
        s.early_termination_count < u64::MAX,
    ensures
        ({
            let n = task_early_termination_view(s, reason, None);
            &&& n == (TaskStateView {
                early_termination_count: (s.early_termination_count + 1) as u64,
                last_termination_reason: Some(reason),
                ..s
            })
            &&& n.early_termination_count == s.early_termination_count + 1
            &&& merged_task_state(n, default_task_state()) == n
        }),
{
    law_stored_state_loads_back(task_early_termination_view(s, reason, None));
}

} // verus!
