//! Locks: the rules that decide when a file lock is stale, and task leases that
//! give one agent at a time the right to work on a task.
//!
//! Opening, locking and removing the files is done by the program around the
//! library; the decisions it takes on what it read are made here.

use vstd::prelude::*;
use crate::error::{AutomationError, Result, lock_error};
use crate::paths::{path_join, spec_path_join};
use crate::state::{LockData, LockInfo, LockInfoView, clone_opt};
use crate::task_registry::opt_str_view;
use crate::text::{str_eq, is_last_dot, lemma_last_dot_unique};
use crate::time::{Duration, spec_delta_ms, delta_ms, now_millis, MAX_TIMESTAMP_MS, MIN_TIMESTAMP_MS};

verus! {

/// Default timeout for lock acquisition, in seconds.
pub const DEFAULT_LOCK_TIMEOUT_SECS: u64 = 30;

/// Pause between two attempts to take a busy lock, in milliseconds.
pub const LOCK_RETRY_INTERVAL_MS: u64 = 100;

/// Default age, in seconds, after which a lock is stale.
pub const DEFAULT_STALE_TIMEOUT_SECS: u64 = 300;

/// Lease length, in milliseconds, used when a requested lease is longer than a
/// time delta can hold.
pub const FALLBACK_LEASE_MS: u64 = 300_000;

/// Thresholds and flags that decide when a lock is stale.
#[derive(Debug, Clone, Copy, PartialEq, Eq, Structural)]
pub struct LockCleanupConfig {
    /// Maximum age of a lock of this host before it is stale.
    pub stale_timeout: Duration,
    /// Maximum age of a lock of another host before it is stale.
    pub cross_host_timeout: Duration,
    /// Whether a lock whose process is gone is stale whatever its age.
    pub check_process_alive: bool,
}

impl Default for LockCleanupConfig {
    fn default() -> (c: Self)
        ensures
            c.stale_timeout.ms() == 300_000,
            c.cross_host_timeout.ms() == 60_000,
            c.check_process_alive,
    {
        LockCleanupConfig {
            stale_timeout: Duration::from_secs(300),
            cross_host_timeout: Duration::from_secs(60),
            check_process_alive: true,
        }
    }
}

/// Whether a lock is to be removed, and why.
#[derive(Debug)]
pub enum LockCleanupDecision {
    /// The lock is stale and is to be removed.
    Cleanup { reason: String },
    /// The lock is valid.
    Keep,
}

/// The reason of a decision to remove a lock, `None` for keeping it.
pub open spec fn decision_reason(d: LockCleanupDecision) -> Option<Seq<char>> {
    match d {
        LockCleanupDecision::Cleanup { reason } => Some(reason@),
        LockCleanupDecision::Keep => None,
    }
}

impl LockCleanupDecision {
    /// A decision to remove the lock for `reason`.
    pub fn cleanup(reason: &str) -> (d: Self)
        ensures
            decision_reason(d) == Some(reason@),
    {
        LockCleanupDecision::Cleanup { reason: reason.to_string() }
    }

    /// Whether the lock is to be removed.
    pub fn should_cleanup(&self) -> (b: bool)
        ensures
            b == (decision_reason(*self) is Some),
    {
        matches!(self, LockCleanupDecision::Cleanup { .. })
    }
}

/// The age of a lock acquired at `acquired_at` seen at `now`, in milliseconds; a
/// lock from the future has age zero.
pub open spec fn lock_age_ms(acquired_at: int, now: int) -> nat {
    if now >= acquired_at { (now - acquired_at) as nat } else { 0 }
}

/// The cleanup rules, in order: a lock without a process id is invalid; a lock
/// whose process is gone is stale (when liveness is checked); a lock older than
/// the stale timeout is stale; a lock of another host is stale once older than the
/// cross-host timeout and kept otherwise; a lock of this host that carries the
/// current process id and that this process does not hold comes from an earlier
/// run and is stale; any other lock is kept. `alive` is whether the lock's process
/// runs, `held_here` whether this process holds the lock now.
pub open spec fn cleanup_reason(
    info: LockInfoView,
    age_ms: nat,
    current_pid: u32,
    current_host: Seq<char>,
    config: LockCleanupConfig,
    alive: bool,
    held_here: bool,
) -> Option<Seq<char>> {
    match info.process_id {
        None => Some("no PID in lock info"@),
        Some(pid) => if config.check_process_alive && !alive {
            Some("process is not running"@)
        } else if age_ms > config.stale_timeout.ms() {
            Some("lock age exceeds threshold"@)
        } else if info.hostname != Some(current_host) {
            if age_ms > config.cross_host_timeout.ms() {
                Some("cross-host lock expired"@)
            } else {
                None
            }
        } else if pid == current_pid && !held_here {
            Some("stale lock from current process"@)
        } else {
            None
        },
    }
}

/// What a decision about a lock rests on.
pub struct LockEvaluationContext {
    pub lock_info: LockInfo,
    pub lock_age: Duration,
    pub current_pid: u32,
    pub current_hostname: String,
    pub config: LockCleanupConfig,
}

impl LockEvaluationContext {
    /// The context of `lock_info` seen at `now`.
    pub fn new_at(
        lock_info: LockInfo,
        current_pid: u32,
        current_hostname: String,
        config: LockCleanupConfig,
        now: i64,
    ) -> (c: Self)
        requires
            MIN_TIMESTAMP_MS <= lock_info.acquired_at <= MAX_TIMESTAMP_MS,
            0 <= now <= MAX_TIMESTAMP_MS,
        ensures
            c.lock_info@ == lock_info@,
            c.lock_age.ms() == lock_age_ms(lock_info.acquired_at as int, now as int),
            c.current_pid == current_pid,
            c.current_hostname@ == current_hostname@,
            c.config == config,
    {
        let age: u64 = if now >= lock_info.acquired_at {
            (now - lock_info.acquired_at) as u64
        } else {
            0
        };
        LockEvaluationContext {
            lock_info,
            lock_age: Duration::from_millis(age),
            current_pid,
            current_hostname,
            config,
        }
    }

    /// The context of `lock_info` seen now, by the system clock.
    pub fn new(
        lock_info: LockInfo,
        current_pid: u32,
        current_hostname: String,
        config: LockCleanupConfig,
    ) -> (c: Self)
        requires
            MIN_TIMESTAMP_MS <= lock_info.acquired_at <= MAX_TIMESTAMP_MS,
        ensures
            c.lock_info@ == lock_info@,
            exists|now: int| 0 <= now <= MAX_TIMESTAMP_MS
                && c.lock_age.ms() == #[trigger] lock_age_ms(lock_info.acquired_at as int, now),
            c.current_pid == current_pid,
            c.current_hostname@ == current_hostname@,
            c.config == config,
    {
        let now = now_millis();
        Self::new_at(lock_info, current_pid, current_hostname, config, now)
    }

    /// Applies the cleanup rules (see [`cleanup_reason`]); `process_alive` is
    /// whether the lock's process still runs, and is read only when the lock has a
    /// process id and the configuration asks for the check; `held_here` is whether
    /// this process holds the lock now.
    pub fn evaluate(&self, process_alive: bool, held_here: bool) -> (d: LockCleanupDecision)
        ensures
            decision_reason(d) == cleanup_reason(
                self.lock_info@,
                self.lock_age.ms(),
                self.current_pid,
                self.current_hostname@,
                self.config,
                process_alive,
                held_here,
            ),
    {
        let lock_pid = match self.lock_info.process_id {
            Some(pid) => pid,
            None => return LockCleanupDecision::cleanup("no PID in lock info"),
        };
        if self.config.check_process_alive && !process_alive {
            return LockCleanupDecision::cleanup("process is not running");
        }
        if self.lock_age.millis > self.config.stale_timeout.millis {
            return LockCleanupDecision::cleanup("lock age exceeds threshold");
        }
        let same_host = match &self.lock_info.hostname {
            Some(h) => str_eq(h.as_str(), self.current_hostname.as_str()),
            None => false,
        };
        if !same_host {
            if self.lock_age.millis > self.config.cross_host_timeout.millis {
                return LockCleanupDecision::cleanup("cross-host lock expired");
            }
            return LockCleanupDecision::Keep;
        }
        if lock_pid == self.current_pid && !held_here {
            return LockCleanupDecision::cleanup("stale lock from current process");
        }
        LockCleanupDecision::Keep
    }
}

/// The acquisition time that lock data in the older format gives: its timestamp
/// when a UTC date-time can hold it, else `now`.
pub open spec fn legacy_acquired_at(timestamp: Option<i64>, now: i64) -> i64 {
    match timestamp {
        Some(t) => if MIN_TIMESTAMP_MS <= t <= MAX_TIMESTAMP_MS { t } else { now },
        None => now,
    }
}

/// Lock information read from lock data in the older format, at `now`.
pub fn lock_info_from_legacy_at(data: LockData, now: i64) -> (l: LockInfo)
    ensures
        l@ == (LockInfoView {
            acquired_at: legacy_acquired_at(data.timestamp, now),
            process_id: data.pid,
            hostname: opt_str_view(data.host),
        }),
{
    let acquired_at = match data.timestamp {
        Some(t) => if MIN_TIMESTAMP_MS <= t && t <= MAX_TIMESTAMP_MS { t } else { now },
        None => now,
    };
    LockInfo { acquired_at, process_id: data.pid, hostname: data.host }
}

/// A file lock on one path, taken with a timeout.
#[derive(Debug)]
pub struct LockManager {
    /// Path of the lock file.
    pub lock_file_path: String,
    /// How long to wait for the lock.
    pub timeout: Duration,
}

impl Clone for LockManager {
    fn clone(&self) -> (r: Self)
        ensures
            r.lock_file_path@ == self.lock_file_path@,
            r.timeout == self.timeout,
    {
        LockManager { lock_file_path: self.lock_file_path.clone(), timeout: self.timeout }
    }
}

impl LockManager {
    /// A lock on `lock_file_path` that waits at most `timeout`.
    pub fn new(lock_file_path: String, timeout: Duration) -> (m: Self)
        ensures
            m.lock_file_path@ == lock_file_path@,
            m.timeout == timeout,
    {
        LockManager { lock_file_path, timeout }
    }

    /// A lock on `lock_file_path` that waits at most 30 seconds.
    pub fn new_default(lock_file_path: String) -> (m: Self)
        ensures
            m.lock_file_path@ == lock_file_path@,
            m.timeout.ms() == DEFAULT_LOCK_TIMEOUT_SECS * 1000,
    {
        LockManager::new(lock_file_path, Duration::from_secs(DEFAULT_LOCK_TIMEOUT_SECS))
    }

    /// What follows an attempt that found the lock busy after `elapsed` of
    /// waiting: once `elapsed` reaches the timeout, a timeout error on the lock
    /// file's path; before that, the pause until the next attempt.
    pub fn after_busy_attempt(&self, elapsed: Duration) -> (r: Result<Duration>)
        ensures
            elapsed.ms() >= self.timeout.ms() <==> r is Err,
            r matches Ok(d) ==> d.ms() == LOCK_RETRY_INTERVAL_MS,
            r matches Err(e) ==> e matches AutomationError::LockTimeout { task, timeout }
                && task@ == self.lock_file_path@ && timeout == self.timeout.ms(),
    {
        if elapsed.millis >= self.timeout.millis {
            Err(AutomationError::LockTimeout { task: self.lock_file_path.clone(), timeout: self.timeout.millis })
        } else {
            Ok(Duration::from_millis(LOCK_RETRY_INTERVAL_MS))
        }
    }

    /// Decides, at `now`, whether the lock file is stale and is to be removed,
    /// given what was found: `None` when there is no lock file (nothing to do),
    /// `Some(None)` when its lock information could not be read (it is removed),
    /// `Some(Some(info))` otherwise, judged by the cleanup rules of `config` with
    /// `stale_timeout` in place of its own. `process_alive` is whether the lock's
    /// process runs, `held_here` whether this process holds the lock now.
    pub fn cleanup_stale_lock_with_config(
        &self,
        stale_timeout: Duration,
        config: LockCleanupConfig,
        lock_file: Option<Option<LockInfo>>,
        current_pid: u32,
        current_hostname: String,
        process_alive: bool,
        held_here: bool,
        now: i64,
    ) -> (cleaned: bool)
        requires
            lock_file matches Some(Some(l)) ==> MIN_TIMESTAMP_MS <= l.acquired_at <= MAX_TIMESTAMP_MS,
            0 <= now <= MAX_TIMESTAMP_MS,
        ensures
            cleaned == match lock_file {
                None => false,
                Some(None) => true,
                Some(Some(l)) => cleanup_reason(
                    l@,
                    lock_age_ms(l.acquired_at as int, now as int),
                    current_pid,
                    current_hostname@,
                    LockCleanupConfig { stale_timeout, ..config },
                    process_alive,
                    held_here,
                ) is Some,
            },
    {
        match lock_file {
            None => false,
            Some(None) => true,
            Some(Some(l)) => {
                let full = LockCleanupConfig { stale_timeout, ..config };
                let ctx = LockEvaluationContext::new_at(l, current_pid, current_hostname, full, now);
                ctx.evaluate(process_alive, held_here).should_cleanup()
            },
        }
    }

    /// Decides whether the lock file is stale with the default cleanup rules and
    /// `stale_timeout` (see [`LockManager::cleanup_stale_lock_with_config`]).
    pub fn cleanup_stale_lock(
        &self,
        stale_timeout: Duration,
        lock_file: Option<Option<LockInfo>>,
        current_pid: u32,
        current_hostname: String,
        process_alive: bool,
        held_here: bool,
        now: i64,
    ) -> (cleaned: bool)
        requires
            lock_file matches Some(Some(l)) ==> MIN_TIMESTAMP_MS <= l.acquired_at <= MAX_TIMESTAMP_MS,
            0 <= now <= MAX_TIMESTAMP_MS,
        ensures
            cleaned == match lock_file {
                None => false,
                Some(None) => true,
                Some(Some(l)) => cleanup_reason(
                    l@,
                    lock_age_ms(l.acquired_at as int, now as int),
                    current_pid,
                    current_hostname@,
                    LockCleanupConfig {
                        stale_timeout,
                        cross_host_timeout: Duration { millis: 60_000 },
                        check_process_alive: true,
                    },
                    process_alive,
                    held_here,
                ) is Some,
            },
    {
        self.cleanup_stale_lock_with_config(
            stale_timeout,
            LockCleanupConfig::default(),
            lock_file,
            current_pid,
            current_hostname,
            process_alive,
            held_here,
            now,
        )
    }
}

/// The lease length, in milliseconds, that a requested duration gives: the
/// duration itself, or 300 seconds when it is longer than a time delta can hold.
pub open spec fn lease_length_ms(d: Duration) -> int {
    match spec_delta_ms(d) {
        Some(v) => v,
        None => FALLBACK_LEASE_MS as int,
    }
}

/// Whether a lease of `d` taken at `now` ends within what a UTC date-time holds.
pub open spec fn lease_fits(d: Duration, now: int) -> bool {
    0 <= now && now + lease_length_ms(d) <= MAX_TIMESTAMP_MS
}

fn lease_length(d: Duration) -> (ms: i64)
    ensures
        ms as int == lease_length_ms(d),
        ms >= 0,
{
    match delta_ms(d) {
        Some(v) => v,
        None => FALLBACK_LEASE_MS as i64,
    }
}

/// Whether a lease of length `d` taken at `now` ends within what a UTC date-time
/// holds (see [`lease_fits`]).
pub fn lease_fits_at(d: Duration, now: i64) -> (b: bool)
    ensures
        b == lease_fits(d, now as int),
{
    let len = lease_length(d);
    0 <= now && now <= MAX_TIMESTAMP_MS - len
}

/// Abstract value of a [`LeaseData`].
pub struct LeaseView {
    pub holder: Seq<char>,
    pub acquired_at: i64,
    pub expires_at: i64,
}

/// The lease that `holder` takes at `now` for `d`.
pub open spec fn new_lease_view(holder: Seq<char>, d: Duration, now: int) -> LeaseView {
    LeaseView { holder, acquired_at: now as i64, expires_at: (now + lease_length_ms(d)) as i64 }
}

/// A lease as stored in a lease file: who holds it, since when, until when.
#[derive(Debug)]
pub struct LeaseData {
    pub holder: String,
    pub acquired_at: i64,
    pub expires_at: i64,
}

impl View for LeaseData {
    type V = LeaseView;

    open spec fn view(&self) -> LeaseView {
        LeaseView { holder: self.holder@, acquired_at: self.acquired_at, expires_at: self.expires_at }
    }
}

impl Clone for LeaseData {
    fn clone(&self) -> (r: Self)
        ensures
            r@ == self@,
    {
        LeaseData { holder: self.holder.clone(), acquired_at: self.acquired_at, expires_at: self.expires_at }
    }
}

impl LeaseData {
    /// A lease for `holder` of length `lease_duration`, taken at `now`.
    pub fn new_at(holder: String, lease_duration: Duration, now: i64) -> (l: Self)
        requires
            lease_fits(lease_duration, now as int),
        ensures
            l@ == new_lease_view(holder@, lease_duration, now as int),
    {
        let len = lease_length(lease_duration);
        LeaseData { holder, acquired_at: now, expires_at: now + len }
    }

    /// Whether the lease has run out at `now`.
    pub fn is_expired_at(&self, now: i64) -> (b: bool)
        ensures
            b == (now > self.expires_at),
    {
        now > self.expires_at
    }

    /// Renews the lease at `now` for `lease_duration`.
    pub fn renew_at(&mut self, lease_duration: Duration, now: i64)
        requires
            lease_fits(lease_duration, now as int),
        ensures
            final(self)@ == new_lease_view(old(self)@.holder, lease_duration, now as int),
    {
        let len = lease_length(lease_duration);
        self.acquired_at = now;
        self.expires_at = now + len;
    }
}

/// Abstract value of a [`TaskLock`].
pub struct TaskLockView {
    pub lock_path: Seq<char>,
    pub holder: Option<Seq<char>>,
    pub acquired_at: Option<i64>,
    pub expires_at: Option<i64>,
}

/// Whether a lock has run out at `now`; a lock without an expiry counts as run out.
pub open spec fn task_lock_expired_at(l: TaskLockView, now: int) -> bool {
    match l.expires_at {
        Some(e) => now > e,
        None => true,
    }
}

/// The lock that a lease file at `path` describes.
pub open spec fn lock_of_lease(path: Seq<char>, lease: LeaseView) -> TaskLockView {
    TaskLockView {
        lock_path: path,
        holder: Some(lease.holder),
        acquired_at: Some(lease.acquired_at),
        expires_at: Some(lease.expires_at),
    }
}

/// The time left, in milliseconds, on a lock at `now`: `None` without an expiry,
/// zero once it has run out.
pub open spec fn remaining_at(l: TaskLockView, now: int) -> Option<int> {
    match l.expires_at {
        Some(e) => Some(if e > now { e - now } else { 0 }),
        None => None,
    }
}

/// The length in milliseconds of an optional span.
pub open spec fn opt_duration_ms(d: Option<Duration>) -> Option<int> {
    match d {
        Some(x) => Some(x.ms() as int),
        None => None,
    }
}

/// A task lock: the lease on a task, if any, and where it is stored.
#[derive(Debug)]
pub struct TaskLock {
    lock_path: String,
    lease_holder: Option<String>,
    lease_acquired_at: Option<i64>,
    lease_expires_at: Option<i64>,
}

impl View for TaskLock {
    type V = TaskLockView;

    closed spec fn view(&self) -> TaskLockView {
        TaskLockView {
            lock_path: self.lock_path@,
            holder: opt_str_view(self.lease_holder),
            acquired_at: self.lease_acquired_at,
            expires_at: self.lease_expires_at,
        }
    }
}

impl Clone for TaskLock {
    fn clone(&self) -> (r: Self)
        ensures
            r@ == self@,
    {
        TaskLock {
            lock_path: self.lock_path.clone(),
            lease_holder: clone_opt(&self.lease_holder),
            lease_acquired_at: self.lease_acquired_at,
            lease_expires_at: self.lease_expires_at,
        }
    }
}

impl TaskLock {
    /// A lock at `lock_path` with no lease.
    pub fn new(lock_path: String) -> (l: Self)
        ensures
            l@ == (TaskLockView { lock_path: lock_path@, holder: None, acquired_at: None, expires_at: None }),
    {
        TaskLock { lock_path, lease_holder: None, lease_acquired_at: None, lease_expires_at: None }
    }

    /// The lock that the lease `lease_data` stored at `lock_path` describes.
    pub fn from_lease_data(lock_path: String, lease_data: LeaseData) -> (l: Self)
        ensures
            l@ == lock_of_lease(lock_path@, lease_data@),
    {
        TaskLock {
            lock_path,
            lease_holder: Some(lease_data.holder),
            lease_acquired_at: Some(lease_data.acquired_at),
            lease_expires_at: Some(lease_data.expires_at),
        }
    }

    /// A lock at `lock_path` held by `holder` from `acquired_at` to `expires_at`.
    pub fn with_lease(lock_path: String, holder: String, acquired_at: i64, expires_at: i64) -> (l: Self)
        ensures
            l@ == (TaskLockView {
                lock_path: lock_path@,
                holder: Some(holder@),
                acquired_at: Some(acquired_at),
                expires_at: Some(expires_at),
            }),
    {
        TaskLock {
            lock_path,
            lease_holder: Some(holder),
            lease_acquired_at: Some(acquired_at),
            lease_expires_at: Some(expires_at),
        }
    }

    /// Where the lease is stored.
    pub fn path(&self) -> (p: &str)
        ensures
            p@ == self@.lock_path,
    {
        self.lock_path.as_str()
    }

    /// The agent holding the lease.
    pub fn holder(&self) -> (h: Option<&str>)
        ensures
            match h {
                Some(s) => self@.holder == Some(s@),
                None => self@.holder is None,
            },
    {
        match &self.lease_holder {
            Some(s) => Some(s.as_str()),
            None => None,
        }
    }

    /// When the lease was acquired.
    pub fn acquired_at(&self) -> (t: Option<i64>)
        ensures
            t == self@.acquired_at,
    {
        self.lease_acquired_at
    }

    /// When the lease runs out.
    pub fn expires_at(&self) -> (t: Option<i64>)
        ensures
            t == self@.expires_at,
    {
        self.lease_expires_at
    }

    /// Whether some agent holds the lease.
    pub fn is_held(&self) -> (b: bool)
        ensures
            b == (self@.holder is Some),
    {
        self.lease_holder.is_some()
    }

    /// Whether the lease has run out at `now`.
    pub fn is_expired_at(&self, now: i64) -> (b: bool)
        ensures
            b == task_lock_expired_at(self@, now as int),
    {
        match self.lease_expires_at {
            Some(e) => now > e,
            None => true,
        }
    }

    /// Whether the lease has run out, by the system clock.
    pub fn is_expired(&self) -> (b: bool)
        ensures
            exists|now: int| 0 <= now <= MAX_TIMESTAMP_MS && b == #[trigger] task_lock_expired_at(self@, now),
    {
        let now = now_millis();
        self.is_expired_at(now)
    }

    /// Whether `agent_id` holds the lease.
    pub fn holder_matches(&self, agent_id: &str) -> (b: bool)
        ensures
            b == (self@.holder == Some(agent_id@)),
    {
        match &self.lease_holder {
            Some(h) => str_eq(h.as_str(), agent_id),
            None => false,
        }
    }

    /// The time left on the lease at `now`: zero once it has run out, `None`
    /// without an expiry.
    pub fn remaining_duration_at(&self, now: i64) -> (r: Option<Duration>)
        ensures
            opt_duration_ms(r) == remaining_at(self@, now as int),
    {
        match self.lease_expires_at {
            None => None,
            Some(e) => {
                if e > now {
                    let diff: i128 = (e as i128) - (now as i128);
                    Some(Duration::from_millis(diff as u64))
                } else {
                    Some(Duration::zero())
                }
            },
        }
    }

    /// The time left on the lease, by the system clock.
    pub fn remaining_duration(&self) -> (r: Option<Duration>)
        ensures
            exists|now: int| 0 <= now <= MAX_TIMESTAMP_MS && opt_duration_ms(r) == #[trigger] remaining_at(self@, now),
    {
        let now = now_millis();
        self.remaining_duration_at(now)
    }
}

impl Default for TaskLock {
    fn default() -> (l: Self)
        ensures
            l@.lock_path == ".state/tasks/locks/default.lease"@,
            l@.holder is None && l@.acquired_at is None && l@.expires_at is None,
    {
        TaskLock::new(".state/tasks/locks/default.lease".to_string())
    }
}

/// Whether an existing lock keeps `agent` from taking the task at `now`: it has
/// not run out and another agent (or nobody named) holds it.
pub open spec fn lock_refuses(existing: Option<TaskLockView>, agent: Seq<char>, now: int) -> bool {
    match existing {
        Some(l) => !task_lock_expired_at(l, now) && l.holder != Some(agent),
        None => false,
    }
}

/// The message of a refused acquisition.
pub open spec fn refusal_message(l: TaskLockView) -> Seq<char> {
    "Task is already locked by agent "@ + match l.holder {
        Some(h) => h,
        None => "unknown"@,
    }
}

/// The lease that an acquisition gives, or `None` when it is refused.
pub open spec fn acquire_model(existing: Option<TaskLockView>, agent: Seq<char>, d: Duration, now: int) -> Option<LeaseView> {
    if lock_refuses(existing, agent, now) { None } else { Some(new_lease_view(agent, d, now)) }
}

/// The lease after a renewal, or `None` when there is none or another agent
/// holds it.
pub open spec fn renew_model(existing: Option<LeaseView>, agent: Seq<char>, d: Duration, now: int) -> Option<LeaseView> {
    match existing {
        Some(l) => if l.holder == agent { Some(new_lease_view(agent, d, now)) } else { None },
        None => None,
    }
}

/// Whether `agent` may remove the lease: it exists and `agent` holds it.
pub open spec fn release_allowed_model(existing: Option<LeaseView>, agent: Seq<char>) -> bool {
    existing matches Some(l) && l.holder == agent
}

/// Whether a lock is in force at `now`: held and not run out.
pub open spec fn locked_model(existing: Option<TaskLockView>, now: int) -> bool {
    existing matches Some(l) && l.holder is Some && !task_lock_expired_at(l, now)
}

/// Splits a file name into stem and extension as `Path::file_stem` and
/// `Path::extension` do: at the last dot, unless there is none or it leads the
/// name, in which case the whole name is the stem.
pub open spec fn split_at_last_dot(name: Seq<char>) -> (Seq<char>, Option<Seq<char>>) {
    if exists|i: int| #[trigger] is_last_dot(name, i) && i > 0 {
        let i = choose|i: int| #[trigger] is_last_dot(name, i) && i > 0;
        (name.subrange(0, i), Some(name.subrange(i + 1, name.len() as int)))
    } else {
        (name, None)
    }
}

/// Splits a file name into stem and extension (see [`split_at_last_dot`]).
pub fn split_extension(name: &str) -> (r: (String, Option<String>))
    ensures
        r.0@ == split_at_last_dot(name@).0,
        opt_str_view(r.1) == split_at_last_dot(name@).1,
{
    let n = name.unicode_len();
    let mut i = n;
    while i > 0
        invariant
            n == name@.len(),
            0 <= i <= n,
            forall|j: int| i <= j < n ==> name@[j] != '.',
        decreases i,
    {
        if name.get_char(i - 1) == '.' {
            let k = i - 1;
            assert(is_last_dot(name@, k as int));
            if k == 0 {
                proof {
                    if exists|x: int| #[trigger] is_last_dot(name@, x) && x > 0 {
                        let x = choose|x: int| #[trigger] is_last_dot(name@, x) && x > 0;
                        lemma_last_dot_unique(name@, x, k as int);
                    }
                }
                return (name.to_string(), None);
            }
            proof {
                let x = choose|x: int| #[trigger] is_last_dot(name@, x) && x > 0;
                lemma_last_dot_unique(name@, x, k as int);
            }
            let stem = name.substring_char(0, k).to_string();
            let ext = name.substring_char(k + 1, n).to_string();
            return (stem, Some(ext));
        }
        i -= 1;
    }
    assert(!exists|x: int| #[trigger] is_last_dot(name@, x) && x > 0);
    (name.to_string(), None)
}

/// A lease is removed by the cleanup at `now` when it has run out and was taken
/// more than `older_than` before `now`.
pub open spec fn lease_removable(l: LeaseView, older_than: Duration, now: int) -> bool {
    now > l.expires_at && now - l.acquired_at > older_than.ms()
}

/// What the cleanup of run-out leases does with one file of the lease directory.
#[derive(Debug)]
pub enum LeaseEntryAction {
    /// Not a lease file: leave it.
    Skip,
    /// A lease that has run out: remove it; it was the lease of `task_id`.
    RemoveExpired { task_id: String },
    /// A lease file that could not be read: remove it.
    RemoveInvalid,
    /// A lease in force: leave it.
    Keep,
}

/// A set of task leases stored as files `<task id>.lease` in one directory.
#[derive(Debug)]
pub struct TaskLockManager {
    /// Directory of the lease files.
    pub base_dir: String,
}

impl Clone for TaskLockManager {
    fn clone(&self) -> (r: Self)
        ensures
            r.base_dir@ == self.base_dir@,
    {
        TaskLockManager { base_dir: self.base_dir.clone() }
    }
}

impl TaskLockManager {
    /// Default directory of the lease files.
    pub const DEFAULT_BASE_DIR: &'static str = ".state/tasks/locks";

    /// Default lease length, in seconds.
    pub const DEFAULT_LEASE_SECS: u64 = 300;

    /// Leases stored under `base_dir`.
    pub fn new(base_dir: String) -> (m: Self)
        ensures
            m.base_dir@ == base_dir@,
    {
        TaskLockManager { base_dir }
    }

    /// Leases stored under the default directory.
    pub fn new_default() -> (m: Self)
        ensures
            m.base_dir@ == ".state/tasks/locks"@,
    {
        TaskLockManager { base_dir: ".state/tasks/locks".to_string() }
    }

    /// Where the lease of `task_id` is stored.
    pub fn lease_path(&self, task_id: &str) -> (p: String)
        ensures
            p@ == spec_path_join(self.base_dir@, task_id@ + ".lease"@),
    {
        let mut name = task_id.to_string();
        name.append(".lease");
        path_join(self.base_dir.as_str(), name.as_str())
    }

    /// Decides an acquisition of `task_id` by `agent_id` at `now`, given the lock
    /// found for the task (`None`: none could be read): refused with a lock error
    /// naming the holder while a lease of another agent is in force; otherwise the
    /// new lease to store.
    pub fn acquire_lock_at(
        &self,
        existing: &Option<TaskLock>,
        task_id: &str,
        agent_id: &str,
        lease_duration: Duration,
        now: i64,
    ) -> (r: Result<LeaseData>)
        requires
            lease_fits(lease_duration, now as int),
        ensures
            match r {
                Ok(l) => acquire_model(opt_lock_view(*existing), agent_id@, lease_duration, now as int) == Some(l@),
                Err(e) => {
                    &&& acquire_model(opt_lock_view(*existing), agent_id@, lease_duration, now as int) is None
                    &&& e matches AutomationError::LockError { task, message }
                    &&& task@ == task_id@
                    &&& message@ == refusal_message(existing->0@)
                },
            },
    {
        if let Some(l) = existing {
            if !l.is_expired_at(now) && !l.holder_matches(agent_id) {
                let mut message = "Task is already locked by agent ".to_string();
                match l.holder() {
                    Some(h) => message.append(h),
                    None => message.append("unknown"),
                }
                return Err(AutomationError::LockError { task: task_id.to_string(), message });
            }
        }
        Ok(LeaseData::new_at(agent_id.to_string(), lease_duration, now))
    }

    /// Decides an acquisition by the system clock (see
    /// [`TaskLockManager::acquire_lock_at`]); a lease that would end beyond
    /// what a UTC date-time holds is refused with a lock error.
    pub fn acquire_lock(
        &self,
        existing: &Option<TaskLock>,
        task_id: &str,
        agent_id: &str,
        lease_duration: Duration,
    ) -> (r: Result<LeaseData>)
        ensures
            exists|now: int| {
                &&& 0 <= now <= MAX_TIMESTAMP_MS
                &&& #[trigger] lease_fits(lease_duration, now) ==> match r {
                    Ok(l) => acquire_model(opt_lock_view(*existing), agent_id@, lease_duration, now) == Some(l@),
                    Err(e) => acquire_model(opt_lock_view(*existing), agent_id@, lease_duration, now) is None,
                }
                &&& !lease_fits(lease_duration, now) ==> r is Err
            },
            r matches Ok(l) ==> l@.holder == agent_id@,
    {
        let now = now_millis();
        let len = lease_length(lease_duration);
        if now > MAX_TIMESTAMP_MS - len {
            assert(!lease_fits(lease_duration, now as int));
            return Err(lock_error(task_id, "lease duration out of range"));
        }
        assert(lease_fits(lease_duration, now as int));
        self.acquire_lock_at(existing, task_id, agent_id, lease_duration, now)
    }

    /// Decides a renewal at `now` of the stored lease `existing` by `agent_id`:
    /// `None` when there is no lease or another agent holds it, else the renewed
    /// lease to store.
    pub fn renew_lease(
        &self,
        existing: Option<LeaseData>,
        agent_id: &str,
        lease_duration: Duration,
        now: i64,
    ) -> (r: Option<LeaseData>)
        requires
            lease_fits(lease_duration, now as int),
        ensures
            opt_lease_view(r) == renew_model(opt_lease_view(existing), agent_id@, lease_duration, now as int),
    {
        match existing {
            Some(mut l) => {
                if !str_eq(l.holder.as_str(), agent_id) {
                    return None;
                }
                l.renew_at(lease_duration, now);
                Some(l)
            },
            None => None,
        }
    }

    /// Whether `agent_id` may release the stored lease `existing`.
    pub fn release_lock(&self, existing: &Option<LeaseData>, agent_id: &str) -> (b: bool)
        ensures
            b == release_allowed_model(opt_lease_view(*existing), agent_id@),
    {
        match existing {
            Some(l) => str_eq(l.holder.as_str(), agent_id),
            None => false,
        }
    }

    /// Whether the task is locked at `now`, given the lock found for it.
    pub fn is_locked(&self, existing: &Option<TaskLock>, now: i64) -> (b: bool)
        ensures
            b == locked_model(opt_lock_view(*existing), now as int),
    {
        match existing {
            Some(l) => l.is_held() && !l.is_expired_at(now),
            None => false,
        }
    }

    /// Decides, at `now`, about the file `file_name` of the lease directory whose
    /// content parsed as `lease` (`None`: it did not): files without the `lease`
    /// extension are left alone, unreadable leases are removed, leases that have
    /// run out and were taken more than `older_than` ago are removed and reported
    /// by the file's stem, and all other leases are kept.
    pub fn classify_lease_entry(&self, file_name: &str, lease: &Option<LeaseData>, older_than: Duration, now: i64) -> (a: LeaseEntryAction)
        ensures
            match a {
                LeaseEntryAction::Skip => split_at_last_dot(file_name@).1 != Some("lease"@),
                LeaseEntryAction::RemoveInvalid => {
                    &&& split_at_last_dot(file_name@).1 == Some("lease"@)
                    &&& lease is None
                },
                LeaseEntryAction::RemoveExpired { task_id } => {
                    &&& split_at_last_dot(file_name@).1 == Some("lease"@)
                    &&& lease matches Some(l) && lease_removable(l@, older_than, now as int)
                    &&& task_id@ == split_at_last_dot(file_name@).0
                },
                LeaseEntryAction::Keep => {
                    &&& split_at_last_dot(file_name@).1 == Some("lease"@)
                    &&& lease matches Some(l) && !lease_removable(l@, older_than, now as int)
                },
            },
    {
        let (stem, ext) = split_extension(file_name);
        let is_lease = match &ext {
            Some(e) => str_eq(e.as_str(), "lease"),
            None => false,
        };
        if !is_lease {
            return LeaseEntryAction::Skip;
        }
        match lease {
            None => LeaseEntryAction::RemoveInvalid,
            Some(l) => if l.is_expired_at(now) && (now as i128) - (l.acquired_at as i128) > older_than.millis as i128 {
                LeaseEntryAction::RemoveExpired { task_id: stem }
            } else {
                LeaseEntryAction::Keep
            },
        }
    }
}

/// The view of an optional lock.
pub open spec fn opt_lock_view(l: Option<TaskLock>) -> Option<TaskLockView> {
    match l {
        Some(x) => Some(x@),
        None => None,
    }
}

/// The view of an optional lease.
pub open spec fn opt_lease_view(l: Option<LeaseData>) -> Option<LeaseView> {
    match l {
        Some(x) => Some(x@),
        None => None,
    }
}


/// A lease in force excludes every other agent: once `agent` has acquired a
/// task, another agent's acquisition is refused until the lease runs out, while
/// the holder itself may acquire again.
pub proof fn law_lease_excludes_other_agents(
    existing: Option<TaskLockView>,
    agent: Seq<char>,
    other: Seq<char>,
    path: Seq<char>,
    d: Duration,
    d2: Duration,
    now: int,
    later: int,
)
    requires
        acquire_model(existing, agent, d, now) is Some,
        other != agent,
        later <= acquire_model(existing, agent, d, now)->0.expires_at,
    ensures
        acquire_model(Some(lock_of_lease(path, acquire_model(existing, agent, d, now)->0)), other, d2, later) is None,
        acquire_model(Some(lock_of_lease(path, acquire_model(existing, agent, d, now)->0)), agent, d2, later) is Some,
{
}

/// A task is locked from its acquisition until its lease runs out.
pub proof fn law_locked_while_lease_runs(
    existing: Option<TaskLockView>,
    agent: Seq<char>,
    path: Seq<char>,
    d: Duration,
    now: int,
    later: int,
)
    requires
        acquire_model(existing, agent, d, now) is Some,
        later <= acquire_model(existing, agent, d, now)->0.expires_at,
    ensures
        locked_model(Some(lock_of_lease(path, acquire_model(existing, agent, d, now)->0)), later),
{
}

/// Only the holder of a lease renews or releases it; a renewal keeps the holder
/// and runs the lease for the new length from the time of renewal.
pub proof fn law_only_holder_renews_or_releases(lease: LeaseView, agent: Seq<char>, d: Duration, now: int)
    ensures
        agent != lease.holder ==> renew_model(Some(lease), agent, d, now) is None,
        agent != lease.holder ==> !release_allowed_model(Some(lease), agent),
        release_allowed_model(Some(lease), lease.holder),
        renew_model(Some(lease), lease.holder, d, now) == Some(new_lease_view(lease.holder, d, now)),
{
}

} // verus!
