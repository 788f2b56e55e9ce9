//! Cleanup of state data: which backups to delete (beyond a count or an age),
//! when a state is old enough to be reset, which mistake records expire, and the
//! report of a cleanup pass.
//!
//! Deleting files and reading their sizes is done by the program around the
//! library, which follows the lists and counts computed here.

use vstd::prelude::*;
use crate::error::{AutomationError, Result, state_error};
use crate::lock::{LockManager, LockCleanupConfig, cleanup_reason, lock_age_ms};
use crate::state::LockInfo;
use crate::paths::{file_name, path_file_name};
use crate::persistence::{StateManager, TimedPath, timed_view, newest_first, sort_newest_first, lock_file_path_for_state, lock_file_path_spec, by_time};
use crate::sorting::stably_sorted_desc;
use crate::state::{State, StateView, fresh_mistake_pred};
use crate::text::{after_last_dot, text_after_last_dot, strip_suffix_or_keep, strip_suffix_or_self};
use crate::time::{Duration, spec_delta_ms, MAX_DELTA_MS, MAX_TIMESTAMP_MS, MIN_TIMESTAMP_MS, now_millis};

verus! {

/// Thresholds of a cleanup pass; an absent threshold disables that part.
#[derive(Debug, Clone, Copy, PartialEq, Eq, Structural)]
pub struct CleanupConfig {
    /// How many backups to keep, newest first.
    pub max_backups: Option<usize>,
    /// Age beyond which a backup is deleted.
    pub max_backup_age: Option<Duration>,
    /// Age of the last run beyond which the state is reset.
    pub max_state_age: Option<Duration>,
    /// Age beyond which a mistake record is deleted.
    pub max_mistake_age: Option<Duration>,
    /// Age beyond which a lock is stale.
    pub stale_lock_timeout: Option<Duration>,
}

impl Default for CleanupConfig {
    fn default() -> (c: Self)
        ensures
            c.max_backups is None,
            c.max_backup_age is None,
            c.max_state_age is None,
            c.max_mistake_age is None,
            c.stale_lock_timeout is None,
    {
        CleanupConfig {
            max_backups: None,
            max_backup_age: None,
            max_state_age: None,
            max_mistake_age: None,
            stale_lock_timeout: None,
        }
    }
}

/// The usual thresholds: 10 backups, backups of at most 7 days, a reset after 30
/// days without a run, mistakes kept 24 hours, locks stale after 5 minutes.
pub fn get_default_cleanup_config() -> (c: CleanupConfig)
    ensures
        c.max_backups == Some(10usize),
        c.max_backup_age matches Some(d) && d.ms() == 7 * 24 * 60 * 60 * 1000,
        c.max_state_age matches Some(d) && d.ms() == 30 * 24 * 60 * 60 * 1000,
        c.max_mistake_age matches Some(d) && d.ms() == 24 * 60 * 60 * 1000,
        c.stale_lock_timeout matches Some(d) && d.ms() == 5 * 60 * 1000,
{
    CleanupConfig {
        max_backups: Some(10),
        max_backup_age: Some(Duration::from_secs(7 * 24 * 60 * 60)),
        max_state_age: Some(Duration::from_secs(30 * 24 * 60 * 60)),
        max_mistake_age: Some(Duration::from_secs(24 * 60 * 60)),
        stale_lock_timeout: Some(Duration::from_secs(5 * 60)),
    }
}

/// What one part of a cleanup pass did.
#[derive(Debug, Clone, Copy, PartialEq, Eq, Structural)]
pub struct CleanupStats {
    /// Items deleted.
    pub items_removed: usize,
    /// Items kept.
    pub items_kept: usize,
    /// Bytes freed.
    pub space_freed_bytes: u64,
}

impl Default for CleanupStats {
    fn default() -> (s: Self)
        ensures
            s.items_removed == 0 && s.items_kept == 0 && s.space_freed_bytes == 0,
    {
        CleanupStats { items_removed: 0, items_kept: 0, space_freed_bytes: 0 }
    }
}

impl CleanupStats {
    /// Nothing deleted, nothing kept.
    pub fn new() -> (s: Self)
        ensures
            s.items_removed == 0 && s.items_kept == 0 && s.space_freed_bytes == 0,
    {
        Self::default()
    }

    /// Adds the counts of `other` to these.
    pub fn add(&mut self, other: &CleanupStats)
        requires
            old(self).items_removed + other.items_removed <= usize::MAX,
            old(self).items_kept + other.items_kept <= usize::MAX,
            old(self).space_freed_bytes + other.space_freed_bytes <= u64::MAX,
        ensures
            final(self).items_removed == old(self).items_removed + other.items_removed,
            final(self).items_kept == old(self).items_kept + other.items_kept,
            final(self).space_freed_bytes == old(self).space_freed_bytes + other.space_freed_bytes,
    {
        self.items_removed += other.items_removed;
        self.items_kept += other.items_kept;
        self.space_freed_bytes += other.space_freed_bytes;
    }

    /// Counts one deleted item of `bytes` bytes that had been counted as kept.
    pub fn record_removal(&mut self, bytes: u64)
        requires
            old(self).items_kept > 0,
            old(self).items_removed < usize::MAX,
            old(self).space_freed_bytes + bytes <= u64::MAX,
        ensures
            final(self).items_removed == old(self).items_removed + 1,
            final(self).items_kept == old(self).items_kept - 1,
            final(self).space_freed_bytes == old(self).space_freed_bytes + bytes,
    {
        self.items_removed += 1;
        self.items_kept -= 1;
        self.space_freed_bytes += bytes;
    }

    /// What cleaning a lock did: one item deleted when it was removed, one kept
    /// otherwise.
    pub fn for_lock(cleaned: bool) -> (s: Self)
        ensures
            s.items_removed == (if cleaned { 1usize } else { 0 }),
            s.items_kept == (if cleaned { 0usize } else { 1 }),
            s.space_freed_bytes == 0,
    {
        if cleaned {
            CleanupStats { items_removed: 1, items_kept: 0, space_freed_bytes: 0 }
        } else {
            CleanupStats { items_removed: 0, items_kept: 1, space_freed_bytes: 0 }
        }
    }
}

/// What a whole cleanup pass did.
#[derive(Debug, Clone, Copy, PartialEq, Eq, Structural)]
pub struct CleanupReport {
    pub backup_stats: CleanupStats,
    pub mistake_stats: CleanupStats,
    pub lock_stats: CleanupStats,
    /// Whether the state was reset.
    pub state_reset: bool,
    pub total_bytes_freed: u64,
}

impl CleanupReport {
    /// An empty report.
    pub fn new() -> (r: Self)
        ensures
            r.backup_stats == CleanupStats::spec_zero(),
            r.mistake_stats == CleanupStats::spec_zero(),
            r.lock_stats == CleanupStats::spec_zero(),
            !r.state_reset,
            r.total_bytes_freed == 0,
    {
        CleanupReport {
            backup_stats: CleanupStats::new(),
            mistake_stats: CleanupStats::new(),
            lock_stats: CleanupStats::new(),
            state_reset: false,
            total_bytes_freed: 0,
        }
    }

    /// The report of a pass whose parts gave `backups`, `mistakes` and `locks`, and
    /// whose state step did (`state_reset`) or did not reset the state; the bytes
    /// freed are the sum over the parts.
    pub fn assemble(
        backups: CleanupStats,
        mistakes: CleanupStats,
        locks: CleanupStats,
        state_reset: bool,
    ) -> (r: Self)
        requires
            backups.space_freed_bytes + mistakes.space_freed_bytes + locks.space_freed_bytes <= u64::MAX,
        ensures
            r.backup_stats == backups,
            r.mistake_stats == mistakes,
            r.lock_stats == locks,
            r.state_reset == state_reset,
            r.total_bytes_freed == backups.space_freed_bytes + mistakes.space_freed_bytes + locks.space_freed_bytes,
    {
        CleanupReport {
            backup_stats: backups,
            mistake_stats: mistakes,
            lock_stats: locks,
            state_reset,
            total_bytes_freed: backups.space_freed_bytes + mistakes.space_freed_bytes + locks.space_freed_bytes,
        }
    }
}

impl Default for CleanupReport {
    fn default() -> (r: Self)
        ensures
            r.backup_stats == CleanupStats::spec_zero(),
            r.mistake_stats == CleanupStats::spec_zero(),
            r.lock_stats == CleanupStats::spec_zero(),
            !r.state_reset,
            r.total_bytes_freed == 0,
    {
        Self::new()
    }
}

impl CleanupStats {
    /// The stats of a part that did nothing.
    pub open spec fn spec_zero() -> CleanupStats {
        CleanupStats { items_removed: 0, items_kept: 0, space_freed_bytes: 0 }
    }
}

/// The bytes a step freed, zero when it failed.
pub open spec fn ok_freed(r: Result<CleanupStats>) -> int {
    match r {
        Ok(x) => x.space_freed_bytes as int,
        Err(_) => 0,
    }
}

/// Whether a state whose last run was at `last_run` is older than `max_age` at
/// `now`; a state that never ran is never reset.
pub open spec fn state_too_old(last_run: Option<i64>, max_age: Duration, now: int) -> bool {
    match last_run {
        Some(t) => now - t > max_age.ms(),
        None => false,
    }
}

/// Whether the state is to be reset at `now` because its last run is older than
/// `max_age`.
pub fn should_cleanup_state_at(state: &State, max_age: Duration, now: i64) -> (b: bool)
    requires
        spec_delta_ms(max_age) is Some,
    ensures
        b == state_too_old(state@.last_run, max_age, now as int),
{
    match state.last_run {
        Some(t) => (now as i128) - (t as i128) > (max_age.millis as i128),
        None => false,
    }
}

/// Whether the state is to be reset now, by the system clock.
pub fn should_cleanup_state(state: &State, max_age: Duration) -> (b: bool)
    requires
        spec_delta_ms(max_age) is Some,
    ensures
        exists|now: int| 0 <= now <= MAX_TIMESTAMP_MS && b == #[trigger] state_too_old(state@.last_run, max_age, now),
{
    let now = now_millis();
    should_cleanup_state_at(state, max_age, now)
}

/// The instant (milliseconds since the epoch) that `chrono` parses from RFC 3339
/// text, or the text of its parse error.
pub uninterp spec fn rfc3339_parsed(s: Seq<char>) -> core::result::Result<i64, Seq<char>>;

/// Parses an RFC 3339 date-time.
///
/// Calls `chrono::DateTime::parse_from_rfc3339` and returns the instant in
/// milliseconds since the epoch, or the text of the parse error; both are left to
/// the name [`rfc3339_parsed`].
#[verifier::external_body]
pub(crate) fn parse_rfc3339_millis(s: &str) -> (r: core::result::Result<i64, String>)
    ensures
        match r {
            Ok(v) => rfc3339_parsed(s@) == Ok::<i64, Seq<char>>(v),
            Err(e) => rfc3339_parsed(s@) == Err::<i64, Seq<char>>(e@),
        },
{
    match chrono::DateTime::parse_from_rfc3339(s) {
        Ok(d) => Ok(d.timestamp_millis()),
        Err(e) => Err(e.to_string()),
    }
}

/// The text of a backup's file name `name` that holds its time: after the last
/// dot, once a trailing `.bak` is dropped (`<name>.backup.<time>.bak` and
/// `<name>.backup.<time>` both give `<time>`).
pub open spec fn backup_stamp_text(name: Seq<char>) -> Seq<char> {
    after_last_dot(strip_suffix_or_self(name, ".bak"@))
}

/// The instant a backup was taken, read from its file name (see
/// [`backup_stamp_text`]). Fails with a state error when the path has no file
/// name or that text is no RFC 3339 date-time.
pub fn backup_timestamp(backup_path: &str) -> (r: Result<i64>)
    ensures
        match path_file_name(backup_path@) {
            None => r matches Err(e) && e matches AutomationError::StateError { task, message }
                && task@ == "calculate_backup_age"@ && message@ == "Cannot extract filename from backup path"@,
            Some(name) => match rfc3339_parsed(backup_stamp_text(name)) {
                Ok(v) => r == Ok::<i64, AutomationError>(v),
                Err(pe) => r matches Err(e) && e matches AutomationError::StateError { task, message }
                    && task@ == "calculate_backup_age"@ && message@ == "Cannot parse backup timestamp: "@ + pe,
            },
        },
{
    let name = match file_name(backup_path) {
        Some(n) => n,
        None => return Err(state_error("calculate_backup_age", "Cannot extract filename from backup path")),
    };
    let kept = strip_suffix_or_keep(name.as_str(), ".bak");
    let stamp = text_after_last_dot(kept.as_str());
    match parse_rfc3339_millis(stamp.as_str()) {
        Ok(v) => Ok(v),
        Err(pe) => {
            let mut message = "Cannot parse backup timestamp: ".to_string();
            message.append(pe.as_str());
            Err(AutomationError::StateError { task: "calculate_backup_age".to_string(), message })
        },
    }
}

/// The paths of a list of timed paths.
pub open spec fn paths_of(s: Seq<(Seq<char>, i64)>) -> Seq<Seq<char>> {
    s.map_values(|x: (Seq<char>, i64)| x.0)
}

/// Whether a backup taken at `t` is older than `max_age` at `now`.
pub open spec fn backup_too_old(t: i64, max_age: Duration, now: int) -> bool {
    now - t > max_age.ms()
}

/// The backups to delete from `s` (newest first) at `now`: those beyond the
/// first `max_backups`, then those older than `max_backup_age`; `None` when the
/// age cannot be turned into a time delta.
pub open spec fn backups_to_remove(
    s: Seq<(Seq<char>, i64)>,
    max_backups: Option<usize>,
    max_backup_age: Option<Duration>,
    now: int,
) -> Option<Seq<Seq<char>>> {
    let by_count = match max_backups {
        Some(m) => if s.len() > m { paths_of(s.subrange(m as int, s.len() as int)) } else { Seq::empty() },
        None => Seq::empty(),
    };
    match max_backup_age {
        None => Some(by_count),
        Some(a) => if spec_delta_ms(a) is None {
            None
        } else {
            Some(by_count + paths_of(s.filter(|x: (Seq<char>, i64)| backup_too_old(x.1, a, now))))
        },
    }
}

/// Lists the backups to delete from `sorted` (newest first) at `now` (see
/// [`backups_to_remove`]); a backup age that no time delta holds is a
/// configuration error.
pub fn plan_backup_removal_at(
    sorted: &Vec<TimedPath>,
    max_backups: Option<usize>,
    max_backup_age: Option<Duration>,
    now: i64,
) -> (r: Result<Vec<String>>)
    requires
        newest_first(timed_view(sorted@)),
    ensures
        match backups_to_remove(timed_view(sorted@), max_backups, max_backup_age, now as int) {
            Some(p) => r matches Ok(v) && v@.map_values(|s: String| s@) == p,
            None => r matches Err(e) && e matches AutomationError::Config(m)
                && m@ == "Invalid max_backup_age: Source duration value is out of range for the target type"@,
        },
{
    let ghost s = timed_view(sorted@);
    let mut out: Vec<String> = Vec::new();
    if let Some(m) = max_backups {
        if sorted.len() > m {
            let mut i = m;
            while i < sorted.len()
                invariant
                    s == timed_view(sorted@),
                    m <= i <= sorted.len(),
                    out@.map_values(|x: String| x@) == paths_of(s.subrange(m as int, i as int)),
                decreases sorted.len() - i,
            {
                let ghost before = out@.map_values(|x: String| x@);
                out.push(sorted[i].path.clone());
                assert(s.subrange(m as int, i + 1) =~= s.subrange(m as int, i as int).push(s[i as int]));
                assert(out@.map_values(|x: String| x@) =~= before.push(s[i as int].0));
                assert(paths_of(s.subrange(m as int, i + 1)) =~= paths_of(s.subrange(m as int, i as int)).push(s[i as int].0));
                i += 1;
            }
        }
    }
    let ghost by_count = out@.map_values(|x: String| x@);
    assert(by_count =~= match max_backups {
        Some(m) => if s.len() > m { paths_of(s.subrange(m as int, s.len() as int)) } else { Seq::empty() },
        None => Seq::<Seq<char>>::empty(),
    });
    match max_backup_age {
        None => Ok(out),
        Some(a) => {
            if a.millis > MAX_DELTA_MS {
                return Err(AutomationError::Config(
                    "Invalid max_backup_age: Source duration value is out of range for the target type".to_string(),
                ));
            }
            let ghost p = |x: (Seq<char>, i64)| backup_too_old(x.1, a, now as int);
            let mut i: usize = 0;
            while i < sorted.len()
                invariant
                    s == timed_view(sorted@),
                    0 <= i <= sorted.len(),
                    p == (|x: (Seq<char>, i64)| backup_too_old(x.1, a, now as int)),
                    out@.map_values(|x: String| x@) == by_count + paths_of(s.take(i as int).filter(p)),
                decreases sorted.len() - i,
            {
                proof {
                    assert(s.take(i + 1) =~= s.take(i as int).push(s[i as int]));
                    s.take(i as int).lemma_filter_push(s[i as int], p);
                }
                let t = sorted[i].time_ms;
                assert(s[i as int].1 == t);
                if (now as i128) - (t as i128) > (a.millis as i128) {
                    let ghost before = out@.map_values(|x: String| x@);
                    out.push(sorted[i].path.clone());
                    assert(out@.map_values(|x: String| x@) =~= before.push(s[i as int].0));
                    assert(paths_of(s.take(i + 1).filter(p)) =~= paths_of(s.take(i as int).filter(p)).push(s[i as int].0));
                } else {
                    assert(paths_of(s.take(i + 1).filter(p)) =~= paths_of(s.take(i as int).filter(p)));
                }
                i += 1;
            }
            assert(s.take(sorted.len() as int) =~= s);
            Ok(out)
        },
    }
}

/// Sorts the backups newest first (backups of the same time in their given
/// order) and lists those to delete at `now`.
pub fn backups_to_remove_at(
    backups: Vec<TimedPath>,
    max_backups: Option<usize>,
    max_backup_age: Option<Duration>,
    now: i64,
) -> (r: Result<Vec<String>>)
    ensures
        exists|s: Seq<(Seq<char>, i64)>| {
            &&& stably_sorted_desc(s, timed_view(backups@), by_time())
            &&& newest_first(s)
            &&& s.to_multiset() == timed_view(backups@).to_multiset()
            &&& match #[trigger] backups_to_remove(s, max_backups, max_backup_age, now as int) {
                Some(p) => r matches Ok(v) && v@.map_values(|x: String| x@) == p,
                None => r is Err,
            }
        },
{
    let sorted = sort_newest_first(backups);
    let r = plan_backup_removal_at(&sorted, max_backups, max_backup_age, now);
    assert(backups_to_remove(timed_view(sorted@), max_backups, max_backup_age, now as int) is Some ==> r is Ok);
    r
}

/// Cleans the mistakes of `state` at `now`: removes those at least `max_age` old
/// and reports how many went and how many stay.
pub fn clean_mistakes_at(state: &mut State, max_age: Duration, now: i64) -> (s: CleanupStats)
    requires
        spec_delta_ms(max_age) is Some,
    ensures
        final(state)@ == (StateView { mistakes: old(state)@.mistakes.filter(fresh_mistake_pred(max_age, now as int)), ..old(state)@ }),
        s.items_removed == old(state)@.mistakes.len() - final(state)@.mistakes.len(),
        s.items_kept == final(state)@.mistakes.len(),
        s.space_freed_bytes == 0,
{
    let removed = state.clear_stale_mistakes_at(max_age, now);
    CleanupStats { items_removed: removed, items_kept: state.mistakes.len(), space_freed_bytes: 0 }
}

/// A cleanup pass over one agent's state.
#[derive(Debug)]
pub struct CleanupManager {
    state_manager: StateManager,
    config: CleanupConfig,
}

impl CleanupManager {
    /// A cleanup pass over the state of `state_manager` with `config`.
    pub fn new(state_manager: StateManager, config: CleanupConfig) -> (m: Self)
        ensures
            m.config() == config,
            m.state_manager().state_file_path()@ == state_manager.state_file_path()@,
            m.state_manager().state_dir()@ == state_manager.state_dir()@,
    {
        CleanupManager { state_manager, config }
    }

    /// The thresholds of the pass.
    #[verifier::when_used_as_spec(spec_config)]
    pub fn config(&self) -> (c: CleanupConfig)
        ensures
            c == self.spec_config(),
    {
        self.config
    }

    /// The thresholds of the pass.
    pub closed spec fn spec_config(&self) -> CleanupConfig {
        self.config
    }

    /// The state the pass cleans.
    #[verifier::when_used_as_spec(spec_state_manager)]
    pub fn state_manager(&self) -> (m: &StateManager)
        ensures
            m == self.spec_state_manager(),
    {
        &self.state_manager
    }

    /// The state the pass cleans.
    pub closed spec fn spec_state_manager(&self) -> &StateManager {
        &self.state_manager
    }

    /// The lock whose staleness the pass checks: the state file's lock, with the
    /// default timeout.
    pub fn state_lock(&self) -> (l: LockManager)
        ensures
            l.lock_file_path@ == lock_file_path_spec(self.state_manager().state_file_path()@),
            l.timeout.ms() == 30_000,
    {
        LockManager::new_default(lock_file_path_for_state(self.state_manager.state_file_path().as_str()))
    }

    /// The report of this pass from what its steps gave, in the order they run:
    /// the backup cleanup, the state reset (`Ok(true)` when it reset the state),
    /// the mistake cleanup and the lock cleanup. The first step that failed gives
    /// the error; when all succeeded, the report holds their results (see
    /// [`CleanupReport::assemble`]).
    pub fn cleanup_all(
        &self,
        backups: Result<CleanupStats>,
        state_reset: Result<bool>,
        mistakes: Result<CleanupStats>,
        locks: Result<CleanupStats>,
    ) -> (r: Result<CleanupReport>)
        requires
            ok_freed(backups) + ok_freed(mistakes) + ok_freed(locks) <= u64::MAX,
        ensures
            r is Ok <==> (backups is Ok && state_reset is Ok && mistakes is Ok && locks is Ok),
            backups matches Err(e) ==> r == Err::<CleanupReport, AutomationError>(e),
            backups is Ok ==> (state_reset matches Err(e) ==> r == Err::<CleanupReport, AutomationError>(e)),
            backups is Ok && state_reset is Ok ==> (mistakes matches Err(e) ==> r == Err::<CleanupReport, AutomationError>(e)),
            backups is Ok && state_reset is Ok && mistakes is Ok ==> (locks matches Err(e) ==> r == Err::<CleanupReport, AutomationError>(e)),
            r matches Ok(report) ==> {
                &&& report.backup_stats == backups->Ok_0
                &&& report.state_reset == state_reset->Ok_0
                &&& report.mistake_stats == mistakes->Ok_0
                &&& report.lock_stats == locks->Ok_0
                &&& report.total_bytes_freed == ok_freed(backups) + ok_freed(mistakes) + ok_freed(locks)
            },
    {
        let b = match backups {
            Ok(s) => s,
            Err(e) => return Err(e),
        };
        let reset = match state_reset {
            Ok(x) => x,
            Err(e) => return Err(e),
        };
        let m = match mistakes {
            Ok(s) => s,
            Err(e) => return Err(e),
        };
        let l = match locks {
            Ok(s) => s,
            Err(e) => return Err(e),
        };
        Ok(CleanupReport::assemble(b, m, l, reset))
    }

    /// The backups to delete at `now` under the pass's thresholds, from the
    /// backups whose time could be read (see [`backups_to_remove_at`]).
    pub fn cleanup_backups(&self, backups: Vec<TimedPath>, now: i64) -> (r: Result<Vec<String>>)
        ensures
            exists|s: Seq<(Seq<char>, i64)>| {
                &&& stably_sorted_desc(s, timed_view(backups@), by_time())
                &&& newest_first(s)
                &&& s.to_multiset() == timed_view(backups@).to_multiset()
                &&& match #[trigger] backups_to_remove(s, self.config().max_backups, self.config().max_backup_age, now as int) {
                    Some(p) => r matches Ok(v) && v@.map_values(|x: String| x@) == p,
                    None => r is Err,
                }
            },
    {
        backups_to_remove_at(backups, self.config.max_backups, self.config.max_backup_age, now)
    }

    /// Cleans the mistakes of the loaded `state` at `now` when the pass has a
    /// mistake age (see [`clean_mistakes_at`]); without one, nothing changes and
    /// nothing is counted.
    pub fn cleanup_mistakes(&self, state: &mut State, now: i64) -> (s: CleanupStats)
        requires
            self.config().max_mistake_age matches Some(a) ==> spec_delta_ms(a) is Some,
        ensures
            match self.config().max_mistake_age {
                None => final(state)@ == old(state)@ && s == CleanupStats::spec_zero(),
                Some(a) => {
                    &&& final(state)@ == (StateView { mistakes: old(state)@.mistakes.filter(fresh_mistake_pred(a, now as int)), ..old(state)@ })
                    &&& s.items_removed == old(state)@.mistakes.len() - final(state)@.mistakes.len()
                    &&& s.items_kept == final(state)@.mistakes.len()
                    &&& s.space_freed_bytes == 0
                },
            },
    {
        match self.config.max_mistake_age {
            None => CleanupStats::new(),
            Some(a) => clean_mistakes_at(state, a, now),
        }
    }

    /// What cleaning the state's lock does at `now` when the pass has a stale
    /// lock timeout, given what was found of the lock file (see
    /// [`LockManager::cleanup_stale_lock`]): one item removed when the lock is to
    /// be removed, one kept otherwise; without a timeout, nothing is counted.
    pub fn cleanup_stale_locks(
        &self,
        lock_file: Option<Option<LockInfo>>,
        current_pid: u32,
        current_hostname: String,
        process_alive: bool,
        held_here: bool,
        now: i64,
    ) -> (s: CleanupStats)
        requires
            lock_file matches Some(Some(l)) ==> MIN_TIMESTAMP_MS <= l.acquired_at <= MAX_TIMESTAMP_MS,
            0 <= now <= MAX_TIMESTAMP_MS,
        ensures
            match self.config().stale_lock_timeout {
                None => s == CleanupStats::spec_zero(),
                Some(t) => {
                    let cleaned = match lock_file {
                        None => false,
                        Some(None) => true,
                        Some(Some(l)) => cleanup_reason(
                            l@,
                            lock_age_ms(l.acquired_at as int, now as int),
                            current_pid,
                            current_hostname@,
                            LockCleanupConfig {
                                stale_timeout: t,
                                cross_host_timeout: Duration { millis: 60_000 },
                                check_process_alive: true,
                            },
                            process_alive,
                            held_here,
                        ) is Some,
                    };
                    &&& s.items_removed == (if cleaned { 1usize } else { 0 })
                    &&& s.items_kept == (if cleaned { 0usize } else { 1 })
                    &&& s.space_freed_bytes == 0
                },
            },
    {
        match self.config.stale_lock_timeout {
            None => CleanupStats::new(),
            Some(t) => {
                let lock = self.state_lock();
                let cleaned = lock.cleanup_stale_lock(t, lock_file, current_pid, current_hostname, process_alive, held_here, now);
                CleanupStats::for_lock(cleaned)
            },
        }
    }

    /// The lock cleanup configuration of the pass: the defaults.
    pub fn lock_cleanup_config(&self) -> (c: LockCleanupConfig)
        ensures
            c.stale_timeout.ms() == 300_000,
            c.cross_host_timeout.ms() == 60_000,
            c.check_process_alive,
    {
        LockCleanupConfig::default()
    }
}

/// Cleanup by age does not depend on the count limit: whenever the age limit is
/// a valid time delta, every backup older than it at `now` is among those to
/// delete, whatever `max_backups` says; and with a count limit `m`, every backup
/// past the `m` newest is too.
pub proof fn law_old_backups_are_removed(
    s: Seq<(Seq<char>, i64)>,
    max_backups: Option<usize>,
    a: Duration,
    now: int,
    i: int,
)
    requires
        a.ms() <= MAX_DELTA_MS,
        0 <= i < s.len(),
    ensures
        backups_to_remove(s, max_backups, Some(a), now) is Some,
        now - s[i].1 > a.ms() ==> backups_to_remove(s, max_backups, Some(a), now)->0.contains(s[i].0),
        (max_backups matches Some(m) && i >= m) ==> backups_to_remove(s, max_backups, Some(a), now)->0.contains(s[i].0),
{
    let p = |x: (Seq<char>, i64)| backup_too_old(x.1, a, now);
    let by_count = match max_backups {
        Some(m) => if s.len() > m { paths_of(s.subrange(m as int, s.len() as int)) } else { Seq::empty() },
        None => Seq::empty(),
    };
    let by_age = paths_of(s.filter(p));
    let r = backups_to_remove(s, max_backups, Some(a), now)->0;
    assert(r == by_count + by_age);
    if now - s[i].1 > a.ms() {
        s.lemma_filter_contains(p, i);
        let f = s.filter(p);
        let j = choose|j: int| 0 <= j < f.len() && f[j] == s[i];
        assert(by_age[j] == s[i].0);
        assert(r[by_count.len() + j] == s[i].0);
    }
    if max_backups matches Some(m) && i >= m {
        let m = max_backups->0;
        assert(s.len() > m);
        assert(by_count[i - m] == s[i].0);
        assert(r[i - m] == s[i].0);
    }
}

/// Cleanup deletes nothing else: every backup it lists is past the `m` newest
/// under a count limit `m`, or older than the age limit at `now`.
pub proof fn law_only_surplus_or_old_backups_are_removed(
    s: Seq<(Seq<char>, i64)>,
    max_backups: Option<usize>,
    max_backup_age: Option<Duration>,
    now: int,
    k: int,
)
    requires
        backups_to_remove(s, max_backups, max_backup_age, now) matches Some(r) && 0 <= k < r.len(),
    ensures
        exists|i: int| 0 <= i < s.len() && #[trigger] s[i].0 == backups_to_remove(s, max_backups, max_backup_age, now)->0[k]
            && ((max_backups matches Some(m) && i >= m)
                || (max_backup_age matches Some(a) && now - s[i].1 > a.ms())),
{
    let r = backups_to_remove(s, max_backups, max_backup_age, now)->0;
    let by_count = match max_backups {
        Some(m) => if s.len() > m { paths_of(s.subrange(m as int, s.len() as int)) } else { Seq::empty() },
        None => Seq::empty(),
    };
    if k < by_count.len() {
        let m = max_backups->0;
        match max_backup_age {
            None => assert(r == by_count),
            Some(a) => assert(r == by_count + paths_of(s.filter(|x: (Seq<char>, i64)| backup_too_old(x.1, a, now)))),
        }
        assert(r[k] == s[m + k].0);
        assert(s[m + k].0 == r[k]);
    } else {
        let a = max_backup_age->0;
        let p = |x: (Seq<char>, i64)| backup_too_old(x.1, a, now);
        let f = s.filter(p);
        assert(r == by_count + paths_of(f));
        let j = k - by_count.len();
        assert(r[k] == f[j].0);
        s.lemma_filter_pred(p, j);
        s.lemma_filter_contains_rev(p, f[j]);
        let i = choose|i: int| 0 <= i < s.len() && s[i] == f[j];
        assert(s[i].0 == r[k]);
    }
}

} // verus!
