//! Log cleanup: which log files are removed, and how the results of a
//! cleanup add up.
//!
//! A cleanup scans the application and test log directories. Each directory
//! entry goes through `CleanupResult::step`: the entry is listed, a log file's
//! metadata is read, a file older than the cutoff is removed, and every
//! failure is recorded with its reason.
use crate::config::Config;
use crate::logger::{APP_LOG_SUBDIR, DEFAULT_LOG_DIR, TEST_LOG_SUBDIR};
use crate::paths::{file_name, file_name_of, join, path_join};
use crate::text::{chars_of, concat2, contains, ends_with, find_chars, is_digit, occurs_at};
use vstd::prelude::*;

verus! {

/// Results of a log cleanup.
pub struct CleanupResult {
    /// Number of files removed.
    pub files_removed: usize,
    /// Total size in bytes of the files removed.
    pub bytes_removed: u64,
    /// Files that could not be removed, each with the reason.
    pub failed_files: Vec<(String, String)>,
}

/// The mathematical value of a `CleanupResult`.
pub struct CleanupTotals {
    pub files: nat,
    pub bytes: nat,
    pub failed: Seq<(Seq<char>, Seq<char>)>,
}

/// The value of a list of failures.
pub open spec fn failures_view(fs: Seq<(String, String)>) -> Seq<(Seq<char>, Seq<char>)> {
    fs.map_values(|p: (String, String)| (p.0@, p.1@))
}

impl View for CleanupResult {
    type V = CleanupTotals;

    open spec fn view(&self) -> CleanupTotals {
        CleanupTotals {
            files: self.files_removed as nat,
            bytes: self.bytes_removed as nat,
            failed: failures_view(self.failed_files@),
        }
    }
}

/// The result of a cleanup that did nothing.
pub open spec fn no_cleanup() -> CleanupTotals {
    CleanupTotals { files: 0, bytes: 0, failed: Seq::empty() }
}

/// Two cleanup results together: the counts added, the failures of `a`
/// followed by those of `b`.
pub open spec fn merged(a: CleanupTotals, b: CleanupTotals) -> CleanupTotals {
    CleanupTotals { files: a.files + b.files, bytes: a.bytes + b.bytes, failed: a.failed + b.failed }
}

impl Default for CleanupResult {
    fn default() -> (r: Self)
        ensures
            r@ == no_cleanup(),
    {
        let r = CleanupResult { files_removed: 0, bytes_removed: 0, failed_files: Vec::new() };
        assert(failures_view(r.failed_files@) =~= Seq::empty());
        r
    }
}

impl CleanupResult {
    /// A new, empty cleanup result.
    pub fn new() -> (r: Self)
        ensures
            r@ == no_cleanup(),
    {
        Self::default()
    }

    /// Adds the results of `other` to this one.
    pub fn merge(&mut self, other: CleanupResult)
        requires
            old(self).files_removed + other.files_removed <= usize::MAX,
            old(self).bytes_removed + other.bytes_removed <= u64::MAX,
        ensures
            final(self)@ == merged(old(self)@, other@),
    {
        let mut other = other;
        let ghost a = failures_view(self.failed_files@);
        let ghost b = failures_view(other.failed_files@);
        self.files_removed = self.files_removed + other.files_removed;
        self.bytes_removed = self.bytes_removed + other.bytes_removed;
        self.failed_files.append(&mut other.failed_files);
        assert(failures_view(self.failed_files@) =~= a + b);
    }
}

/// Merging with an empty result changes nothing, on either side.
pub proof fn lemma_merge_identity(a: CleanupTotals)
    ensures
        merged(a, no_cleanup()) == a,
        merged(no_cleanup(), a) == a,
{
    assert(a.failed + Seq::empty() =~= a.failed);
    assert(Seq::empty() + a.failed =~= a.failed);
}

/// Merging is associative: results can be merged in any grouping.
pub proof fn lemma_merge_associative(a: CleanupTotals, b: CleanupTotals, c: CleanupTotals)
    ensures
        merged(merged(a, b), c) == merged(a, merged(b, c)),
{
    assert((a.failed + b.failed) + c.failed =~= a.failed + (b.failed + c.failed));
}

/// A character of a rotation date suffix: a digit, `-` or `_`.
pub open spec fn is_date_char(c: char) -> bool {
    is_digit(c) || c == '-' || c == '_'
}

/// A file name is a log file's when it ends with `.log`, or when what follows
/// its first `.log.` is made of digits, `-` and `_` only (a rotated log such
/// as `app.log.2023-01-01`).
pub open spec fn is_log_name(n: Seq<char>) -> bool {
    ||| ".log"@.is_suffix_of(n)
    ||| exists|i: int|
        #![trigger occurs_at(n, ".log."@, i)]
        occurs_at(n, ".log."@, i) && (forall|j: int| 0 <= j < i ==> !occurs_at(n, ".log."@, j))
            && forall|k: int| i + ".log."@.len() <= k < n.len() ==> is_date_char(#[trigger] n[k])
}

/// A path names a log file when it has a file name and that name is a log
/// file's.
pub open spec fn is_log_path(p: Seq<char>) -> bool {
    match file_name_of(p) {
        Some(n) => is_log_name(n),
        None => false,
    }
}

/// Whether `path` names a log file (see `is_log_path`).
pub fn is_log_file(path: &str) -> (r: bool)
    ensures
        r == is_log_path(path@),
{
    match file_name(path) {
        None => false,
        Some(name) => {
            if ends_with(name.as_str(), ".log") {
                return true;
            }
            let cs = chars_of(name.as_str());
            let marker = chars_of(".log.");
            match find_chars(&cs, &marker) {
                None => {
                    assert(!is_log_name(name@)) by {
                        if exists|i: int| occurs_at(name@, ".log."@, i) {
                            let i = choose|i: int| occurs_at(name@, ".log."@, i);
                            assert(contains(cs@, marker@));
                        }
                    }
                    false
                },
                Some(idx) => {
                    assert(occurs_at(cs@, marker@, idx as int));
                    assert(idx + marker@.len() <= cs@.len());
                    assert(marker.len() == marker@.len());
                    let n = cs.len();
                    assert(idx + marker.len() <= n);
                    let mut k: usize = idx + marker.len();
                    while k < cs.len()
                        invariant
                            cs@ == name@,
                            file_name_of(path@) == Some(name@),
                            marker@ == ".log."@,
                            !".log"@.is_suffix_of(name@),
                            idx + marker.len() <= k <= cs.len(),
                            occurs_at(name@, ".log."@, idx as int),
                            forall|j: int| 0 <= j < idx ==> !occurs_at(name@, ".log."@, j),
                            forall|m: int|
                                idx + marker.len() <= m < k ==> is_date_char(#[trigger] cs@[m]),
                        decreases cs.len() - k,
                    {
                        let c = cs[k];
                        if !(('0' <= c && c <= '9') || c == '-' || c == '_') {
                            assert(!is_log_name(name@)) by {
                                if exists|i: int|
                                    #![trigger occurs_at(name@, ".log."@, i)]
                                    occurs_at(name@, ".log."@, i) && (forall|j: int|
                                        0 <= j < i ==> !occurs_at(name@, ".log."@, j))
                                        && forall|m: int|
                                        i + ".log."@.len() <= m < name@.len() ==> is_date_char(
                                            #[trigger] name@[m],
                                        ) {
                                    let i = choose|i: int|
                                        #![trigger occurs_at(name@, ".log."@, i)]
                                        occurs_at(name@, ".log."@, i) && (forall|j: int|
                                            0 <= j < i ==> !occurs_at(name@, ".log."@, j))
                                            && forall|m: int|
                                            i + ".log."@.len() <= m < name@.len()
                                                ==> is_date_char(#[trigger] name@[m]);
                                    if i < idx {
                                        assert(!occurs_at(name@, ".log."@, i));
                                    }
                                    if idx < i {
                                        assert(!occurs_at(name@, ".log."@, idx as int));
                                    }
                                    assert(i == idx);
                                    assert(is_date_char(name@[k as int]));
                                }
                            }
                            return false;
                        }
                        k = k + 1;
                    }
                    assert(occurs_at(name@, ".log."@, idx as int));
                    true
                },
            }
        },
    }
}

/// The cleanup a configuration asks for: its maximum age when that is set
/// and positive.
pub open spec fn spec_cleanup_age(max_age_days: Option<u32>) -> Option<u32> {
    match max_age_days {
        Some(d) => if d > 0 {
            Some(d)
        } else {
            None
        },
        None => None,
    }
}

/// What a cleanup does under `config`: `None` when the maximum age is unset
/// or zero (nothing is removed); otherwise the maximum age and the
/// directories to scan, the application log directory then the test log
/// directory.
pub fn cleanup_plan(config: &Config) -> (r: Option<(u32, Vec<String>)>)
    ensures
        match r {
            None => spec_cleanup_age(config.log_max_age_days) is None,
            Some((days, dirs)) => spec_cleanup_age(config.log_max_age_days) == Some(days)
                && dirs@.len() == 2 && dirs@[0]@ == path_join(DEFAULT_LOG_DIR@, APP_LOG_SUBDIR@)
                && dirs@[1]@ == path_join(DEFAULT_LOG_DIR@, TEST_LOG_SUBDIR@),
        },
{
    match config.log_max_age_days {
        Some(days) => if days > 0 {
            let mut dirs: Vec<String> = Vec::new();
            dirs.push(join(DEFAULT_LOG_DIR, APP_LOG_SUBDIR));
            dirs.push(join(DEFAULT_LOG_DIR, TEST_LOG_SUBDIR));
            Some((days, dirs))
        } else {
            None
        },
        None => None,
    }
}

/// The cleanup is disabled exactly when the maximum age is unset or zero;
/// otherwise it runs with that same number of days, one day included.
pub proof fn lemma_cleanup_enabled(max_age_days: Option<u32>)
    ensures
        spec_cleanup_age(max_age_days) is None <==> (max_age_days is None || max_age_days
            == Some(0u32)),
        spec_cleanup_age(max_age_days) is Some ==> spec_cleanup_age(max_age_days)
            == max_age_days,
{
}

/// Nanoseconds in a day.
pub const NANOS_PER_DAY: i128 = 86_400_000_000_000;

/// The cutoff instant of a cleanup run at `now_nanos` (nanoseconds since the
/// Unix epoch): `max_age_days` whole days earlier.
pub fn cutoff_nanos(now_nanos: i128, max_age_days: u32) -> (r: i128)
    requires
        now_nanos - max_age_days * NANOS_PER_DAY >= i128::MIN,
    ensures
        r == now_nanos - max_age_days * NANOS_PER_DAY,
{
    assert(max_age_days * NANOS_PER_DAY <= 4294967295 * NANOS_PER_DAY) by (nonlinear_arith)
        requires
            max_age_days <= 4294967295,
    ;
    now_nanos - (max_age_days as i128) * NANOS_PER_DAY
}

/// Where the cleanup of one directory entry stands.
pub enum EntryState {
    /// Waiting for the next entry.
    Idle,
    /// The metadata of the log file `path` is being read.
    Inspecting { path: String },
    /// The log file `path`, of `size` bytes, is being removed.
    Removing { path: String, size: u64 },
}

/// What the outside world reports about the current entry.
pub enum CleanupEvent {
    /// A directory entry was listed.
    Listed { path: String, is_dir: bool },
    /// Its metadata could not be read.
    MetadataFailed { error: String },
    /// Its modification time could not be read.
    ModifiedUnknown { error: String },
    /// Its metadata: size in bytes and modification time (nanoseconds since
    /// the Unix epoch).
    Inspected { size: u64, modified_nanos: i128 },
    /// The file was removed.
    Removed,
    /// The file could not be removed.
    RemoveFailed { error: String },
}

/// What the cleanup asks the outside world to do next.
pub enum CleanupAction {
    /// Nothing more for this entry: go on with the next one.
    Next,
    /// Read the metadata of `path`.
    ReadMetadata { path: String },
    /// Remove the file `path`.
    Remove { path: String },
}

/// An entry state only ever holds log files.
pub open spec fn entry_state_ok(state: EntryState) -> bool {
    match state {
        EntryState::Idle => true,
        EntryState::Inspecting { path } => is_log_path(path@),
        EntryState::Removing { path, .. } => is_log_path(path@),
    }
}

/// One step of the cleanup of a directory entry, with `cutoff` the cutoff
/// instant (see the doc of `step`); an event the state does not expect goes
/// back to idle, asks for nothing and changes no total.
pub open spec fn spec_cleanup_step(
    cutoff: i128,
    before: CleanupTotals,
    state: EntryState,
    event: CleanupEvent,
    after: CleanupTotals,
    next: EntryState,
    action: CleanupAction,
) -> bool {
    match state {
        EntryState::Idle => match event {
            CleanupEvent::Listed { path, is_dir } => after == before && if !is_dir && is_log_path(
                path@,
            ) {
                (next matches EntryState::Inspecting { path: p } && p@ == path@)
                    && (action matches CleanupAction::ReadMetadata { path: p } && p@ == path@)
            } else {
                next is Idle && action is Next
            },
            _ => next is Idle && action is Next && after == before,
        },
        EntryState::Inspecting { path } => match event {
            CleanupEvent::MetadataFailed { error } => next is Idle && action is Next && after
                == CleanupTotals {
                failed: before.failed.push((path@, "Failed to read metadata: "@ + error@)),
                ..before
            },
            CleanupEvent::ModifiedUnknown { error } => next is Idle && action is Next && after
                == CleanupTotals {
                failed: before.failed.push((path@, "Failed to get modification time: "@ + error@)),
                ..before
            },
            CleanupEvent::Inspected { size, modified_nanos } => after == before && if modified_nanos
                < cutoff {
                (next matches EntryState::Removing { path: p, size: s } && p@ == path@ && s == size)
                    && (action matches CleanupAction::Remove { path: p } && p@ == path@)
            } else {
                next is Idle && action is Next
            },
            _ => next is Idle && action is Next && after == before,
        },
        EntryState::Removing { path, size } => match event {
            CleanupEvent::Removed => next is Idle && action is Next && after == CleanupTotals {
                files: before.files + 1,
                bytes: before.bytes + size as nat,
                ..before
            },
            CleanupEvent::RemoveFailed { error } => next is Idle && action is Next && after
                == CleanupTotals {
                failed: before.failed.push((path@, "Failed to remove file: "@ + error@)),
                ..before
            },
            _ => next is Idle && action is Next && after == before,
        },
    }
}

impl CleanupResult {
    /// Advances the cleanup of one directory entry: a listed entry that is
    /// a log file (and not a directory) has its metadata read; one modified
    /// before `cutoff` is removed; a removal counts the file and its size;
    /// a failure to read the metadata, the modification time or to remove
    /// the file is recorded with its reason. An event the entry state does not
    /// expect ends the entry and changes nothing.
    pub fn step(&mut self, cutoff: i128, state: EntryState, event: CleanupEvent) -> (r: (
        EntryState,
        CleanupAction,
    ))
        requires
            state matches EntryState::Removing { size, .. } ==> old(self).files_removed < usize::MAX
                && old(self).bytes_removed + size <= u64::MAX,
        ensures
            spec_cleanup_step(cutoff, old(self)@, state, event, final(self)@, r.0, r.1),
    {
        let ghost before = self@;
        match state {
            EntryState::Idle => match event {
                CleanupEvent::Listed { path, is_dir } => {
                    if !is_dir && is_log_file(path.as_str()) {
                        let p2 = path.clone();
                        (EntryState::Inspecting { path }, CleanupAction::ReadMetadata { path: p2 })
                    } else {
                        (EntryState::Idle, CleanupAction::Next)
                    }
                },
                _ => (EntryState::Idle, CleanupAction::Next),
            },
            EntryState::Inspecting { path } => match event {
                CleanupEvent::MetadataFailed { error } => {
                    let reason = concat2("Failed to read metadata: ", error.as_str());
                    self.record_failure(path, reason);
                    (EntryState::Idle, CleanupAction::Next)
                },
                CleanupEvent::ModifiedUnknown { error } => {
                    let reason = concat2("Failed to get modification time: ", error.as_str());
                    self.record_failure(path, reason);
                    (EntryState::Idle, CleanupAction::Next)
                },
                CleanupEvent::Inspected { size, modified_nanos } => {
                    if modified_nanos < cutoff {
                        let p2 = path.clone();
                        (EntryState::Removing { path, size }, CleanupAction::Remove { path: p2 })
                    } else {
                        (EntryState::Idle, CleanupAction::Next)
                    }
                },
                _ => (EntryState::Idle, CleanupAction::Next),
            },
            EntryState::Removing { path, size } => match event {
                CleanupEvent::Removed => {
                    self.files_removed = self.files_removed + 1;
                    self.bytes_removed = self.bytes_removed + size;
                    (EntryState::Idle, CleanupAction::Next)
                },
                CleanupEvent::RemoveFailed { error } => {
                    let reason = concat2("Failed to remove file: ", error.as_str());
                    self.record_failure(path, reason);
                    (EntryState::Idle, CleanupAction::Next)
                },
                _ => (EntryState::Idle, CleanupAction::Next),
            },
        }
    }

    fn record_failure(&mut self, path: String, reason: String)
        ensures
            final(self)@ == (CleanupTotals {
                failed: old(self)@.failed.push((path@, reason@)),
                ..old(self)@
            }),
    {
        let ghost before = failures_view(self.failed_files@);
        let ghost entry = (path@, reason@);
        self.failed_files.push((path, reason));
        assert(failures_view(self.failed_files@) =~= before.push(entry));
    }
}

/// The cleanup only ever removes log files, and only files modified before
/// the cutoff: every step keeps the entry state on log files, and a removal
/// is asked only for the path of a log file listed earlier whose
/// modification time is before the cutoff.
pub proof fn lemma_cleanup_removes_only_old_log_files(
    cutoff: i128,
    before: CleanupTotals,
    state: EntryState,
    event: CleanupEvent,
    after: CleanupTotals,
    next: EntryState,
    action: CleanupAction,
)
    requires
        entry_state_ok(state),
        spec_cleanup_step(cutoff, before, state, event, after, next, action),
    ensures
        entry_state_ok(next),
        action matches CleanupAction::Remove { path } ==> is_log_path(path@) && (
        event matches CleanupEvent::Inspected { modified_nanos, .. } && modified_nanos < cutoff),
        action matches CleanupAction::ReadMetadata { path } ==> is_log_path(path@),
        after.files <= before.files + 1,
        after.files > before.files ==> state is Removing && event is Removed,
{
}

/// One step of a cleanup run: the totals and entry state before it, the event
/// reported, and the totals, entry state and action after it.
pub struct CleanupStep {
    pub before: CleanupTotals,
    pub state: EntryState,
    pub event: CleanupEvent,
    pub after: CleanupTotals,
    pub next: EntryState,
    pub action: CleanupAction,
}

/// Step `k` of a run starts where step `k - 1` ended.
pub open spec fn continues(steps: Seq<CleanupStep>, k: int) -> bool {
    steps[k].state == steps[k - 1].next && steps[k].before == steps[k - 1].after
}

/// `steps` is a run of `CleanupResult::step` calls with cutoff `cutoff`: it
/// starts idle, each step is related as `step`'s contract says, and each step
/// starts where the previous one ended.
pub open spec fn is_cleanup_run(cutoff: i128, steps: Seq<CleanupStep>) -> bool {
    &&& steps.len() > 0 ==> steps[0].state is Idle
    &&& forall|k: int|
        0 <= k < steps.len() ==> spec_cleanup_step(
            cutoff,
            #[trigger] steps[k].before,
            steps[k].state,
            steps[k].event,
            steps[k].after,
            steps[k].next,
            steps[k].action,
        )
    &&& forall|k: int| 0 < k < steps.len() ==> #[trigger] continues(steps, k)
}

/// The event lists `p` as an entry that is not a directory.
pub open spec fn lists_file(e: CleanupEvent, p: Seq<char>) -> bool {
    e matches CleanupEvent::Listed { path, is_dir } && !is_dir && path@ == p
}

/// The step reports the removal of the file it was removing.
pub open spec fn counts_removal(st: CleanupStep) -> bool {
    st.state is Removing && st.event is Removed
}

/// The number of files a run reports removed.
pub open spec fn removals(steps: Seq<CleanupStep>) -> nat
    decreases steps.len(),
{
    if steps.len() == 0 {
        0
    } else {
        removals(steps.drop_last()) + if counts_removal(steps.last()) {
            1nat
        } else {
            0nat
        }
    }
}

/// After step `k` of a run, the entry being worked on is a log file listed
/// at or before step `k` as an entry that is not a directory.
proof fn lemma_run_entry(cutoff: i128, steps: Seq<CleanupStep>, k: int)
    requires
        is_cleanup_run(cutoff, steps),
        0 <= k < steps.len(),
    ensures
        entry_state_ok(steps[k].next),
        steps[k].next matches EntryState::Inspecting { path } ==> exists|j: int|
            0 <= j <= k && #[trigger] lists_file(steps[j].event, path@),
        steps[k].next matches EntryState::Removing { path, .. } ==> exists|j: int|
            0 <= j <= k && #[trigger] lists_file(steps[j].event, path@),
    decreases k,
{
    let st = steps[k];
    assert(spec_cleanup_step(cutoff, st.before, st.state, st.event, st.after, st.next, st.action));
    if k > 0 {
        lemma_run_entry(cutoff, steps, k - 1);
        assert(continues(steps, k));
    }
    lemma_cleanup_removes_only_old_log_files(
        cutoff,
        st.before,
        st.state,
        st.event,
        st.after,
        st.next,
        st.action,
    );
    match st.next {
        EntryState::Inspecting { path } => {
            if st.state is Idle {
                assert(lists_file(st.event, path@));
            }
        },
        _ => {},
    }
}

/// The count of removed files after a run is the count before it plus the
/// removals the run reports.
proof fn lemma_run_count(cutoff: i128, steps: Seq<CleanupStep>)
    requires
        is_cleanup_run(cutoff, steps),
        steps.len() > 0,
    ensures
        steps.last().after.files == steps[0].before.files + removals(steps),
    decreases steps.len(),
{
    let n = steps.len() - 1;
    let st = steps[n];
    assert(spec_cleanup_step(cutoff, st.before, st.state, st.event, st.after, st.next, st.action));
    assert(st.after.files == st.before.files + if counts_removal(st) {
        1nat
    } else {
        0nat
    });
    assert(removals(steps) == removals(steps.drop_last()) + if counts_removal(st) {
        1nat
    } else {
        0nat
    });
    if n == 0 {
        assert(removals(steps.drop_last()) == 0);
    }
    if n > 0 {
        let prefix = steps.drop_last();
        assert forall|k: int| 0 < k < prefix.len() implies #[trigger] continues(prefix, k) by {
            assert(continues(steps, k));
        }
        assert forall|k: int| 0 <= k < prefix.len() implies spec_cleanup_step(
            cutoff,
            #[trigger] prefix[k].before,
            prefix[k].state,
            prefix[k].event,
            prefix[k].after,
            prefix[k].next,
            prefix[k].action,
        ) by {
            assert(prefix[k] == steps[k]);
        }
        lemma_run_count(cutoff, prefix);
        assert(continues(steps, n));
    }
}

/// Over a whole run of `CleanupResult::step` calls on the entries of a
/// directory, whatever events are reported: a removal is only ever asked for
/// a log file that was listed earlier in the run as an entry that is not a
/// directory and whose modification time is before the cutoff; a removal is
/// only counted right after it was asked for; and the count of removed files
/// grows by exactly the removals counted. Directories, files that are not log
/// files and files modified at or after the cutoff are never removed.
pub proof fn lemma_cleanup_run_removes_only_old_log_files(cutoff: i128, steps: Seq<CleanupStep>)
    requires
        is_cleanup_run(cutoff, steps),
    ensures
        forall|k: int|
            0 <= k < steps.len() && #[trigger] steps[k].action is Remove ==> {
                &&& is_log_path(steps[k].action->Remove_path@)
                &&& steps[k].event matches CleanupEvent::Inspected { modified_nanos, .. }
                    && modified_nanos < cutoff
                &&& exists|j: int|
                    0 <= j < k && #[trigger] lists_file(
                        steps[j].event,
                        steps[k].action->Remove_path@,
                    )
            },
        forall|k: int|
            0 <= k < steps.len() && #[trigger] counts_removal(steps[k]) ==> k > 0 && steps[k
                - 1].action is Remove,
        steps.len() > 0 ==> steps.last().after.files == steps[0].before.files + removals(steps),
{
    assert forall|k: int| 0 <= k < steps.len() && #[trigger] steps[k].action is Remove implies {
        &&& is_log_path(steps[k].action->Remove_path@)
        &&& steps[k].event matches CleanupEvent::Inspected { modified_nanos, .. } && modified_nanos
            < cutoff
        &&& exists|j: int|
            0 <= j < k && #[trigger] lists_file(steps[j].event, steps[k].action->Remove_path@)
    } by {
        let st = steps[k];
        assert(spec_cleanup_step(cutoff, st.before, st.state, st.event, st.after, st.next, st.action));
        if k > 0 {
            assert(continues(steps, k));
            lemma_run_entry(cutoff, steps, k - 1);
        }
    }
    assert forall|k: int| 0 <= k < steps.len() && #[trigger] counts_removal(steps[k]) implies k > 0
        && steps[k - 1].action is Remove by {
        if k > 0 {
            assert(continues(steps, k));
            let pr = steps[k - 1];
            assert(spec_cleanup_step(cutoff, pr.before, pr.state, pr.event, pr.after, pr.next, pr.action));
        }
    }
    if steps.len() > 0 {
        lemma_run_count(cutoff, steps);
    }
}

} // verus!
