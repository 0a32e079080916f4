//! The scheduling engine: when a cycle is due, and what to do for a job
//! once its source has been looked at.
//!
//! The engine owns all state that outlives a cycle: the time at which the
//! last cycle ended, the stored snapshot of each job, and for each job
//! whether its idle notice has been given. It does no I/O. The caller sleeps,
//! reads the clock, walks the source directories and writes the archives;
//! the engine is told what was seen and answers with what to do.

use crate::snapshot::{changed_files, detect, distinct_paths, listing, paths_of, snapshot_of};
use crate::snapshot::{law_second_pass_reports_nothing, lemma_snapshot_knows_the_walk, texts};
use crate::snapshot::{FileRecord, FileStamp, Snapshot};
use vstd::hash_map::StringHashMap;
use vstd::prelude::*;

verus! {

/// What the caller found when it looked at a job's source directory.
pub enum Observation {
    /// The source directory does not exist.
    SourceMissing,
    /// The source directory exists, but the walk over it failed.
    WalkFailed,
    /// The regular files under the source directory, in walk order.
    Walked(Vec<FileRecord>),
}

/// The mathematical value of an [`Observation`].
pub enum Sighting {
    SourceMissing,
    WalkFailed,
    Walked(Seq<FileStamp>),
}

impl View for Observation {
    type V = Sighting;

    open spec fn view(&self) -> Sighting {
        match self {
            Observation::SourceMissing => Sighting::SourceMissing,
            Observation::WalkFailed => Sighting::WalkFailed,
            Observation::Walked(files) => Sighting::Walked(listing(files@)),
        }
    }
}

/// What the caller is to do for a job in this cycle.
pub enum JobAction {
    /// Say that the source is missing; nothing else happens for this job.
    SkipMissingSource,
    /// Say that the source could not be read; nothing else happens for this
    /// job, which is looked at afresh in the next cycle.
    ReportWalkFailure,
    /// Say once that nothing has changed.
    AnnounceNoChanges,
    /// Nothing has changed and that has been said before: stay silent.
    StayQuiet,
    /// Archive the whole source tree; `changed` lists what triggered it.
    StartBackup { changed: Vec<String> },
}

/// The mathematical value of a [`JobAction`].
pub enum Decision {
    SkipMissingSource,
    ReportWalkFailure,
    AnnounceNoChanges,
    StayQuiet,
    StartBackup { changed: Seq<Seq<char>> },
}

impl View for JobAction {
    type V = Decision;

    open spec fn view(&self) -> Decision {
        match self {
            JobAction::SkipMissingSource => Decision::SkipMissingSource,
            JobAction::ReportWalkFailure => Decision::ReportWalkFailure,
            JobAction::AnnounceNoChanges => Decision::AnnounceNoChanges,
            JobAction::StayQuiet => Decision::StayQuiet,
            JobAction::StartBackup { changed } => Decision::StartBackup { changed: texts(changed@) },
        }
    }
}

/// The mathematical value of an [`Engine`].
#[verifier::ext_equal]
pub struct EngineModel {
    /// The least number of seconds between two cycles.
    pub interval: u64,
    /// When the last cycle ended, or when the engine was started.
    pub baseline: u64,
    /// The stored snapshot of each job whose source has been walked.
    pub snapshots: Map<Seq<char>, Map<Seq<char>, u64>>,
    /// The jobs whose idle notice has been given in the current idle streak.
    pub notified: Set<Seq<char>>,
}

impl EngineModel {
    /// The snapshot that a job's walk is compared with.
    pub open spec fn stored(self, job: Seq<char>) -> Map<Seq<char>, u64> {
        if self.snapshots.contains_key(job) {
            self.snapshots[job]
        } else {
            Map::empty()
        }
    }

    /// Whether a cycle is due at `now`.
    pub open spec fn due(self, now: u64) -> bool {
        now - self.baseline >= self.interval
    }

    /// The action that an observation of `job` calls for.
    pub open spec fn decide(self, job: Seq<char>, seen: Sighting) -> Decision {
        match seen {
            Sighting::SourceMissing => Decision::SkipMissingSource,
            Sighting::WalkFailed => Decision::ReportWalkFailure,
            Sighting::Walked(walk) => {
                let changed = changed_files(self.stored(job), walk);
                if changed.len() > 0 {
                    Decision::StartBackup { changed }
                } else if self.notified.contains(job) {
                    Decision::StayQuiet
                } else {
                    Decision::AnnounceNoChanges
                }
            },
        }
    }

    /// The state after an observation of `job`.
    ///
    /// Every walk that went through replaces the job's snapshot by that of
    /// the walk, whole: what the walk no longer found is gone from it. A
    /// change ends the job's idle streak, an idle pass begins or continues
    /// it. A missing source changes nothing, nor does a walk that failed.
    pub open spec fn after(self, job: Seq<char>, seen: Sighting) -> EngineModel {
        match seen {
            Sighting::SourceMissing => self,
            Sighting::WalkFailed => self,
            Sighting::Walked(walk) => EngineModel {
                snapshots: self.snapshots.insert(job, snapshot_of(walk)),
                notified: if changed_files(self.stored(job), walk).len() > 0 {
                    self.notified.remove(job)
                } else {
                    self.notified.insert(job)
                },
                ..self
            },
        }
    }
}

/// The state of the backup engine.
pub struct Engine {
    interval: u64,
    last_backup_time: u64,
    last_meta: StringHashMap<Snapshot>,
    no_change_notified: StringHashMap<bool>,
}

impl View for Engine {
    type V = EngineModel;

    closed spec fn view(&self) -> EngineModel {
        EngineModel {
            interval: self.interval,
            baseline: self.last_backup_time,
            snapshots: Map::new(
                |job: Seq<char>| self.last_meta@.contains_key(job),
                |job: Seq<char>| self.last_meta@[job]@,
            ),
            notified: Set::new(
                |job: Seq<char>|
                    self.no_change_notified@.contains_key(job) && self.no_change_notified@[job],
            ),
        }
    }
}

impl JobAction {
    /// The changed paths that are to be listed before a backup: those of a
    /// backup that is about to start, where `verbose` asks for them.
    pub fn listing(&self, verbose: bool) -> (paths: Option<&Vec<String>>)
        ensures
            paths is Some <==> verbose && self is StartBackup,
            paths matches Some(list) ==> self matches JobAction::StartBackup { changed }
                && *list == *changed,
    {
        match self {
            JobAction::StartBackup { changed } => if verbose {
                Some(changed)
            } else {
                None
            },
            _ => None,
        }
    }
}

impl Engine {
    /// An engine started at `now`: no snapshot is stored, no notice has been
    /// given, and the first cycle is due `interval` seconds from `now`.
    pub fn new(interval: u64, now: u64) -> (engine: Engine)
        ensures
            engine@ == (EngineModel {
                interval,
                baseline: now,
                snapshots: Map::empty(),
                notified: Set::empty(),
            }),
    {
        let engine = Engine {
            interval,
            last_backup_time: now,
            last_meta: StringHashMap::new(),
            no_change_notified: StringHashMap::new(),
        };
        assert(engine@.snapshots =~= Map::empty());
        assert(engine@.notified =~= Set::empty());
        engine
    }

    /// The least number of seconds between two cycles.
    pub fn interval(&self) -> (seconds: u64)
        ensures
            seconds == self@.interval,
    {
        self.interval
    }

    /// Whether a cycle is due at `now`: whether at least `interval` seconds
    /// have passed since the last cycle ended. A clock that has gone back
    /// behind that moment makes no cycle due.
    pub fn is_due(&self, now: u64) -> (due: bool)
        ensures
            due == self@.due(now),
    {
        now >= self.last_backup_time && now - self.last_backup_time >= self.interval
    }

    /// Records that a cycle has ended at `now`, after its last job. The next
    /// cycle is counted from there.
    pub fn cycle_finished(&mut self, now: u64)
        ensures
            final(self)@ == (EngineModel { baseline: now, ..old(self)@ }),
    {
        self.last_backup_time = now;
    }

    /// Whether a snapshot is stored for `job`.
    pub fn has_snapshot(&self, job: &str) -> (b: bool)
        ensures
            b == self@.snapshots.contains_key(job@),
    {
        self.last_meta.contains_key(job)
    }

    /// The stored modification time of `path` in the snapshot of `job`.
    pub fn stored_time(&self, job: &str, path: &str) -> (r: Option<u64>)
        ensures
            r == (if self@.stored(job@).contains_key(path@) {
                Some(self@.stored(job@)[path@])
            } else {
                None
            }),
    {
        match self.last_meta.get(job) {
            Some(snapshot) => snapshot.get(path),
            None => None,
        }
    }

    /// Whether the idle notice of `job` has been given in its current idle
    /// streak.
    pub fn is_notified(&self, job: &str) -> (b: bool)
        ensures
            b == self@.notified.contains(job@),
    {
        match self.no_change_notified.get(job) {
            Some(flag) => *flag,
            None => false,
        }
    }

    /// Takes in what was seen of `job` and says what to do.
    ///
    /// A missing source is skipped and leaves the engine as it was, and so
    /// does a walk that failed. A walk that went through is compared with
    /// the job's stored snapshot, and its own snapshot then replaces the
    /// stored one at once, whether or not anything changed and whether or
    /// not the archive can then be written. With an empty change set the
    /// idle notice is called for once per streak. The state of every other
    /// job stays as it was.
    pub fn observe(&mut self, job: &str, seen: &Observation) -> (action: JobAction)
        ensures
            action@ == old(self)@.decide(job@, seen@),
            final(self)@ == old(self)@.after(job@, seen@),
    {
        match seen {
            Observation::SourceMissing => JobAction::SkipMissingSource,
            Observation::WalkFailed => JobAction::ReportWalkFailure,
            Observation::Walked(files) => {
                let found = detect(self.last_meta.get(job), files);
                let told = self.is_notified(job);
                let idle = found.changed.len() == 0;
                self.last_meta.insert(job.to_owned(), found.snapshot);
                self.no_change_notified.insert(job.to_owned(), idle);
                assert(self@.snapshots =~= old(self)@.snapshots.insert(
                    job@,
                    snapshot_of(listing(files@)),
                ));
                if idle {
                    assert(self@.notified =~= old(self)@.notified.insert(job@));
                    if told {
                        JobAction::StayQuiet
                    } else {
                        JobAction::AnnounceNoChanges
                    }
                } else {
                    assert(self@.notified =~= old(self)@.notified.remove(job@));
                    JobAction::StartBackup { changed: found.changed }
                }
            },
        }
    }
}

/// The stored snapshot is that of the last walk that went through,
/// replaced as a whole and never merged with the one before: a path that
/// the walk no longer found is not in it.
pub proof fn law_stored_snapshot_is_the_last_walk(
    engine: EngineModel,
    job: Seq<char>,
    walk: Seq<FileStamp>,
    path: Seq<char>,
)
    ensures
        engine.after(job, Sighting::Walked(walk)).stored(job) == snapshot_of(walk),
        !paths_of(walk).contains(path) ==> !engine.after(job, Sighting::Walked(walk)).stored(
            job,
        ).contains_key(path),
{
    lemma_snapshot_knows_the_walk(walk, path);
}

/// Idempotence: when a job is observed twice with the same walk, in which
/// no path occurs twice, the second observation finds nothing changed,
/// starts no backup and leaves the stored snapshots as the first one left
/// them.
pub proof fn law_unchanged_tree_is_not_backed_up_again(
    engine: EngineModel,
    job: Seq<char>,
    walk: Seq<FileStamp>,
)
    requires
        distinct_paths(walk),
    ensures
        ({
            let once = engine.after(job, Sighting::Walked(walk));
            &&& changed_files(once.stored(job), walk).len() == 0
            &&& !(once.decide(job, Sighting::Walked(walk)) is StartBackup)
            &&& once.after(job, Sighting::Walked(walk)).snapshots == once.snapshots
        }),
{
    let once = engine.after(job, Sighting::Walked(walk));
    law_second_pass_reports_nothing(walk);
    assert(once.snapshots.insert(job, snapshot_of(walk)) =~= once.snapshots);
}

/// No-change suppression: over three observations of a job in a row, each
/// of which finds nothing changed since the one before, starting with the
/// idle notice not yet given, the notice is called for by the first and by
/// neither of the others.
pub proof fn law_idle_notice_is_given_once(
    engine: EngineModel,
    job: Seq<char>,
    first: Seq<FileStamp>,
    second: Seq<FileStamp>,
    third: Seq<FileStamp>,
)
    requires
        !engine.notified.contains(job),
        changed_files(engine.stored(job), first).len() == 0,
        changed_files(snapshot_of(first), second).len() == 0,
        changed_files(snapshot_of(second), third).len() == 0,
    ensures
        ({
            let one = engine.after(job, Sighting::Walked(first));
            let two = one.after(job, Sighting::Walked(second));
            &&& engine.decide(job, Sighting::Walked(first)) == Decision::AnnounceNoChanges
            &&& one.decide(job, Sighting::Walked(second)) == Decision::StayQuiet
            &&& two.decide(job, Sighting::Walked(third)) == Decision::StayQuiet
        }),
{
}

/// A backup ends the idle streak: the next observation that finds nothing
/// changed calls for the idle notice again.
pub proof fn law_backup_rearms_the_idle_notice(
    engine: EngineModel,
    job: Seq<char>,
    walk: Seq<FileStamp>,
    next: Seq<FileStamp>,
)
    requires
        changed_files(engine.stored(job), walk).len() > 0,
        changed_files(snapshot_of(walk), next).len() == 0,
    ensures
        engine.after(job, Sighting::Walked(walk)).decide(job, Sighting::Walked(next))
            == Decision::AnnounceNoChanges,
{
    let once = engine.after(job, Sighting::Walked(walk));
    assert(once.stored(job) == snapshot_of(walk));
}

/// Missing-source isolation: a job whose source is missing is skipped and
/// leaves the engine as it was, so that every job after it in the cycle is
/// decided as if the missing one had not been there.
pub proof fn law_missing_source_stops_nothing(
    engine: EngineModel,
    missing: Seq<char>,
    other: Seq<char>,
    seen: Sighting,
)
    ensures
        engine.decide(missing, Sighting::SourceMissing) == Decision::SkipMissingSource,
        engine.after(missing, Sighting::SourceMissing) == engine,
        engine.after(missing, Sighting::SourceMissing).decide(other, seen) == engine.decide(
            other,
            seen,
        ),
{
}

/// Jobs do not touch each other: what is decided for one job, and what is
/// stored for it, does not depend on what was observed of another.
pub proof fn law_jobs_are_independent(
    engine: EngineModel,
    one: Seq<char>,
    seen_one: Sighting,
    other: Seq<char>,
    seen_other: Sighting,
)
    requires
        one != other,
    ensures
        engine.after(one, seen_one).decide(other, seen_other) == engine.decide(other, seen_other),
        engine.after(one, seen_one).stored(other) == engine.stored(other),
        engine.after(one, seen_one).notified.contains(other) == engine.notified.contains(other),
{
}

/// Timing gate: no cycle is due before `interval` seconds have passed since
/// the baseline, and one is due from that moment on.
pub proof fn law_cycle_is_due_after_the_interval(engine: EngineModel, now: u64)
    ensures
        now < engine.baseline + engine.interval ==> !engine.due(now),
        now >= engine.baseline + engine.interval ==> engine.due(now),
{
}

} // verus!
