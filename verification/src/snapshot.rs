//! Snapshots of a source tree and the comparison of two of them.
//!
//! A snapshot maps each file path to the time of its last modification, in
//! whole seconds. Detection compares a fresh listing with the snapshot that
//! was stored before: a file has changed if the stored snapshot does not
//! know it, or knows it with another time. Files that have disappeared are
//! not reported; they are simply missing from the new snapshot.

use vstd::hash_map::StringHashMap;
use vstd::prelude::*;

verus! {

/// One regular file seen during a walk: its path and modification time.
#[derive(Clone, Debug)]
pub struct FileRecord {
    pub path: String,
    pub modified: u64,
}

/// The mathematical value of a [`FileRecord`].
pub struct FileStamp {
    pub path: Seq<char>,
    pub modified: u64,
}

impl View for FileRecord {
    type V = FileStamp;

    open spec fn view(&self) -> FileStamp {
        FileStamp { path: self.path@, modified: self.modified }
    }
}

/// The listing that a vector of records stands for.
pub open spec fn listing(records: Seq<FileRecord>) -> Seq<FileStamp> {
    Seq::new(records.len(), |i: int| records[i]@)
}

/// The paths that a vector of strings stands for.
pub open spec fn texts(strings: Seq<String>) -> Seq<Seq<char>> {
    Seq::new(strings.len(), |i: int| strings[i]@)
}

/// The paths of a listing, in walk order.
pub open spec fn paths_of(walk: Seq<FileStamp>) -> Seq<Seq<char>> {
    Seq::new(walk.len(), |i: int| walk[i].path)
}

/// The snapshot that a walk produces: every path of the walk, each with the
/// time of its last occurrence.
pub open spec fn snapshot_of(walk: Seq<FileStamp>) -> Map<Seq<char>, u64>
    decreases walk.len(),
{
    if walk.len() == 0 {
        Map::empty()
    } else {
        snapshot_of(walk.drop_last()).insert(walk.last().path, walk.last().modified)
    }
}

/// Whether a file counts as new or modified against a stored snapshot.
pub open spec fn is_changed(prev: Map<Seq<char>, u64>, file: FileStamp) -> bool {
    !prev.contains_key(file.path) || prev[file.path] != file.modified
}

/// The change set of a walk against a stored snapshot: the paths of the
/// changed files, in walk order.
pub open spec fn changed_files(prev: Map<Seq<char>, u64>, walk: Seq<FileStamp>) -> Seq<Seq<char>>
    decreases walk.len(),
{
    if walk.len() == 0 {
        Seq::empty()
    } else {
        let earlier = changed_files(prev, walk.drop_last());
        if is_changed(prev, walk.last()) {
            earlier.push(walk.last().path)
        } else {
            earlier
        }
    }
}

/// No path occurs twice in the walk.
pub open spec fn distinct_paths(walk: Seq<FileStamp>) -> bool {
    forall|i: int, j: int|
        0 <= i < j < walk.len() ==> (#[trigger] walk[i]).path != (#[trigger] walk[j]).path
}

/// A mapping from file path to modification time.
pub struct Snapshot {
    files: StringHashMap<u64>,
}

impl View for Snapshot {
    type V = Map<Seq<char>, u64>;

    closed spec fn view(&self) -> Map<Seq<char>, u64> {
        self.files@
    }
}

impl Snapshot {
    /// The snapshot that knows no file.
    pub fn new() -> (s: Snapshot)
        ensures
            s@ == Map::<Seq<char>, u64>::empty(),
    {
        Snapshot { files: StringHashMap::new() }
    }

    /// The stored modification time of `path`, if the snapshot knows it.
    pub fn get(&self, path: &str) -> (r: Option<u64>)
        ensures
            r == (if self@.contains_key(path@) {
                Some(self@[path@])
            } else {
                None
            }),
    {
        match self.files.get(path) {
            Some(t) => Some(*t),
            None => None,
        }
    }

    /// Records `modified` for `path`, replacing an earlier time.
    pub fn record(&mut self, path: String, modified: u64)
        ensures
            final(self)@ == old(self)@.insert(path@, modified),
    {
        self.files.insert(path, modified);
    }

    /// The number of files that the snapshot knows.
    pub fn len(&self) -> (n: usize)
        ensures
            n == self@.len(),
    {
        self.files.len()
    }

    /// Whether `file` is new or modified against this snapshot.
    pub fn differs(&self, file: &FileRecord) -> (b: bool)
        ensures
            b == is_changed(self@, file@),
    {
        match self.get(file.path.as_str()) {
            Some(t) => t != file.modified,
            None => true,
        }
    }
}

/// What one detection pass finds: the snapshot of the walk, and the change
/// set against the snapshot stored before.
pub struct Detection {
    pub snapshot: Snapshot,
    pub changed: Vec<String>,
}

/// Compares a fresh walk with the snapshot stored before.
///
/// With `prev` absent every file of the walk is reported.
pub fn detect(prev: Option<&Snapshot>, walk: &Vec<FileRecord>) -> (d: Detection)
    ensures
        d.snapshot@ == snapshot_of(listing(walk@)),
        texts(d.changed@) == changed_files(stored(prev), listing(walk@)),
{
    let mut snapshot = Snapshot::new();
    let mut changed: Vec<String> = Vec::new();
    let ghost all = listing(walk@);
    let ghost before = stored(prev);
    let mut i: usize = 0;
    while i < walk.len()
        invariant
            i <= walk.len(),
            all == listing(walk@),
            before == stored(prev),
            snapshot@ == snapshot_of(all.take(i as int)),
            texts(changed@) == changed_files(before, all.take(i as int)),
        decreases walk.len() - i,
    {
        let file = &walk[i];
        proof {
            assert(all.take(i + 1).drop_last() == all.take(i as int));
            assert(all.take(i + 1).last() == file@);
        }
        let is_new = match prev {
            Some(p) => p.differs(file),
            None => true,
        };
        let ghost earlier = texts(changed@);
        if is_new {
            changed.push(file.path.clone());
            assert(texts(changed@) == earlier.push(file.path@));
        }
        snapshot.record(file.path.clone(), file.modified);
        i += 1;
    }
    proof {
        assert(all.take(i as int) == all);
    }
    Detection { snapshot, changed }
}

/// The snapshot that detection compares with: the stored one, or the empty
/// one where nothing is stored.
pub open spec fn stored(prev: Option<&Snapshot>) -> Map<Seq<char>, u64> {
    match prev {
        Some(p) => p@,
        None => Map::empty(),
    }
}

/// Every path of the change set is a path of the walk.
pub proof fn lemma_changed_files_are_walked(
    prev: Map<Seq<char>, u64>,
    walk: Seq<FileStamp>,
    path: Seq<char>,
)
    requires
        changed_files(prev, walk).contains(path),
    ensures
        paths_of(walk).contains(path),
    decreases walk.len(),
{
    if walk.len() > 0 {
        let earlier = changed_files(prev, walk.drop_last());
        let i = choose|i: int|
            0 <= i < changed_files(prev, walk).len() && changed_files(prev, walk)[i] == path;
        if is_changed(prev, walk.last()) && i == earlier.len() {
            assert(paths_of(walk)[walk.len() - 1] == path);
        } else {
            assert(earlier[i] == path);
            lemma_changed_files_are_walked(prev, walk.drop_last(), path);
            let k = choose|k: int|
                0 <= k < paths_of(walk.drop_last()).len() && paths_of(walk.drop_last())[k] == path;
            assert(paths_of(walk)[k] == path);
        }
    }
}

/// The snapshot of a walk knows exactly the paths of the walk.
pub proof fn lemma_snapshot_knows_the_walk(walk: Seq<FileStamp>, path: Seq<char>)
    ensures
        snapshot_of(walk).contains_key(path) <==> paths_of(walk).contains(path),
    decreases walk.len(),
{
    if walk.len() > 0 {
        let rest = walk.drop_last();
        lemma_snapshot_knows_the_walk(rest, path);
        if paths_of(walk).contains(path) {
            let k = choose|k: int| 0 <= k < paths_of(walk).len() && paths_of(walk)[k] == path;
            if k < rest.len() {
                assert(paths_of(rest)[k] == path);
            }
        }
        if snapshot_of(walk).contains_key(path) {
            if walk.last().path == path {
                assert(paths_of(walk)[walk.len() - 1] == path);
            } else {
                let k = choose|k: int| 0 <= k < paths_of(rest).len() && paths_of(rest)[k] == path;
                assert(paths_of(walk)[k] == path);
            }
        }
    }
}

/// Where no path occurs twice, the snapshot of a walk holds for each file
/// of the walk the time that the walk gave.
pub proof fn lemma_snapshot_holds_each_time(walk: Seq<FileStamp>, i: int)
    requires
        distinct_paths(walk),
        0 <= i < walk.len(),
    ensures
        snapshot_of(walk).contains_key(walk[i].path),
        snapshot_of(walk)[walk[i].path] == walk[i].modified,
    decreases walk.len(),
{
    if i < walk.len() - 1 {
        let rest = walk.drop_last();
        assert(distinct_paths(rest)) by {
            assert forall|a: int, b: int| 0 <= a < b < rest.len() implies (#[trigger] rest[a]).path
                != (#[trigger] rest[b]).path by {
                assert(rest[a] == walk[a] && rest[b] == walk[b]);
            }
        }
        lemma_snapshot_holds_each_time(rest, i);
        assert(rest[i] == walk[i]);
        assert(walk[i].path != walk[walk.len() - 1].path);
    }
}

/// A walk whose every file the stored snapshot knows, with the same time,
/// has an empty change set.
pub proof fn lemma_known_walk_is_unchanged(prev: Map<Seq<char>, u64>, walk: Seq<FileStamp>)
    requires
        forall|i: int| 0 <= i < walk.len() ==> !is_changed(prev, #[trigger] walk[i]),
    ensures
        changed_files(prev, walk) == Seq::<Seq<char>>::empty(),
    decreases walk.len(),
{
    if walk.len() > 0 {
        let rest = walk.drop_last();
        assert forall|i: int| 0 <= i < rest.len() implies !is_changed(prev, #[trigger] rest[i]) by {
            assert(rest[i] == walk[i]);
        }
        lemma_known_walk_is_unchanged(prev, rest);
        assert(!is_changed(prev, walk[walk.len() - 1]));
    }
}

/// First pass: against the empty snapshot, the change set is the whole
/// walk, in walk order.
pub proof fn law_first_pass_reports_every_file(walk: Seq<FileStamp>)
    ensures
        changed_files(Map::empty(), walk) == paths_of(walk),
    decreases walk.len(),
{
    if walk.len() > 0 {
        law_first_pass_reports_every_file(walk.drop_last());
        assert(paths_of(walk.drop_last()).push(walk.last().path) == paths_of(walk));
    } else {
        assert(paths_of(walk) == Seq::<Seq<char>>::empty());
    }
}

/// Idempotence: a walk in which no path occurs twice, compared with its own
/// snapshot, has an empty change set.
pub proof fn law_second_pass_reports_nothing(walk: Seq<FileStamp>)
    requires
        distinct_paths(walk),
    ensures
        changed_files(snapshot_of(walk), walk) == Seq::<Seq<char>>::empty(),
{
    assert forall|i: int| 0 <= i < walk.len() implies !is_changed(
        snapshot_of(walk),
        #[trigger] walk[i],
    ) by {
        lemma_snapshot_holds_each_time(walk, i);
    }
    lemma_known_walk_is_unchanged(snapshot_of(walk), walk);
}

/// Deletion blindness: a file that the stored snapshot knows and the walk
/// no longer finds is not in the change set, and the new snapshot does not
/// know it.
pub proof fn law_deleted_file_goes_unreported(
    prev: Map<Seq<char>, u64>,
    walk: Seq<FileStamp>,
    path: Seq<char>,
)
    requires
        prev.contains_key(path),
        !paths_of(walk).contains(path),
    ensures
        !changed_files(prev, walk).contains(path),
        !snapshot_of(walk).contains_key(path),
{
    if changed_files(prev, walk).contains(path) {
        lemma_changed_files_are_walked(prev, walk, path);
    }
    lemma_snapshot_knows_the_walk(walk, path);
}

} // verus!
