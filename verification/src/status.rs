//! The canonical file status and the mapping from repository path to status
//! that every backend reports.
//!
//! The mapping keeps its entries in ascending byte order of their paths, so
//! that it is walked in the same order whichever backend filled it.

use vstd::prelude::*;
use crate::path::RepoPathBuf;

verus! {

/// How a file in the working copy differs from the baseline, as the
/// backend sees it.
#[derive(Clone, Copy, Debug, PartialEq, Eq, Hash, Structural)]
pub enum FileStatus {
    /// The file is new.
    Added,
    /// The file is gone.
    Removed,
    /// The file has changed in some other way.
    Modified,
    /// The file is untracked and matches an ignore rule.
    Ignored,
}

/// `a` comes before `b`, and position `k` shows it: the two agree before
/// `k`, and at `k` either `a` ends or holds the smaller byte.
pub open spec fn less_at(a: Seq<u8>, b: Seq<u8>, k: int) -> bool {
    &&& 0 <= k <= a.len()
    &&& k < b.len()
    &&& forall|j: int| 0 <= j < k ==> a[j] == b[j]
    &&& (k == a.len() || a[k] < b[k])
}

/// `a` comes strictly before `b` in byte order.
pub open spec fn bytes_less(a: Seq<u8>, b: Seq<u8>) -> bool {
    exists|k: int| less_at(a, b, k)
}

/// Every element of `paths` comes strictly before all later ones.
pub open spec fn ascending(paths: Seq<Seq<u8>>) -> bool {
    forall|i: int, j: int| 0 <= i < j < paths.len() ==> bytes_less(paths[i], paths[j])
}

/// Nothing comes before itself.
pub proof fn lemma_bytes_less_irreflexive(a: Seq<u8>)
    ensures
        !bytes_less(a, a),
{
    if bytes_less(a, a) {
        let k = choose|k: int| less_at(a, a, k);
        assert(a[k] < a[k]);
    }
}

/// Byte order is transitive.
pub proof fn lemma_bytes_less_transitive(a: Seq<u8>, b: Seq<u8>, c: Seq<u8>)
    requires
        bytes_less(a, b),
        bytes_less(b, c),
    ensures
        bytes_less(a, c),
{
    let k1 = choose|k: int| less_at(a, b, k);
    let k2 = choose|k: int| less_at(b, c, k);
    let k = if k1 <= k2 {
        k1
    } else {
        k2
    };
    assert(less_at(a, c, k));
}

/// The outcome of comparing two byte strings.
#[derive(Clone, Copy, Debug, PartialEq, Eq, Structural)]
pub enum ByteOrder {
    /// The first comes strictly before the second.
    Before,
    /// The two are equal.
    Same,
    /// The first comes strictly after the second.
    After,
}

/// Compares two byte strings in byte order.
pub fn compare_bytes(a: &[u8], b: &[u8]) -> (order: ByteOrder)
    ensures
        match order {
            ByteOrder::Before => bytes_less(a@, b@),
            ByteOrder::Same => a@ == b@,
            ByteOrder::After => bytes_less(b@, a@),
        },
{
    let mut k: usize = 0;
    while k < a.len() && k < b.len()
        invariant
            k <= a.len(),
            k <= b.len(),
            forall|j: int| 0 <= j < k ==> a[j] == b[j],
        decreases a.len() - k,
    {
        if a[k] < b[k] {
            assert(less_at(a@, b@, k as int));
            return ByteOrder::Before;
        }
        if a[k] > b[k] {
            assert(less_at(b@, a@, k as int));
            return ByteOrder::After;
        }
        k += 1;
    }
    if k < b.len() {
        assert(less_at(a@, b@, k as int));
        ByteOrder::Before
    } else if k < a.len() {
        assert(less_at(b@, a@, k as int));
        ByteOrder::After
    } else {
        assert(a@ =~= b@);
        ByteOrder::Same
    }
}

/// A mapping from repository path to file status with unique keys.
#[derive(Debug, PartialEq, Eq)]
pub struct StatusMap {
    entries: Vec<(RepoPathBuf, FileStatus)>,
}

/// The paths of `entries`, in their order.
spec fn paths_of(entries: Seq<(RepoPathBuf, FileStatus)>) -> Seq<Seq<u8>> {
    Seq::new(entries.len(), |i: int| entries[i].0@)
}

/// Whether `i` is a position of `path` in `paths`.
spec fn is_at(paths: Seq<Seq<u8>>, path: Seq<u8>, i: int) -> bool {
    0 <= i < paths.len() && paths[i] == path
}

/// The mapping that `entries` stands for.
spec fn map_of(entries: Seq<(RepoPathBuf, FileStatus)>) -> Map<Seq<u8>, FileStatus> {
    Map::new(
        |path: Seq<u8>| exists|i: int| is_at(paths_of(entries), path, i),
        |path: Seq<u8>| entries[choose|i: int| is_at(paths_of(entries), path, i)].1,
    )
}

/// In an ascending sequence a path stands at one position at most.
proof fn lemma_position_is_unique(paths: Seq<Seq<u8>>, i: int, j: int)
    requires
        ascending(paths),
        0 <= i < paths.len(),
        0 <= j < paths.len(),
        paths[i] == paths[j],
    ensures
        i == j,
{
    lemma_bytes_less_irreflexive(paths[i]);
}

/// Each entry of an ascending sequence is what the mapping holds for its
/// path.
proof fn lemma_map_of_entry(entries: Seq<(RepoPathBuf, FileStatus)>, i: int)
    requires
        ascending(paths_of(entries)),
        0 <= i < entries.len(),
    ensures
        map_of(entries).contains_key(entries[i].0@),
        map_of(entries)[entries[i].0@] == entries[i].1,
{
    let paths = paths_of(entries);
    let path = entries[i].0@;
    assert(is_at(paths, path, i));
    let j = choose|j: int| is_at(paths, path, j);
    lemma_position_is_unique(paths, i, j);
}

/// A path that sorts strictly between two neighbours, or before the
/// first or after the last entry, is not a key.
proof fn lemma_gap_holds_no_key(entries: Seq<(RepoPathBuf, FileStatus)>, path: Seq<u8>, at: int)
    requires
        ascending(paths_of(entries)),
        0 <= at <= entries.len(),
        forall|j: int| 0 <= j < at ==> bytes_less(paths_of(entries)[j], path),
        forall|j: int| at <= j < entries.len() ==> bytes_less(path, paths_of(entries)[j]),
    ensures
        !map_of(entries).contains_key(path),
{
    lemma_bytes_less_irreflexive(path);
    assert forall|i: int| !is_at(paths_of(entries), path, i) by {
        if is_at(paths_of(entries), path, i) {
            if i < at {
                assert(bytes_less(paths_of(entries)[i], path));
            } else {
                assert(bytes_less(path, paths_of(entries)[i]));
            }
        }
    }
}

impl View for StatusMap {
    type V = Map<Seq<u8>, FileStatus>;

    closed spec fn view(&self) -> Map<Seq<u8>, FileStatus> {
        map_of(self.entries@)
    }
}

impl StatusMap {
    #[verifier::type_invariant]
    spec fn well_formed(&self) -> bool {
        ascending(paths_of(self.entries@))
    }

    /// The keys of the mapping, in the order in which it is walked.
    pub closed spec fn paths(&self) -> Seq<Seq<u8>> {
        paths_of(self.entries@)
    }

    /// An empty mapping.
    pub fn new() -> (m: StatusMap)
        ensures
            m@ == Map::<Seq<u8>, FileStatus>::empty(),
            m.paths() == Seq::<Seq<u8>>::empty(),
    {
        let m = StatusMap { entries: Vec::new() };
        assert(m@ =~= Map::<Seq<u8>, FileStatus>::empty());
        assert(m.paths() =~= Seq::<Seq<u8>>::empty());
        m
    }

    /// The number of entries. The keys are the paths of `paths()`, which
    /// stand in ascending byte order.
    pub fn len(&self) -> (n: usize)
        ensures
            n == self.paths().len(),
            ascending(self.paths()),
            self@.dom().finite(),
            self@.dom() == self.paths().to_set(),
            n == self@.len(),
    {
        proof {
            use_type_invariant(self);
            let paths = self.paths();
            assert(self@.dom() =~= paths.to_set()) by {
                assert forall|p: Seq<u8>| self@.dom().contains(p) <==> paths.to_set().contains(
                    p,
                ) by {
                    if self@.dom().contains(p) {
                        let i = choose|i: int| is_at(paths, p, i);
                        assert(paths[i] == p);
                    }
                    if paths.to_set().contains(p) {
                        let i = choose|i: int| 0 <= i < paths.len() && paths[i] == p;
                        assert(is_at(paths, p, i));
                    }
                }
            }
            assert(paths.no_duplicates()) by {
                assert forall|i: int, j: int|
                    0 <= i < paths.len() && 0 <= j < paths.len() && i != j implies paths[i]
                    != paths[j] by {
                    if paths[i] == paths[j] {
                        lemma_position_is_unique(paths, i, j);
                    }
                }
            }
            paths.unique_seq_to_set();
            vstd::seq_lib::seq_to_set_is_finite(paths);
        }
        self.entries.len()
    }

    /// Whether the mapping has no entry.
    pub fn is_empty(&self) -> (empty: bool)
        ensures
            empty == (self@ == Map::<Seq<u8>, FileStatus>::empty()),
    {
        let n = self.len();
        proof {
            if n == 0 {
                assert(self@.dom() =~= Set::<Seq<u8>>::empty());
                assert(self@ =~= Map::<Seq<u8>, FileStatus>::empty());
            } else {
                assert(self@.dom().len() != 0);
            }
        }
        n == 0
    }

    /// Where `path` stands among the entries, or where it would have to be
    /// put.
    fn locate(&self, path: &[u8]) -> (found: (usize, bool))
        ensures
            found.0 <= self.entries.len(),
            found.1 ==> found.0 < self.entries.len() && self.entries[found.0 as int].0@ == path@,
            !found.1 ==> forall|j: int|
                0 <= j < found.0 ==> bytes_less(paths_of(self.entries@)[j], path@),
            !found.1 ==> forall|j: int|
                found.0 <= j < self.entries.len() ==> bytes_less(
                    path@,
                    paths_of(self.entries@)[j],
                ),
    {
        proof {
            use_type_invariant(self);
        }
        let ghost paths = paths_of(self.entries@);
        let mut low: usize = 0;
        let mut high: usize = self.entries.len();
        while low < high
            invariant
                low <= high <= self.entries.len(),
                paths == paths_of(self.entries@),
                ascending(paths),
                forall|j: int| 0 <= j < low ==> bytes_less(paths[j], path@),
                forall|j: int| high <= j < paths.len() ==> bytes_less(path@, paths[j]),
            decreases high - low,
        {
            let mid: usize = low + (high - low) / 2;
            match compare_bytes(self.entries[mid].0.as_bytes(), path) {
                ByteOrder::Same => {
                    return (mid, true);
                },
                ByteOrder::Before => {
                    assert forall|j: int| 0 <= j < mid + 1 implies bytes_less(paths[j], path@) by {
                        if j < mid {
                            lemma_bytes_less_transitive(paths[j], paths[mid as int], path@);
                        }
                    }
                    low = mid + 1;
                },
                ByteOrder::After => {
                    assert forall|j: int| mid <= j < paths.len() implies bytes_less(
                        path@,
                        paths[j],
                    ) by {
                        if mid < j {
                            lemma_bytes_less_transitive(path@, paths[mid as int], paths[j]);
                        }
                    }
                    high = mid;
                },
            }
        }
        (low, false)
    }

    /// The status recorded for `path`, if there is one.
    pub fn get(&self, path: &[u8]) -> (status: Option<FileStatus>)
        ensures
            status == if self@.contains_key(path@) {
                Some(self@[path@])
            } else {
                None
            },
    {
        proof {
            use_type_invariant(self);
        }
        let (at, found) = self.locate(path);
        if found {
            proof {
                lemma_map_of_entry(self.entries@, at as int);
            }
            Some(self.entries[at].1)
        } else {
            proof {
                lemma_gap_holds_no_key(self.entries@, path@, at as int);
            }
            None
        }
    }

    /// Whether `path` is a key of the mapping.
    pub fn contains_key(&self, path: &[u8]) -> (present: bool)
        ensures
            present == self@.contains_key(path@),
    {
        self.get(path).is_some()
    }

    /// Records `status` for `path`, in place of any status recorded for it
    /// before, and returns that earlier status.
    pub fn insert(&mut self, path: RepoPathBuf, status: FileStatus) -> (previous: Option<
        FileStatus,
    >)
        ensures
            final(self)@ == old(self)@.insert(path@, status),
            previous == if old(self)@.contains_key(path@) {
                Some(old(self)@[path@])
            } else {
                None
            },
    {
        proof {
            use_type_invariant(&*self);
        }
        let ghost before = self.entries@;
        let ghost key = path@;
        let (at, found) = self.locate(path.as_bytes());
        if found {
            let previous = self.entries[at].1;
            proof {
                lemma_map_of_entry(before, at as int);
            }
            let mut entries: Vec<(RepoPathBuf, FileStatus)> = Vec::new();
            std::mem::swap(&mut self.entries, &mut entries);
            entries[at] = (path, status);
            let ghost after = entries@;
            assert(paths_of(after) =~= paths_of(before));
            self.entries = entries;
            proof {
                assert(map_of(after) =~= map_of(before).insert(key, status)) by {
                    assert forall|p: Seq<u8>| #[trigger]
                        map_of(after).contains_key(p) <==> map_of(before).insert(
                            key,
                            status,
                        ).contains_key(p) by {
                        assert(is_at(paths_of(before), key, at as int));
                    }
                    assert forall|p: Seq<u8>| #[trigger] map_of(after).contains_key(p) implies map_of(
                        after,
                    )[p] == map_of(before).insert(key, status)[p] by {
                        let i = choose|i: int| is_at(paths_of(after), p, i);
                        lemma_map_of_entry(after, i);
                        lemma_map_of_entry(before, i);
                        if p == key {
                            lemma_position_is_unique(paths_of(after), i, at as int);
                        } else {
                            assert(i != at);
                        }
                    }
                }
            }
            Some(previous)
        } else {
            proof {
                lemma_gap_holds_no_key(before, key, at as int);
            }
            let mut entries: Vec<(RepoPathBuf, FileStatus)> = Vec::new();
            std::mem::swap(&mut self.entries, &mut entries);
            entries.insert(at, (path, status));
            let ghost after = entries@;
            let ghost old_paths = paths_of(before);
            let ghost new_paths = paths_of(after);
            proof {
                assert(new_paths =~= old_paths.insert(at as int, key));
                assert(ascending(new_paths)) by {
                    assert forall|i: int, j: int| 0 <= i < j < new_paths.len() implies bytes_less(
                        new_paths[i],
                        new_paths[j],
                    ) by {
                        if j < at {
                            assert(new_paths[i] == old_paths[i] && new_paths[j] == old_paths[j]);
                        } else if j == at {
                            assert(new_paths[i] == old_paths[i]);
                        } else if i < at {
                            assert(new_paths[i] == old_paths[i] && new_paths[j] == old_paths[j
                                - 1]);
                        } else if i == at {
                            assert(new_paths[j] == old_paths[j - 1]);
                        } else {
                            assert(new_paths[i] == old_paths[i - 1] && new_paths[j] == old_paths[j
                                - 1]);
                        }
                    }
                }
            }
            self.entries = entries;
            proof {
                assert(map_of(after) =~= map_of(before).insert(key, status)) by {
                    assert forall|p: Seq<u8>| #[trigger]
                        map_of(after).contains_key(p) <==> map_of(before).insert(
                            key,
                            status,
                        ).contains_key(p) by {
                        if map_of(after).contains_key(p) {
                            let i = choose|i: int| is_at(new_paths, p, i);
                            if i < at {
                                assert(is_at(old_paths, p, i));
                            } else if i > at {
                                assert(is_at(old_paths, p, i - 1));
                            }
                        }
                        if map_of(before).contains_key(p) {
                            let i = choose|i: int| is_at(old_paths, p, i);
                            if i < at {
                                assert(is_at(new_paths, p, i));
                            } else {
                                assert(is_at(new_paths, p, i + 1));
                            }
                        }
                        if p == key {
                            assert(is_at(new_paths, p, at as int));
                        }
                    }
                    assert forall|p: Seq<u8>| #[trigger] map_of(after).contains_key(p) implies map_of(
                        after,
                    )[p] == map_of(before).insert(key, status)[p] by {
                        let i = choose|i: int| is_at(new_paths, p, i);
                        lemma_map_of_entry(after, i);
                        if i < at {
                            lemma_map_of_entry(before, i);
                        } else if i > at {
                            lemma_map_of_entry(before, i - 1);
                        }
                    }
                }
            }
            None
        }
    }

    /// The entry at position `i` of the walk in ascending path order.
    pub fn entry_at(&self, i: usize) -> (entry: (&RepoPathBuf, FileStatus))
        requires
            i < self.paths().len(),
        ensures
            entry.0@ == self.paths()[i as int],
            self@.contains_key(entry.0@),
            entry.1 == self@[entry.0@],
    {
        proof {
            use_type_invariant(self);
            lemma_map_of_entry(self.entries@, i as int);
        }
        (&self.entries[i].0, self.entries[i].1)
    }
}

} // verus!
