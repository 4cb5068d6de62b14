//! Manifests of asset directory trees: the tree itself, and the set of files it holds for quick
//! lookups.
use vstd::prelude::*;
use crate::text::str_eq;

verus! {

/// A manifest of a directory tree. Paths are relative to the root of the tree.
#[derive(Debug)]
pub enum ManifestEntry {
    Directory { path: &'static str, children: Vec<ManifestEntry> },
    File { path: &'static str },
}

impl ManifestEntry {
    /// The path of this entry.
    pub fn path(&self) -> (r: &'static str)
        ensures
            r == (match self {
                ManifestEntry::Directory { path, .. } => *path,
                ManifestEntry::File { path } => *path,
            }),
    {
        match self {
            ManifestEntry::Directory { path, .. } => path,
            ManifestEntry::File { path } => path,
        }
    }
}

/// The paths of the files in the tree `e`.
pub open spec fn entry_files(e: ManifestEntry) -> Set<Seq<char>>
    decreases e, 0int,
{
    match e {
        ManifestEntry::File { path } => set![path@],
        ManifestEntry::Directory { children, .. } => entries_files(children@),
    }
}

/// The paths of the files in the trees `es`.
pub open spec fn entries_files(es: Seq<ManifestEntry>) -> Set<Seq<char>>
    decreases es, 1int,
{
    if es.len() == 0 {
        Set::empty()
    } else {
        entries_files(es.drop_last()).union(entry_files(es.last()))
    }
}

/// The paths held by `v`.
pub open spec fn path_set(v: Seq<&'static str>) -> Set<Seq<char>> {
    Set::new(|p: Seq<char>| exists|i: int| 0 <= i < v.len() && (#[trigger] v[i])@ == p)
}

/// Whether no path occurs twice in `v`.
pub open spec fn paths_distinct(v: Seq<&'static str>) -> bool {
    forall|i: int, j: int| 0 <= i < j < v.len() ==> (#[trigger] v[i])@ != (#[trigger] v[j])@
}

/// A manifest of a directory tree along with the set of files it contains for easy lookups.
#[derive(Debug)]
pub struct Manifest {
    entry: ManifestEntry,
    file_set: Vec<&'static str>,
}

impl Manifest {
    /// The tree of this manifest.
    pub closed spec fn spec_root(&self) -> ManifestEntry {
        self.entry
    }

    /// The files of this manifest, each once.
    pub closed spec fn spec_file_set(&self) -> Seq<&'static str> {
        self.file_set@
    }

    /// The manifest of the tree `entry`.
    pub fn new(entry: ManifestEntry) -> (r: Self)
        ensures
            r.spec_root() == entry,
            paths_distinct(r.spec_file_set()),
            path_set(r.spec_file_set()) == entry_files(entry),
    {
        let mut file_set: Vec<&'static str> = Vec::new();
        Self::populate_file_set(&mut file_set, &entry);
        assert(path_set(Seq::<&'static str>::empty()) =~= Set::<Seq<char>>::empty());
        assert(path_set(file_set@) =~= entry_files(entry));
        Manifest { entry, file_set }
    }

    /// Adds the files of `entry` to `file_set`, keeping each path once.
    fn populate_file_set(file_set: &mut Vec<&'static str>, entry: &ManifestEntry)
        requires
            paths_distinct(old(file_set)@),
        ensures
            paths_distinct(final(file_set)@),
            path_set(final(file_set)@) == path_set(old(file_set)@).union(entry_files(*entry)),
        decreases entry,
    {
        match entry {
            ManifestEntry::Directory { children, .. } => {
                let ghost start = file_set@;
                let mut i: usize = 0;
                assert(children@.take(0) =~= Seq::<ManifestEntry>::empty());
                assert(path_set(start).union(entries_files(Seq::empty())) =~= path_set(start));
                while i < children.len()
                    invariant
                        *entry matches ManifestEntry::Directory { children: c, .. } && c == *children,
                        i <= children@.len(),
                        paths_distinct(file_set@),
                        path_set(file_set@) == path_set(start).union(entries_files(children@.take(i as int))),
                    decreases children@.len() - i,
                {
                    assert(children@.take(i + 1).drop_last() =~= children@.take(i as int));
                    assert(children@.take(i + 1).last() == children@[i as int]);
                    Self::populate_file_set(file_set, &children[i]);
                    assert(path_set(file_set@) =~= path_set(start).union(entries_files(children@.take(i + 1))));
                    i = i + 1;
                }
                assert(children@.take(children@.len() as int) =~= children@);
            },
            ManifestEntry::File { path } => {
                let ghost before = file_set@;
                let mut k: usize = 0;
                let mut present = false;
                while k < file_set.len()
                    invariant
                        k <= file_set@.len(),
                        present <==> exists|j: int| 0 <= j < k && (#[trigger] file_set@[j])@ == path@,
                    decreases file_set@.len() - k,
                {
                    if str_eq(file_set[k], path) {
                        present = true;
                    }
                    k = k + 1;
                }
                if !present {
                    file_set.push(path);
                    proof {
                        assert forall|i: int, j: int| 0 <= i < j < file_set@.len() implies (#[trigger] file_set@[i])@
                            != (#[trigger] file_set@[j])@ by {
                            if j == file_set@.len() - 1 {
                                assert(file_set@[i] == before[i]);
                            } else {
                                assert(file_set@[i] == before[i]);
                                assert(file_set@[j] == before[j]);
                            }
                        }
                        assert forall|p: Seq<char>| path_set(file_set@).contains(p) <==> path_set(before).union(set![path@]).contains(p) by {
                            if path_set(before).contains(p) {
                                let i = choose|i: int| 0 <= i < before.len() && (#[trigger] before[i])@ == p;
                                assert(file_set@[i] == before[i]);
                            }
                            if path_set(file_set@).contains(p) {
                                let i = choose|i: int| 0 <= i < file_set@.len() && (#[trigger] file_set@[i])@ == p;
                                if i < before.len() {
                                    assert(file_set@[i] == before[i]);
                                }
                            }
                            if p == path@ {
                                assert(file_set@[before.len() as int] == *path);
                            }
                        }
                        assert(path_set(file_set@) =~= path_set(before).union(set![path@]));
                    }
                } else {
                    assert(path_set(before).union(set![path@]) =~= path_set(before));
                }
            },
        }
    }

    /// The tree of this manifest.
    pub fn root(&self) -> (r: &ManifestEntry)
        ensures
            *r == self.spec_root(),
    {
        &self.entry
    }

    /// The files of this manifest, each once.
    pub fn file_set(&self) -> (r: &Vec<&'static str>)
        ensures
            r@ == self.spec_file_set(),
    {
        &self.file_set
    }
}

} // verus!
