//! A model of the managed portion of the filesystem.
//!
//! Actions change machine state.  So that every action's effect can be
//! stated and proved, the engine works over an explicit value of type
//! [`FileSystem`]: a finite map from paths (byte strings) to entries.
//! The embedding program owns the translation between this value and the
//! real machine.

use vstd::prelude::*;

verus! {

/// One entry of the managed filesystem.
#[derive(Debug, PartialEq, Clone)]
pub enum FsEntry {
    Dir { mode: u32 },
    File { mode: u32, content: Vec<u8> },
}

/// Mathematical value of an [`FsEntry`].
#[verifier::ext_equal]
pub enum FsEntryView {
    Dir { mode: u32 },
    File { mode: u32, content: Seq<u8> },
}

impl View for FsEntry {
    type V = FsEntryView;

    open spec fn view(&self) -> FsEntryView {
        match self {
            FsEntry::Dir { mode } => FsEntryView::Dir { mode: *mode },
            FsEntry::File { mode, content } => FsEntryView::File {
                mode: *mode,
                content: content@,
            },
        }
    }
}

/// The managed filesystem: a finite map from paths to entries.
#[derive(Debug, PartialEq, Clone)]
pub struct FileSystem {
    entries: Vec<(Vec<u8>, FsEntry)>,
}

/// The map denoted by an association list, later entries winning.
pub open spec fn entries_map(s: Seq<(Vec<u8>, FsEntry)>) -> Map<Seq<u8>, FsEntryView>
    decreases s.len(),
{
    if s.len() == 0 {
        Map::empty()
    } else {
        entries_map(s.drop_last()).insert(s.last().0@, s.last().1@)
    }
}

/// Keys are pairwise distinct.
pub open spec fn distinct_keys(s: Seq<(Vec<u8>, FsEntry)>) -> bool {
    forall|i: int, j: int| 0 <= i < j < s.len() ==> s[i].0@ != s[j].0@
}

proof fn lemma_entries_map_contains(s: Seq<(Vec<u8>, FsEntry)>, k: Seq<u8>)
    ensures
        entries_map(s).contains_key(k) <==> exists|i: int| 0 <= i < s.len() && s[i].0@ == k,
    decreases s.len(),
{
    if s.len() > 0 {
        lemma_entries_map_contains(s.drop_last(), k);
        if entries_map(s).contains_key(k) {
            if s.last().0@ == k {
                assert(s[s.len() - 1].0@ == k);
            } else {
                let i = choose|i: int| 0 <= i < s.drop_last().len() && s.drop_last()[i].0@ == k;
                assert(s[i].0@ == k);
            }
        }
        if exists|i: int| 0 <= i < s.len() && s[i].0@ == k {
            let i = choose|i: int| 0 <= i < s.len() && s[i].0@ == k;
            if i < s.len() - 1 {
                assert(s.drop_last()[i].0@ == k);
            }
        }
    }
}

proof fn lemma_entries_map_get(s: Seq<(Vec<u8>, FsEntry)>, i: int)
    requires
        distinct_keys(s),
        0 <= i < s.len(),
    ensures
        entries_map(s).contains_key(s[i].0@),
        entries_map(s)[s[i].0@] == s[i].1@,
    decreases s.len(),
{
    if i < s.len() - 1 {
        assert(distinct_keys(s.drop_last()));
        assert(s.drop_last()[i] == s[i]);
        lemma_entries_map_get(s.drop_last(), i);
        assert(s[i].0@ != s.last().0@);
    }
}

proof fn lemma_entries_map_remove_idx(s: Seq<(Vec<u8>, FsEntry)>, i: int)
    requires
        distinct_keys(s),
        0 <= i < s.len(),
    ensures
        entries_map(s.remove(i)) =~= entries_map(s).remove(s[i].0@),
    decreases s.len(),
{
    let k = s[i].0@;
    if i == s.len() - 1 {
        assert(s.remove(i) =~= s.drop_last());
        assert(forall|j: int|
            0 <= j < s.drop_last().len() ==> s.drop_last()[j].0@ != k);
        lemma_entries_map_contains(s.drop_last(), k);
        assert(entries_map(s.drop_last()).remove(k) =~= entries_map(s.drop_last()));
    } else {
        let t = s.remove(i);
        assert(t.last() == s.last());
        assert(t.drop_last() =~= s.drop_last().remove(i));
        assert(distinct_keys(s.drop_last()));
        lemma_entries_map_remove_idx(s.drop_last(), i);
        assert(s.last().0@ != k);
        assert(entries_map(s.drop_last()).remove(k).insert(s.last().0@, s.last().1@)
            =~= entries_map(s.drop_last()).insert(s.last().0@, s.last().1@).remove(k));
    }
}

impl View for FileSystem {
    type V = Map<Seq<u8>, FsEntryView>;

    closed spec fn view(&self) -> Map<Seq<u8>, FsEntryView> {
        entries_map(self.entries@)
    }
}

impl FileSystem {
    /// Internal invariant: one entry per path.
    pub closed spec fn wf(self) -> bool {
        distinct_keys(self.entries@)
    }

    /// An empty filesystem.
    pub fn new() -> (r: FileSystem)
        ensures
            r.wf(),
            r@ == Map::<Seq<u8>, FsEntryView>::empty(),
    {
        FileSystem { entries: Vec::new() }
    }

    /// Index of the entry at `path`, if one is present.
    fn find(&self, path: &Vec<u8>) -> (r: Option<usize>)
        requires
            self.wf(),
        ensures
            match r {
                Some(i) => i < self.entries@.len() && self.entries@[i as int].0@ == path@,
                None => !self@.contains_key(path@),
            },
    {
        let n = self.entries.len();
        let mut i: usize = 0;
        while i < n
            invariant
                n == self.entries@.len(),
                i <= n,
                forall|j: int| 0 <= j < i ==> self.entries@[j].0@ != path@,
            decreases n - i,
        {
            if self.entries[i].0 == *path {
                assert(self.entries@[i as int].0@ =~= path@);
                return Some(i);
            }
            proof {
                // the executable comparison decides view equality
                assert(!(self.entries@[i as int].0@ =~= path@));
            }
            i += 1;
        }
        proof {
            lemma_entries_map_contains(self.entries@, path@);
        }
        None
    }

    /// The entry at `path`, if one is present.
    pub fn get(&self, path: &Vec<u8>) -> (r: Option<&FsEntry>)
        requires
            self.wf(),
        ensures
            match r {
                Some(e) => self@.contains_key(path@) && e@ == self@[path@],
                None => !self@.contains_key(path@),
            },
    {
        match self.find(path) {
            Some(i) => {
                proof {
                    lemma_entries_map_get(self.entries@, i as int);
                }
                Some(&self.entries[i].1)
            },
            None => None,
        }
    }

    /// Whether an entry is present at `path`.
    pub fn contains(&self, path: &Vec<u8>) -> (r: bool)
        requires
            self.wf(),
        ensures
            r == self@.contains_key(path@),
    {
        match self.get(path) {
            Some(_) => true,
            None => false,
        }
    }

    /// Removes the entry at `path`; nothing happens when none is present.
    pub fn remove(&mut self, path: &Vec<u8>)
        requires
            old(self).wf(),
        ensures
            final(self).wf(),
            final(self)@ == old(self)@.remove(path@),
    {
        match self.find(path) {
            Some(i) => {
                proof {
                    lemma_entries_map_remove_idx(self.entries@, i as int);
                }
                let _ = self.entries.remove(i);
                assert(self.wf());
            },
            None => {
                proof {
                    assert(self@.remove(path@) =~= self@);
                }
            },
        }
    }

    /// The entries, one per path, for an embedding program to walk.
    pub fn entries(&self) -> (r: &Vec<(Vec<u8>, FsEntry)>)
        requires
            self.wf(),
        ensures
            entries_map(r@) == self@,
            distinct_keys(r@),
    {
        &self.entries
    }

    /// Sets the entry at `path`, replacing any entry already there.
    pub fn insert(&mut self, path: Vec<u8>, entry: FsEntry)
        requires
            old(self).wf(),
        ensures
            final(self).wf(),
            final(self)@ == old(self)@.insert(path@, entry@),
    {
        self.remove(&path);
        proof {
            lemma_entries_map_contains(self.entries@, path@);
        }
        let ghost pre = self.entries@;
        self.entries.push((path, entry));
        proof {
            assert(self.entries@.drop_last() =~= pre);
            assert(self@ =~= old(self)@.insert(self.entries@.last().0@, self.entries@.last().1@));
        }
    }
}

} // verus!
