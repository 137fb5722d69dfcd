//! A repository of config files, by id.
//!
//! Reading the files (bundled or from the user's directory) and extracting
//! each config's name happen outside; the repository holds what was read.

use vstd::prelude::*;

verus! {

/// An entry in the repository: the config's name and its raw contents.
#[derive(Debug, Clone)]
pub struct RepositoryEntry {
    /// The name as read from the config-file
    name: String,
    /// The raw contents of the config-file
    contents: Vec<u8>,
}

impl RepositoryEntry {
    /// The name.
    pub closed spec fn spec_name(&self) -> Seq<char> {
        self.name@
    }

    /// The raw contents.
    pub closed spec fn spec_contents(&self) -> Seq<u8> {
        self.contents@
    }

    /// Creates an entry from a config's name and contents.
    pub fn new(name: String, contents: Vec<u8>) -> (r: Self)
        ensures
            r.spec_name() == name@,
            r.spec_contents() == contents@,
    {
        RepositoryEntry { name, contents }
    }

    /// Creates an entry together with its `id`, ready for insertion.
    pub fn new_with_id(id: String, name: String, contents: Vec<u8>) -> (r: (String, Self))
        ensures
            r.0@ == id@,
            r.1.spec_name() == name@,
            r.1.spec_contents() == contents@,
    {
        (id, RepositoryEntry::new(name, contents))
    }

    /// The name of this entry
    pub fn name(&self) -> (r: &str)
        ensures
            r@ == self.spec_name(),
    {
        self.name.as_str()
    }

    /// The contents of this entry
    pub fn contents(&self) -> (r: &[u8])
        ensures
            r@ == self.spec_contents(),
    {
        self.contents.as_slice()
    }
}

/// The ids of `entries`.
pub open spec fn entry_ids(entries: Seq<(String, RepositoryEntry)>) -> Seq<Seq<char>> {
    entries.map_values(|e: (String, RepositoryEntry)| e.0@)
}

/// No id occurs twice.
pub open spec fn unique_ids(ids: Seq<Seq<char>>) -> bool {
    forall|i: int, j: int| 0 <= i < j < ids.len() ==> ids[i] != ids[j]
}

/// A repository of config files: at most one entry per id.
pub struct Repository {
    entries: Vec<(String, RepositoryEntry)>,
}

impl Repository {
    /// The entries, by id.
    pub closed spec fn spec_entries(&self) -> Seq<(String, RepositoryEntry)> {
        self.entries@
    }

    /// The ids of the entries.
    pub open spec fn ids(&self) -> Seq<Seq<char>> {
        entry_ids(self.spec_entries())
    }

    /// No id occurs twice.
    pub open spec fn wf(&self) -> bool {
        unique_ids(self.ids())
    }

    /// The entry with `id`, if there is one.
    pub open spec fn spec_get(&self, id: Seq<char>) -> Option<RepositoryEntry> {
        if exists|i: int| 0 <= i < self.ids().len() && self.ids()[i] == id {
            let i = choose|i: int| 0 <= i < self.ids().len() && self.ids()[i] == id;
            Some(self.spec_entries()[i].1)
        } else {
            None
        }
    }

    /// In a repository without repeated ids, the entry at index `i` is the
    /// one for its id.
    proof fn lemma_get_at(&self, i: int)
        requires
            self.wf(),
            0 <= i < self.ids().len(),
        ensures
            self.spec_get(self.ids()[i]) == Some(self.spec_entries()[i].1),
    {
        let id = self.ids()[i];
        let k = choose|k: int| 0 <= k < self.ids().len() && self.ids()[k] == id;
        assert(k == i);
    }

    /// Creates a new empty repository
    pub fn empty() -> (r: Self)
        ensures
            r.wf(),
            r.ids().len() == 0,
    {
        Repository { entries: Vec::new() }
    }

    /// The index of the entry with `id`, if there is one.
    fn find(&self, id: &String) -> (r: Option<usize>)
        requires
            self.wf(),
        ensures
            r is Some ==> r.unwrap() < self.ids().len() && self.ids()[r.unwrap() as int] == id@,
            r is None ==> forall|i: int| 0 <= i < self.ids().len() ==> self.ids()[i] != id@,
    {
        let mut i: usize = 0;
        while i < self.entries.len()
            invariant
                0 <= i <= self.entries@.len(),
                forall|j: int| 0 <= j < i ==> self.ids()[j] != id@,
            decreases self.entries.len() - i,
        {
            if self.entries[i].0 == *id {
                return Some(i);
            }
            i = i + 1;
        }
        None
    }

    /// Inserts `entry` under `id`, replacing an entry with the same id.
    pub fn insert(&mut self, id: String, entry: RepositoryEntry)
        requires
            old(self).wf(),
        ensures
            final(self).wf(),
            final(self).spec_get(id@) == Some(entry),
            forall|other: Seq<char>| other != id@ ==> final(self).spec_get(other) == old(self).spec_get(other),
    {
        let ghost before = *self;
        match self.find(&id) {
            Some(i) => {
                self.entries.set(i, (id, entry));
                proof {
                    assert(self.ids() =~= before.ids());
                    self.lemma_get_at(i as int);
                    assert forall|other: Seq<char>| other != self.ids()[i as int] implies self.spec_get(
                        other,
                    ) == before.spec_get(other) by {
                        if exists|k: int| 0 <= k < self.ids().len() && self.ids()[k] == other {
                            let k = choose|k: int| 0 <= k < self.ids().len() && self.ids()[k] == other;
                            self.lemma_get_at(k);
                            before.lemma_get_at(k);
                        }
                    }
                }
            },
            None => {
                self.entries.push((id, entry));
                proof {
                    let n = before.ids().len() as int;
                    assert(self.ids() =~= before.ids().push(id@));
                    self.lemma_get_at(n);
                    assert forall|other: Seq<char>| other != self.ids()[n] implies self.spec_get(other)
                        == before.spec_get(other) by {
                        if exists|k: int| 0 <= k < self.ids().len() && self.ids()[k] == other {
                            let k = choose|k: int| 0 <= k < self.ids().len() && self.ids()[k] == other;
                            self.lemma_get_at(k);
                            before.lemma_get_at(k);
                        }
                        if exists|k: int| 0 <= k < before.ids().len() && before.ids()[k] == other {
                            let k = choose|k: int|
                                0 <= k < before.ids().len() && before.ids()[k] == other;
                            assert(self.ids()[k] == other);
                            self.lemma_get_at(k);
                            before.lemma_get_at(k);
                        }
                    }
                }
            },
        }
    }

    /// Inserts all `entries`, in order (a later entry replaces an earlier one
    /// with the same id).
    pub fn insert_results(&mut self, entries: Vec<(String, RepositoryEntry)>)
        requires
            old(self).wf(),
        ensures
            final(self).wf(),
            forall|id: Seq<char>| (exists|i: int| 0 <= i < entries@.len() && entries@[i].0@ == id)
                ==> final(self).spec_get(id) is Some,
            forall|id: Seq<char>| !(exists|i: int| 0 <= i < entries@.len() && entries@[i].0@ == id)
                ==> final(self).spec_get(id) == old(self).spec_get(id),
    {
        let mut entries = entries;
        let ghost all = entries@;
        let mut n: usize = entries.len();
        let mut remaining: Vec<(String, RepositoryEntry)> = Vec::new();
        // Reverse, so that popping yields the entries in their given order.
        while n > 0
            invariant
                n == entries@.len(),
                n <= all.len(),
                entries@ == all.subrange(0, n as int),
                remaining@.len() == all.len() - n,
                forall|k: int| 0 <= k < remaining@.len() ==> remaining@[k] == all[all.len() - 1 - k],
            decreases n,
        {
            let e = entries.pop().unwrap();
            remaining.push(e);
            n = n - 1;
        }
        let ghost start = *self;
        let mut m: usize = remaining.len();
        while m > 0
            invariant
                m == remaining@.len(),
                m <= all.len(),
                forall|k: int| 0 <= k < remaining@.len() ==> remaining@[k] == all[all.len() - 1 - k],
                self.wf(),
                forall|id: Seq<char>| (exists|i: int| 0 <= i < all.len() - m && all[i].0@ == id)
                    ==> self.spec_get(id) is Some,
                forall|id: Seq<char>| !(exists|i: int| 0 <= i < all.len() - m && all[i].0@ == id)
                    ==> self.spec_get(id) == start.spec_get(id),
            decreases m,
        {
            let (id, entry) = remaining.pop().unwrap();
            let ghost j = all.len() - m;
            assert(all[j].0@ == id@);
            self.insert(id, entry);
            m = m - 1;
            proof {
                assert forall|other: Seq<char>| (exists|i: int| 0 <= i < all.len() - m && all[i].0@
                    == other) implies self.spec_get(other) is Some by {
                    let i = choose|i: int| 0 <= i < all.len() - m && all[i].0@ == other;
                    if i < j {
                        assert(exists|i: int| 0 <= i < j && all[i].0@ == other);
                    }
                }
                assert forall|other: Seq<char>| !(exists|i: int| 0 <= i < all.len() - m && all[i].0@
                    == other) implies self.spec_get(other) == start.spec_get(other) by {
                    assert(!(exists|i: int| 0 <= i < j && all[i].0@ == other)) by {
                        if exists|i: int| 0 <= i < j && all[i].0@ == other {
                            let i = choose|i: int| 0 <= i < j && all[i].0@ == other;
                            assert(0 <= i < all.len() - m);
                        }
                    }
                    assert(other != all[j].0@);
                }
            }
        }
    }

    /// The `(id, name)`-pairs of the entries
    pub fn list(&self) -> (r: Vec<(String, String)>)
        ensures
            r@.len() == self.ids().len(),
            forall|i: int|
                0 <= i < r@.len() ==> r@[i].0@ == self.ids()[i] && r@[i].1@
                    == self.spec_entries()[i].1.spec_name(),
    {
        let mut r: Vec<(String, String)> = Vec::new();
        let mut i: usize = 0;
        while i < self.entries.len()
            invariant
                0 <= i <= self.entries@.len(),
                r@.len() == i,
                forall|k: int|
                    0 <= k < i ==> r@[k].0@ == self.ids()[k] && r@[k].1@
                        == self.spec_entries()[k].1.spec_name(),
            decreases self.entries.len() - i,
        {
            let id = self.entries[i].0.clone();
            let name = self.entries[i].1.name.clone();
            let ghost before = r@;
            r.push((id, name));
            proof {
                assert(self.ids()[i as int] == self.entries@[i as int].0@);
                assert forall|k: int| 0 <= k < i + 1 implies r@[k].0@ == self.ids()[k] && r@[k].1@
                    == self.spec_entries()[k].1.spec_name() by {
                    if k < i {
                        assert(r@[k] == before[k]);
                    }
                }
            }
            i = i + 1;
        }
        r
    }

    /// The raw contents of the entry with `id`; [None] if there is no such entry.
    pub fn get_raw(&self, id: &String) -> (r: Option<&[u8]>)
        requires
            self.wf(),
        ensures
            match self.spec_get(id@) {
                Some(e) => r is Some && r.unwrap()@ == e.spec_contents(),
                None => r is None,
            },
    {
        match self.find(id) {
            Some(i) => {
                proof {
                    self.lemma_get_at(i as int);
                }
                Some(self.entries[i].1.contents())
            },
            None => None,
        }
    }

    /// Whether the repository has an entry with `id`
    pub fn has(&self, id: &String) -> (r: bool)
        requires
            self.wf(),
        ensures
            r == self.spec_get(id@) is Some,
    {
        match self.find(id) {
            Some(i) => {
                proof {
                    self.lemma_get_at(i as int);
                }
                true
            },
            None => false,
        }
    }
}

} // verus!
