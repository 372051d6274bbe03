//! The mapping from a folder to a list of names, one per kind of skip.

use vstd::prelude::*;

verus! {

/// One folder with the names listed under it.
#[derive(Debug)]
struct Entry {
    folder: String,
    names: Vec<String>,
}

/// A mapping from folder names to lists of names.
///
/// Every folder occurs once. The folders keep the order in which they were
/// first inserted, and each list keeps the order of its names.
#[derive(Debug)]
pub struct FilterMap {
    entries: Vec<Entry>,
}

impl View for FilterMap {
    type V = Map<Seq<char>, Seq<Seq<char>>>;

    /// The list stored under each folder.
    closed spec fn view(&self) -> Map<Seq<char>, Seq<Seq<char>>> {
        Map::new(
            |k: Seq<char>| self.folders().contains(k),
            |k: Seq<char>| self.entries[self.folders().index_of(k)].names.deep_view(),
        )
    }
}

/// Whether `name` is one of `names`.
pub fn contains_name(names: &Vec<String>, name: &String) -> (found: bool)
    ensures
        found == names.deep_view().contains(name@),
{
    let mut i: usize = 0;
    while i < names.len()
        invariant
            i <= names.len(),
            forall|j: int| 0 <= j < i ==> names.deep_view()[j] != name@,
        decreases names.len() - i,
    {
        if names[i] == *name {
            assert(names.deep_view()[i as int] == name@);
            return true;
        }
        i += 1;
    }
    false
}

impl FilterMap {
    /// The folders, in the order in which they are stored.
    pub closed spec fn folders(&self) -> Seq<Seq<char>> {
        Seq::new(self.entries.len() as nat, |i: int| self.entries[i].folder@)
    }

    /// No folder is stored twice.
    #[verifier::type_invariant]
    pub open spec fn wf(&self) -> bool {
        self.folders().no_duplicates()
    }

    /// The folders are the keys of the mapping.
    pub proof fn lemma_folders_are_keys(&self)
        ensures
            forall|k: Seq<char>| self.folders().contains(k) <==> #[trigger] self@.contains_key(k),
            forall|i: int|
                0 <= i < self.folders().len() ==> self@.contains_key(#[trigger] self.folders()[i]),
    {
    }

    /// What is stored under the folder at position `i`.
    proof fn lemma_view_at(&self, i: int)
        requires
            self.wf(),
            0 <= i < self.entries.len(),
        ensures
            self@.contains_key(self.entries[i].folder@),
            self@[self.entries[i].folder@] == self.entries[i].names.deep_view(),
    {
        let k = self.entries[i].folder@;
        assert(self.folders()[i] == k);
        let j = self.folders().index_of(k);
    }

    /// A mapping without folders.
    pub fn new() -> (m: Self)
        ensures
            m@ == Map::<Seq<char>, Seq<Seq<char>>>::empty(),
            m.folders() == Seq::<Seq<char>>::empty(),
    {
        let m = FilterMap { entries: Vec::new() };
        m
    }

    /// The number of folders.
    pub fn len(&self) -> (n: usize)
        ensures
            n == self.folders().len(),
    {
        self.entries.len()
    }

    /// The folder at position `i`.
    pub fn folder(&self, i: usize) -> (name: &String)
        requires
            i < self.folders().len(),
        ensures
            name@ == self.folders()[i as int],
    {
        &self.entries[i].folder
    }

    /// The list stored under the folder at position `i`.
    pub fn names(&self, i: usize) -> (list: &Vec<String>)
        requires
            i < self.folders().len(),
        ensures
            self@.contains_key(self.folders()[i as int]),
            list.deep_view() == self@[self.folders()[i as int]],
    {
        proof {
            use_type_invariant(self);
            self.lemma_view_at(i as int);
        }
        &self.entries[i].names
    }

    /// Where `folder` is stored, if it is.
    fn position(&self, folder: &String) -> (at: Option<usize>)
        ensures
            match at {
                Some(i) => i < self.entries.len() && self.entries[i as int].folder@ == folder@,
                None => !self.folders().contains(folder@),
            },
    {
        let mut i: usize = 0;
        while i < self.entries.len()
            invariant
                i <= self.entries.len(),
                forall|j: int| 0 <= j < i ==> self.folders()[j] != folder@,
            decreases self.entries.len() - i,
        {
            if self.entries[i].folder == *folder {
                return Some(i);
            }
            i += 1;
        }
        None
    }

    /// Whether a list is stored under `folder`.
    pub fn contains_key(&self, folder: &String) -> (found: bool)
        ensures
            found == self@.contains_key(folder@),
    {
        let at = self.position(folder);
        proof {
            if let Some(i) = at {
                assert(self.folders()[i as int] == folder@);
            }
        }
        at.is_some()
    }

    /// The list stored under `folder`, if there is one.
    pub fn get(&self, folder: &String) -> (list: Option<&Vec<String>>)
        ensures
            list is Some <==> self@.contains_key(folder@),
            list matches Some(names) ==> names.deep_view() == self@[folder@],
    {
        match self.position(folder) {
            Some(i) => {
                proof {
                    use_type_invariant(self);
                    self.lemma_view_at(i as int);
                }
                Some(&self.entries[i].names)
            },
            None => None,
        }
    }

    /// Stores `names` under `folder`, in place of the list that was there, or
    /// as a new last folder.
    pub fn insert(&mut self, folder: String, names: Vec<String>)
        ensures
            final(self)@ == old(self)@.insert(folder@, names.deep_view()),
            final(self).folders() == if old(self)@.contains_key(folder@) {
                old(self).folders()
            } else {
                old(self).folders().push(folder@)
            },
    {
        proof {
            use_type_invariant(&*self);
        }
        let ghost before = *self;
        let at = self.position(&folder);
        let mut taken = FilterMap::new();
        core::mem::swap(self, &mut taken);
        let mut entries = taken.entries;
        let ghost key = folder@;
        let ghost list = names.deep_view();
        match at {
            Some(i) => {
                entries.set(i, Entry { folder, names });
            },
            None => {
                entries.push(Entry { folder, names });
            },
        }
        let ghost after = FilterMap { entries };
        proof {
            let slot = match at {
                Some(i) => i as int,
                None => before.folders().len() as int,
            };
            if at is Some {
                assert(after.folders() =~= before.folders());
            } else {
                assert(after.folders() =~= before.folders().push(key));
            }
            assert(after.folders()[slot] == key);
            assert forall|k: Seq<char>| #[trigger] after@.contains_key(k) implies after@[k]
                == before@.insert(key, list)[k] by {
                let j = after.folders().index_of(k);
                after.lemma_view_at(j);
                if j != slot {
                    before.lemma_view_at(j);
                }
            }
            assert forall|k: Seq<char>| before@.contains_key(k) implies after@.contains_key(k) by {
                let j = before.folders().index_of(k);
                assert(after.folders()[j] == k);
            }
            assert(after@ =~= before@.insert(key, list));
        }
        *self = FilterMap { entries };
    }
}

} // verus!
