use vstd::prelude::*;

use crate::config::entries::{has_key, insert_entry, keys_distinct, lookup, remove_entry};
use crate::config::manifest::{copy_optional_strings, opt_strings_view};

verus! {

/// The resolved state of one dependency in `graft.lock`.
#[derive(Debug, Clone, PartialEq)]
pub struct LockedDep {
    pub source: String,
    pub version: String,
    pub commit: String,
    pub checksum: String,
    pub files: Option<Vec<String>>,
}

/// The texts of a locked dependency: source, version, commit, checksum, and the
/// files of a directory dependency, if any.
pub type LockView = (Seq<char>, Seq<char>, Seq<char>, Seq<char>, Option<Seq<Seq<char>>>);

impl View for LockedDep {
    type V = LockView;

    open spec fn view(&self) -> LockView {
        (self.source@, self.version@, self.commit@, self.checksum@, opt_strings_view(self.files))
    }
}

impl LockedDep {
    /// An equal copy of this entry.
    pub fn copy(&self) -> (r: LockedDep)
        ensures
            r@ == self@,
    {
        LockedDep {
            source: self.source.clone(),
            version: self.version.clone(),
            commit: self.commit.clone(),
            checksum: self.checksum.clone(),
            files: copy_optional_strings(&self.files),
        }
    }
}

/// The resolved state of every dependency, by name.
#[derive(Debug)]
pub struct Lockfile {
    pub grafts: indexmap::IndexMap<String, LockedDep>,
}

/// What the lockfile's map holds: each name with its entry, in map order.
pub uninterp spec fn lock_entries(m: indexmap::IndexMap<String, LockedDep>) -> Seq<(Seq<char>, LockView)>;

impl Lockfile {
    /// The lockfile's entries: each name with its locked state, in order.
    pub open spec fn entries(&self) -> Seq<(Seq<char>, LockView)> {
        lock_entries(self.grafts)
    }

    /// `IndexMap::new`: a lockfile without entries.
    #[verifier::external_body]
    pub(crate) fn empty() -> (r: Lockfile)
        ensures
            lock_entries(r.grafts) == Seq::<(Seq<char>, LockView)>::empty(),
            keys_distinct(lock_entries(r.grafts)),
    {
        Lockfile { grafts: indexmap::IndexMap::new() }
    }

    /// `IndexMap::len`: the number of entries.
    #[verifier::external_body]
    pub(crate) fn len(&self) -> (r: usize)
        ensures
            r == lock_entries(self.grafts).len(),
    {
        self.grafts.len()
    }

    /// `IndexMap::get_index`: the name and entry at a position, in map order.
    #[verifier::external_body]
    pub(crate) fn entry_at(&self, i: usize) -> (r: Option<(&String, &LockedDep)>)
        ensures
            r is Some <==> i < lock_entries(self.grafts).len(),
            r matches Some(p) ==> (p.0@, p.1@) == lock_entries(self.grafts)[i as int],
    {
        self.grafts.get_index(i)
    }

    /// `IndexMap::get`: the entry with the name, if there is one.
    #[verifier::external_body]
    pub(crate) fn get(&self, name: &str) -> (r: Option<&LockedDep>)
        ensures
            r is Some <==> has_key(lock_entries(self.grafts), name@),
            r matches Some(d) ==> Some(d@) == lookup(lock_entries(self.grafts), name@),
    {
        self.grafts.get(name)
    }

    /// `IndexMap::contains_key`: whether an entry has the name.
    #[verifier::external_body]
    pub(crate) fn contains_key(&self, name: &str) -> (r: bool)
        ensures
            r == has_key(lock_entries(self.grafts), name@),
    {
        self.grafts.contains_key(name)
    }

    /// `IndexMap::insert`: an existing name keeps its place and takes the new entry;
    /// a new name goes last. Returns the entry it replaced.
    #[verifier::external_body]
    pub(crate) fn insert(&mut self, name: String, dep: LockedDep) -> (r: Option<LockedDep>)
        ensures
            keys_distinct(lock_entries(final(self).grafts)),
            lock_entries(final(self).grafts) == insert_entry(lock_entries(old(self).grafts), name@, dep@),
            r matches Some(d) ==> Some(d@) == lookup(lock_entries(old(self).grafts), name@),
            r is None <==> !has_key(lock_entries(old(self).grafts), name@),
    {
        self.grafts.insert(name, dep)
    }

    /// `IndexMap::shift_remove`: removes the entry with the name, the others keeping
    /// their order. Returns the removed entry.
    #[verifier::external_body]
    pub(crate) fn shift_remove(&mut self, name: &str) -> (r: Option<LockedDep>)
        ensures
            keys_distinct(lock_entries(final(self).grafts)),
            lock_entries(final(self).grafts) == remove_entry(lock_entries(old(self).grafts), name@),
            r matches Some(d) ==> Some(d@) == lookup(lock_entries(old(self).grafts), name@),
            r is None <==> !has_key(lock_entries(old(self).grafts), name@),
    {
        self.grafts.shift_remove(name)
    }
}

} // verus!
