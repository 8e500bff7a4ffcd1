use vstd::prelude::*;

use crate::config::entries::{has_key, insert_entry, keys_distinct, lemma_insert_entry};
use crate::config::lockfile::{lock_entries, LockView, LockedDep, Lockfile};
use crate::config::manifest::{strings_view, GraftDep};

verus! {

/// A dependency is skipped by `sync` when its destination exists and the lockfile
/// already has an entry for it.
pub fn sync_skips(dest_exists: bool, lockfile: &Lockfile, name: &str) -> (r: bool)
    ensures
        r == (dest_exists && has_key(lock_entries(lockfile.grafts), name@)),
{
    dest_exists && lockfile.contains_key(name)
}

/// A cached copy of a single file is used when the cache is consulted and holds
/// something that is not empty; an empty cached file counts as a miss.
pub fn cached_file_usable(no_cache: bool, cached: &Option<Vec<u8>>) -> (r: bool)
    ensures
        r == (!no_cache && (cached matches Some(c) && c@.len() > 0)),
{
    if no_cache {
        return false;
    }
    match cached {
        Some(c) => c.len() > 0,
        None => false,
    }
}

/// The names of a directory's files, in order.
pub fn file_names(files: &[(String, Vec<u8>)]) -> (r: Vec<String>)
    ensures
        r@.len() == files@.len(),
        forall|i: int| 0 <= i < r@.len() ==> (#[trigger] r@[i])@ == files@[i].0@,
{
    let mut r: Vec<String> = Vec::new();
    let mut i: usize = 0;
    while i < files.len()
        invariant
            i <= files@.len(),
            r@.len() == i,
            forall|j: int| 0 <= j < i ==> (#[trigger] r@[j])@ == files@[j].0@,
        decreases files@.len() - i,
    {
        r.push(files[i].0.clone());
        i = i + 1;
    }
    r
}

/// Record what `sync` fetched for a dependency: the lock entry under its name takes
/// the manifest's source and version, the commit, the checksum and, for a directory,
/// the names of its files.
pub fn record_synced(
    lockfile: &mut Lockfile,
    name: &str,
    dep: &GraftDep,
    commit: String,
    checksum: String,
    files: Option<Vec<String>>,
)
    ensures
        lock_entries(final(lockfile).grafts) == insert_entry(
            lock_entries(old(lockfile).grafts),
            name@,
            (
                dep.source@,
                dep.version@,
                commit@,
                checksum@,
                match files {
                    Some(v) => Some(strings_view(v@)),
                    None => None,
                },
            ),
        ),
{
    let locked = LockedDep { source: dep.source.clone(), version: dep.version.clone(), commit, checksum, files };
    lockfile.insert(name.to_owned(), locked);
}

/// `sync` does its work once: after it has recorded a dependency, a later `sync`
/// skips it as long as its destination exists.
pub proof fn law_synced_graft_is_skipped(lockfile: Seq<(Seq<char>, LockView)>, name: Seq<char>, entry: LockView)
    requires
        keys_distinct(lockfile),
    ensures
        has_key(insert_entry(lockfile, name, entry), name),
{
    lemma_insert_entry(lockfile, name, entry);
}

} // verus!
