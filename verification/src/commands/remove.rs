use vstd::prelude::*;

use crate::config::entries::{has_key, keys_distinct, lemma_remove_entry, lookup, remove_entry};
use crate::config::lockfile::{lock_entries, LockView, Lockfile};
use crate::config::manifest::{manifest_entries, DepView, Manifest};
use crate::error::GraftError;

verus! {

/// Stop tracking a dependency: it leaves the manifest and the lockfile, the others
/// keeping their order; its local file stays. Returns the destination it had. A
/// name the manifest does not hold is an error, and then nothing changes.
pub fn remove_graft(manifest: &mut Manifest, lockfile: &mut Lockfile, name: &str) -> (r: Result<String, GraftError>)
    ensures
        has_key(manifest_entries(old(manifest).grafts), name@) ==> (r matches Ok(dest) && Some(dest@) == (match lookup(
            manifest_entries(old(manifest).grafts),
            name@,
        ) {
            Some(d) => Some(d.2),
            None => None,
        }) && manifest_entries(final(manifest).grafts) == remove_entry(manifest_entries(old(manifest).grafts), name@)
            && lock_entries(final(lockfile).grafts) == remove_entry(lock_entries(old(lockfile).grafts), name@)),
        !has_key(manifest_entries(old(manifest).grafts), name@) ==> (r matches Err(GraftError::GraftNotFound { name: n })
            && n@ == name@ && manifest_entries(final(manifest).grafts) == manifest_entries(old(manifest).grafts)
            && lock_entries(final(lockfile).grafts) == lock_entries(old(lockfile).grafts)),
{
    let dest = match manifest.get(name) {
        Some(dep) => dep.dest.clone(),
        None => {
            return Err(GraftError::GraftNotFound { name: name.to_owned() });
        },
    };
    manifest.shift_remove(name);
    lockfile.shift_remove(name);
    Ok(dest)
}

/// A removed dependency is gone from both files, and every other dependency is
/// found as before.
pub proof fn law_removed_graft_is_gone(
    manifest: Seq<(Seq<char>, DepView)>,
    lockfile: Seq<(Seq<char>, LockView)>,
    name: Seq<char>,
)
    requires
        keys_distinct(manifest),
        keys_distinct(lockfile),
    ensures
        lookup(remove_entry(manifest, name), name) is None,
        lookup(remove_entry(lockfile, name), name) is None,
        forall|other: Seq<char>| other != name ==> lookup(remove_entry(manifest, name), other) == lookup(manifest, other),
        forall|other: Seq<char>| other != name ==> lookup(remove_entry(lockfile, name), other) == lookup(lockfile, other),
{
    lemma_remove_entry(manifest, name);
    lemma_remove_entry(lockfile, name);
}

} // verus!
