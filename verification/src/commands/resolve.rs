use vstd::prelude::*;

use crate::config::entries::{has_key, insert_entry, keys_distinct, lemma_insert_entry, lookup};
use crate::config::lockfile::{lock_entries, LockView, LockedDep, Lockfile};
use crate::config::manifest::{copy_optional_strings, manifest_entries, Manifest};
use crate::error::GraftError;
use crate::state::{conflict_markers_present, has_conflict_markers};

verus! {

/// The destination of the dependency to mark resolved; an error where the manifest
/// does not hold the name.
pub fn resolve_target(manifest: &Manifest, name: &str) -> (r: Result<String, GraftError>)
    ensures
        has_key(manifest_entries(manifest.grafts), name@) ==> (r matches Ok(dest) && Some(dest@) == (match lookup(
            manifest_entries(manifest.grafts),
            name@,
        ) {
            Some(d) => Some(d.2),
            None => None,
        })),
        !has_key(manifest_entries(manifest.grafts), name@) ==> (r matches Err(GraftError::GraftNotFound { name: n })
            && n@ == name@),
{
    match manifest.get(name) {
        Some(dep) => Ok(dep.dest.clone()),
        None => Err(GraftError::GraftNotFound { name: name.to_owned() }),
    }
}

/// A conflict counts as resolved once the file holds no conflict markers.
pub fn check_resolved(content: &str, name: &str) -> (r: Result<(), GraftError>)
    ensures
        r is Ok <==> !has_conflict_markers(content@),
        r matches Err(e) ==> (e matches GraftError::HasConflicts { name: n } && n@ == name@),
{
    if conflict_markers_present(content) {
        Err(GraftError::HasConflicts { name: name.to_owned() })
    } else {
        Ok(())
    }
}

/// Take the resolved file as the dependency's new state: its lock entry keeps its
/// place and takes the version that the manifest now names (the one an upgrade
/// moved it to) and the checksum of the resolved file, all else unchanged. An
/// error, and no change, where the manifest or the lockfile holds no entry for the
/// name.
pub fn record_resolution(lockfile: &mut Lockfile, manifest: &Manifest, name: &str, checksum: String) -> (r: Result<
    (),
    GraftError,
>)
    ensures
        has_key(lock_entries(old(lockfile).grafts), name@) && has_key(manifest_entries(manifest.grafts), name@) ==> (
        r is Ok && lock_entries(final(lockfile).grafts) == insert_entry(
            lock_entries(old(lockfile).grafts),
            name@,
            resolved_entry(
                lookup(lock_entries(old(lockfile).grafts), name@).unwrap(),
                lookup(manifest_entries(manifest.grafts), name@).unwrap().1,
                checksum@,
            ),
        )),
        !(has_key(lock_entries(old(lockfile).grafts), name@) && has_key(manifest_entries(manifest.grafts), name@))
            ==> (r matches Err(GraftError::GraftNotFound { name: n }) && n@ == name@ && lock_entries(
            final(lockfile).grafts,
        ) == lock_entries(old(lockfile).grafts)),
{
    let version = match manifest.get(name) {
        Some(d) => d.version.clone(),
        None => {
            return Err(GraftError::GraftNotFound { name: name.to_owned() });
        },
    };
    let updated = match lockfile.get(name) {
        Some(l) => LockedDep {
            source: l.source.clone(),
            version,
            commit: l.commit.clone(),
            checksum,
            files: copy_optional_strings(&l.files),
        },
        None => {
            return Err(GraftError::GraftNotFound { name: name.to_owned() });
        },
    };
    lockfile.insert(name.to_owned(), updated);
    Ok(())
}

/// The lock entry after a resolution: the manifest's version and the resolved
/// file's checksum, the rest as it was.
pub open spec fn resolved_entry(l: LockView, version: Seq<char>, checksum: Seq<char>) -> LockView {
    (l.0, version, l.2, checksum, l.4)
}

/// A conflicted upgrade keeps the lock entry's version and checksum; once the conflict is
/// resolved, the entry carries the version the manifest moved to and the checksum
/// of the resolved file, keeps its source, commit and file list, and no other entry
/// changes.
pub proof fn law_resolution_takes_the_new_version_and_checksum(
    lockfile: Seq<(Seq<char>, LockView)>,
    name: Seq<char>,
    version: Seq<char>,
    checksum: Seq<char>,
)
    requires
        keys_distinct(lockfile),
        has_key(lockfile, name),
    ensures
        ({
            let l = lookup(lockfile, name).unwrap();
            let after = insert_entry(lockfile, name, resolved_entry(l, version, checksum));
            &&& lookup(after, name) == Some((l.0, version, l.2, checksum, l.4))
            &&& forall|other: Seq<char>| other != name ==> lookup(after, other) == lookup(lockfile, other)
        }),
{
    let l = lookup(lockfile, name).unwrap();
    lemma_insert_entry(lockfile, name, resolved_entry(l, version, checksum));
}

} // verus!
