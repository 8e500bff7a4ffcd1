use vstd::prelude::*;

use crate::config::entries::{has_key, insert_entry, lookup};
use crate::config::lockfile::{lock_entries, LockedDep, Lockfile};
use crate::config::manifest::{copy_optional_strings, manifest_entries, opt_strings_view, GraftDep, Manifest};
use crate::error::GraftError;
use crate::source::tags::{
    find_newer_tags, is_newer, lemma_newer_pairs_nonempty, newer_pairs, some_newer, pair_view, pairs_view, sort_tags, stable_arrangement, tags_in_order,
};
use crate::source::version::{detect_version_type, is_sha_text, VersionType};
use crate::state::GraftState;
use crate::text::{chars_of, vec_eq};

verus! {

/// The names to upgrade: the one given, which the manifest must hold, or every
/// dependency in manifest order.
pub fn upgrade_targets(manifest: &Manifest, name: Option<&str>) -> (r: Result<Vec<String>, GraftError>)
    ensures
        name matches Some(n) ==> (has_key(manifest_entries(manifest.grafts), n@) ==> (r matches Ok(v) && v@.len() == 1
            && v@[0]@ == n@)),
        name matches Some(n) ==> (!has_key(manifest_entries(manifest.grafts), n@) ==> (r matches Err(
            GraftError::GraftNotFound { name: x },
        ) && x@ == n@)),
        name is None ==> (r matches Ok(v) && v@.len() == manifest_entries(manifest.grafts).len() && forall|i: int|
            0 <= i < v@.len() ==> (#[trigger] v@[i])@ == manifest_entries(manifest.grafts)[i].0),
{
    match name {
        Some(n) => {
            if manifest.contains_key(n) {
                let mut v: Vec<String> = Vec::new();
                v.push(n.to_owned());
                Ok(v)
            } else {
                Err(GraftError::GraftNotFound { name: n.to_owned() })
            }
        },
        None => {
            let len = manifest.len();
            let mut v: Vec<String> = Vec::new();
            let mut i: usize = 0;
            while i < len
                invariant
                    len == manifest_entries(manifest.grafts).len(),
                    i <= len,
                    v@.len() == i,
                    forall|j: int| 0 <= j < i ==> (#[trigger] v@[j])@ == manifest_entries(manifest.grafts)[j].0,
                decreases len - i,
            {
                match manifest.entry_at(i) {
                    Some((k, _)) => v.push(k.clone()),
                    None => { return Ok(v); },
                }
                i = i + 1;
            }
            Ok(v)
        },
    }
}

/// `outdated` and `upgrade` consider a dependency only when it follows tags (its
/// version is not a SHA) and it has been synced (it has a lock entry).
pub fn follows_tags(dep: &GraftDep, locked: Option<&LockedDep>) -> (r: bool)
    ensures
        r == (!is_sha_text(dep.version@) && locked is Some),
{
    match detect_version_type(dep.version.as_str()) {
        VersionType::Sha(_) => false,
        VersionType::Tag(_) => locked.is_some(),
    }
}

/// Some tag of the list is newer than `current`.
pub open spec fn has_newer(tags: Seq<(String, String)>, current: Seq<char>) -> bool {
    some_newer(tags, current)
}

proof fn lemma_newer_in_permutation(a: Seq<(String, String)>, b: Seq<(String, String)>, current: Seq<char>)
    requires
        pairs_view(a).to_multiset() == pairs_view(b).to_multiset(),
        has_newer(a, current),
    ensures
        has_newer(b, current),
{
    let i = choose|i: int| 0 <= i < a.len() && is_newer((#[trigger] a[i]).0@, current);
    assert(pairs_view(a)[i] == pair_view(a[i]));
    vstd::seq_lib::to_multiset_contains(pairs_view(a), pair_view(a[i]));
    vstd::seq_lib::to_multiset_contains(pairs_view(b), pair_view(a[i]));
    let j = choose|j: int| 0 <= j < pairs_view(b).len() && pairs_view(b)[j] == pair_view(a[i]);
    assert(b[j].0@ == a[i].0@);
}

/// `t` is the last of the tags that `find_newer_tags` keeps for `current` once the
/// tags are stably sorted in tag order.
pub open spec fn last_newer_in_tag_order(tags: Seq<(String, String)>, current: Seq<char>, t: (Seq<char>, Seq<char>)) -> bool {
    exists|s: Seq<(String, String)>, p: Seq<int>|
        s.len() == tags.len() && pairs_view(s).to_multiset() == pairs_view(tags).to_multiset() && tags_in_order(s)
            && #[trigger] stable_arrangement(tags, s, p) && newer_pairs(s, current).len() > 0 && newer_pairs(
            s,
            current,
        ).last() == t
}

/// The tag to move to: the last of the tags that `find_newer_tags` keeps for the
/// current version once the remote tags are stably sorted in tag order (for a
/// current semantic version, the last tag of the sorted list); `None` where no tag
/// is newer.
pub fn latest_newer_tag(current: &str, remote: &[(String, String)]) -> (r: Option<(String, String)>)
    ensures
        has_newer(remote@, current@) <==> r is Some,
        r matches Some(t) ==> last_newer_in_tag_order(remote@, current@, pair_view(t)),
{
    let sorted = sort_tags(remote);
    let newer = find_newer_tags(current, sorted.as_slice());
    proof {
        lemma_newer_pairs_nonempty(sorted@, current@);
        if has_newer(remote@, current@) {
            lemma_newer_in_permutation(remote@, sorted@, current@);
        }
        if has_newer(sorted@, current@) {
            lemma_newer_in_permutation(sorted@, remote@, current@);
        }
        assert(pairs_view(newer@).len() == newer@.len());
    }
    if newer.len() == 0 {
        return None;
    }
    let last = &newer[newer.len() - 1];
    let out = (last.0.clone(), last.1.clone());
    proof {
        assert(pairs_view(newer@)[newer@.len() - 1] == pair_view(out));
        let w = choose|w: Seq<int>| stable_arrangement(remote@, sorted@, w);
        assert(stable_arrangement(remote@, sorted@, w));
    }
    Some(out)
}

/// A conflicted dependency must be resolved before it is upgraded.
pub fn refuse_conflicted(state: GraftState, name: &str) -> (r: Result<(), GraftError>)
    ensures
        r is Ok <==> state != GraftState::Conflicted,
        r matches Err(e) ==> (e matches GraftError::HasConflicts { name: n } && n@ == name@),
{
    if state == GraftState::Conflicted {
        Err(GraftError::HasConflicts { name: name.to_owned() })
    } else {
        Ok(())
    }
}

/// The new upstream content differs from the locked one when its checksum does; a
/// new tag with the same content is no upgrade.
pub fn content_changed(new_checksum: &str, locked: &LockedDep) -> (r: bool)
    ensures
        r == (new_checksum@ != locked.checksum@),
{
    let a = chars_of(new_checksum);
    let b = chars_of(locked.checksum.as_str());
    !vec_eq(&a, &b)
}

/// How a dependency is upgraded.
#[derive(Debug, Clone, Copy, PartialEq, Eq, Structural)]
pub enum UpgradeMode {
    /// The local file is the old upstream content: take the new content as it is.
    Overwrite,
    /// The local file was changed: merge the upstream change into it.
    Merge,
}

/// A file never customized (equal to the old upstream content) is overwritten;
/// any other is merged.
pub fn upgrade_mode(base: &[u8], ours: &[u8]) -> (r: UpgradeMode)
    ensures
        r == (if base@ == ours@ {
            UpgradeMode::Overwrite
        } else {
            UpgradeMode::Merge
        }),
{
    if base.len() != ours.len() {
        return UpgradeMode::Merge;
    }
    let mut i: usize = 0;
    while i < base.len()
        invariant
            base@.len() == ours@.len(),
            i <= base@.len(),
            forall|j: int| 0 <= j < i ==> base@[j] == ours@[j],
        decreases base@.len() - i,
    {
        if base[i] != ours[i] {
            return UpgradeMode::Merge;
        }
        i = i + 1;
    }
    assert(base@ =~= ours@);
    UpgradeMode::Overwrite
}

/// Record an upgrade of a dependency to a new tag: the manifest's entry (where it is
/// there) takes the new version, all else kept. The lock entry takes the manifest's
/// source, the new commit and the file list it had; where a checksum is given, also
/// the new version and that checksum. Where none is given, as after a merge with
/// conflicts, it keeps the version and checksum it had, so that the conflict stays
/// visible until it is resolved; its commit, the new one, is the base of later merges.
pub fn record_upgrade(
    manifest: &mut Manifest,
    lockfile: &mut Lockfile,
    name: &str,
    dep: &GraftDep,
    locked: &LockedDep,
    new_version: &str,
    new_commit: &str,
    checksum: Option<String>,
)
    ensures
        has_key(manifest_entries(old(manifest).grafts), name@) ==> manifest_entries(final(manifest).grafts)
            == insert_entry(
            manifest_entries(old(manifest).grafts),
            name@,
            ({
                let d = lookup(manifest_entries(old(manifest).grafts), name@).unwrap();
                (d.0, new_version@, d.2, d.3)
            }),
        ),
        !has_key(manifest_entries(old(manifest).grafts), name@) ==> manifest_entries(final(manifest).grafts)
            == manifest_entries(old(manifest).grafts),
        checksum matches Some(c) ==> lock_entries(final(lockfile).grafts) == insert_entry(
            lock_entries(old(lockfile).grafts),
            name@,
            (dep.source@, new_version@, new_commit@, c@, opt_strings_view(locked.files)),
        ),
        checksum is None ==> lock_entries(final(lockfile).grafts) == insert_entry(
            lock_entries(old(lockfile).grafts),
            name@,
            (dep.source@, locked.version@, new_commit@, locked.checksum@, opt_strings_view(locked.files)),
        ),
{
    let updated = match manifest.get(name) {
        Some(d) => Some(
            GraftDep {
                source: d.source.clone(),
                version: new_version.to_owned(),
                dest: d.dest.clone(),
                files: copy_optional_strings(&d.files),
            },
        ),
        None => None,
    };
    match updated {
        Some(d) => {
            manifest.insert(name.to_owned(), d);
        },
        None => {},
    }
    match checksum {
        Some(sum) => {
            let entry = LockedDep {
                source: dep.source.clone(),
                version: new_version.to_owned(),
                commit: new_commit.to_owned(),
                checksum: sum,
                files: copy_optional_strings(&locked.files),
            };
            lockfile.insert(name.to_owned(), entry);
        },
        None => {
            let entry = LockedDep {
                source: dep.source.clone(),
                version: locked.version.clone(),
                commit: new_commit.to_owned(),
                checksum: locked.checksum.clone(),
                files: copy_optional_strings(&locked.files),
            };
            lockfile.insert(name.to_owned(), entry);
        },
    }
}

/// The manifest and lockfile are written back only after a real run that upgraded
/// something.
pub fn should_save(dry_run: bool, any_upgraded: bool) -> (r: bool)
    ensures
        r == (!dry_run && any_upgraded),
{
    !dry_run && any_upgraded
}

/// `outdated` reports a dependency whose newest tag could not be fetched (its
/// checksum left empty) or whose content there differs from the locked content.
pub fn reports_outdated(latest_checksum: &str, locked: &LockedDep) -> (r: bool)
    ensures
        r == (latest_checksum@.len() == 0 || latest_checksum@ != locked.checksum@),
{
    let a = chars_of(latest_checksum);
    let b = chars_of(locked.checksum.as_str());
    a.len() == 0 || !vec_eq(&a, &b)
}

} // verus!
