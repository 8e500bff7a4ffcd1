use vstd::prelude::*;

use crate::config::entries::{insert_entry, keys_distinct, lemma_insert_entry, lookup};
use crate::config::lockfile::{lock_entries, LockView, LockedDep, Lockfile};
use crate::config::manifest::{check_dest, dest_check, dest_error_is, manifest_entries, DepView, GraftDep, Manifest};
use crate::checksum::{checksum_bytes, checksum_directory, checksum_text, directory_checksum_text, files_view};
use crate::commands::sync_step::SyncContent;
use crate::error::GraftError;
use crate::github::archive::{last_segment, trim_end_slashes};
use crate::source::parse::{source_parts, source_text, versioned_parts, GraftSource};
use crate::text::{chars_of, last_index, rfind_char, string_of, sub_vec};

verus! {

/// The name graft gives a dependency from its source path: the last part of the
/// path (trailing `/`s left out), without what follows its last `.`.
pub open spec fn derived_name(path: Seq<char>) -> Seq<char> {
    let f = last_segment(trim_end_slashes(path));
    let d = last_index(f, '.');
    if d < 0 {
        f
    } else {
        f.take(d)
    }
}

proof fn lemma_last_index_is(s: Seq<char>, c: char, i: int)
    requires
        0 <= i < s.len(),
        s[i] == c,
        forall|j: int| i < j < s.len() ==> s[j] != c,
    ensures
        last_index(s, c) == i,
{
    let k = last_index(s, c);
    assert(0 <= k < s.len() && s[k] == c && forall|j: int| k < j < s.len() ==> s[j] != c);
    if k < i {
        assert(s[i] != c);
    }
    if i < k {
        assert(s[k] != c);
    }
}

/// The last part of a path that holds no `/`, after a directory part that is empty
/// or ends with `/`, is that part.
proof fn lemma_last_part(dir: Seq<char>, f: Seq<char>)
    requires
        dir.len() == 0 || dir.last() == '/',
        f.len() > 0,
        forall|i: int| 0 <= i < f.len() ==> f[i] != '/',
    ensures
        last_segment(trim_end_slashes(dir + f)) == f,
{
    let p = dir + f;
    assert(p.last() == f.last());
    assert(trim_end_slashes(p) == p);
    if dir.len() > 0 {
        assert forall|j: int| dir.len() - 1 < j < p.len() implies p[j] != '/' by {
            assert(p[j] == f[j - dir.len()]);
        }
        lemma_last_index_is(p, '/', dir.len() - 1);
    } else {
        assert(p =~= f);
        assert(!(exists|i: int| 0 <= i < p.len() && p[i] == '/' && forall|j: int| i < j < p.len() ==> p[j] != '/'));
        assert(last_index(p, '/') == -1);
    }
    assert(p.skip(last_index(p, '/') + 1) =~= f);
}

/// The name `add` gives a dependency is its file name cut at the LAST `.`: for a
/// path whose last part `f` holds a `.` at `d` and none after it, the name is
/// everything of `f` before `d` (`jest.config.js` is named `jest.config`).
pub proof fn law_name_is_cut_at_the_last_dot(dir: Seq<char>, f: Seq<char>, d: int)
    requires
        dir.len() == 0 || dir.last() == '/',
        forall|i: int| 0 <= i < f.len() ==> f[i] != '/',
        0 <= d < f.len(),
        f[d] == '.',
        forall|j: int| d < j < f.len() ==> f[j] != '.',
    ensures
        derived_name(dir + f) == f.take(d),
{
    lemma_last_part(dir, f);
    lemma_last_index_is(f, '.', d);
}

/// A file name without a `.` is the name itself.
pub proof fn law_name_without_a_dot_is_the_file_name(dir: Seq<char>, f: Seq<char>)
    requires
        dir.len() == 0 || dir.last() == '/',
        f.len() > 0,
        forall|i: int| 0 <= i < f.len() ==> f[i] != '/' && f[i] != '.',
    ensures
        derived_name(dir + f) == f,
{
    lemma_last_part(dir, f);
    assert(!(exists|i: int| 0 <= i < f.len() && f[i] == '.' && forall|j: int| i < j < f.len() ==> f[j] != '.'));
}

/// Derive a graft name from a source path, as `derived_name` states it.
pub fn derive_name(path: &str) -> (r: String)
    ensures
        r@ == derived_name(path@),
{
    let v = chars_of(path);
    let mut q = v.len();
    assert(v@.take(q as int) =~= v@);
    while q > 0 && v[q - 1] == '/'
        invariant
            q <= v@.len(),
            trim_end_slashes(v@.take(q as int)) == trim_end_slashes(v@),
        decreases q,
    {
        assert(v@.take(q as int).drop_last() =~= v@.take(q - 1));
        q = q - 1;
    }
    let trimmed = sub_vec(&v, 0, q);
    assert(trimmed@ =~= v@.take(q as int));
    let n = trimmed.len();
    let file = match rfind_char(&trimmed, '/') {
        Some(i) => {
            proof { lemma_last_index_is(trimmed@, '/', i as int); }
            let f = sub_vec(&trimmed, i + 1, n);
            assert(f@ =~= trimmed@.skip(i + 1));
            f
        },
        None => {
            let f = sub_vec(&trimmed, 0, n);
            assert(f@ =~= trimmed@.skip(0));
            f
        },
    };
    let m = file.len();
    match rfind_char(&file, '.') {
        Some(d) => {
            proof { lemma_last_index_is(file@, '.', d as int); }
            let r = string_of(&file, 0, d);
            assert(r@ =~= file@.take(d as int));
            r
        },
        None => {
            let r = string_of(&file, 0, m);
            assert(r@ =~= file@);
            r
        },
    }
}

/// What `add` works from, once its arguments are read: the source, the version,
/// the name, and the destination.
pub struct AddPlan {
    pub source: GraftSource,
    pub version: String,
    pub name: String,
    pub dest: String,
}

/// Read the arguments of `add` before anything is fetched: the `source@version`
/// text (split at its last `@`), the name derived from the source path, and the
/// destination (the one given, else the source path), which must not escape the
/// project root nor target `.git`.
pub fn plan_add(source: &str, dest: Option<&str>) -> (r: Result<AddPlan, GraftError>)
    ensures
        match versioned_parts(source@) {
            None => r matches Err(GraftError::InvalidSource { input }) && input@ == source@,
            Some(vp) => match source_parts(vp.0) {
                None => r matches Err(GraftError::InvalidSource { input }) && input@ == vp.0,
                Some(p) => {
                    let d = match dest {
                        Some(d) => d@,
                        None => p.2,
                    };
                    &&& dest_check(d) == 0 ==> (r matches Ok(plan) && plan.source@ == p && plan.version@ == vp.1
                        && plan.name@ == derived_name(p.2) && plan.dest@ == d)
                    &&& dest_check(d) != 0 ==> (r matches Err(e) && dest_error_is(e, dest_check(d), d))
                },
            },
        },
{
    let (graft_source, version) = GraftSource::parse_with_version(source)?;
    let name = derive_name(graft_source.path.as_str());
    let dest = add_dest(dest, &graft_source);
    validate_dest(dest.as_str())?;
    Ok(AddPlan { source: graft_source, version, name, dest })
}

/// Validate a destination path before anything is fetched: it must not escape the
/// project root nor target `.git`.
pub fn validate_dest(dest: &str) -> (r: Result<(), GraftError>)
    ensures
        r is Ok <==> dest_check(dest@) == 0,
        r matches Err(e) ==> dest_error_is(e, dest_check(dest@), dest@),
{
    check_dest(dest)
}

/// The destination of a new dependency: the one given, else the source path.
pub fn add_dest(dest: Option<&str>, source: &GraftSource) -> (r: String)
    ensures
        dest matches Some(d) ==> r@ == d@,
        dest is None ==> r@ == source.path@,
{
    match dest {
        Some(d) => d.to_owned(),
        None => source.path.clone(),
    }
}

/// Refuse to add a dependency over an existing file unless it is adopted or forced.
pub fn check_dest_free(dest_exists: bool, adopt: bool, force: bool, dest: &str) -> (r: Result<(), GraftError>)
    ensures
        r is Ok <==> !(dest_exists && !adopt && !force),
        r matches Err(e) ==> (e matches GraftError::DestExists { path } && path@ == dest@),
{
    if dest_exists && !adopt && !force {
        Err(GraftError::DestExists { path: dest.to_owned() })
    } else {
        Ok(())
    }
}

/// Whether adding writes the fetched content to the destination: not when adopting
/// a file that is already there.
pub fn writes_content(adopt: bool) -> (r: bool)
    ensures
        r == !adopt,
{
    !adopt
}

/// What `add` does with the fetched content: whether it writes it to the
/// destination, and the checksum its lock entry takes.
pub struct AddWrite {
    pub write: bool,
    pub checksum: String,
}

/// What `add` does with the content fetched from upstream: it writes it to the
/// destination unless a local file is adopted, and the lock entry always takes the
/// checksum of the upstream content, not of an adopted local file, so that an
/// adopted file that differs from upstream reads as modified.
pub fn add_write(adopt: bool, content: &SyncContent) -> (r: AddWrite)
    ensures
        r.write == !adopt,
        match content {
            SyncContent::File(b) => r.checksum@ == checksum_text(b@),
            SyncContent::Directory(f) => r.checksum@ == directory_checksum_text(files_view(f@)),
        },
{
    let checksum = match content {
        SyncContent::File(b) => checksum_bytes(b.as_slice()),
        SyncContent::Directory(f) => checksum_directory(f.as_slice()),
    };
    AddWrite { write: writes_content(adopt), checksum }
}

/// The word that reports an addition.
pub fn add_action_word(adopt: bool) -> (r: String)
    ensures
        adopt ==> r@ == "adopted"@,
        !adopt ==> r@ == "added"@,
{
    if adopt {
        "adopted".to_owned()
    } else {
        "added".to_owned()
    }
}

/// Record a newly added dependency in the manifest: its source (in canonical form),
/// version and destination, under the name and with no file list.
pub fn record_added_dep(manifest: &mut Manifest, name: &str, source: &GraftSource, version: &str, dest: &str)
    ensures
        manifest_entries(final(manifest).grafts) == insert_entry(
            manifest_entries(old(manifest).grafts),
            name@,
            (source_text(source.owner@, source.repo@, source.path@), version@, dest@, None),
        ),
{
    let dep = GraftDep {
        source: source.to_source_string(),
        version: version.to_owned(),
        dest: dest.to_owned(),
        files: None,
    };
    manifest.insert(name.to_owned(), dep);
}

/// Record a newly added dependency in the lockfile: its source (in canonical form),
/// version, commit and checksum, under the name and with no file list.
pub fn record_added_lock(
    lockfile: &mut Lockfile,
    name: &str,
    source: &GraftSource,
    version: &str,
    commit: String,
    checksum: String,
)
    ensures
        lock_entries(final(lockfile).grafts) == insert_entry(
            lock_entries(old(lockfile).grafts),
            name@,
            (source_text(source.owner@, source.repo@, source.path@), version@, commit@, checksum@, None),
        ),
{
    let locked = LockedDep {
        source: source.to_source_string(),
        version: version.to_owned(),
        commit,
        checksum,
        files: None,
    };
    lockfile.insert(name.to_owned(), locked);
}

/// What `add` records is what a later lookup finds: after recording a dependency
/// under a name, the manifest and the lockfile give back exactly what was recorded
/// for that name, and every other name keeps what it had.
pub proof fn law_added_graft_is_found(
    manifest: Seq<(Seq<char>, DepView)>,
    lockfile: Seq<(Seq<char>, LockView)>,
    name: Seq<char>,
    dep: DepView,
    locked: LockView,
)
    requires
        keys_distinct(manifest),
        keys_distinct(lockfile),
    ensures
        lookup(insert_entry(manifest, name, dep), name) == Some(dep),
        lookup(insert_entry(lockfile, name, locked), name) == Some(locked),
        forall|other: Seq<char>| other != name ==> lookup(insert_entry(manifest, name, dep), other) == lookup(manifest, other),
        forall|other: Seq<char>| other != name ==> lookup(insert_entry(lockfile, name, locked), other) == lookup(lockfile, other),
        keys_distinct(insert_entry(manifest, name, dep)),
        keys_distinct(insert_entry(lockfile, name, locked)),
{
    lemma_insert_entry(manifest, name, dep);
    lemma_insert_entry(lockfile, name, locked);
}

} // verus!
