use vstd::prelude::*;

use crate::cache::cached_file_path;
use crate::checksum::{checksum_bytes, checksum_directory, checksum_text, directory_checksum_text, files_view};
use crate::commands::sync::{cached_file_usable, sync_skips};
use crate::config::entries::has_key;
use crate::config::lockfile::{lock_entries, Lockfile};
use crate::config::manifest::{copy_optional_strings, opt_strings_view, GraftDep};
use crate::error::GraftError;
use crate::source::parse::{source_parts, GraftSource};
use crate::text::has_suffix;

verus! {

/// What `sync` puts at a dependency's destination.
pub enum SyncContent {
    /// The content of a single file.
    File(Vec<u8>),
    /// The files of a directory, each with its path inside it.
    Directory(Vec<(String, Vec<u8>)>),
}

/// What `sync` does with a dependency once it has its content: the source and
/// commit it came from, whether it was fetched (and so goes into the cache), the
/// content, and the checksum its lock entry takes.
pub struct SyncWrite {
    pub source: GraftSource,
    pub commit: String,
    pub fetched: bool,
    pub content: SyncContent,
    pub checksum: String,
}

/// Where the sync of one dependency stands, with what it has learned so far.
pub enum SyncStage {
    /// The commit of its version is awaited.
    AwaitCommit { source: GraftSource },
    /// The listed files of a directory are looked up in the cache in list order;
    /// `found` holds those found so far.
    AwaitCachedFiles { source: GraftSource, commit: String, found: Vec<(String, Vec<u8>)> },
    /// The cached copy of a single file is awaited.
    AwaitCachedFile { source: GraftSource, commit: String },
    /// The fetched directory is awaited.
    AwaitDirectory { source: GraftSource, commit: String },
    /// The fetched file is awaited.
    AwaitFile { source: GraftSource, commit: String },
    /// Nothing more is awaited.
    Done,
}

/// What the outside world answered to the last action.
pub enum SyncEvent {
    /// The commit a version resolves to.
    Commit(String),
    /// What the cache holds under a key, if anything.
    Cached(Option<Vec<u8>>),
    /// The files of a fetched directory.
    Directory(Vec<(String, Vec<u8>)>),
    /// The content of a fetched file.
    File(Vec<u8>),
}

/// What syncing a dependency asks for next.
pub enum SyncAction {
    /// The dependency is there already.
    Skip,
    /// Stop with an error.
    Fail(GraftError),
    /// Resolve a version of `owner/repo` to its commit.
    ResolveRef { owner: String, repo: String, version: String },
    /// Look up what the cache holds for `path` of `owner/repo` at a commit.
    LookupCache { owner: String, repo: String, commit: String, path: String },
    /// Fetch the directory at `path` of `owner/repo` at a commit, keeping the listed files.
    FetchDirectory { owner: String, repo: String, path: String, commit: String, files: Option<Vec<String>> },
    /// Fetch the file at `path` of `owner/repo` at a commit.
    FetchFile { owner: String, repo: String, path: String, commit: String },
    /// Write the content and record it.
    Write(SyncWrite),
}

/// The event answers the action that led to the stage, and the stage is one that
/// the steps below lead to for the dependency.
pub open spec fn sync_event_fits(dep: GraftDep, stage: SyncStage, event: SyncEvent) -> bool {
    match stage {
        SyncStage::AwaitCommit { .. } => event is Commit,
        SyncStage::AwaitCachedFiles { found, .. } => event is Cached && (dep.files matches Some(list)
            && found@.len() < list@.len()),
        SyncStage::AwaitCachedFile { .. } => event is Cached,
        SyncStage::AwaitDirectory { .. } => event is Directory,
        SyncStage::AwaitFile { .. } => event is File,
        SyncStage::Done => false,
    }
}

/// The first step of syncing a dependency: one whose destination exists and which
/// the lockfile holds is skipped; else its source is read (an invalid one is an
/// error) and its version resolved to a commit.
pub fn sync_start(dep: &GraftDep, lockfile: &Lockfile, name: &str, dest_exists: bool) -> (r: (SyncStage, SyncAction))
    ensures
        (dest_exists && has_key(lock_entries(lockfile.grafts), name@)) ==> (r.0 is Done && r.1 is Skip),
        !(dest_exists && has_key(lock_entries(lockfile.grafts), name@)) ==> match source_parts(dep.source@) {
            None => r.0 is Done && (r.1 matches SyncAction::Fail(GraftError::InvalidSource { input }) && input@
                == dep.source@),
            Some(p) => (r.0 matches SyncStage::AwaitCommit { source } && source@ == p) && (
            r.1 matches SyncAction::ResolveRef { owner, repo, version } && owner@ == p.0 && repo@ == p.1 && version@
                == dep.version@),
        },
{
    if sync_skips(dest_exists, lockfile, name) {
        return (SyncStage::Done, SyncAction::Skip);
    }
    match GraftSource::parse(dep.source.as_str()) {
        Err(e) => (SyncStage::Done, SyncAction::Fail(e)),
        Ok(source) => {
            let owner = source.owner.clone();
            let repo = source.repo.clone();
            let version = dep.version.clone();
            (SyncStage::AwaitCommit { source }, SyncAction::ResolveRef { owner, repo, version })
        },
    }
}

/// The files found so far, with one more.
fn push_found(found: Vec<(String, Vec<u8>)>, name: &String, content: Vec<u8>) -> (r: Vec<(String, Vec<u8>)>)
    ensures
        files_view(r@) == files_view(found@).push((name@, content@)),
{
    let mut r = found;
    let ghost before = r@;
    r.push((name.clone(), content));
    assert(files_view(r@) =~= files_view(before).push((name@, content@)));
    r
}

/// The next step of syncing a dependency (`no_cache`: the cache is not consulted):
/// - the commit: a directory (a source path that ends with `/`) whose dependency
///   lists its files has them looked up in the cache, in list order, unless the
///   cache is off or the list is empty; any other directory is fetched with its
///   file list; a single file is looked up in the cache unless it is off, else
///   fetched;
/// - a cached file of a directory: found, it is kept and the next listed file is
///   looked up, or where it was the last, the files found are written, with the
///   directory checksum; missing, the directory is fetched;
/// - the cached copy of a single file: where it is there and not empty it is
///   written, with its checksum; else the file is fetched;
/// - a fetched directory or file is written, with its checksum, and goes into the cache.
///
/// So what `sync` records as the checksum is always that of the content it writes.
pub fn sync_step(dep: &GraftDep, no_cache: bool, stage: SyncStage, event: SyncEvent) -> (r: (SyncStage, SyncAction))
    requires
        sync_event_fits(*dep, stage, event),
    ensures
        r.1 matches SyncAction::Write(w) ==> match w.content {
            SyncContent::File(b) => w.checksum@ == checksum_text(b@),
            SyncContent::Directory(files) => w.checksum@ == directory_checksum_text(files_view(files@)),
        },
        stage matches SyncStage::AwaitCommit { source } ==> (event matches SyncEvent::Commit(c) ==> if has_suffix(
            source.path@,
            seq!['/'],
        ) {
            if !no_cache && (dep.files matches Some(list) && list@.len() > 0) {
                (r.0 matches SyncStage::AwaitCachedFiles { source: s2, commit, found } && s2@ == source@ && commit@
                    == c@ && found@.len() == 0) && (r.1 matches SyncAction::LookupCache { owner, repo, commit, path }
                    && owner@ == source.owner@ && repo@ == source.repo@ && commit@ == c@ && (dep.files matches Some(
                    list,
                ) && path@ == cached_file_path(source.path@, list@[0]@)))
            } else {
                (r.0 matches SyncStage::AwaitDirectory { source: s2, commit } && s2@ == source@ && commit@ == c@) && (
                r.1 matches SyncAction::FetchDirectory { owner, repo, path, commit, files } && owner@ == source.owner@
                    && repo@ == source.repo@ && path@ == source.path@ && commit@ == c@ && opt_strings_view(files)
                    == opt_strings_view(dep.files))
            }
        } else {
            if !no_cache {
                (r.0 matches SyncStage::AwaitCachedFile { source: s2, commit } && s2@ == source@ && commit@ == c@) && (
                r.1 matches SyncAction::LookupCache { owner, repo, commit, path } && owner@ == source.owner@ && repo@
                    == source.repo@ && commit@ == c@ && path@ == source.path@)
            } else {
                (r.0 matches SyncStage::AwaitFile { source: s2, commit } && s2@ == source@ && commit@ == c@) && (
                r.1 matches SyncAction::FetchFile { owner, repo, path, commit } && owner@ == source.owner@ && repo@
                    == source.repo@ && path@ == source.path@ && commit@ == c@)
            }
        }),
        stage matches SyncStage::AwaitCachedFiles { source, commit, found } ==> (event matches SyncEvent::Cached(hit)
            ==> (dep.files matches Some(list) ==> match hit {
            Some(content) => {
                let now = files_view(found@).push((list@[found@.len() as int]@, content@));
                if found@.len() + 1 < list@.len() {
                    (r.0 matches SyncStage::AwaitCachedFiles { source: s2, commit: c2, found: f2 } && s2@ == source@
                        && c2@ == commit@ && files_view(f2@) == now) && (r.1 matches SyncAction::LookupCache {
                        owner,
                        repo,
                        commit: c3,
                        path,
                    } && owner@ == source.owner@ && repo@ == source.repo@ && c3@ == commit@ && path@ == cached_file_path(
                        source.path@,
                        list@[found@.len() + 1int]@,
                    ))
                } else {
                    r.0 is Done && (r.1 matches SyncAction::Write(w) && w.source@ == source@ && w.commit@ == commit@
                        && !w.fetched && (w.content matches SyncContent::Directory(files) && files_view(files@) == now)
                        && w.checksum@ == directory_checksum_text(now))
                }
            },
            None => (r.0 matches SyncStage::AwaitDirectory { source: s2, commit: c2 } && s2@ == source@ && c2@
                == commit@) && (r.1 matches SyncAction::FetchDirectory { owner, repo, path, commit: c3, files }
                && owner@ == source.owner@ && repo@ == source.repo@ && path@ == source.path@ && c3@ == commit@
                && opt_strings_view(files) == opt_strings_view(dep.files)),
        })),
        stage matches SyncStage::AwaitCachedFile { source, commit } ==> (event matches SyncEvent::Cached(hit) ==> if (
        hit matches Some(content) && content@.len() > 0) {
            r.0 is Done && (r.1 matches SyncAction::Write(w) && w.source@ == source@ && w.commit@ == commit@
                && !w.fetched && (w.content matches SyncContent::File(b) && (hit matches Some(content) && b@
                == content@)) && (hit matches Some(content) && w.checksum@ == checksum_text(content@)))
        } else {
            (r.0 matches SyncStage::AwaitFile { source: s2, commit: c2 } && s2@ == source@ && c2@ == commit@) && (
            r.1 matches SyncAction::FetchFile { owner, repo, path, commit: c3 } && owner@ == source.owner@ && repo@
                == source.repo@ && path@ == source.path@ && c3@ == commit@)
        }),
        stage matches SyncStage::AwaitDirectory { source, commit } ==> (event matches SyncEvent::Directory(files) ==> (
        r.0 is Done && (r.1 matches SyncAction::Write(w) && w.source@ == source@ && w.commit@ == commit@ && w.fetched
            && (w.content matches SyncContent::Directory(f2) && files_view(f2@) == files_view(files@)) && w.checksum@
            == directory_checksum_text(files_view(files@))))),
        stage matches SyncStage::AwaitFile { source, commit } ==> (event matches SyncEvent::File(b) ==> (r.0 is Done && (
        r.1 matches SyncAction::Write(w) && w.source@ == source@ && w.commit@ == commit@ && w.fetched && (
        w.content matches SyncContent::File(b2) && b2@ == b@) && w.checksum@ == checksum_text(b@)))),
{
    match (stage, event) {
        (SyncStage::AwaitCommit { source }, SyncEvent::Commit(c)) => {
            if source.is_directory() {
                let use_cache = match &dep.files {
                    Some(list) => !no_cache && list.len() > 0,
                    None => false,
                };
                if use_cache {
                    let first = match &dep.files {
                        Some(list) => crate::cache::cached_file_path_of(source.path.as_str(), list[0].as_str()),
                        None => String::new(),
                    };
                    let action = SyncAction::LookupCache {
                        owner: source.owner.clone(),
                        repo: source.repo.clone(),
                        commit: c.clone(),
                        path: first,
                    };
                    (SyncStage::AwaitCachedFiles { source, commit: c, found: Vec::new() }, action)
                } else {
                    let action = SyncAction::FetchDirectory {
                        owner: source.owner.clone(),
                        repo: source.repo.clone(),
                        path: source.path.clone(),
                        commit: c.clone(),
                        files: copy_optional_strings(&dep.files),
                    };
                    (SyncStage::AwaitDirectory { source, commit: c }, action)
                }
            } else if !no_cache {
                let action = SyncAction::LookupCache {
                    owner: source.owner.clone(),
                    repo: source.repo.clone(),
                    commit: c.clone(),
                    path: source.path.clone(),
                };
                (SyncStage::AwaitCachedFile { source, commit: c }, action)
            } else {
                let action = SyncAction::FetchFile {
                    owner: source.owner.clone(),
                    repo: source.repo.clone(),
                    path: source.path.clone(),
                    commit: c.clone(),
                };
                (SyncStage::AwaitFile { source, commit: c }, action)
            }
        },
        (SyncStage::AwaitCachedFiles { source, commit, found }, SyncEvent::Cached(hit)) => {
            let list = match &dep.files {
                Some(list) => list,
                None => {
                    proof {
                        assert(false);
                    }
                    return (SyncStage::Done, SyncAction::Skip);
                },
            };
            match hit {
                Some(content) => {
                    let k = found.len();
                    let n = list.len();
                    let now = push_found(found, &list[k], content);
                    if k < n - 1 {
                        let path = crate::cache::cached_file_path_of(source.path.as_str(), list[k + 1].as_str());
                        let action = SyncAction::LookupCache {
                            owner: source.owner.clone(),
                            repo: source.repo.clone(),
                            commit: commit.clone(),
                            path,
                        };
                        (SyncStage::AwaitCachedFiles { source, commit, found: now }, action)
                    } else {
                        let checksum = checksum_directory(now.as_slice());
                        let w = SyncWrite { source, commit, fetched: false, content: SyncContent::Directory(now), checksum };
                        (SyncStage::Done, SyncAction::Write(w))
                    }
                },
                None => {
                    let action = SyncAction::FetchDirectory {
                        owner: source.owner.clone(),
                        repo: source.repo.clone(),
                        path: source.path.clone(),
                        commit: commit.clone(),
                        files: copy_optional_strings(&dep.files),
                    };
                    (SyncStage::AwaitDirectory { source, commit }, action)
                },
            }
        },
        (SyncStage::AwaitCachedFile { source, commit }, SyncEvent::Cached(hit)) => {
            if cached_file_usable(false, &hit) {
                match hit {
                    Some(content) => {
                        let checksum = checksum_bytes(content.as_slice());
                        let w = SyncWrite { source, commit, fetched: false, content: SyncContent::File(content), checksum };
                        (SyncStage::Done, SyncAction::Write(w))
                    },
                    None => {
                        proof {
                            assert(false);
                        }
                        (SyncStage::Done, SyncAction::Skip)
                    },
                }
            } else {
                let action = SyncAction::FetchFile {
                    owner: source.owner.clone(),
                    repo: source.repo.clone(),
                    path: source.path.clone(),
                    commit: commit.clone(),
                };
                (SyncStage::AwaitFile { source, commit }, action)
            }
        },
        (SyncStage::AwaitDirectory { source, commit }, SyncEvent::Directory(files)) => {
            let checksum = checksum_directory(files.as_slice());
            let w = SyncWrite { source, commit, fetched: true, content: SyncContent::Directory(files), checksum };
            (SyncStage::Done, SyncAction::Write(w))
        },
        (SyncStage::AwaitFile { source, commit }, SyncEvent::File(b)) => {
            let checksum = checksum_bytes(b.as_slice());
            let w = SyncWrite { source, commit, fetched: true, content: SyncContent::File(b), checksum };
            (SyncStage::Done, SyncAction::Write(w))
        },
        (_, _) => {
            proof {
                assert(false);
            }
            (SyncStage::Done, SyncAction::Skip)
        },
    }
}

} // verus!
