use indexmap::IndexMap;

use graft::checksum::{checksum_bytes, checksum_directory};
use graft::commands::sync_step::{sync_start, sync_step, SyncAction, SyncContent, SyncEvent, SyncStage};
use graft::config::lockfile::{LockedDep, Lockfile};
use graft::config::manifest::GraftDep;
use graft::error::GraftError;

fn s(x: &str) -> String {
    x.to_string()
}

fn dep(source: &str, files: Option<Vec<String>>) -> GraftDep {
    GraftDep { source: s(source), version: s("v1.0.0"), dest: s("out"), files }
}

fn empty_lock() -> Lockfile {
    Lockfile { grafts: IndexMap::new() }
}

/// Starts a sync and answers the commit lookup.
fn at_commit(d: &GraftDep, no_cache: bool) -> (SyncStage, SyncAction) {
    let (stage, action) = sync_start(d, &empty_lock(), "x", false);
    let SyncAction::ResolveRef { owner, repo, version } = action else { panic!("expected the version to be resolved") };
    assert_eq!((owner.as_str(), repo.as_str(), version.as_str()), ("owner", "repo", "v1.0.0"));
    sync_step(d, no_cache, stage, SyncEvent::Commit(s("c0ffee1")))
}

#[test]
fn synced_dependency_with_its_destination_is_skipped() {
    let d = dep("gh:owner/repo/file.txt", None);
    let mut l = empty_lock();
    l.grafts.insert(
        s("x"),
        LockedDep { source: s("gh:owner/repo/file.txt"), version: s("v1.0.0"), commit: s("c"), checksum: s("k"), files: None },
    );
    let (stage, action) = sync_start(&d, &l, "x", true);
    assert!(matches!(stage, SyncStage::Done));
    assert!(matches!(action, SyncAction::Skip));
    let (_, action) = sync_start(&d, &l, "x", false);
    assert!(matches!(action, SyncAction::ResolveRef { .. }));
    let (_, action) = sync_start(&dep("gh:owner", None), &empty_lock(), "x", false);
    assert!(matches!(action, SyncAction::Fail(GraftError::InvalidSource { .. })));
}

#[test]
fn cached_single_file_is_used() {
    let d = dep("gh:owner/repo/file.txt", None);
    let (stage, action) = at_commit(&d, false);
    let SyncAction::LookupCache { path, commit, .. } = action else { panic!("expected a cache lookup") };
    assert_eq!((path.as_str(), commit.as_str()), ("file.txt", "c0ffee1"));
    let (_, action) = sync_step(&d, false, stage, SyncEvent::Cached(Some(b"hello".to_vec())));
    let SyncAction::Write(w) = action else { panic!("expected a write") };
    assert!(!w.fetched);
    assert_eq!(w.checksum, checksum_bytes(b"hello"));
    assert!(matches!(w.content, SyncContent::File(ref c) if c == b"hello"));
}

#[test]
fn empty_or_missing_cached_file_is_fetched() {
    let d = dep("gh:owner/repo/file.txt", None);
    for hit in [None, Some(Vec::new())] {
        let (stage, _) = at_commit(&d, false);
        let (stage, action) = sync_step(&d, false, stage, SyncEvent::Cached(hit));
        let SyncAction::FetchFile { path, .. } = action else { panic!("expected a fetch") };
        assert_eq!(path, "file.txt");
        let (_, action) = sync_step(&d, false, stage, SyncEvent::File(b"fresh".to_vec()));
        let SyncAction::Write(w) = action else { panic!("expected a write") };
        assert!(w.fetched);
        assert_eq!(w.checksum, checksum_bytes(b"fresh"));
    }
}

#[test]
fn no_cache_fetches_at_once() {
    let d = dep("gh:owner/repo/file.txt", None);
    let (_, action) = at_commit(&d, true);
    assert!(matches!(action, SyncAction::FetchFile { .. }));
    let dir = dep("gh:owner/repo/skills/", Some(vec![s("a.md")]));
    let (_, action) = at_commit(&dir, true);
    assert!(matches!(action, SyncAction::FetchDirectory { .. }));
}

#[test]
fn listed_directory_files_come_from_the_cache() {
    let d = dep("gh:owner/repo/skills/", Some(vec![s("a.md"), s("b.md")]));
    let (stage, action) = at_commit(&d, false);
    let SyncAction::LookupCache { path, .. } = action else { panic!("expected a cache lookup") };
    assert_eq!(path, "skills/a.md");
    let (stage, action) = sync_step(&d, false, stage, SyncEvent::Cached(Some(b"alpha".to_vec())));
    let SyncAction::LookupCache { path, .. } = action else { panic!("expected a cache lookup") };
    assert_eq!(path, "skills/b.md");
    let (stage, action) = sync_step(&d, false, stage, SyncEvent::Cached(Some(b"beta".to_vec())));
    assert!(matches!(stage, SyncStage::Done));
    let SyncAction::Write(w) = action else { panic!("expected a write") };
    let expected = vec![(s("a.md"), b"alpha".to_vec()), (s("b.md"), b"beta".to_vec())];
    assert!(!w.fetched);
    assert_eq!(w.checksum, checksum_directory(&expected));
    assert!(matches!(w.content, SyncContent::Directory(ref f) if *f == expected));
}

#[test]
fn a_cache_miss_fetches_the_directory() {
    let d = dep("gh:owner/repo/skills/", Some(vec![s("a.md"), s("b.md")]));
    let (stage, _) = at_commit(&d, false);
    let (stage, _) = sync_step(&d, false, stage, SyncEvent::Cached(Some(b"alpha".to_vec())));
    let (stage, action) = sync_step(&d, false, stage, SyncEvent::Cached(None));
    let SyncAction::FetchDirectory { path, files, .. } = action else { panic!("expected a fetch") };
    assert_eq!(path, "skills/");
    assert_eq!(files, Some(vec![s("a.md"), s("b.md")]));
    let fetched = vec![(s("a.md"), b"alpha2".to_vec()), (s("b.md"), b"beta2".to_vec())];
    let (_, action) = sync_step(&d, false, stage, SyncEvent::Directory(fetched.clone()));
    let SyncAction::Write(w) = action else { panic!("expected a write") };
    assert!(w.fetched);
    assert_eq!(w.checksum, checksum_directory(&fetched));
}

#[test]
fn unlisted_directory_is_fetched() {
    let d = dep("gh:owner/repo/skills/", None);
    let (_, action) = at_commit(&d, false);
    let SyncAction::FetchDirectory { files, .. } = action else { panic!("expected a fetch") };
    assert_eq!(files, None);
    let empty_list = dep("gh:owner/repo/skills/", Some(Vec::new()));
    let (_, action) = at_commit(&empty_list, false);
    assert!(matches!(action, SyncAction::FetchDirectory { .. }));
}
