use indexmap::IndexMap;

use graft::cache::{cached_file_path_of, Cache};
use graft::checksum::checksum_bytes;
use graft::commands::add::{
    add_action_word, add_write, check_dest_free, plan_add, record_added_dep, record_added_lock, validate_dest, writes_content,
};
use graft::commands::check::{check_passes, problems};
use graft::commands::sync_step::SyncContent;
use graft::commands::remove::remove_graft;
use graft::commands::resolve::{check_resolved, record_resolution, resolve_target};
use graft::commands::sync::{cached_file_usable, file_names, record_synced, sync_skips};
use graft::commands::upgrade::{
    content_changed, follows_tags, latest_newer_tag, record_upgrade, refuse_conflicted, reports_outdated,
    should_save, upgrade_mode, upgrade_targets, UpgradeMode,
};
use graft::config::lockfile::{LockedDep, Lockfile};
use graft::config::manifest::{GraftDep, Manifest};
use graft::error::GraftError;
use graft::merge::{merge_outcome, MergeResult};
use graft::source::parse::GraftSource;
use graft::state::GraftState;

fn s(x: &str) -> String {
    x.to_string()
}

fn dep(version: &str, dest: &str) -> GraftDep {
    GraftDep { source: s("gh:owner/repo/file"), version: s(version), dest: s(dest), files: None }
}

fn locked(version: &str, checksum: &str) -> LockedDep {
    LockedDep {
        source: s("gh:owner/repo/file"),
        version: s(version),
        commit: s("abc123"),
        checksum: s(checksum),
        files: None,
    }
}

fn two_grafts() -> (Manifest, Lockfile) {
    let mut m = Manifest { grafts: IndexMap::new() };
    m.grafts.insert(s("myfile"), dep("v1.0.0", "myfile.txt"));
    m.grafts.insert(s("other"), dep("v2.0.0", "other.txt"));
    let mut l = Lockfile { grafts: IndexMap::new() };
    l.grafts.insert(s("myfile"), locked("v1.0.0", "sha256:aaa"));
    l.grafts.insert(s("other"), locked("v2.0.0", "sha256:bbb"));
    (m, l)
}

#[test]
fn remove_drops_both_entries_and_returns_the_destination() {
    let (mut m, mut l) = two_grafts();
    assert_eq!(remove_graft(&mut m, &mut l, "myfile").unwrap(), "myfile.txt");
    assert!(!m.grafts.contains_key("myfile"));
    assert!(!l.grafts.contains_key("myfile"));
    assert_eq!(m.grafts.len(), 1);
    assert_eq!(l.grafts.get_index(0).unwrap().0, "other");
}

#[test]
fn remove_unknown_name_changes_nothing() {
    let (mut m, mut l) = two_grafts();
    match remove_graft(&mut m, &mut l, "nonexistent") {
        Err(GraftError::GraftNotFound { name }) => assert_eq!(name, "nonexistent"),
        other => panic!("unexpected: {:?}", other),
    }
    assert_eq!(m.grafts.len(), 2);
    assert_eq!(l.grafts.len(), 2);
}

#[test]
fn resolve_steps() {
    let (mut m, mut l) = two_grafts();
    assert_eq!(resolve_target(&m, "other").unwrap(), "other.txt");
    assert!(matches!(resolve_target(&m, "nope"), Err(GraftError::GraftNotFound { .. })));
    match check_resolved("a\n<<<<<<< ours\nb\n=======\nc\n>>>>>>> theirs\n", "myfile") {
        Err(GraftError::HasConflicts { name }) => assert_eq!(name, "myfile"),
        other => panic!("unexpected: {:?}", other),
    }
    assert!(check_resolved("a\nb\n", "myfile").is_ok());
    m.grafts.get_mut("myfile").unwrap().version = s("v2.0.0");
    record_resolution(&mut l, &m, "myfile", s("sha256:new")).unwrap();
    let e = l.grafts.get("myfile").unwrap();
    assert_eq!(e.checksum, "sha256:new");
    assert_eq!(e.version, "v2.0.0");
    assert_eq!(e.commit, "abc123");
    assert_eq!(l.grafts.get_index(0).unwrap().0, "myfile");
    assert_eq!(l.grafts.get("other").unwrap().checksum, "sha256:bbb");
    assert!(matches!(record_resolution(&mut l, &m, "nope", s("x")), Err(GraftError::GraftNotFound { .. })));
}

#[test]
fn add_steps() {
    match check_dest_free(true, false, false, "config.yml") {
        Err(GraftError::DestExists { path }) => assert_eq!(path, "config.yml"),
        other => panic!("unexpected: {:?}", other),
    }
    assert!(check_dest_free(true, true, false, "config.yml").is_ok());
    assert!(check_dest_free(true, false, true, "config.yml").is_ok());
    assert!(check_dest_free(false, false, false, "config.yml").is_ok());
    assert!(matches!(validate_dest("../x"), Err(GraftError::DestEscapesRoot { .. })));
    assert!(matches!(validate_dest(".git/config"), Err(GraftError::DestTargetsGit { .. })));
    assert!(validate_dest("config.yml").is_ok());
    assert!(writes_content(false));
    assert!(!writes_content(true));
    assert_eq!(add_action_word(true), "adopted");
    assert_eq!(add_action_word(false), "added");
}

#[test]
fn add_arguments_are_read_before_fetching() {
    let plan = plan_add("gh:org/shared-configs/workflows/lint.yml@v1.0.0", None).unwrap();
    assert_eq!(plan.source.owner, "org");
    assert_eq!(plan.source.repo, "shared-configs");
    assert_eq!(plan.version, "v1.0.0");
    assert_eq!(plan.name, "lint");
    assert_eq!(plan.dest, "workflows/lint.yml");
    let plan = plan_add("gh:org/shared-configs/Makefile@v1.0.0", Some("Makefile")).unwrap();
    assert_eq!((plan.name.as_str(), plan.dest.as_str()), ("Makefile", "Makefile"));
    match plan_add("gh:org/repo/file", None) {
        Err(GraftError::InvalidSource { input }) => assert_eq!(input, "gh:org/repo/file"),
        _ => panic!("expected an invalid source"),
    }
    match plan_add("gh:org@v1", None) {
        Err(GraftError::InvalidSource { input }) => assert_eq!(input, "gh:org"),
        _ => panic!("expected an invalid source"),
    }
    assert!(matches!(plan_add("gh:o/r/f@v1", Some("../f")), Err(GraftError::DestEscapesRoot { .. })));
    assert!(matches!(plan_add("gh:o/r/f@v1", Some(".git/f")), Err(GraftError::DestTargetsGit { .. })));
}

#[test]
fn added_graft_is_recorded_in_both_files() {
    let mut m = Manifest { grafts: IndexMap::new() };
    let mut l = Lockfile { grafts: IndexMap::new() };
    let source = GraftSource::parse("gh:owner/repo/config.yml").unwrap();
    record_added_dep(&mut m, "config", &source, "v1.0.0", "config.yml");
    record_added_lock(&mut l, "config", &source, "v1.0.0", s("c0ffee"), s("sha256:x"));
    let d = m.grafts.get("config").unwrap();
    assert_eq!(d, &GraftDep { source: s("gh:owner/repo/config.yml"), version: s("v1.0.0"), dest: s("config.yml"), files: None });
    let e = l.grafts.get("config").unwrap();
    assert_eq!(
        e,
        &LockedDep {
            source: s("gh:owner/repo/config.yml"),
            version: s("v1.0.0"),
            commit: s("c0ffee"),
            checksum: s("sha256:x"),
            files: None,
        }
    );
}

#[test]
fn sync_steps() {
    let (_, l) = two_grafts();
    assert!(sync_skips(true, &l, "myfile"));
    assert!(!sync_skips(false, &l, "myfile"));
    assert!(!sync_skips(true, &l, "new"));
    assert!(cached_file_usable(false, &Some(b"x".to_vec())));
    assert!(!cached_file_usable(false, &Some(Vec::new())));
    assert!(!cached_file_usable(true, &Some(b"x".to_vec())));
    assert!(!cached_file_usable(false, &None));
}

#[test]
fn file_names_in_order() {
    let files = vec![(s("a.md"), b"alpha".to_vec()), (s("sub/b.md"), b"beta".to_vec())];
    assert_eq!(file_names(&files), vec![s("a.md"), s("sub/b.md")]);
    assert!(file_names(&[]).is_empty());
}

#[test]
fn synced_graft_is_recorded() {
    let (m, mut l) = two_grafts();
    let d = m.grafts.get("other").unwrap().copy();
    record_synced(&mut l, "other", &d, s("f00d"), s("sha256:ccc"), Some(vec![s("a.md")]));
    let e = l.grafts.get("other").unwrap();
    assert_eq!((e.commit.as_str(), e.checksum.as_str()), ("f00d", "sha256:ccc"));
    assert_eq!(e.files, Some(vec![s("a.md")]));
    assert_eq!(l.grafts.get_index(1).unwrap().0, "other");
}

#[test]
fn check_lists_what_is_not_in_sync() {
    let states = vec![
        (s("a"), GraftState::Synced),
        (s("b"), GraftState::Modified),
        (s("c"), GraftState::Missing),
        (s("d"), GraftState::Synced),
    ];
    let p = problems(&states);
    assert_eq!(p, vec![(s("b"), GraftState::Modified), (s("c"), GraftState::Missing)]);
    assert!(!check_passes(&p));
    assert!(check_passes(&problems(&vec![(s("a"), GraftState::Synced)])));
}

#[test]
fn upgrade_targets_and_filters() {
    let (m, l) = two_grafts();
    assert_eq!(upgrade_targets(&m, None).unwrap(), vec![s("myfile"), s("other")]);
    assert_eq!(upgrade_targets(&m, Some("other")).unwrap(), vec![s("other")]);
    match upgrade_targets(&m, Some("nope")) {
        Err(GraftError::GraftNotFound { name }) => assert_eq!(name, "nope"),
        other => panic!("unexpected: {:?}", other),
    }
    assert!(follows_tags(&dep("v1.0.0", "x"), l.grafts.get("myfile")));
    assert!(!follows_tags(&dep("v1.0.0", "x"), None));
    assert!(!follows_tags(&dep("a1b2c3d", "x"), l.grafts.get("myfile")));
    match refuse_conflicted(GraftState::Conflicted, "myfile") {
        Err(GraftError::HasConflicts { name }) => assert_eq!(name, "myfile"),
        other => panic!("unexpected: {:?}", other),
    }
    assert!(refuse_conflicted(GraftState::Modified, "myfile").is_ok());
}

#[test]
fn latest_newer_tag_is_the_highest() {
    let remote = vec![(s("v2.0.0"), s("sha2")), (s("v1.0.0"), s("sha1")), (s("v3.0.0"), s("sha3")), (s("v1.5.0"), s("sha15"))];
    assert_eq!(latest_newer_tag("v1.0.0", &remote), Some((s("v3.0.0"), s("sha3"))));
    assert_eq!(latest_newer_tag("v3.0.0", &remote), None);
    let with_nightly = vec![(s("nightly"), s("n")), (s("v2.0.0"), s("sha2")), (s("v1.0.0"), s("sha1"))];
    assert_eq!(latest_newer_tag("v1.0.0", &with_nightly), Some((s("nightly"), s("n"))));
    assert_eq!(latest_newer_tag("v2.0.0", &with_nightly), None);
    assert_eq!(latest_newer_tag("v1.0.0", &[]), None);
}

#[test]
fn upgrade_decisions() {
    let l = locked("v1.0.0", &checksum_bytes(b"old"));
    assert!(!content_changed(&checksum_bytes(b"old"), &l));
    assert!(content_changed(&checksum_bytes(b"new"), &l));
    assert_eq!(upgrade_mode(b"same", b"same"), UpgradeMode::Overwrite);
    assert_eq!(upgrade_mode(b"base", b"ours"), UpgradeMode::Merge);
    assert_eq!(upgrade_mode(b"base", b"base+"), UpgradeMode::Merge);
    assert!(should_save(false, true));
    assert!(!should_save(true, true));
    assert!(!should_save(false, false));
    assert!(reports_outdated("", &l));
    assert!(reports_outdated(&checksum_bytes(b"new"), &l));
    assert!(!reports_outdated(&checksum_bytes(b"old"), &l));
}

#[test]
fn upgrade_records_new_version_and_checksum() {
    let (mut m, mut l) = two_grafts();
    let d = m.grafts.get("myfile").unwrap().copy();
    let e = l.grafts.get("myfile").unwrap().copy();
    record_upgrade(&mut m, &mut l, "myfile", &d, &e, "v2.0.0", "beef", Some(s("sha256:new")));
    assert_eq!(m.grafts.get("myfile").unwrap().version, "v2.0.0");
    assert_eq!(m.grafts.get("myfile").unwrap().dest, "myfile.txt");
    let after = l.grafts.get("myfile").unwrap();
    assert_eq!((after.version.as_str(), after.commit.as_str(), after.checksum.as_str()), ("v2.0.0", "beef", "sha256:new"));
    assert_eq!(m.grafts.get_index(0).unwrap().0, "myfile");
}

#[test]
fn conflicted_upgrade_keeps_version_and_checksum_until_resolved() {
    let (mut m, mut l) = two_grafts();
    let d = m.grafts.get("myfile").unwrap().copy();
    let e = l.grafts.get("myfile").unwrap().copy();
    record_upgrade(&mut m, &mut l, "myfile", &d, &e, "v2.0.0", "beef", None);
    let after = l.grafts.get("myfile").unwrap();
    assert_eq!((after.version.as_str(), after.commit.as_str(), after.checksum.as_str()), ("v1.0.0", "beef", "sha256:aaa"));
    assert_eq!(m.grafts.get("myfile").unwrap().version, "v2.0.0");
    record_resolution(&mut l, &m, "myfile", s("sha256:resolved")).unwrap();
    let after = l.grafts.get("myfile").unwrap();
    assert_eq!((after.version.as_str(), after.commit.as_str(), after.checksum.as_str()), ("v2.0.0", "beef", "sha256:resolved"));
}

#[test]
fn merge_outcomes() {
    assert_eq!(merge_outcome(Some(0), b"merged".to_vec(), b"").unwrap(), MergeResult::Clean(b"merged".to_vec()));
    assert_eq!(
        merge_outcome(Some(1), b"<<<<<<<".to_vec(), b"").unwrap(),
        MergeResult::Conflict(b"<<<<<<<".to_vec())
    );
    match merge_outcome(Some(2), Vec::new(), b"bad input") {
        Err(GraftError::MergeFailed { reason }) => assert_eq!(reason, "bad input"),
        other => panic!("unexpected: {:?}", other),
    }
    assert!(matches!(merge_outcome(None, Vec::new(), b""), Err(GraftError::MergeFailed { .. })));
}

#[test]
fn cache_paths() {
    let c = Cache::with_root(s("/tmp/cache"));
    assert_eq!(c.root(), "/tmp/cache");
    assert_eq!(c.key_path("owner", "repo", "abc123", "file.txt"), "/tmp/cache/owner/repo/abc123/file.txt");
    assert_eq!(
        c.key_path("owner", "repo", "def456", "workflows/lint.yml"),
        "/tmp/cache/owner/repo/def456/workflows/lint.yml"
    );
    assert_ne!(c.key_path("owner", "repo", "commit1", "file.txt"), c.key_path("owner", "repo", "commit2", "file.txt"));
    assert_eq!(Cache::with_root(s("/c/")).key_path("o", "r", "x", "f"), "/c/o/r/x/f");
    assert_eq!(cached_file_path_of("skills/", "a.md"), "skills/a.md");
}

#[test]
fn adopting_keeps_the_local_file_and_locks_the_upstream_checksum() {
    let upstream = SyncContent::File(b"upstream content".to_vec());
    let adopted = add_write(true, &upstream);
    assert!(!adopted.write);
    assert_eq!(adopted.checksum, checksum_bytes(b"upstream content"));
    let added = add_write(false, &upstream);
    assert!(added.write);
    assert_eq!(added.checksum, adopted.checksum);
    let files = vec![(s("a.md"), b"alpha".to_vec())];
    let dir = add_write(true, &SyncContent::Directory(files.clone()));
    assert_eq!(dir.checksum, graft::checksum::checksum_directory(&files));
}
