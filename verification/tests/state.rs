use graft::checksum::checksum_bytes;
use graft::config::lockfile::LockedDep;
use graft::state::{conflict_markers_present, state_before_checksum, state_from_checksum, GraftState};

fn make_locked(checksum: &str) -> LockedDep {
    LockedDep {
        source: "gh:owner/repo/file".to_string(),
        version: "v1.0.0".to_string(),
        commit: "abc123".to_string(),
        checksum: checksum.to_string(),
        files: None,
    }
}

#[test]
fn display_variants() {
    assert_eq!(GraftState::Synced.to_string(), "synced");
    assert_eq!(GraftState::Modified.to_string(), "modified");
    assert_eq!(GraftState::Outdated.to_string(), "outdated");
    assert_eq!(GraftState::Conflicted.to_string(), "conflicted");
    assert_eq!(GraftState::Missing.to_string(), "missing");
}

// The destination `nonexistent.txt` does not exist.
#[test]
fn missing_file() {
    let locked = make_locked("sha256:000");
    assert_eq!(state_before_checksum(false, Some(&locked), None), Some(GraftState::Missing));
}

#[test]
fn missing_no_lockfile_entry() {
    assert_eq!(state_before_checksum(false, None, None), Some(GraftState::Missing));
}

// `file.txt` holds "hello", and nothing is locked for it.
#[test]
fn file_exists_but_no_lock_entry() {
    assert_eq!(state_before_checksum(true, None, Some("hello")), Some(GraftState::Missing));
}

#[test]
fn synced_file() {
    let content = "hello world";
    let locked = make_locked(&checksum_bytes(content.as_bytes()));
    assert_eq!(state_before_checksum(true, Some(&locked), Some(content)), None);
    assert_eq!(state_from_checksum(&checksum_bytes(content.as_bytes()), &locked), GraftState::Synced);
}

#[test]
fn modified_file() {
    let content = "modified content";
    let locked = make_locked(&checksum_bytes(b"original content"));
    assert_eq!(state_before_checksum(true, Some(&locked), Some(content)), None);
    assert_eq!(state_from_checksum(&checksum_bytes(content.as_bytes()), &locked), GraftState::Modified);
}

#[test]
fn conflicted_file() {
    let locked = make_locked(&checksum_bytes(b"something else"));
    let content = "line1\n<<<<<<< HEAD\nlocal\n=======\nremote\n>>>>>>> upstream\nline2\n";
    assert_eq!(state_before_checksum(true, Some(&locked), Some(content)), Some(GraftState::Conflicted));
}

#[test]
fn one_kind_of_marker_is_no_conflict() {
    assert!(!conflict_markers_present("<<<<<<< only the start\n"));
    assert!(!conflict_markers_present(">>>>>>> only the end\n"));
    assert!(!conflict_markers_present("<<<<<< six is not seven >>>>>>"));
    assert!(conflict_markers_present(">>>>>>> end first, then start <<<<<<<"));
}

#[test]
fn checksum_decides_otherwise() {
    let locked = make_locked("sha256:abc");
    assert_eq!(state_before_checksum(true, Some(&locked), Some("plain text")), None);
    assert_eq!(state_before_checksum(true, Some(&locked), None), None);
    assert_eq!(state_from_checksum("sha256:abc", &locked), GraftState::Synced);
    assert_eq!(state_from_checksum("sha256:abd", &locked), GraftState::Modified);
}
