use indexmap::IndexMap;

use graft::config::lockfile::LockedDep;
use graft::config::manifest::{check_dest, default_version, GraftDep, Manifest};
use graft::error::GraftError;

fn dep(source: &str, dest: &str) -> GraftDep {
    GraftDep { source: source.to_string(), version: default_version(), dest: dest.to_string(), files: None }
}

fn manifest_of(entries: &[(&str, GraftDep)]) -> Manifest {
    let mut m = Manifest { grafts: IndexMap::new() };
    for (name, d) in entries {
        m.grafts.insert(name.to_string(), d.clone());
    }
    m
}

fn locked(checksum: &str) -> LockedDep {
    LockedDep {
        source: "gh:owner/repo/file".to_string(),
        version: "v1.0.0".to_string(),
        commit: "abc123".to_string(),
        checksum: checksum.to_string(),
        files: None,
    }
}

// [grafts.a] and [grafts.b] share the destination `config.json`.
#[test]
fn reject_duplicate_dest() {
    let m = manifest_of(&[
        ("a", dep("gh:owner/repo/file", "config.json")),
        ("b", dep("gh:owner/repo2/file", "config.json")),
    ]);
    let err = m.validate().unwrap_err();
    assert!(matches!(err, GraftError::DuplicateDest { .. }));
}

#[test]
fn reject_dest_escaping_root() {
    let m = manifest_of(&[("evil", dep("gh:owner/repo/file", "../etc/passwd"))]);
    let err = m.validate().unwrap_err();
    assert!(matches!(err, GraftError::DestEscapesRoot { .. }));
}

#[test]
fn reject_dest_targeting_git() {
    let m = manifest_of(&[("hook", dep("gh:owner/repo/hook", ".git/hooks/pre-commit"))]);
    let err = m.validate().unwrap_err();
    assert!(matches!(err, GraftError::DestTargetsGit { .. }));
}

#[test]
fn version_defaults_to_latest() {
    assert_eq!(default_version(), "latest");
}

#[test]
fn distinct_safe_destinations_validate() {
    let m = manifest_of(&[
        ("eslint", dep("gh:eslint/eslint/.eslintrc.json", ".eslintrc.json")),
        ("prettier", dep("gh:prettier/prettier", ".")),
        ("ignore", dep("gh:owner/repo/.gitignore", ".gitignore")),
        ("dots", dep("gh:owner/repo/x", "..config/x")),
    ]);
    assert!(m.validate().is_ok());
    assert!(manifest_of(&[]).validate().is_ok());
}

#[test]
fn duplicate_error_names_the_shared_destination() {
    let m = manifest_of(&[("a", dep("gh:o/r/f", "same.txt")), ("b", dep("gh:o/r/g", "same.txt"))]);
    match m.validate() {
        Err(GraftError::DuplicateDest { path }) => assert_eq!(path, "same.txt"),
        other => panic!("unexpected: {:?}", other),
    }
}

#[test]
fn first_problem_in_manifest_order_is_reported() {
    let m = manifest_of(&[("git", dep("gh:o/r/f", ".git")), ("up", dep("gh:o/r/g", "a/../../b"))]);
    match m.validate() {
        Err(GraftError::DestTargetsGit { path }) => assert_eq!(path, ".git"),
        other => panic!("unexpected: {:?}", other),
    }
}

#[test]
fn parent_dir_anywhere_in_the_path_escapes() {
    match check_dest("a/../b") {
        Err(GraftError::DestEscapesRoot { path }) => assert_eq!(path, "a/../b"),
        other => panic!("unexpected: {:?}", other),
    }
    assert!(matches!(check_dest("a/.."), Err(GraftError::DestEscapesRoot { .. })));
    assert!(check_dest("a/..b/c").is_ok());
    assert!(matches!(check_dest(".git\\config"), Err(GraftError::DestTargetsGit { .. })));
    assert!(check_dest(".github/workflows/ci.yml").is_ok());
    assert!(check_dest("./config/x.yml").is_ok());
}

#[test]
fn absolute_destinations_escape_and_dot_prefixed_git_is_refused() {
    let m = manifest_of(&[("x", dep("gh:o/r/f", "/etc/passwd"))]);
    match m.validate() {
        Err(GraftError::DestEscapesRoot { path }) => assert_eq!(path, "/etc/passwd"),
        other => panic!("unexpected: {:?}", other),
    }
    let m = manifest_of(&[("x", dep("gh:o/r/f", "./.git/hooks/pre-commit"))]);
    match m.validate() {
        Err(GraftError::DestTargetsGit { path }) => assert_eq!(path, "./.git/hooks/pre-commit"),
        other => panic!("unexpected: {:?}", other),
    }
    assert!(matches!(check_dest(".//./.git"), Err(GraftError::DestTargetsGit { .. })));
    assert!(check_dest("./.gitignore").is_ok());
}

#[test]
fn copies_are_equal() {
    let d = GraftDep {
        source: "gh:prettier/prettier".to_string(),
        version: "v3.2.0".to_string(),
        dest: ".".to_string(),
        files: Some(vec![".prettierrc".to_string(), ".prettierignore".to_string()]),
    };
    assert_eq!(d.copy(), d);
    let l = locked("sha256:deadbeef");
    assert_eq!(l.copy(), l);
}
