use graft::commands::add::{add_dest, derive_name};
use graft::error::GraftError;
use graft::source::parse::GraftSource;

#[test]
fn parse_single_file() {
    let src = GraftSource::parse("gh:rroskam/shared-configs/workflows/lint.yml").unwrap();
    assert_eq!(src.owner, "rroskam");
    assert_eq!(src.repo, "shared-configs");
    assert_eq!(src.path, "workflows/lint.yml");
    assert!(!src.is_directory());
}

#[test]
fn parse_directory() {
    let src = GraftSource::parse("gh:rroskam/shared-configs/skills/").unwrap();
    assert_eq!(src.owner, "rroskam");
    assert_eq!(src.repo, "shared-configs");
    assert_eq!(src.path, "skills/");
    assert!(src.is_directory());
}

#[test]
fn parse_root_file() {
    let src = GraftSource::parse("gh:owner/repo/Makefile").unwrap();
    assert_eq!(src.owner, "owner");
    assert_eq!(src.repo, "repo");
    assert_eq!(src.path, "Makefile");
}

#[test]
fn parse_with_version_tag() {
    let (src, version) = GraftSource::parse_with_version("gh:owner/repo/file@v1.2.0").unwrap();
    assert_eq!(src.owner, "owner");
    assert_eq!(src.repo, "repo");
    assert_eq!(src.path, "file");
    assert_eq!(version, "v1.2.0");
}

#[test]
fn parse_with_version_sha() {
    let (src, version) = GraftSource::parse_with_version("gh:owner/repo/file@a1b2c3d").unwrap();
    assert_eq!(src.path, "file");
    assert_eq!(version, "a1b2c3d");
    assert_eq!(src.owner, "owner");
}

#[test]
fn parse_rejects_missing_prefix() {
    assert!(GraftSource::parse("owner/repo/file").is_err());
}

#[test]
fn parse_rejects_missing_path() {
    assert!(GraftSource::parse("gh:owner/repo").is_err());
}

#[test]
fn parse_rejects_empty_path() {
    let err = GraftSource::parse("gh:owner/repo/").unwrap_err();
    assert!(matches!(err, GraftError::InvalidSource { ref input } if input == "gh:owner/repo/"));
}

#[test]
fn roundtrip_to_source_string() {
    let src = GraftSource::parse("gh:rroskam/shared-configs/workflows/lint.yml").unwrap();
    assert_eq!(
        src.to_source_string(),
        "gh:rroskam/shared-configs/workflows/lint.yml"
    );
}

#[test]
fn print_then_parse_gives_the_parts_back() {
    let src = GraftSource {
        owner: "org".to_string(),
        repo: "configs".to_string(),
        path: "a/b/c.yml".to_string(),
    };
    let back = GraftSource::parse(&src.to_source_string()).unwrap();
    assert_eq!(back, src);
}

#[test]
fn parse_with_version_splits_at_last_at() {
    let (src, version) = GraftSource::parse_with_version("gh:o@x/repo/file@v2").unwrap();
    assert_eq!(src.owner, "o@x");
    assert_eq!(version, "v2");
}

#[test]
fn parse_with_version_rejects_missing_version() {
    let err = GraftSource::parse_with_version("gh:owner/repo/file@").unwrap_err();
    assert!(matches!(err, GraftError::InvalidSource { ref input } if input == "gh:owner/repo/file@"));
    let err = GraftSource::parse_with_version("gh:owner/repo/file").unwrap_err();
    assert!(matches!(err, GraftError::InvalidSource { ref input } if input == "gh:owner/repo/file"));
}

#[test]
fn parse_with_version_reports_the_source_part() {
    let err = GraftSource::parse_with_version("gh:owner@v1").unwrap_err();
    assert!(matches!(err, GraftError::InvalidSource { ref input } if input == "gh:owner"));
}

#[test]
fn derive_name_from_path_workflow() {
    assert_eq!(derive_name("workflows/lint.yml"), "lint");
}

#[test]
fn derive_name_from_path_directory() {
    assert_eq!(derive_name("skills/"), "skills");
}

#[test]
fn derive_name_from_path_no_extension() {
    assert_eq!(derive_name("Makefile"), "Makefile");
}

#[test]
fn derive_name_from_path_dotfile() {
    assert_eq!(derive_name(".eslintrc.json"), ".eslintrc");
}

#[test]
fn default_dest_from_source_nested() {
    let (graft_source, _version) =
        GraftSource::parse_with_version("gh:owner/repo/.github/workflows/release.yml@v1.0").unwrap();
    assert_eq!(graft_source.path, ".github/workflows/release.yml");
    assert_eq!(add_dest(None, &graft_source), ".github/workflows/release.yml");
}

#[test]
fn default_dest_from_source_root() {
    let (graft_source, _version) = GraftSource::parse_with_version("gh:owner/repo/Makefile@v1.0").unwrap();
    assert_eq!(graft_source.path, "Makefile");
    assert_eq!(add_dest(Some("build/Makefile"), &graft_source), "build/Makefile");
}

#[test]
fn default_dest_from_source_directory() {
    let (graft_source, _version) = GraftSource::parse_with_version("gh:owner/repo/skills/@v1.0").unwrap();
    assert_eq!(graft_source.path, "skills/");
}
