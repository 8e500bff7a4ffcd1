use graft::source::version::{detect_version_type, VersionType};

#[test]
fn short_sha() {
    assert_eq!(
        detect_version_type("a1b2c3d"),
        VersionType::Sha("a1b2c3d".to_string())
    );
}

#[test]
fn full_sha1() {
    let sha = "a".repeat(40);
    assert_eq!(detect_version_type(&sha), VersionType::Sha(sha.clone()));
}

#[test]
fn semver_tag() {
    assert_eq!(
        detect_version_type("v1.2.0"),
        VersionType::Tag("v1.2.0".to_string())
    );
}

#[test]
fn uppercase_not_hex() {
    assert_eq!(
        detect_version_type("V1.0.0"),
        VersionType::Tag("V1.0.0".to_string())
    );
}

#[test]
fn too_short_hex() {
    assert_eq!(
        detect_version_type("a1b2c3"),
        VersionType::Tag("a1b2c3".to_string())
    );
}

#[test]
fn too_long_hex() {
    let long = "a".repeat(65);
    assert_eq!(detect_version_type(&long), VersionType::Tag(long.clone()));
}

#[test]
fn uppercase_hex_is_a_tag() {
    assert_eq!(
        detect_version_type("ABCDEF1"),
        VersionType::Tag("ABCDEF1".to_string())
    );
}

#[test]
fn longest_sha_is_a_sha() {
    let sha = "0123456789abcdef".repeat(4);
    assert_eq!(detect_version_type(&sha), VersionType::Sha(sha.clone()));
}
