use graft::checksum::{checksum_bytes, checksum_directory};

#[test]
fn checksum_bytes_returns_prefixed_hex() {
    let result = checksum_bytes(b"hello");
    assert!(result.starts_with("sha256:"));
    assert_eq!(result.len(), 7 + 64);
    assert!(result[7..].chars().all(|c| c.is_ascii_hexdigit()));
}

#[test]
fn checksum_bytes_of_known_input() {
    assert_eq!(
        checksum_bytes(b"hello"),
        "sha256:2cf24dba5fb0a30e26e83b2ac5b9e29e1b161e5c1fa7425e73043362938b9824"
    );
    assert_eq!(
        checksum_bytes(b""),
        "sha256:e3b0c44298fc1c149afbf4c8996fb92427ae41e4649b934ca495991b7852b855"
    );
}

#[test]
fn same_content_same_checksum() {
    let a = checksum_bytes(b"deterministic");
    let b = checksum_bytes(b"deterministic");
    assert_eq!(a, b);
}

#[test]
fn different_content_different_checksum() {
    let a = checksum_bytes(b"hello");
    let b = checksum_bytes(b"world");
    assert_ne!(a, b);
}

#[test]
fn directory_checksum_is_order_independent() {
    let files_ab = vec![
        ("a.txt".to_string(), b"alpha".to_vec()),
        ("b.txt".to_string(), b"beta".to_vec()),
    ];
    let files_ba = vec![
        ("b.txt".to_string(), b"beta".to_vec()),
        ("a.txt".to_string(), b"alpha".to_vec()),
    ];
    assert_eq!(checksum_directory(&files_ab), checksum_directory(&files_ba));
}

#[test]
fn directory_checksum_hashes_the_concatenated_digests() {
    let files = vec![
        ("b.txt".to_string(), b"beta".to_vec()),
        ("a.txt".to_string(), b"alpha".to_vec()),
    ];
    let combined = format!(
        "{}{}",
        &checksum_bytes(b"alpha")[7..],
        &checksum_bytes(b"beta")[7..]
    );
    assert_eq!(checksum_directory(&files), checksum_bytes(combined.as_bytes()));
}

#[test]
fn empty_directory_checksum_is_the_checksum_of_nothing() {
    assert_eq!(checksum_directory(&[]), checksum_bytes(b""));
}
