use std::collections::HashMap;

use graft::source::tags::{
    collect_tag_refs, find_newer_parsed, find_newer_tags, parse_ls_remote_tags, parse_tag_semver, sort_parsed_tags, sort_tags,
};

fn chars(t: &str) -> Vec<char> {
    t.chars().collect()
}

fn pair(a: &str, b: &str) -> (String, String) {
    (a.to_string(), b.to_string())
}

#[test]
fn parse_simple_tags() {
    let output = "\
abc123\trefs/tags/v1.0.0
def456\trefs/tags/v2.0.0
";
    let tags = parse_ls_remote_tags(output);
    assert_eq!(tags.len(), 2);
    let map: HashMap<String, String> = tags.into_iter().collect();
    assert_eq!(map["v1.0.0"], "abc123");
    assert_eq!(map["v2.0.0"], "def456");
}

#[test]
fn parse_annotated_tags_prefers_deref() {
    let output = "\
aaa111\trefs/tags/v1.0.0
bbb222\trefs/tags/v1.0.0^{}
ccc333\trefs/tags/v2.0.0
";
    let tags = parse_ls_remote_tags(output);
    let map: HashMap<String, String> = tags.into_iter().collect();
    assert_eq!(map["v1.0.0"], "bbb222");
    assert_eq!(map["v2.0.0"], "ccc333");
}

#[test]
fn deref_entry_wins_even_when_plain_entry_comes_later() {
    let output = "bbb222\trefs/tags/v1.0.0^{}\naaa111\trefs/tags/v1.0.0\n";
    let tags = parse_ls_remote_tags(output);
    assert_eq!(tags, vec![pair("v1.0.0", "bbb222")]);
}

#[test]
fn later_plain_entry_replaces_earlier_plain_entry() {
    let output = "aaa111\trefs/tags/v1\nbbb222\trefs/tags/v1\n";
    let tags = parse_ls_remote_tags(output);
    assert_eq!(tags, vec![pair("v1", "bbb222")]);
}

#[test]
fn non_tag_refs_and_blank_lines_are_skipped() {
    let output = "\n   \nabc\trefs/heads/main\nno tab here\r\n  def\t refs/tags/x \r\n";
    let tags = parse_ls_remote_tags(output);
    assert_eq!(tags, vec![pair("x", "def")]);
}

#[test]
fn untrimmed_lines_keep_a_leading_tab() {
    let output = "  \tabc\trefs/tags/x\n";
    assert_eq!(collect_tag_refs(output, true), vec![pair("x", "abc")]);
    assert!(collect_tag_refs(output, false).is_empty());
}

#[test]
fn sort_semver_tags() {
    let tags = vec![
        ("v2.0.0".to_string(), "sha2".to_string()),
        ("v1.0.0".to_string(), "sha1".to_string()),
        ("v1.5.0".to_string(), "sha15".to_string()),
    ];
    let sorted = sort_tags(&tags);
    assert_eq!(sorted[0].0, "v1.0.0");
    assert_eq!(sorted[1].0, "v1.5.0");
    assert_eq!(sorted[2].0, "v2.0.0");
}

#[test]
fn sort_mixed_semver_and_nonsemver() {
    let tags = vec![
        ("nightly".to_string(), "sha_n".to_string()),
        ("v2.0.0".to_string(), "sha2".to_string()),
        ("v1.0.0".to_string(), "sha1".to_string()),
        ("beta".to_string(), "sha_b".to_string()),
    ];
    let sorted = sort_tags(&tags);
    assert_eq!(sorted[0].0, "v1.0.0");
    assert_eq!(sorted[1].0, "v2.0.0");
    assert_eq!(sorted[2].0, "beta");
    assert_eq!(sorted[3].0, "nightly");
}

#[test]
fn sort_orders_prereleases_before_releases() {
    let tags = vec![
        pair("v1.0.0", "a"),
        pair("1.0.0-rc.1", "b"),
        pair("V0.9.10", "c"),
        pair("v0.9.9", "d"),
    ];
    let sorted = sort_tags(&tags);
    let names: Vec<&str> = sorted.iter().map(|p| p.0.as_str()).collect();
    assert_eq!(names, vec!["v0.9.9", "V0.9.10", "1.0.0-rc.1", "v1.0.0"]);
}

#[test]
fn sort_keeps_equal_versions_in_input_order() {
    let tags = vec![pair("v1.0.0", "first"), pair("1.0.0", "second")];
    let sorted = sort_tags(&tags);
    assert_eq!(sorted, tags);
}

#[test]
fn find_newer_semver_tags() {
    let tags = vec![
        ("v1.0.0".to_string(), "sha1".to_string()),
        ("v1.5.0".to_string(), "sha15".to_string()),
        ("v2.0.0".to_string(), "sha2".to_string()),
        ("v3.0.0".to_string(), "sha3".to_string()),
    ];
    let newer = find_newer_tags("v1.5.0", &tags);
    assert_eq!(newer.len(), 2);
    assert_eq!(newer[0].0, "v2.0.0");
    assert_eq!(newer[1].0, "v3.0.0");
}

#[test]
fn find_newer_tags_none_available() {
    let tags = vec![
        ("v1.0.0".to_string(), "sha1".to_string()),
        ("v2.0.0".to_string(), "sha2".to_string()),
    ];
    let newer = find_newer_tags("v2.0.0", &tags);
    assert!(newer.is_empty());
}

#[test]
fn find_newer_tags_with_v_prefix_current() {
    let tags = vec![
        ("v1.0.0".to_string(), "sha1".to_string()),
        ("v2.0.0".to_string(), "sha2".to_string()),
    ];
    let newer = find_newer_tags("v1.0.0", &tags);
    assert_eq!(newer.len(), 1);
    assert_eq!(newer[0].0, "v2.0.0");
}

#[test]
fn find_newer_tags_for_non_semver_current_compares_text() {
    let tags = vec![pair("alpha", "a"), pair("beta", "b"), pair("gamma", "g")];
    let newer = find_newer_tags("beta", &tags);
    assert_eq!(newer, vec![pair("gamma", "g")]);
}

#[test]
fn find_newer_tags_keeps_the_tail_from_the_first_newer_version() {
    let tags = vec![pair("v1.0.0", "a"), pair("v2.0.0", "b"), pair("nightly", "n")];
    let newer = find_newer_tags("v1.5.0", &tags);
    assert_eq!(newer, vec![pair("v2.0.0", "b"), pair("nightly", "n")]);
    assert!(find_newer_tags("v3.0.0", &tags).is_empty());
    // A current tag that is no semantic version is compared as text, and never
    // comes back itself.
    let tags = vec![pair("v1.0.0", "a"), pair("nightly", "n")];
    let newer = find_newer_tags("nightly", &tags);
    assert_eq!(newer, vec![pair("v1.0.0", "a")]);
    let newer = find_newer_tags("zzz", &tags);
    assert!(newer.is_empty());
}

#[test]
fn sorting_a_sorted_list_changes_nothing() {
    let tags = vec![pair("v10.0.0", "a"), pair("beta", "b"), pair("v9.0.0", "c"), pair("alpha", "d"), pair("V1.0.0", "e")];
    let once = sort_tags(&tags);
    assert_eq!(
        once,
        vec![pair("V1.0.0", "e"), pair("v9.0.0", "c"), pair("v10.0.0", "a"), pair("alpha", "d"), pair("beta", "b")]
    );
    assert_eq!(sort_tags(&once), once);
}

#[test]
fn parsed_keys_sort_and_select_as_the_names_do() {
    let tags = vec![pair("v2.0.0", "b"), pair("nightly", "n"), pair("v1.0.0", "a")];
    let keys: Vec<_> = tags.iter().map(|(t, _)| parse_tag_semver(&chars(t))).collect();
    assert_eq!(sort_parsed_tags(&tags, &keys), sort_tags(&tags));
    let sorted = sort_tags(&tags);
    let sorted_keys: Vec<_> = sorted.iter().map(|(t, _)| parse_tag_semver(&chars(t))).collect();
    let current = parse_tag_semver(&chars("v1.0.0"));
    assert_eq!(find_newer_parsed("v1.0.0", &current, &sorted, &sorted_keys), vec![pair("v2.0.0", "b"), pair("nightly", "n")]);
}

#[test]
fn trimmed_and_untrimmed_readings_agree_on_well_formed_output() {
    let out = "abc\trefs/tags/v2.0.0\ndef\trefs/tags/v1.0.0\n111\trefs/tags/v1.0.0^{}\n";
    let mut trimmed = parse_ls_remote_tags(out);
    trimmed.sort();
    let mut untrimmed = collect_tag_refs(out, false);
    untrimmed.sort();
    assert_eq!(trimmed, untrimmed);
    assert_eq!(trimmed, vec![pair("v1.0.0", "111"), pair("v2.0.0", "abc")]);
}
