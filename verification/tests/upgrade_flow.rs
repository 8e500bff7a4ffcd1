use graft::checksum::{checksum_bytes, checksum_directory};
use graft::commands::outdated::{outdated_start, outdated_step, OutdatedAction, OutdatedEvent, OutdatedStage};
use graft::commands::upgrade_step::{
    upgrade_start, upgrade_step, UpgradeAction, UpgradeEvent, UpgradeKind, UpgradeStage,
};
use graft::config::lockfile::LockedDep;
use graft::config::manifest::GraftDep;
use graft::error::GraftError;
use graft::merge::MergeResult;
use graft::state::GraftState;

fn s(x: &str) -> String {
    x.to_string()
}

fn dep(source: &str, version: &str) -> GraftDep {
    GraftDep { source: s(source), version: s(version), dest: s("config.yml"), files: None }
}

fn locked(old_content: &[u8]) -> LockedDep {
    LockedDep {
        source: s("gh:owner/repo/config.yml"),
        version: s("v1.0.0"),
        commit: s("old0001"),
        checksum: checksum_bytes(old_content),
        files: None,
    }
}

fn remote() -> Vec<(String, String)> {
    vec![(s("v2.0.0"), s("sha2")), (s("v1.0.0"), s("sha1")), (s("v1.5.0"), s("sha15"))]
}

/// Runs an upgrade up to the point where the local file is wanted.
fn up_to_ours(d: &GraftDep, l: &LockedDep, upstream: &[u8], base: &[u8]) -> UpgradeStage {
    let (stage, action) = upgrade_start(d, Some(l));
    assert!(matches!(stage, UpgradeStage::Start));
    assert!(matches!(action, UpgradeAction::ComputeState));

    let (stage, action) = upgrade_step("config", d, l, false, stage, UpgradeEvent::State(GraftState::Modified));
    let UpgradeAction::ListTags { owner, repo } = action else { panic!("expected the tags to be listed") };
    assert_eq!((owner.as_str(), repo.as_str()), ("owner", "repo"));

    let (stage, action) = upgrade_step("config", d, l, false, stage, UpgradeEvent::Tags(remote()));
    let UpgradeAction::ResolveTag { tag, .. } = action else { panic!("expected the newest tag to be resolved") };
    assert_eq!(tag, "v2.0.0");

    let (stage, action) = upgrade_step("config", d, l, false, stage, UpgradeEvent::Commit(s("new0002")));
    let UpgradeAction::FetchFile { path, commit, .. } = action else { panic!("expected the new file to be fetched") };
    assert_eq!((path.as_str(), commit.as_str()), ("config.yml", "new0002"));

    let (stage, action) = upgrade_step("config", d, l, false, stage, UpgradeEvent::File(upstream.to_vec()));
    let UpgradeAction::FetchBase { commit, .. } = action else { panic!("expected the base to be fetched") };
    assert_eq!(commit, "old0001");

    let (stage, action) = upgrade_step("config", d, l, false, stage, UpgradeEvent::File(base.to_vec()));
    assert!(matches!(action, UpgradeAction::ReadOurs));
    stage
}

#[test]
fn unmodified_file_takes_the_new_content() {
    let d = dep("gh:owner/repo/config.yml", "v1.0.0");
    let l = locked(b"old");
    let stage = up_to_ours(&d, &l, b"new", b"old");
    let (stage, action) = upgrade_step("config", &d, &l, false, stage, UpgradeEvent::File(b"old".to_vec()));
    assert!(matches!(stage, UpgradeStage::Done));
    let UpgradeAction::Apply(u) = action else { panic!("expected an upgrade") };
    assert_eq!(u.kind, UpgradeKind::Overwritten);
    assert_eq!(u.content, b"new".to_vec());
    assert_eq!(u.upstream, b"new".to_vec());
    assert_eq!(u.checksum, Some(checksum_bytes(b"new")));
    assert_eq!((u.tag.as_str(), u.commit.as_str()), ("v2.0.0", "new0002"));
    assert_eq!(u.source.path, "config.yml");
}

#[test]
fn modified_file_is_merged() {
    let d = dep("gh:owner/repo/config.yml", "v1.0.0");
    let l = locked(b"old");
    let stage = up_to_ours(&d, &l, b"new", b"old");
    let (stage, action) = upgrade_step("config", &d, &l, false, stage, UpgradeEvent::File(b"mine".to_vec()));
    let UpgradeAction::Merge { base, ours, theirs } = action else { panic!("expected a merge") };
    assert_eq!((base, ours, theirs), (b"old".to_vec(), b"mine".to_vec(), b"new".to_vec()));

    let (_, action) = upgrade_step("config", &d, &l, false, stage, UpgradeEvent::Merged(MergeResult::Clean(b"merged".to_vec())));
    let UpgradeAction::Apply(u) = action else { panic!("expected an upgrade") };
    assert_eq!(u.kind, UpgradeKind::Merged);
    assert_eq!(u.content, b"merged".to_vec());
    assert_eq!(u.upstream, b"new".to_vec());
    assert_eq!(u.checksum, Some(checksum_bytes(b"merged")));
}

#[test]
fn conflicted_merge_keeps_the_locked_checksum() {
    let d = dep("gh:owner/repo/config.yml", "v1.0.0");
    let l = locked(b"old");
    let stage = up_to_ours(&d, &l, b"new", b"old");
    let (stage, _) = upgrade_step("config", &d, &l, false, stage, UpgradeEvent::File(b"mine".to_vec()));
    let (_, action) =
        upgrade_step("config", &d, &l, false, stage, UpgradeEvent::Merged(MergeResult::Conflict(b"<<<<<<<".to_vec())));
    let UpgradeAction::Apply(u) = action else { panic!("expected an upgrade") };
    assert_eq!(u.kind, UpgradeKind::Conflicted);
    assert_eq!(u.content, b"<<<<<<<".to_vec());
    assert_eq!(u.checksum, None);
}

#[test]
fn unchanged_content_under_a_new_tag_is_skipped() {
    let d = dep("gh:owner/repo/config.yml", "v1.0.0");
    let l = locked(b"same");
    let (stage, _) = upgrade_start(&d, Some(&l));
    let (stage, _) = upgrade_step("config", &d, &l, false, stage, UpgradeEvent::State(GraftState::Synced));
    let (stage, _) = upgrade_step("config", &d, &l, false, stage, UpgradeEvent::Tags(remote()));
    let (stage, _) = upgrade_step("config", &d, &l, false, stage, UpgradeEvent::Commit(s("new0002")));
    let (stage, action) = upgrade_step("config", &d, &l, false, stage, UpgradeEvent::File(b"same".to_vec()));
    assert!(matches!(stage, UpgradeStage::Done));
    assert!(matches!(action, UpgradeAction::Skip));
}

#[test]
fn upgrade_skips_and_refusals() {
    let l = locked(b"old");
    let (_, action) = upgrade_start(&dep("gh:owner/repo/config.yml", "a1b2c3d"), Some(&l));
    assert!(matches!(action, UpgradeAction::Skip));
    let (_, action) = upgrade_start(&dep("gh:owner/repo/config.yml", "v1.0.0"), None);
    assert!(matches!(action, UpgradeAction::Skip));

    let d = dep("gh:owner/repo/config.yml", "v1.0.0");
    let (_, action) = upgrade_step("config", &d, &l, false, UpgradeStage::Start, UpgradeEvent::State(GraftState::Conflicted));
    let UpgradeAction::Fail(GraftError::HasConflicts { name }) = action else { panic!("expected a refusal") };
    assert_eq!(name, "config");

    let bad = dep("github:owner/repo/config.yml", "v1.0.0");
    let (_, action) = upgrade_step("config", &bad, &l, false, UpgradeStage::Start, UpgradeEvent::State(GraftState::Synced));
    let UpgradeAction::Fail(GraftError::InvalidSource { input }) = action else { panic!("expected an error") };
    assert_eq!(input, "github:owner/repo/config.yml");

    let d3 = dep("gh:owner/repo/config.yml", "v2.0.0");
    let (stage, _) = upgrade_step("config", &d3, &l, false, UpgradeStage::Start, UpgradeEvent::State(GraftState::Synced));
    let (_, action) = upgrade_step("config", &d3, &l, false, stage, UpgradeEvent::Tags(remote()));
    assert!(matches!(action, UpgradeAction::Skip));
}

#[test]
fn outdated_reports_changed_content() {
    let d = dep("gh:owner/repo/config.yml", "v1.0.0");
    let l = locked(b"old");
    let (stage, action) = outdated_start(&d, Some(&l));
    let OutdatedAction::ListTags { owner, repo } = action else { panic!("expected the tags to be listed") };
    assert_eq!((owner.as_str(), repo.as_str()), ("owner", "repo"));
    let (stage, action) = outdated_step(&d, &l, stage, OutdatedEvent::Tags(remote()));
    let OutdatedAction::ResolveTag { tag, .. } = action else { panic!("expected the newest tag to be resolved") };
    assert_eq!(tag, "v2.0.0");
    let (stage, action) = outdated_step(&d, &l, stage, OutdatedEvent::Commit(Some(s("new0002"))));
    let OutdatedAction::FetchFile { commit, .. } = action else { panic!("expected the file to be fetched") };
    assert_eq!(commit, "new0002");
    let (stage, action) = outdated_step(&d, &l, stage, OutdatedEvent::File(Some(b"new".to_vec())));
    assert!(matches!(stage, OutdatedStage::Done));
    let OutdatedAction::Report { tag } = action else { panic!("expected a report") };
    assert_eq!(tag, "v2.0.0");
}

#[test]
fn outdated_skips_unchanged_content_and_reports_failures() {
    let d = dep("gh:owner/repo/config.yml", "v1.0.0");
    let l = locked(b"same");
    let start = || {
        let (stage, _) = outdated_start(&d, Some(&l));
        let (stage, _) = outdated_step(&d, &l, stage, OutdatedEvent::Tags(remote()));
        stage
    };
    let (stage, _) = outdated_step(&d, &l, start(), OutdatedEvent::Commit(Some(s("c"))));
    let (_, action) = outdated_step(&d, &l, stage, OutdatedEvent::File(Some(b"same".to_vec())));
    assert!(matches!(action, OutdatedAction::Skip));

    let (stage, _) = outdated_step(&d, &l, start(), OutdatedEvent::Commit(Some(s("c"))));
    let (_, action) = outdated_step(&d, &l, stage, OutdatedEvent::File(None));
    assert!(matches!(action, OutdatedAction::Report { .. }));

    let (_, action) = outdated_step(&d, &l, start(), OutdatedEvent::Commit(None));
    assert!(matches!(action, OutdatedAction::Report { .. }));
}

#[test]
fn outdated_fetches_directories_with_their_file_list() {
    let mut d = dep("gh:owner/repo/skills/", "v1.0.0");
    d.files = Some(vec![s("a.md")]);
    let files = vec![(s("a.md"), b"alpha".to_vec())];
    let mut l = locked(b"");
    l.checksum = checksum_directory(&files);
    let (stage, _) = outdated_start(&d, Some(&l));
    let (stage, _) = outdated_step(&d, &l, stage, OutdatedEvent::Tags(remote()));
    let (stage, action) = outdated_step(&d, &l, stage, OutdatedEvent::Commit(Some(s("c"))));
    let OutdatedAction::FetchDirectory { path, files: list, .. } = action else { panic!("expected a directory fetch") };
    assert_eq!(path, "skills/");
    assert_eq!(list, Some(vec![s("a.md")]));
    let (_, action) = outdated_step(&d, &l, stage, OutdatedEvent::Directory(Some(files)));
    assert!(matches!(action, OutdatedAction::Skip));

    let (_, action) = outdated_start(&dep("gh:owner/repo/config.yml", "v1.0.0"), None);
    assert!(matches!(action, OutdatedAction::Skip));
}

#[test]
fn dry_run_only_shows_the_upgrade() {
    let d = dep("gh:owner/repo/config.yml", "v1.0.0");
    let l = locked(b"old");
    let stage = up_to_ours(&d, &l, b"new", b"old");
    let (_, action) = upgrade_step("config", &d, &l, true, stage, UpgradeEvent::File(b"old".to_vec()));
    let UpgradeAction::Preview(u) = action else { panic!("expected a preview") };
    assert_eq!(u.kind, UpgradeKind::Overwritten);
    assert_eq!(u.content, b"new".to_vec());
}
