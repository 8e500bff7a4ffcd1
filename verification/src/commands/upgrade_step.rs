use vstd::prelude::*;

use crate::checksum::{checksum_bytes, checksum_text};
use crate::commands::upgrade::{
    content_changed, follows_tags, has_newer, last_newer_in_tag_order, latest_newer_tag, upgrade_mode, UpgradeMode,
};
use crate::config::lockfile::LockedDep;
use crate::config::manifest::GraftDep;
use crate::error::GraftError;
use crate::merge::MergeResult;
use crate::source::parse::{source_parts, GraftSource};
use crate::source::version::is_sha_text;
use crate::state::GraftState;

verus! {

/// How an upgraded file came about.
#[derive(Debug, Clone, Copy, PartialEq, Eq, Structural)]
pub enum UpgradeKind {
    /// The file was never changed locally and takes the new content.
    Overwritten,
    /// The local changes were merged into the new content without conflicts.
    Merged,
    /// The merge left conflict markers in the file.
    Conflicted,
}

/// An upgrade ready to be applied: the dependency's source, the tag and commit it
/// moves to, the content that goes to its destination, the new upstream content
/// (kept in the cache under the new commit), and the checksum its lock entry takes
/// (`None`: the lock entry keeps its version and checksum).
pub struct Upgrade {
    pub source: GraftSource,
    pub tag: String,
    pub commit: String,
    pub content: Vec<u8>,
    pub upstream: Vec<u8>,
    pub checksum: Option<String>,
    pub kind: UpgradeKind,
}

/// Where the upgrade of one dependency stands, with what it has learned so far.
pub enum UpgradeStage {
    /// Its state on disk is awaited.
    Start,
    /// The tags of its repository are awaited.
    AwaitTags { source: GraftSource },
    /// The commit of the newest tag is awaited.
    AwaitCommit { source: GraftSource, tag: String },
    /// The file at the new commit is awaited.
    AwaitNew { source: GraftSource, tag: String, commit: String },
    /// The file at the locked commit, the base of a merge, is awaited.
    AwaitBase { source: GraftSource, tag: String, commit: String, upstream: Vec<u8> },
    /// The local file is awaited.
    AwaitOurs { source: GraftSource, tag: String, commit: String, upstream: Vec<u8>, base: Vec<u8> },
    /// The outcome of merging the upstream change into the local file is awaited.
    AwaitMerge { source: GraftSource, tag: String, commit: String, upstream: Vec<u8> },
    /// Nothing more is awaited.
    Done,
}

/// What the outside world answered to the last action.
pub enum UpgradeEvent {
    /// The dependency's state on disk.
    State(GraftState),
    /// The repository's tags, each with its commit.
    Tags(Vec<(String, String)>),
    /// The commit a tag resolves to.
    Commit(String),
    /// The content of a file.
    File(Vec<u8>),
    /// The outcome of a three-way merge.
    Merged(MergeResult),
}

/// What upgrading a dependency asks for next.
pub enum UpgradeAction {
    /// Compute the dependency's state on disk.
    ComputeState,
    /// List the tags of `owner/repo`.
    ListTags { owner: String, repo: String },
    /// Resolve a tag of `owner/repo` to its commit.
    ResolveTag { owner: String, repo: String, tag: String },
    /// Fetch the file at `path` of `owner/repo` at a commit.
    FetchFile { owner: String, repo: String, path: String, commit: String },
    /// Get the file at `path` of `owner/repo` at the locked commit: from the cache
    /// where it holds it, else fetched.
    FetchBase { owner: String, repo: String, path: String, commit: String },
    /// Read the local file.
    ReadOurs,
    /// Merge the change from `base` to `theirs` into `ours`.
    Merge { base: Vec<u8>, ours: Vec<u8>, theirs: Vec<u8> },
    /// Leave the dependency as it is.
    Skip,
    /// Stop with an error.
    Fail(GraftError),
    /// Apply the upgrade: write the destination, record it, cache the new content.
    Apply(Upgrade),
    /// Show the upgrade that a real run would apply, and write nothing: a dry run.
    Preview(Upgrade),
}

/// The upgrade that an action applies or, in a dry run, shows.
pub open spec fn upgrade_outcome(a: UpgradeAction) -> Option<Upgrade> {
    match a {
        UpgradeAction::Apply(u) => Some(u),
        UpgradeAction::Preview(u) => Some(u),
        _ => None,
    }
}

/// The action that settles an upgrade: applying it, or only showing it in a dry run.
fn settle(dry_run: bool, u: Upgrade) -> (r: UpgradeAction)
    ensures
        dry_run ==> r == UpgradeAction::Preview(u),
        !dry_run ==> r == UpgradeAction::Apply(u),
{
    if dry_run {
        UpgradeAction::Preview(u)
    } else {
        UpgradeAction::Apply(u)
    }
}

/// The event answers the action that led to the stage.
pub open spec fn event_fits(stage: UpgradeStage, event: UpgradeEvent) -> bool {
    match stage {
        UpgradeStage::Start => event is State,
        UpgradeStage::AwaitTags { .. } => event is Tags,
        UpgradeStage::AwaitCommit { .. } => event is Commit,
        UpgradeStage::AwaitNew { .. } => event is File,
        UpgradeStage::AwaitBase { .. } => event is File,
        UpgradeStage::AwaitOurs { .. } => event is File,
        UpgradeStage::AwaitMerge { .. } => event is Merged,
        UpgradeStage::Done => false,
    }
}

/// A copy of some bytes.
fn copy_bytes(b: &Vec<u8>) -> (r: Vec<u8>)
    ensures
        r@ == b@,
{
    let r = b.clone();
    assert(r@ =~= b@);
    r
}

/// The first step of upgrading a dependency: a dependency that follows tags (its
/// version is no SHA) and has a lock entry starts with its state on disk; any other
/// is skipped.
pub fn upgrade_start(dep: &GraftDep, locked: Option<&LockedDep>) -> (r: (UpgradeStage, UpgradeAction))
    ensures
        (!is_sha_text(dep.version@) && locked is Some) ==> (r.0 is Start && r.1 is ComputeState),
        !(!is_sha_text(dep.version@) && locked is Some) ==> (r.0 is Done && r.1 is Skip),
{
    if follows_tags(dep, locked) {
        (UpgradeStage::Start, UpgradeAction::ComputeState)
    } else {
        (UpgradeStage::Done, UpgradeAction::Skip)
    }
}

/// The next step of upgrading the dependency `name`, from where the upgrade stands
/// and what the last action brought:
/// - its state: a conflicted dependency stops the upgrade; else its source is read
///   (an invalid one stops it) and the repository's tags are listed;
/// - the tags: without a tag newer than the dependency's version it is skipped; else
///   the last tag that `find_newer_tags` keeps from the sorted tags is resolved
///   to its commit;
/// - the commit: the file there is fetched;
/// - the new content: where its checksum is the locked one, nothing changed and it is
///   skipped; else the file at the locked commit is got, as the base;
/// - the base: the local file is read;
/// - the local file: where it equals the base it was never changed, and the new
///   content is applied with its checksum; else the change is merged into it;
/// - the merge: a clean merge is applied with the checksum of the merged content; a
///   merge with conflicts is applied without a checksum (the lock entry keeps its
///   version and checksum).
///
/// So an upgrade records the checksum of the content it writes, except after a
/// merge with conflicts. In a dry run (`dry_run`) the upgrade is only shown: no
/// step asks to write the destination, record anything or fill the cache.
pub fn upgrade_step(
    name: &str,
    dep: &GraftDep,
    locked: &LockedDep,
    dry_run: bool,
    stage: UpgradeStage,
    event: UpgradeEvent,
) -> (r: (
    UpgradeStage,
    UpgradeAction,
))
    requires
        event_fits(stage, event),
    ensures
        r.1 is Apply ==> !dry_run,
        r.1 is Preview ==> dry_run,
        upgrade_outcome(r.1) matches Some(u) ==> (u.checksum is None <==> u.kind == UpgradeKind::Conflicted) && (
        u.checksum matches Some(c) ==> c@ == checksum_text(u.content@)),
        stage is Start ==> (event matches UpgradeEvent::State(s) ==> (if s == GraftState::Conflicted {
            r.0 is Done && (r.1 matches UpgradeAction::Fail(GraftError::HasConflicts { name: n }) && n@ == name@)
        } else {
            match source_parts(dep.source@) {
                None => r.0 is Done && (r.1 matches UpgradeAction::Fail(GraftError::InvalidSource { input })
                    && input@ == dep.source@),
                Some(p) => (r.0 matches UpgradeStage::AwaitTags { source } && source@ == p) && (
                r.1 matches UpgradeAction::ListTags { owner, repo } && owner@ == p.0 && repo@ == p.1),
            }
        })),
        stage matches UpgradeStage::AwaitTags { source } ==> (event matches UpgradeEvent::Tags(t) ==> (if has_newer(
            t@,
            dep.version@,
        ) {
            r.0 matches UpgradeStage::AwaitCommit { source: s2, tag } && s2@ == source@ && (exists|sha: Seq<char>|
                #[trigger] last_newer_in_tag_order(t@, dep.version@, (tag@, sha))) && (r.1 matches UpgradeAction::ResolveTag {
                owner,
                repo,
                tag: t2,
            } && owner@ == source.owner@ && repo@ == source.repo@ && t2@ == tag@)
        } else {
            r.0 is Done && r.1 is Skip
        })),
        stage matches UpgradeStage::AwaitCommit { source, tag } ==> (event matches UpgradeEvent::Commit(c) ==> ((
        r.0 matches UpgradeStage::AwaitNew { source: s2, tag: t2, commit } && s2@ == source@ && t2@ == tag@
            && commit@ == c@) && (r.1 matches UpgradeAction::FetchFile { owner, repo, path, commit } && owner@
            == source.owner@ && repo@ == source.repo@ && path@ == source.path@ && commit@ == c@))),
        stage matches UpgradeStage::AwaitNew { source, tag, commit } ==> (event matches UpgradeEvent::File(b) ==> (
        if checksum_text(b@) == locked.checksum@ {
            r.0 is Done && r.1 is Skip
        } else {
            (r.0 matches UpgradeStage::AwaitBase { source: s2, tag: t2, commit: c2, upstream } && s2@ == source@
                && t2@ == tag@ && c2@ == commit@ && upstream@ == b@) && (r.1 matches UpgradeAction::FetchBase {
                owner,
                repo,
                path,
                commit: c3,
            } && owner@ == source.owner@ && repo@ == source.repo@ && path@ == source.path@ && c3@
                == locked.commit@)
        })),
        stage matches UpgradeStage::AwaitBase { source, tag, commit, upstream } ==> (event matches UpgradeEvent::File(
            b,
        ) ==> ((r.0 matches UpgradeStage::AwaitOurs { source: s2, tag: t2, commit: c2, upstream: u2, base }
            && s2@ == source@ && t2@ == tag@ && c2@ == commit@ && u2@ == upstream@ && base@ == b@)
            && r.1 is ReadOurs)),
        stage matches UpgradeStage::AwaitOurs { source, tag, commit, upstream, base } ==> (event matches UpgradeEvent::File(
            ours,
        ) ==> (if base@ == ours@ {
            r.0 is Done && (upgrade_outcome(r.1) matches Some(u) && u.source@ == source@ && u.tag@ == tag@ && u.commit@
                == commit@ && u.content@ == upstream@ && u.upstream@ == upstream@ && (u.checksum matches Some(c)
                && c@ == checksum_text(upstream@)) && u.kind == UpgradeKind::Overwritten)
        } else {
            (r.0 matches UpgradeStage::AwaitMerge { source: s2, tag: t2, commit: c2, upstream: u2 } && s2@ == source@
                && t2@ == tag@ && c2@ == commit@ && u2@ == upstream@) && (r.1 matches UpgradeAction::Merge {
                base: b2,
                ours: o2,
                theirs,
            } && b2@ == base@ && o2@ == ours@ && theirs@ == upstream@)
        })),
        stage matches UpgradeStage::AwaitMerge { source, tag, commit, upstream } ==> (event matches UpgradeEvent::Merged(
            m,
        ) ==> (r.0 is Done && (upgrade_outcome(r.1) matches Some(u) && u.source@ == source@ && u.tag@ == tag@
            && u.commit@ == commit@ && u.upstream@ == upstream@ && match m {
            MergeResult::Clean(merged) => u.content@ == merged@ && (u.checksum matches Some(c) && c@ == checksum_text(
                merged@,
            )) && u.kind == UpgradeKind::Merged,
            MergeResult::Conflict(conflicted) => u.content@ == conflicted@ && u.checksum is None && u.kind
                == UpgradeKind::Conflicted,
        }))),
{
    match (stage, event) {
        (UpgradeStage::Start, UpgradeEvent::State(s)) => {
            if s == GraftState::Conflicted {
                return (UpgradeStage::Done, UpgradeAction::Fail(GraftError::HasConflicts { name: name.to_owned() }));
            }
            match GraftSource::parse(dep.source.as_str()) {
                Err(e) => (UpgradeStage::Done, UpgradeAction::Fail(e)),
                Ok(source) => {
                    let owner = source.owner.clone();
                    let repo = source.repo.clone();
                    (UpgradeStage::AwaitTags { source }, UpgradeAction::ListTags { owner, repo })
                },
            }
        },
        (UpgradeStage::AwaitTags { source }, UpgradeEvent::Tags(t)) => {
            match latest_newer_tag(dep.version.as_str(), t.as_slice()) {
                None => (UpgradeStage::Done, UpgradeAction::Skip),
                Some(latest) => {
                    proof {
                        assert(last_newer_in_tag_order(t@, dep.version@, (latest.0@, latest.1@)));
                    }
                    let owner = source.owner.clone();
                    let repo = source.repo.clone();
                    let tag = latest.0.clone();
                    (UpgradeStage::AwaitCommit { source, tag: latest.0 }, UpgradeAction::ResolveTag { owner, repo, tag })
                },
            }
        },
        (UpgradeStage::AwaitCommit { source, tag }, UpgradeEvent::Commit(c)) => {
            let action = UpgradeAction::FetchFile {
                owner: source.owner.clone(),
                repo: source.repo.clone(),
                path: source.path.clone(),
                commit: c.clone(),
            };
            (UpgradeStage::AwaitNew { source, tag, commit: c }, action)
        },
        (UpgradeStage::AwaitNew { source, tag, commit }, UpgradeEvent::File(b)) => {
            let sum = checksum_bytes(b.as_slice());
            if !content_changed(sum.as_str(), locked) {
                return (UpgradeStage::Done, UpgradeAction::Skip);
            }
            let action = UpgradeAction::FetchBase {
                owner: source.owner.clone(),
                repo: source.repo.clone(),
                path: source.path.clone(),
                commit: locked.commit.clone(),
            };
            (UpgradeStage::AwaitBase { source, tag, commit, upstream: b }, action)
        },
        (UpgradeStage::AwaitBase { source, tag, commit, upstream }, UpgradeEvent::File(b)) => {
            (UpgradeStage::AwaitOurs { source, tag, commit, upstream, base: b }, UpgradeAction::ReadOurs)
        },
        (UpgradeStage::AwaitOurs { source, tag, commit, upstream, base }, UpgradeEvent::File(ours)) => {
            match upgrade_mode(base.as_slice(), ours.as_slice()) {
                UpgradeMode::Overwrite => {
                    let sum = checksum_bytes(upstream.as_slice());
                    let content = copy_bytes(&upstream);
                    let u = Upgrade {
                        source,
                        tag,
                        commit,
                        content,
                        upstream,
                        checksum: Some(sum),
                        kind: UpgradeKind::Overwritten,
                    };
                    (UpgradeStage::Done, settle(dry_run, u))
                },
                UpgradeMode::Merge => {
                    let theirs = copy_bytes(&upstream);
                    (
                        UpgradeStage::AwaitMerge { source, tag, commit, upstream },
                        UpgradeAction::Merge { base, ours, theirs },
                    )
                },
            }
        },
        (UpgradeStage::AwaitMerge { source, tag, commit, upstream }, UpgradeEvent::Merged(m)) => {
            let u = match m {
                MergeResult::Clean(merged) => {
                    let sum = checksum_bytes(merged.as_slice());
                    Upgrade {
                        source,
                        tag,
                        commit,
                        content: merged,
                        upstream,
                        checksum: Some(sum),
                        kind: UpgradeKind::Merged,
                    }
                },
                MergeResult::Conflict(conflicted) => Upgrade {
                    source,
                    tag,
                    commit,
                    content: conflicted,
                    upstream,
                    checksum: None,
                    kind: UpgradeKind::Conflicted,
                },
            };
            (UpgradeStage::Done, settle(dry_run, u))
        },
        (_, _) => {
            proof {
                assert(false);
            }
            (UpgradeStage::Done, UpgradeAction::Skip)
        },
    }
}

} // verus!
