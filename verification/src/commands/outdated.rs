use vstd::prelude::*;

use crate::checksum::{checksum_bytes, checksum_directory, checksum_text, directory_checksum_text, files_view};
use crate::commands::upgrade::{follows_tags, has_newer, last_newer_in_tag_order, latest_newer_tag, reports_outdated};
use crate::config::lockfile::LockedDep;
use crate::config::manifest::{copy_optional_strings, opt_strings_view, GraftDep};
use crate::error::GraftError;
use crate::source::parse::{source_parts, GraftSource};
use crate::source::version::is_sha_text;
use crate::text::has_suffix;

verus! {

/// Where the check of one dependency for a newer version stands.
pub enum OutdatedStage {
    /// The tags of its repository are awaited.
    AwaitTags { source: GraftSource },
    /// The commit of the newest tag is awaited.
    AwaitCommit { source: GraftSource, tag: String },
    /// The content at the newest tag is awaited.
    AwaitContent { tag: String },
    /// Nothing more is awaited.
    Done,
}

/// What the outside world answered to the last action.
pub enum OutdatedEvent {
    /// The repository's tags, each with its commit.
    Tags(Vec<(String, String)>),
    /// The commit the tag resolves to; `None` where it could not be resolved.
    Commit(Option<String>),
    /// The file at the commit; `None` where it could not be fetched.
    File(Option<Vec<u8>>),
    /// The files of the directory at the commit; `None` where they could not be fetched.
    Directory(Option<Vec<(String, Vec<u8>)>>),
}

/// What checking a dependency for a newer version asks for next.
pub enum OutdatedAction {
    /// List the tags of `owner/repo`.
    ListTags { owner: String, repo: String },
    /// Resolve a tag of `owner/repo` to its commit.
    ResolveTag { owner: String, repo: String, tag: String },
    /// Fetch the file at `path` of `owner/repo` at a commit.
    FetchFile { owner: String, repo: String, path: String, commit: String },
    /// Fetch the directory at `path` of `owner/repo` at a commit, keeping the listed files.
    FetchDirectory { owner: String, repo: String, path: String, commit: String, files: Option<Vec<String>> },
    /// The dependency is up to date.
    Skip,
    /// Stop with an error.
    Fail(GraftError),
    /// Report the dependency as outdated, with the tag it could move to.
    Report { tag: String },
}

/// The event answers the action that led to the stage.
pub open spec fn outdated_event_fits(stage: OutdatedStage, event: OutdatedEvent) -> bool {
    match stage {
        OutdatedStage::AwaitTags { .. } => event is Tags,
        OutdatedStage::AwaitCommit { .. } => event is Commit,
        OutdatedStage::AwaitContent { .. } => event is File || event is Directory,
        OutdatedStage::Done => false,
    }
}

/// The first step of checking a dependency for a newer version: one that follows
/// tags and has a lock entry has its source read (an invalid one is an error) and
/// its repository's tags listed; any other is skipped.
pub fn outdated_start(dep: &GraftDep, locked: Option<&LockedDep>) -> (r: (OutdatedStage, OutdatedAction))
    ensures
        !(!is_sha_text(dep.version@) && locked is Some) ==> (r.0 is Done && r.1 is Skip),
        (!is_sha_text(dep.version@) && locked is Some) ==> match source_parts(dep.source@) {
            None => r.0 is Done && (r.1 matches OutdatedAction::Fail(GraftError::InvalidSource { input }) && input@
                == dep.source@),
            Some(p) => (r.0 matches OutdatedStage::AwaitTags { source } && source@ == p) && (
            r.1 matches OutdatedAction::ListTags { owner, repo } && owner@ == p.0 && repo@ == p.1),
        },
{
    if !follows_tags(dep, locked) {
        return (OutdatedStage::Done, OutdatedAction::Skip);
    }
    match GraftSource::parse(dep.source.as_str()) {
        Err(e) => (OutdatedStage::Done, OutdatedAction::Fail(e)),
        Ok(source) => {
            let owner = source.owner.clone();
            let repo = source.repo.clone();
            (OutdatedStage::AwaitTags { source }, OutdatedAction::ListTags { owner, repo })
        },
    }
}

/// Whether `outdated` reports a dependency whose content at the newest tag has the
/// checksum `sum` (`None`: the content could not be fetched).
pub open spec fn content_reported(sum: Option<Seq<char>>, locked: LockedDep) -> bool {
    match sum {
        None => true,
        Some(s) => s.len() == 0 || s != locked.checksum@,
    }
}

/// The next step of checking a dependency for a newer version:
/// - the tags: without a tag newer than its version it is up to date; else the last
///   tag that `find_newer_tags` keeps from the sorted tags is resolved to its commit;
/// - the commit: where it could not be resolved, the dependency is reported; else
///   the content there is fetched, as a directory where the source path ends with
///   `/` (with the dependency's file list), else as a file;
/// - the content: it is reported where the content could not be fetched or its
///   checksum differs from the locked one, and is up to date otherwise.
pub fn outdated_step(dep: &GraftDep, locked: &LockedDep, stage: OutdatedStage, event: OutdatedEvent) -> (r: (
    OutdatedStage,
    OutdatedAction,
))
    requires
        outdated_event_fits(stage, event),
    ensures
        stage matches OutdatedStage::AwaitTags { source } ==> (event matches OutdatedEvent::Tags(t) ==> (if has_newer(
            t@,
            dep.version@,
        ) {
            r.0 matches OutdatedStage::AwaitCommit { source: s2, tag } && s2@ == source@ && (exists|sha: Seq<char>|
                #[trigger] last_newer_in_tag_order(t@, dep.version@, (tag@, sha))) && (r.1 matches OutdatedAction::ResolveTag {
                owner,
                repo,
                tag: t2,
            } && owner@ == source.owner@ && repo@ == source.repo@ && t2@ == tag@)
        } else {
            r.0 is Done && r.1 is Skip
        })),
        stage matches OutdatedStage::AwaitCommit { source, tag } ==> (event matches OutdatedEvent::Commit(c) ==> match c {
            None => r.0 is Done && (r.1 matches OutdatedAction::Report { tag: t2 } && t2@ == tag@),
            Some(commit) => (r.0 matches OutdatedStage::AwaitContent { tag: t2 } && t2@ == tag@) && if has_suffix(
                source.path@,
                seq!['/'],
            ) {
                r.1 matches OutdatedAction::FetchDirectory { owner, repo, path, commit: c2, files } && owner@
                    == source.owner@ && repo@ == source.repo@ && path@ == source.path@ && c2@ == commit@
                    && opt_strings_view(files) == opt_strings_view(dep.files)
            } else {
                r.1 matches OutdatedAction::FetchFile { owner, repo, path, commit: c2 } && owner@ == source.owner@
                    && repo@ == source.repo@ && path@ == source.path@ && c2@ == commit@
            },
        }),
        stage matches OutdatedStage::AwaitContent { tag } ==> ({
            let sum = match event {
                OutdatedEvent::File(Some(b)) => Some(checksum_text(b@)),
                OutdatedEvent::Directory(Some(files)) => Some(directory_checksum_text(files_view(files@))),
                _ => None,
            };
            &&& r.0 is Done
            &&& content_reported(sum, *locked) ==> (r.1 matches OutdatedAction::Report { tag: t2 } && t2@ == tag@)
            &&& !content_reported(sum, *locked) ==> r.1 is Skip
        }),
{
    match (stage, event) {
        (OutdatedStage::AwaitTags { source }, OutdatedEvent::Tags(t)) => {
            match latest_newer_tag(dep.version.as_str(), t.as_slice()) {
                None => (OutdatedStage::Done, OutdatedAction::Skip),
                Some(latest) => {
                    proof {
                        assert(last_newer_in_tag_order(t@, dep.version@, (latest.0@, latest.1@)));
                    }
                    let owner = source.owner.clone();
                    let repo = source.repo.clone();
                    let tag = latest.0.clone();
                    (
                        OutdatedStage::AwaitCommit { source, tag: latest.0 },
                        OutdatedAction::ResolveTag { owner, repo, tag },
                    )
                },
            }
        },
        (OutdatedStage::AwaitCommit { source, tag }, OutdatedEvent::Commit(c)) => {
            match c {
                None => (OutdatedStage::Done, OutdatedAction::Report { tag }),
                Some(commit) => {
                    let action = if source.is_directory() {
                        OutdatedAction::FetchDirectory {
                            owner: source.owner,
                            repo: source.repo,
                            path: source.path,
                            commit,
                            files: copy_optional_strings(&dep.files),
                        }
                    } else {
                        OutdatedAction::FetchFile { owner: source.owner, repo: source.repo, path: source.path, commit }
                    };
                    (OutdatedStage::AwaitContent { tag }, action)
                },
            }
        },
        (OutdatedStage::AwaitContent { tag }, event) => {
            let sum = match &event {
                OutdatedEvent::File(Some(b)) => checksum_bytes(b.as_slice()),
                OutdatedEvent::Directory(Some(files)) => checksum_directory(files.as_slice()),
                _ => String::new(),
            };
            if reports_outdated(sum.as_str(), locked) {
                (OutdatedStage::Done, OutdatedAction::Report { tag })
            } else {
                (OutdatedStage::Done, OutdatedAction::Skip)
            }
        },
        (_, _) => {
            proof {
                assert(false);
            }
            (OutdatedStage::Done, OutdatedAction::Skip)
        },
    }
}

} // verus!
