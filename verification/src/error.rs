use vstd::prelude::*;

verus! {

/// The error that `toml` reports for text it cannot read.
#[verifier::external_type_specification]
#[verifier::external_body]
pub struct ExTomlDeError(toml::de::Error);

/// The error that `reqwest` reports for a failed request or body.
#[verifier::external_type_specification]
#[verifier::external_body]
pub struct ExReqwestError(reqwest::Error);

/// The error of a failed operation on files or processes.
#[verifier::external_type_specification]
#[verifier::external_body]
pub struct ExIoError(std::io::Error);

/// Everything that can go wrong in graft.
#[allow(inconsistent_fields)]
#[derive(Debug)]
pub enum GraftError {
    NoManifest,
    ManifestParse { source: toml::de::Error },
    LockfileParse { source: toml::de::Error },
    InvalidSource { input: String },
    DuplicateDest { path: String },
    DestEscapesRoot { path: String },
    DestTargetsGit { path: String },
    DestExists { path: String },
    GraftNotFound { name: String },
    AuthFailed { repo: String },
    SourcePathNotFound { path: String, repo: String, version: String },
    TagNotFound { tag: String, repo: String },
    Network { url: String, source: reqwest::Error },
    GitHubApi { status: u16, message: String },
    GitNotFound,
    MergeFailed { reason: String },
    Io { context: String, source: std::io::Error },
    HasConflicts { name: String },
}

} // verus!
