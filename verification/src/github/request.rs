use vstd::prelude::*;

use crate::error::GraftError;
use crate::github::api::{
    after_annotated_status, after_commit_status, after_content_status, after_tag_status, annotated_sha_from_body,
    annotated_tag_url, annotated_tag_url_of, api_status_error, base64_standard_decode, commit_sha_from_body,
    commit_url, contents_url, contents_url_of, decode_contents, looks_like_commit, repo_slug, resolve_ref_request,
    tag_ref_url, tag_target_from_body, tarball_url, tarball_url_of, without_white_space, ApiNext, RefRoute, TagTarget,
};
use crate::github::archive::{dir_files_view, select_directory_files, selected_files, tar_context, tar_gz_listing, trim_end_slashes, TarStep};

verus! {

/// A request to the GitHub API.
pub enum ApiRequest {
    /// Resolve a ref (a tag or a SHA) of `owner/repo` to a commit SHA.
    ResolveRef { owner: String, repo: String, git_ref: String },
    /// Fetch the file at `path` of `owner/repo` at a ref.
    FetchFile { owner: String, repo: String, path: String, git_ref: String },
    /// Fetch the files of the directory at `path` of `owner/repo` at a ref, keeping
    /// only the listed files where a list is given.
    FetchDirectory { owner: String, repo: String, path: String, git_ref: String, files: Option<Vec<String>> },
}

/// Where a request stands: which response, or which part of it, is awaited.
pub enum ApiStage {
    /// The status of a commit lookup.
    CommitStatus,
    /// The JSON body of a commit lookup.
    CommitBody,
    /// The status of a tag ref lookup.
    TagStatus,
    /// The JSON body of a tag ref lookup.
    TagBody,
    /// The status of an annotated tag lookup.
    AnnotatedStatus,
    /// The JSON body of an annotated tag lookup.
    AnnotatedBody,
    /// The status of a contents request.
    ContentStatus,
    /// The JSON body of a contents request.
    ContentBody,
    /// The status of a tarball request.
    TarballStatus,
    /// The bytes of a tarball.
    TarballBody,
    /// The text of a response with an unexpected status.
    ErrorText { status: u16 },
    /// Nothing more is awaited.
    Done,
}

/// The fields of a JSON response body that graft reads, where they are strings:
/// `sha`, `object.type`, `object.sha` and `content`.
pub struct ApiFields {
    pub sha: Option<String>,
    pub object_type: Option<String>,
    pub object_sha: Option<String>,
    pub content: Option<String>,
}

/// What the network answered to the last action.
pub enum ApiEvent {
    /// The status of the response.
    Status(u16),
    /// The fields of its JSON body.
    Json(ApiFields),
    /// Its body as text.
    Text(String),
    /// Its body as bytes.
    Bytes(Vec<u8>),
}

/// What a request asks for next, or what it came to.
pub enum ApiAction {
    /// Send a GET request to the URL.
    Get(String),
    /// Read the response body as JSON.
    ReadJson,
    /// Read the response body as text.
    ReadText,
    /// Read the response body as bytes.
    ReadBytes,
    /// The request failed with this error.
    Fail(GraftError),
    /// The commit SHA that the ref resolves to.
    Commit(String),
    /// The file's bytes.
    File(Vec<u8>),
    /// The directory's files, each with its path inside it.
    Directory(Vec<(String, Vec<u8>)>),
}

/// The event answers the action that led to the stage, for a stage of the request.
pub open spec fn api_event_fits(request: ApiRequest, stage: ApiStage, event: ApiEvent) -> bool {
    match stage {
        ApiStage::CommitStatus | ApiStage::TagStatus | ApiStage::AnnotatedStatus => request is ResolveRef
            && event is Status,
        ApiStage::CommitBody | ApiStage::TagBody | ApiStage::AnnotatedBody => request is ResolveRef && event is Json,
        ApiStage::ContentStatus => request is FetchFile && event is Status,
        ApiStage::ContentBody => request is FetchFile && event is Json,
        ApiStage::TarballStatus => request is FetchDirectory && event is Status,
        ApiStage::TarballBody => request is FetchDirectory && event is Bytes,
        ApiStage::ErrorText { .. } => event is Text,
        ApiStage::Done => false,
    }
}

/// The step a response status leads to: 200 goes on to read the body (`read`) at
/// stage `body`; 401 and 403 fail as an authentication failure on the repository
/// `slug`; 404 fails with an error that `missing` accepts; any other status reads
/// the body as text for an API error.
pub open spec fn after_status(
    status: u16,
    body: ApiStage,
    read: ApiAction,
    slug: Seq<char>,
    missing: spec_fn(GraftError) -> bool,
    r: (ApiStage, ApiAction),
) -> bool {
    if status == 200 {
        r.0 == body && r.1 == read
    } else if status == 401 || status == 403 {
        r.0 is Done && (r.1 matches ApiAction::Fail(GraftError::AuthFailed { repo: s }) && s@ == slug)
    } else if status == 404 {
        r.0 is Done && (r.1 matches ApiAction::Fail(e) && missing(e))
    } else {
        r.0 == (ApiStage::ErrorText { status }) && r.1 is ReadText
    }
}

/// A missing path at a version: `SourcePathNotFound` with that path, repository and version.
pub open spec fn path_missing(e: GraftError, path: Seq<char>, slug: Seq<char>, version: Seq<char>) -> bool {
    e matches GraftError::SourcePathNotFound { path: p, repo: s, version: v } && p@ == path && s@ == slug && v@
        == version
}

/// The step that a status function's answer leads to.
fn follow(next: ApiNext, status: u16, body: ApiStage, read: ApiAction) -> (r: (ApiStage, ApiAction))
    ensures
        next is ReadJson ==> r.0 == body && r.1 == read,
        next is ReadText ==> r.0 == (ApiStage::ErrorText { status }) && r.1 is ReadText,
        next matches ApiNext::Fail(e) ==> r.0 is Done && r.1 == ApiAction::Fail(e),
{
    match next {
        ApiNext::ReadJson => (body, read),
        ApiNext::ReadText => (ApiStage::ErrorText { status }, ApiAction::ReadText),
        ApiNext::Fail(e) => (ApiStage::Done, ApiAction::Fail(e)),
    }
}

/// The first step of a request: a ref that looks like a commit SHA is looked up as
/// a commit, any other as a tag; a file is asked for through the contents API; a
/// directory through the repository's tarball.
pub fn api_start(request: &ApiRequest) -> (r: (ApiStage, ApiAction))
    ensures
        request matches ApiRequest::ResolveRef { owner, repo, git_ref } ==> if looks_like_commit(git_ref@) {
            r.0 is CommitStatus && (r.1 matches ApiAction::Get(u) && u@ == commit_url(owner@, repo@, git_ref@))
        } else {
            r.0 is TagStatus && (r.1 matches ApiAction::Get(u) && u@ == tag_ref_url(owner@, repo@, git_ref@))
        },
        request matches ApiRequest::FetchFile { owner, repo, path, git_ref } ==> r.0 is ContentStatus && (
        r.1 matches ApiAction::Get(u) && u@ == contents_url(owner@, repo@, path@, git_ref@)),
        request matches ApiRequest::FetchDirectory { owner, repo, git_ref, .. } ==> r.0 is TarballStatus && (
        r.1 matches ApiAction::Get(u) && u@ == tarball_url(owner@, repo@, git_ref@)),
{
    match request {
        ApiRequest::ResolveRef { owner, repo, git_ref } => {
            let (route, url) = resolve_ref_request(owner.as_str(), repo.as_str(), git_ref.as_str());
            match route {
                RefRoute::Commit => (ApiStage::CommitStatus, ApiAction::Get(url)),
                RefRoute::Tag => (ApiStage::TagStatus, ApiAction::Get(url)),
            }
        },
        ApiRequest::FetchFile { owner, repo, path, git_ref } => (
            ApiStage::ContentStatus,
            ApiAction::Get(contents_url_of(owner.as_str(), repo.as_str(), path.as_str(), git_ref.as_str())),
        ),
        ApiRequest::FetchDirectory { owner, repo, git_ref, .. } => (
            ApiStage::TarballStatus,
            ApiAction::Get(tarball_url_of(owner.as_str(), repo.as_str(), git_ref.as_str())),
        ),
    }
}

/// The text of an optional string, empty where it is absent.
pub open spec fn text_or_empty(o: Option<String>) -> Seq<char> {
    match o {
        Some(s) => s@,
        None => Seq::empty(),
    }
}

/// The next step of a request, from where it stands and what the network answered:
/// - a status: as `after_status` states it, a missing ref or path failing as the
///   request's kind says (an annotated tag lookup goes on for any 2xx status and
///   reads the body as text otherwise);
/// - the body of a commit lookup: its `sha` is the commit;
/// - the body of a tag ref lookup: a commit object is the commit; a tag object is
///   an annotated tag, looked up next; any other type is an API error;
/// - the body of an annotated tag lookup: its `object.sha` is the commit;
/// - the body of a contents request: its `content`, base64 with white space, is the file;
/// - the bytes of a tarball: the files that `select_directory_files` selects;
/// - the text of an unexpected response: an API error with its status and text.
pub fn api_step(request: &ApiRequest, stage: ApiStage, event: ApiEvent) -> (r: (ApiStage, ApiAction))
    requires
        api_event_fits(*request, stage, event),
    ensures
        request matches ApiRequest::ResolveRef { owner, repo, git_ref } ==> {
            let slug = repo_slug(owner@, repo@);
            &&& stage is CommitStatus ==> (event matches ApiEvent::Status(s) ==> after_status(
                s,
                ApiStage::CommitBody,
                ApiAction::ReadJson,
                slug,
                |e: GraftError| path_missing(e, git_ref@, slug, git_ref@),
                r,
            ))
            &&& stage is TagStatus ==> (event matches ApiEvent::Status(s) ==> after_status(
                s,
                ApiStage::TagBody,
                ApiAction::ReadJson,
                slug,
                |e: GraftError| e matches GraftError::TagNotFound { tag, repo: x } && tag@ == git_ref@ && x@ == slug,
                r,
            ))
            &&& stage is AnnotatedStatus ==> (event matches ApiEvent::Status(s) ==> if 200 <= s < 300 {
                r.0 is AnnotatedBody && r.1 is ReadJson
            } else {
                r.0 == (ApiStage::ErrorText { status: s }) && r.1 is ReadText
            })
            &&& stage is CommitBody ==> (event matches ApiEvent::Json(f) ==> r.0 is Done && match f.sha {
                Some(x) => r.1 matches ApiAction::Commit(c) && c@ == x@,
                None => r.1 matches ApiAction::Fail(GraftError::GitHubApi { status, message }) && status == 200
                    && message@ == "missing sha in commit response"@,
            })
            &&& stage is TagBody ==> (event matches ApiEvent::Json(f) ==> {
                let t = text_or_empty(f.object_type);
                let sha = text_or_empty(f.object_sha);
                &&& t == "commit"@ ==> r.0 is Done && (r.1 matches ApiAction::Commit(c) && c@ == sha)
                &&& t == "tag"@ ==> r.0 is AnnotatedStatus && (r.1 matches ApiAction::Get(u) && u@
                    == annotated_tag_url(owner@, repo@, sha))
                &&& t != "commit"@ && t != "tag"@ ==> r.0 is Done && (r.1 matches ApiAction::Fail(
                    GraftError::GitHubApi { status, message },
                ) && status == 200 && message@ == "unexpected ref object type: "@ + t)
            })
            &&& stage is AnnotatedBody ==> (event matches ApiEvent::Json(f) ==> r.0 is Done && match f.object_sha {
                Some(x) => r.1 matches ApiAction::Commit(c) && c@ == x@,
                None => r.1 matches ApiAction::Fail(GraftError::GitHubApi { status, message }) && status == 200
                    && message@ == "missing sha in annotated tag response"@,
            })
        },
        request matches ApiRequest::FetchFile { owner, repo, path, git_ref } ==> {
            &&& stage is ContentStatus ==> (event matches ApiEvent::Status(s) ==> after_status(
                s,
                ApiStage::ContentBody,
                ApiAction::ReadJson,
                repo_slug(owner@, repo@),
                |e: GraftError| path_missing(e, path@, repo_slug(owner@, repo@), git_ref@),
                r,
            ))
            &&& stage is ContentBody ==> (event matches ApiEvent::Json(f) ==> r.0 is Done && match f.content {
                None => r.1 matches ApiAction::Fail(GraftError::GitHubApi { status, message }) && status == 200
                    && message@ == "missing content field"@,
                Some(c) => match base64_standard_decode(without_white_space(c@)) {
                    Ok(bytes) => r.1 matches ApiAction::File(b) && b@ == bytes,
                    Err(m) => r.1 matches ApiAction::Fail(GraftError::GitHubApi { status, message }) && status
                        == 200 && message@ == "base64 decode error: "@ + m,
                },
            })
        },
        request matches ApiRequest::FetchDirectory { owner, repo, path, git_ref, files } ==> {
            &&& stage is TarballStatus ==> (event matches ApiEvent::Status(s) ==> after_status(
                s,
                ApiStage::TarballBody,
                ApiAction::ReadBytes,
                repo_slug(owner@, repo@),
                |e: GraftError| path_missing(e, path@, repo_slug(owner@, repo@), git_ref@),
                r,
            ))
            &&& stage is TarballBody ==> (event matches ApiEvent::Bytes(b) ==> r.0 is Done && match tar_gz_listing(
                b@,
            ) {
                Some(listing) => r.1 matches ApiAction::Directory(d) && dir_files_view(d@) == selected_files(
                    listing,
                    trim_end_slashes(path@),
                    match files {
                        Some(f) => Some(f@.map_values(|s: String| s@)),
                        None => None,
                    },
                ),
                None => r.1 matches ApiAction::Fail(GraftError::Io { context, .. }) && exists|step: TarStep|
                    context@ == tar_context(step),
            })
        },
        stage matches ApiStage::ErrorText { status } ==> (event matches ApiEvent::Text(t) ==> r.0 is Done && (
        r.1 matches ApiAction::Fail(GraftError::GitHubApi { status: s, message }) && s == status && message@ == t@)),
{
    match (request, stage, event) {
        (ApiRequest::ResolveRef { owner, repo, git_ref }, ApiStage::CommitStatus, ApiEvent::Status(s)) => {
            let next = after_commit_status(s, owner.as_str(), repo.as_str(), git_ref.as_str());
            follow(next, s, ApiStage::CommitBody, ApiAction::ReadJson)
        },
        (ApiRequest::ResolveRef { owner, repo, git_ref }, ApiStage::TagStatus, ApiEvent::Status(s)) => {
            let next = after_tag_status(s, owner.as_str(), repo.as_str(), git_ref.as_str());
            follow(next, s, ApiStage::TagBody, ApiAction::ReadJson)
        },
        (ApiRequest::ResolveRef { .. }, ApiStage::AnnotatedStatus, ApiEvent::Status(s)) => {
            follow(after_annotated_status(s), s, ApiStage::AnnotatedBody, ApiAction::ReadJson)
        },
        (ApiRequest::ResolveRef { .. }, ApiStage::CommitBody, ApiEvent::Json(f)) => {
            match commit_sha_from_body(f.sha) {
                Ok(sha) => (ApiStage::Done, ApiAction::Commit(sha)),
                Err(e) => (ApiStage::Done, ApiAction::Fail(e)),
            }
        },
        (ApiRequest::ResolveRef { owner, repo, .. }, ApiStage::TagBody, ApiEvent::Json(f)) => {
            match tag_target_from_body(f.object_type, f.object_sha) {
                Ok(TagTarget::Commit(sha)) => (ApiStage::Done, ApiAction::Commit(sha)),
                Ok(TagTarget::Annotated(sha)) => (
                    ApiStage::AnnotatedStatus,
                    ApiAction::Get(annotated_tag_url_of(owner.as_str(), repo.as_str(), sha.as_str())),
                ),
                Err(e) => (ApiStage::Done, ApiAction::Fail(e)),
            }
        },
        (ApiRequest::ResolveRef { .. }, ApiStage::AnnotatedBody, ApiEvent::Json(f)) => {
            match annotated_sha_from_body(f.object_sha) {
                Ok(sha) => (ApiStage::Done, ApiAction::Commit(sha)),
                Err(e) => (ApiStage::Done, ApiAction::Fail(e)),
            }
        },
        (ApiRequest::FetchFile { owner, repo, path, git_ref }, ApiStage::ContentStatus, ApiEvent::Status(s)) => {
            let next = after_content_status(s, owner.as_str(), repo.as_str(), path.as_str(), git_ref.as_str());
            follow(next, s, ApiStage::ContentBody, ApiAction::ReadJson)
        },
        (ApiRequest::FetchFile { .. }, ApiStage::ContentBody, ApiEvent::Json(f)) => {
            match decode_contents(f.content) {
                Ok(bytes) => (ApiStage::Done, ApiAction::File(bytes)),
                Err(e) => (ApiStage::Done, ApiAction::Fail(e)),
            }
        },
        (
            ApiRequest::FetchDirectory { owner, repo, path, git_ref, .. },
            ApiStage::TarballStatus,
            ApiEvent::Status(s),
        ) => {
            let next = after_content_status(s, owner.as_str(), repo.as_str(), path.as_str(), git_ref.as_str());
            follow(next, s, ApiStage::TarballBody, ApiAction::ReadBytes)
        },
        (ApiRequest::FetchDirectory { path, files, .. }, ApiStage::TarballBody, ApiEvent::Bytes(b)) => {
            let filter: Option<&[String]> = match files {
                Some(f) => Some(f.as_slice()),
                None => None,
            };
            match select_directory_files(b.as_slice(), path.as_str(), filter) {
                Ok(found) => (ApiStage::Done, ApiAction::Directory(found)),
                Err(e) => (ApiStage::Done, ApiAction::Fail(e)),
            }
        },
        (_, ApiStage::ErrorText { status }, ApiEvent::Text(t)) => {
            (ApiStage::Done, ApiAction::Fail(api_status_error(status, t)))
        },
        (_, _, _) => {
            proof {
                assert(false);
            }
            (ApiStage::Done, ApiAction::ReadText)
        },
    }
}

} // verus!
