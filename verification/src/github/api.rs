use vstd::prelude::*;

use crate::error::GraftError;
use crate::text::{char_is_whitespace, chars_of, is_white_space, push_char, vec_eq};

verus! {

/// What to do with a GitHub API response once its status is known: read its body as
/// JSON, read it as text for an error message, or stop with an error.
#[derive(Debug)]
pub enum ApiNext {
    ReadJson,
    ReadText,
    Fail(GraftError),
}

/// Which API a ref is resolved through.
#[derive(Debug, Clone, Copy, PartialEq, Eq, Structural)]
pub enum RefRoute {
    Commit,
    Tag,
}

/// What the ref API says a tag points to: a commit, or an annotated tag object that
/// must be dereferenced.
#[derive(Debug)]
pub enum TagTarget {
    Commit(String),
    Annotated(String),
}

/// `owner/repo`.
pub open spec fn repo_slug(owner: Seq<char>, repo: Seq<char>) -> Seq<char> {
    owner + seq!['/'] + repo
}

/// `owner/repo`.
pub fn repo_slug_of(owner: &str, repo: &str) -> (r: String)
    ensures
        r@ == repo_slug(owner@, repo@),
{
    let mut r = String::new();
    r.append(owner);
    push_char(&mut r, '/');
    r.append(repo);
    assert(r@ =~= repo_slug(owner@, repo@));
    r
}

/// The root of the repository API.
pub open spec fn api_repos() -> Seq<char> {
    "https://api.github.com/repos/"@
}

/// `https://api.github.com/repos/{owner}/{repo}` followed by `tail`.
pub open spec fn repo_api_url(owner: Seq<char>, repo: Seq<char>, tail: Seq<char>) -> Seq<char> {
    api_repos() + owner + seq!['/'] + repo + tail
}

/// The URL of a commit: `.../repos/{owner}/{repo}/commits/{ref}`.
pub open spec fn commit_url(owner: Seq<char>, repo: Seq<char>, git_ref: Seq<char>) -> Seq<char> {
    repo_api_url(owner, repo, "/commits/"@ + git_ref)
}

/// The URL of a tag ref: `.../repos/{owner}/{repo}/git/ref/tags/{ref}`.
pub open spec fn tag_ref_url(owner: Seq<char>, repo: Seq<char>, git_ref: Seq<char>) -> Seq<char> {
    repo_api_url(owner, repo, "/git/ref/tags/"@ + git_ref)
}

/// The URL of an annotated tag object: `.../repos/{owner}/{repo}/git/tags/{sha}`.
pub open spec fn annotated_tag_url(owner: Seq<char>, repo: Seq<char>, sha: Seq<char>) -> Seq<char> {
    repo_api_url(owner, repo, "/git/tags/"@ + sha)
}

/// The URL of a file's contents at a ref: `.../repos/{owner}/{repo}/contents/{path}?ref={ref}`.
pub open spec fn contents_url(owner: Seq<char>, repo: Seq<char>, path: Seq<char>, git_ref: Seq<char>) -> Seq<char> {
    repo_api_url(owner, repo, "/contents/"@ + path + "?ref="@ + git_ref)
}

/// The URL of a repository's tarball at a ref: `.../repos/{owner}/{repo}/tarball/{ref}`.
pub open spec fn tarball_url(owner: Seq<char>, repo: Seq<char>, git_ref: Seq<char>) -> Seq<char> {
    repo_api_url(owner, repo, "/tarball/"@ + git_ref)
}

/// The API root, the owner, a `/`, the repository, and then `tail`.
fn repo_url(owner: &str, repo: &str, tail: &str) -> (r: String)
    ensures
        r@ == repo_api_url(owner@, repo@, tail@),
{
    let mut r = "https://api.github.com/repos/".to_owned();
    r.append(owner);
    push_char(&mut r, '/');
    r.append(repo);
    r.append(tail);
    assert(r@ =~= repo_api_url(owner@, repo@, tail@));
    r
}

/// Two texts, one after the other.
fn join2(a: &str, b: &str) -> (r: String)
    ensures
        r@ == a@ + b@,
{
    let mut r = a.to_owned();
    r.append(b);
    r
}

/// The URL of a commit.
pub fn commit_url_of(owner: &str, repo: &str, git_ref: &str) -> (r: String)
    ensures
        r@ == commit_url(owner@, repo@, git_ref@),
{
    let tail = join2("/commits/", git_ref);
    repo_url(owner, repo, tail.as_str())
}

/// The URL of a tag ref.
pub fn tag_ref_url_of(owner: &str, repo: &str, git_ref: &str) -> (r: String)
    ensures
        r@ == tag_ref_url(owner@, repo@, git_ref@),
{
    let tail = join2("/git/ref/tags/", git_ref);
    repo_url(owner, repo, tail.as_str())
}

/// The URL of an annotated tag object.
pub fn annotated_tag_url_of(owner: &str, repo: &str, sha: &str) -> (r: String)
    ensures
        r@ == annotated_tag_url(owner@, repo@, sha@),
{
    let tail = join2("/git/tags/", sha);
    repo_url(owner, repo, tail.as_str())
}

/// The URL of a file's contents at a ref.
pub fn contents_url_of(owner: &str, repo: &str, path: &str, git_ref: &str) -> (r: String)
    ensures
        r@ == contents_url(owner@, repo@, path@, git_ref@),
{
    let mut tail = join2("/contents/", path);
    tail.append("?ref=");
    tail.append(git_ref);
    assert(tail@ =~= "/contents/"@ + path@ + "?ref="@ + git_ref@);
    repo_url(owner, repo, tail.as_str())
}

/// The URL of a repository's tarball at a ref.
pub fn tarball_url_of(owner: &str, repo: &str, git_ref: &str) -> (r: String)
    ensures
        r@ == tarball_url(owner@, repo@, git_ref@),
{
    let tail = join2("/tarball/", git_ref);
    repo_url(owner, repo, tail.as_str())
}

/// A hexadecimal digit, either case.
pub open spec fn is_ascii_hex(c: char) -> bool {
    ('0' <= c && c <= '9') || ('a' <= c && c <= 'f') || ('A' <= c && c <= 'F')
}

/// A ref that looks like a commit SHA: at least 7 characters, all hexadecimal.
pub open spec fn looks_like_commit(git_ref: Seq<char>) -> bool {
    &&& git_ref.len() >= 7
    &&& forall|i: int| 0 <= i < git_ref.len() ==> #[trigger] is_ascii_hex(git_ref[i])
}

/// The API a ref is resolved through, with the URL to ask: a ref that looks like a
/// SHA is looked up as a commit, any other as a tag.
pub fn resolve_ref_request(owner: &str, repo: &str, git_ref: &str) -> (r: (RefRoute, String))
    ensures
        looks_like_commit(git_ref@) ==> r.0 == RefRoute::Commit && r.1@ == commit_url(owner@, repo@, git_ref@),
        !looks_like_commit(git_ref@) ==> r.0 == RefRoute::Tag && r.1@ == tag_ref_url(owner@, repo@, git_ref@),
{
    let v = chars_of(git_ref);
    let mut all_hex = true;
    let mut i: usize = 0;
    while i < v.len()
        invariant
            i <= v@.len(),
            all_hex <==> forall|j: int| 0 <= j < i ==> #[trigger] is_ascii_hex(v@[j]),
        decreases v@.len() - i,
    {
        let c = v[i];
        let hex = ('0' <= c && c <= '9') || ('a' <= c && c <= 'f') || ('A' <= c && c <= 'F');
        assert(hex == is_ascii_hex(v@[i as int]));
        if !hex {
            all_hex = false;
        }
        i = i + 1;
    }
    if v.len() >= 7 && all_hex {
        (RefRoute::Commit, commit_url_of(owner, repo, git_ref))
    } else {
        (RefRoute::Tag, tag_ref_url_of(owner, repo, git_ref))
    }
}

/// The step after the status of a commit lookup: 200 reads the JSON body; 401 and
/// 403 fail as an authentication failure; 404 fails as a missing ref; any other
/// status reads the body as text for an API error.
pub fn after_commit_status(status: u16, owner: &str, repo: &str, git_ref: &str) -> (r: ApiNext)
    ensures
        status == 200 ==> r is ReadJson,
        (status == 401 || status == 403) ==> (r matches ApiNext::Fail(GraftError::AuthFailed { repo: s }) && s@
            == repo_slug(owner@, repo@)),
        status == 404 ==> (r matches ApiNext::Fail(GraftError::SourcePathNotFound { path, repo: s, version }) && path@
            == git_ref@ && s@ == repo_slug(owner@, repo@) && version@ == git_ref@),
        status != 200 && status != 401 && status != 403 && status != 404 ==> r is ReadText,
{
    if status == 200 {
        ApiNext::ReadJson
    } else if status == 401 || status == 403 {
        ApiNext::Fail(GraftError::AuthFailed { repo: repo_slug_of(owner, repo) })
    } else if status == 404 {
        ApiNext::Fail(
            GraftError::SourcePathNotFound {
                path: git_ref.to_owned(),
                repo: repo_slug_of(owner, repo),
                version: git_ref.to_owned(),
            },
        )
    } else {
        ApiNext::ReadText
    }
}

/// The step after the status of a tag ref lookup: as for a commit, but a 404 is a
/// missing tag.
pub fn after_tag_status(status: u16, owner: &str, repo: &str, git_ref: &str) -> (r: ApiNext)
    ensures
        status == 200 ==> r is ReadJson,
        (status == 401 || status == 403) ==> (r matches ApiNext::Fail(GraftError::AuthFailed { repo: s }) && s@
            == repo_slug(owner@, repo@)),
        status == 404 ==> (r matches ApiNext::Fail(GraftError::TagNotFound { tag, repo: s }) && tag@ == git_ref@
            && s@ == repo_slug(owner@, repo@)),
        status != 200 && status != 401 && status != 403 && status != 404 ==> r is ReadText,
{
    if status == 200 {
        ApiNext::ReadJson
    } else if status == 401 || status == 403 {
        ApiNext::Fail(GraftError::AuthFailed { repo: repo_slug_of(owner, repo) })
    } else if status == 404 {
        ApiNext::Fail(GraftError::TagNotFound { tag: git_ref.to_owned(), repo: repo_slug_of(owner, repo) })
    } else {
        ApiNext::ReadText
    }
}

/// The step after the status of a contents or tarball request: as for a commit,
/// but a 404 names the path that is missing at the ref.
pub fn after_content_status(status: u16, owner: &str, repo: &str, path: &str, git_ref: &str) -> (r: ApiNext)
    ensures
        status == 200 ==> r is ReadJson,
        (status == 401 || status == 403) ==> (r matches ApiNext::Fail(GraftError::AuthFailed { repo: s }) && s@
            == repo_slug(owner@, repo@)),
        status == 404 ==> (r matches ApiNext::Fail(GraftError::SourcePathNotFound { path: p, repo: s, version })
            && p@ == path@ && s@ == repo_slug(owner@, repo@) && version@ == git_ref@),
        status != 200 && status != 401 && status != 403 && status != 404 ==> r is ReadText,
{
    if status == 200 {
        ApiNext::ReadJson
    } else if status == 401 || status == 403 {
        ApiNext::Fail(GraftError::AuthFailed { repo: repo_slug_of(owner, repo) })
    } else if status == 404 {
        ApiNext::Fail(
            GraftError::SourcePathNotFound {
                path: path.to_owned(),
                repo: repo_slug_of(owner, repo),
                version: git_ref.to_owned(),
            },
        )
    } else {
        ApiNext::ReadText
    }
}

/// The step after the status of an annotated tag lookup: any success status reads
/// the JSON body; any other reads the body as text for an API error.
pub fn after_annotated_status(status: u16) -> (r: ApiNext)
    ensures
        200 <= status < 300 ==> r is ReadJson,
        !(200 <= status < 300) ==> r is ReadText,
{
    if 200 <= status && status < 300 {
        ApiNext::ReadJson
    } else {
        ApiNext::ReadText
    }
}

/// The error for an unexpected status: the status and the body's text.
pub fn api_status_error(status: u16, body_text: String) -> (r: GraftError)
    ensures
        r matches GraftError::GitHubApi { status: s, message } && s == status && message@ == body_text@,
{
    GraftError::GitHubApi { status, message: body_text }
}

/// The commit SHA from the `sha` field of a commit response, where it is a string.
pub fn commit_sha_from_body(sha: Option<String>) -> (r: Result<String, GraftError>)
    ensures
        sha matches Some(s) ==> (r matches Ok(x) && x@ == s@),
        sha is None ==> (r matches Err(GraftError::GitHubApi { status, message }) && status == 200 && message@
            == "missing sha in commit response"@),
{
    match sha {
        Some(s) => Ok(s),
        None => Err(
            GraftError::GitHubApi { status: 200, message: "missing sha in commit response".to_owned() },
        ),
    }
}

/// What a tag ref points to, from the `object.type` and `object.sha` fields of the
/// ref response (a missing field reads as empty): a commit is the answer; a tag is
/// an annotated tag to dereference; any other type is an API error.
pub fn tag_target_from_body(obj_type: Option<String>, obj_sha: Option<String>) -> (r: Result<TagTarget, GraftError>)
    ensures
        ({
            let t = match obj_type {
                Some(t) => t@,
                None => Seq::<char>::empty(),
            };
            let sha = match obj_sha {
                Some(s) => s@,
                None => Seq::<char>::empty(),
            };
            &&& t == "commit"@ ==> (r matches Ok(TagTarget::Commit(x)) && x@ == sha)
            &&& t == "tag"@ ==> (r matches Ok(TagTarget::Annotated(x)) && x@ == sha)
            &&& t != "commit"@ && t != "tag"@ ==> (r matches Err(GraftError::GitHubApi { status, message })
                && status == 200 && message@ == "unexpected ref object type: "@ + t)
        }),
{
    let t = match obj_type {
        Some(t) => t,
        None => String::new(),
    };
    let sha = match obj_sha {
        Some(s) => s,
        None => String::new(),
    };
    let tv = chars_of(t.as_str());
    let commit = chars_of("commit");
    let tag = chars_of("tag");
    proof {
        reveal_strlit("commit");
        reveal_strlit("tag");
        assert("commit"@.len() != "tag"@.len());
    }
    if vec_eq(&tv, &commit) {
        Ok(TagTarget::Commit(sha))
    } else if vec_eq(&tv, &tag) {
        Ok(TagTarget::Annotated(sha))
    } else {
        let mut message = "unexpected ref object type: ".to_owned();
        message.append(t.as_str());
        Err(GraftError::GitHubApi { status: 200, message })
    }
}

/// The commit SHA from the `object.sha` field of an annotated tag response.
pub fn annotated_sha_from_body(sha: Option<String>) -> (r: Result<String, GraftError>)
    ensures
        sha matches Some(s) ==> (r matches Ok(x) && x@ == s@),
        sha is None ==> (r matches Err(GraftError::GitHubApi { status, message }) && status == 200 && message@
            == "missing sha in annotated tag response"@),
{
    match sha {
        Some(s) => Ok(s),
        None => Err(
            GraftError::GitHubApi {
                status: 200,
                message: "missing sha in annotated tag response".to_owned(),
            },
        ),
    }
}

/// A text without its white space.
pub open spec fn without_white_space(s: Seq<char>) -> Seq<char>
    decreases s.len(),
{
    if s.len() == 0 {
        seq![]
    } else if is_white_space(s.last()) {
        without_white_space(s.drop_last())
    } else {
        without_white_space(s.drop_last()).push(s.last())
    }
}

/// The text without its white space (GitHub breaks base64 content into lines).
pub fn strip_white_space(text: &str) -> (r: String)
    ensures
        r@ == without_white_space(text@),
{
    let v = chars_of(text);
    let mut r = String::new();
    let mut i: usize = 0;
    while i < v.len()
        invariant
            i <= v@.len(),
            v@ == text@,
            r@ == without_white_space(v@.take(i as int)),
        decreases v@.len() - i,
    {
        assert(v@.take(i + 1).drop_last() =~= v@.take(i as int));
        if !char_is_whitespace(v[i]) {
            push_char(&mut r, v[i]);
        }
        i = i + 1;
    }
    assert(v@.take(v@.len() as int) =~= v@);
    r
}

/// What `BASE64_STANDARD.decode` reads from a text: the bytes, or the text of the
/// error it reports.
pub uninterp spec fn base64_standard_decode(text: Seq<char>) -> Result<Seq<u8>, Seq<char>>;

/// `base64::engine::general_purpose::STANDARD.decode`: the bytes that standard,
/// padded base64 spells, or the `Display` text of the error it reports. Both are
/// named by `base64_standard_decode`.
#[verifier::external_body]
fn base64_decode(text: &str) -> (r: Result<Vec<u8>, String>)
    ensures
        match (r, base64_standard_decode(text@)) {
            (Ok(b), Ok(c)) => b@ == c,
            (Err(m), Err(c)) => m@ == c,
            _ => false,
        },
{
    match base64::Engine::decode(&base64::engine::general_purpose::STANDARD, text) {
        Ok(bytes) => Ok(bytes),
        Err(e) => Err(format!("{e}")),
    }
}

/// The file's bytes from the `content` field of a contents response: the base64
/// text with its white space taken out, decoded. A missing field or a text that is
/// not base64 is an API error.
pub fn decode_contents(content: Option<String>) -> (r: Result<Vec<u8>, GraftError>)
    ensures
        content is None ==> (r matches Err(GraftError::GitHubApi { status, message }) && status == 200 && message@
            == "missing content field"@),
        content matches Some(c) ==> match base64_standard_decode(without_white_space(c@)) {
            Ok(bytes) => r matches Ok(b) && b@ == bytes,
            Err(e) => r matches Err(GraftError::GitHubApi { status, message }) && status == 200 && message@
                == "base64 decode error: "@ + e,
        },
{
    let c = match content {
        Some(c) => c,
        None => {
            return Err(GraftError::GitHubApi { status: 200, message: "missing content field".to_owned() });
        },
    };
    let cleaned = strip_white_space(c.as_str());
    match base64_decode(cleaned.as_str()) {
        Ok(bytes) => Ok(bytes),
        Err(e) => {
            let mut message = "base64 decode error: ".to_owned();
            message.append(e.as_str());
            Err(GraftError::GitHubApi { status: 200, message })
        },
    }
}

} // verus!
