use graft::error::GraftError;
use graft::github::api::{
    after_annotated_status, after_commit_status, after_content_status, after_tag_status, annotated_sha_from_body,
    annotated_tag_url_of, api_status_error, commit_sha_from_body, commit_url_of, contents_url_of, decode_contents,
    repo_slug_of, resolve_ref_request, strip_white_space, tag_ref_url_of, tag_target_from_body, tarball_url_of,
    ApiNext, RefRoute, TagTarget,
};
use graft::github::archive::{select_directory_files, select_from_listing, TarEntry};
use graft::github::auth::{bearer, choose_token, token_from_env, token_from_gh_output, user_agent};
use graft::github::remote::{remote_url_of, tags_from_ls_remote};
use graft::github::request::{api_start, api_step, ApiAction, ApiEvent, ApiFields, ApiRequest, ApiStage};

fn s(x: &str) -> String {
    x.to_string()
}

/// A gzip-compressed tar archive with the given files and directories.
fn tar_gz(files: &[(&str, &[u8])], dirs: &[&str]) -> Vec<u8> {
    let enc = flate2::write::GzEncoder::new(Vec::new(), flate2::Compression::default());
    let mut b = tar::Builder::new(enc);
    for d in dirs {
        let mut h = tar::Header::new_gnu();
        h.set_entry_type(tar::EntryType::Directory);
        h.set_size(0);
        h.set_mode(0o755);
        b.append_data(&mut h, d, &[][..]).unwrap();
    }
    for (path, data) in files {
        let mut h = tar::Header::new_gnu();
        h.set_size(data.len() as u64);
        h.set_mode(0o644);
        b.append_data(&mut h, path, *data).unwrap();
    }
    b.into_inner().unwrap().finish().unwrap()
}

#[test]
fn api_urls() {
    assert_eq!(repo_slug_of("owner", "repo"), "owner/repo");
    assert_eq!(commit_url_of("o", "r", "abc1234"), "https://api.github.com/repos/o/r/commits/abc1234");
    assert_eq!(tag_ref_url_of("o", "r", "v1.0.0"), "https://api.github.com/repos/o/r/git/ref/tags/v1.0.0");
    assert_eq!(annotated_tag_url_of("o", "r", "deadbee"), "https://api.github.com/repos/o/r/git/tags/deadbee");
    assert_eq!(
        contents_url_of("o", "r", "workflows/lint.yml", "abc"),
        "https://api.github.com/repos/o/r/contents/workflows/lint.yml?ref=abc"
    );
    assert_eq!(tarball_url_of("o", "r", "abc"), "https://api.github.com/repos/o/r/tarball/abc");
    assert_eq!(remote_url_of("o", "r"), "https://github.com/o/r");
}

#[test]
fn sha_like_refs_go_to_the_commit_api() {
    let (route, url) = resolve_ref_request("o", "r", "a1B2c3D");
    assert_eq!(route, RefRoute::Commit);
    assert_eq!(url, "https://api.github.com/repos/o/r/commits/a1B2c3D");
    let (route, url) = resolve_ref_request("o", "r", "v1.2.0");
    assert_eq!(route, RefRoute::Tag);
    assert_eq!(url, "https://api.github.com/repos/o/r/git/ref/tags/v1.2.0");
    let (route, _) = resolve_ref_request("o", "r", "abcdef");
    assert_eq!(route, RefRoute::Tag);
}

#[test]
fn commit_status_steps() {
    assert!(matches!(after_commit_status(200, "o", "r", "abc"), ApiNext::ReadJson));
    match after_commit_status(401, "o", "r", "abc") {
        ApiNext::Fail(GraftError::AuthFailed { repo }) => assert_eq!(repo, "o/r"),
        other => panic!("unexpected: {:?}", other),
    }
    assert!(matches!(after_commit_status(403, "o", "r", "abc"), ApiNext::Fail(GraftError::AuthFailed { .. })));
    match after_commit_status(404, "o", "r", "abc") {
        ApiNext::Fail(GraftError::SourcePathNotFound { path, repo, version }) => {
            assert_eq!((path, repo, version), (s("abc"), s("o/r"), s("abc")));
        }
        other => panic!("unexpected: {:?}", other),
    }
    assert!(matches!(after_commit_status(500, "o", "r", "abc"), ApiNext::ReadText));
}

#[test]
fn tag_status_steps() {
    assert!(matches!(after_tag_status(200, "o", "r", "v1"), ApiNext::ReadJson));
    match after_tag_status(404, "o", "r", "v9") {
        ApiNext::Fail(GraftError::TagNotFound { tag, repo }) => assert_eq!((tag, repo), (s("v9"), s("o/r"))),
        other => panic!("unexpected: {:?}", other),
    }
    assert!(matches!(after_tag_status(502, "o", "r", "v1"), ApiNext::ReadText));
}

#[test]
fn content_status_steps() {
    match after_content_status(404, "o", "r", "dir/file", "v1") {
        ApiNext::Fail(GraftError::SourcePathNotFound { path, repo, version }) => {
            assert_eq!((path, repo, version), (s("dir/file"), s("o/r"), s("v1")));
        }
        other => panic!("unexpected: {:?}", other),
    }
    assert!(matches!(after_content_status(403, "o", "r", "f", "v1"), ApiNext::Fail(GraftError::AuthFailed { .. })));
    assert!(matches!(after_content_status(200, "o", "r", "f", "v1"), ApiNext::ReadJson));
    assert!(matches!(after_annotated_status(201), ApiNext::ReadJson));
    assert!(matches!(after_annotated_status(404), ApiNext::ReadText));
}

#[test]
fn api_errors_carry_status_and_text() {
    match api_status_error(500, s("boom")) {
        GraftError::GitHubApi { status, message } => assert_eq!((status, message), (500, s("boom"))),
        other => panic!("unexpected: {:?}", other),
    }
    assert_eq!(commit_sha_from_body(Some(s("abc"))).unwrap(), "abc");
    match commit_sha_from_body(None) {
        Err(GraftError::GitHubApi { status, message }) => {
            assert_eq!((status, message), (200, s("missing sha in commit response")))
        }
        other => panic!("unexpected: {:?}", other),
    }
    match annotated_sha_from_body(None) {
        Err(GraftError::GitHubApi { message, .. }) => assert_eq!(message, "missing sha in annotated tag response"),
        other => panic!("unexpected: {:?}", other),
    }
    assert_eq!(annotated_sha_from_body(Some(s("def"))).unwrap(), "def");
}

#[test]
fn tag_targets() {
    assert!(matches!(tag_target_from_body(Some(s("commit")), Some(s("abc"))), Ok(TagTarget::Commit(x)) if x == "abc"));
    assert!(matches!(tag_target_from_body(Some(s("tag")), Some(s("def"))), Ok(TagTarget::Annotated(x)) if x == "def"));
    match tag_target_from_body(Some(s("blob")), Some(s("abc"))) {
        Err(GraftError::GitHubApi { status, message }) => {
            assert_eq!((status, message), (200, s("unexpected ref object type: blob")))
        }
        other => panic!("unexpected: {:?}", other),
    }
    match tag_target_from_body(None, None) {
        Err(GraftError::GitHubApi { message, .. }) => assert_eq!(message, "unexpected ref object type: "),
        other => panic!("unexpected: {:?}", other),
    }
}

#[test]
fn contents_are_decoded_from_base64_lines() {
    assert_eq!(strip_white_space(" aGVs\nbG8=\r\n"), "aGVsbG8=");
    assert_eq!(decode_contents(Some(s("aGVs\nbG8=\n"))).unwrap(), b"hello".to_vec());
    assert_eq!(decode_contents(Some(s(""))).unwrap(), Vec::<u8>::new());
    match decode_contents(None) {
        Err(GraftError::GitHubApi { status, message }) => assert_eq!((status, message), (200, s("missing content field"))),
        other => panic!("unexpected: {:?}", other),
    }
    match decode_contents(Some(s("not base64!"))) {
        Err(GraftError::GitHubApi { status, message }) => {
            assert_eq!(status, 200);
            assert!(message.starts_with("base64 decode error: "));
            assert!(message.len() > "base64 decode error: ".len());
        }
        other => panic!("unexpected: {:?}", other),
    }
}

#[test]
fn directory_files_come_from_the_tarball() {
    let archive = tar_gz(
        &[
            ("owner-repo-abc/skills/a.md", b"alpha"),
            ("owner-repo-abc/skills/sub/b.md", b"beta"),
            ("owner-repo-abc/README.md", b"readme"),
            ("owner-repo-abc/other/c.md", b"gamma"),
            ("owner-repo-abc/skills-extra/d.md", b"delta"),
        ],
        &["owner-repo-abc/", "owner-repo-abc/skills/"],
    );
    let files = select_directory_files(&archive, "skills/", None).unwrap();
    assert_eq!(files, vec![(s("a.md"), b"alpha".to_vec()), (s("sub/b.md"), b"beta".to_vec())]);

    let filter = vec![s("b.md")];
    let files = select_directory_files(&archive, "skills", Some(filter.as_slice())).unwrap();
    assert_eq!(files, vec![(s("sub/b.md"), b"beta".to_vec())]);

    let files = select_directory_files(&archive, "missing/", None).unwrap();
    assert!(files.is_empty());
}

#[test]
fn unreadable_tarball_is_an_io_error() {
    let err = select_directory_files(b"this is not gzip", "skills/", None).unwrap_err();
    match err {
        GraftError::Io { context, .. } => assert_eq!(context, "reading tarball entry"),
        other => panic!("unexpected: {:?}", other),
    }
}

#[test]
fn ls_remote_tags_are_sorted_by_name() {
    let out = b"abc\trefs/tags/v2.0.0\ndef\trefs/tags/v1.0.0\n111\trefs/heads/main\n222\trefs/tags/v1.0.0^{}\n";
    let tags = tags_from_ls_remote(true, out, b"", "o", "r").unwrap();
    assert_eq!(tags, vec![(s("v1.0.0"), s("222")), (s("v2.0.0"), s("abc"))]);
    assert!(tags_from_ls_remote(true, b"", b"", "o", "r").unwrap().is_empty());
}

#[test]
fn ls_remote_failures() {
    match tags_from_ls_remote(false, b"", b"fatal: Authentication failed for 'x'", "o", "r") {
        Err(GraftError::AuthFailed { repo }) => assert_eq!(repo, "o/r"),
        other => panic!("unexpected: {:?}", other),
    }
    assert!(matches!(
        tags_from_ls_remote(false, b"", b"error: The requested URL returned error: 403", "o", "r"),
        Err(GraftError::AuthFailed { .. })
    ));
    match tags_from_ls_remote(false, b"", b"fatal: repository not found", "o", "r") {
        Err(GraftError::GitHubApi { status, message }) => {
            assert_eq!((status, message), (0, s("git ls-remote failed: fatal: repository not found")))
        }
        other => panic!("unexpected: {:?}", other),
    }
}

#[test]
fn tokens() {
    assert_eq!(token_from_env(Some(s("abc"))), Some(s("abc")));
    assert_eq!(token_from_env(Some(s(""))), None);
    assert_eq!(token_from_env(None), None);
    assert_eq!(token_from_gh_output(true, b"  gho_123\n"), Some(s("gho_123")));
    assert_eq!(token_from_gh_output(true, b" \n"), None);
    assert_eq!(token_from_gh_output(false, b"gho_123\n"), None);
    assert_eq!(choose_token(Some(s("a")), Some(s("b")), Some(s("c"))), Some(s("a")));
    assert_eq!(choose_token(Some(s("")), Some(s("b")), Some(s("c"))), Some(s("b")));
    assert_eq!(choose_token(None, None, Some(s("c"))), Some(s("c")));
    assert_eq!(choose_token(None, Some(s("")), None), None);
    assert_eq!(user_agent("0.1.0"), "graft/0.1.0");
    assert_eq!(bearer("tok"), "Bearer tok");
}

fn fields(sha: Option<&str>, object_type: Option<&str>, object_sha: Option<&str>, content: Option<&str>) -> ApiFields {
    ApiFields {
        sha: sha.map(s),
        object_type: object_type.map(s),
        object_sha: object_sha.map(s),
        content: content.map(s),
    }
}

#[test]
fn annotated_tags_are_dereferenced() {
    let request = ApiRequest::ResolveRef { owner: s("o"), repo: s("r"), git_ref: s("v1.0.0") };
    let (stage, action) = api_start(&request);
    assert!(matches!(stage, ApiStage::TagStatus));
    let ApiAction::Get(url) = action else { panic!("expected a request") };
    assert_eq!(url, "https://api.github.com/repos/o/r/git/ref/tags/v1.0.0");
    let (stage, action) = api_step(&request, stage, ApiEvent::Status(200));
    assert!(matches!(action, ApiAction::ReadJson));
    let (stage, action) = api_step(&request, stage, ApiEvent::Json(fields(None, Some("tag"), Some("abc"), None)));
    let ApiAction::Get(url) = action else { panic!("expected a request") };
    assert_eq!(url, "https://api.github.com/repos/o/r/git/tags/abc");
    let (stage, action) = api_step(&request, stage, ApiEvent::Status(200));
    assert!(matches!(action, ApiAction::ReadJson));
    let (stage, action) = api_step(&request, stage, ApiEvent::Json(fields(None, None, Some("def"), None)));
    assert!(matches!(stage, ApiStage::Done));
    assert!(matches!(action, ApiAction::Commit(ref c) if c == "def"));
}

#[test]
fn lightweight_tags_and_commits_resolve_at_once() {
    let request = ApiRequest::ResolveRef { owner: s("o"), repo: s("r"), git_ref: s("v1.0.0") };
    let (stage, _) = api_start(&request);
    let (stage, _) = api_step(&request, stage, ApiEvent::Status(200));
    let (_, action) = api_step(&request, stage, ApiEvent::Json(fields(None, Some("commit"), Some("abc"), None)));
    assert!(matches!(action, ApiAction::Commit(ref c) if c == "abc"));

    let request = ApiRequest::ResolveRef { owner: s("o"), repo: s("r"), git_ref: s("a1b2c3d") };
    let (stage, action) = api_start(&request);
    assert!(matches!(stage, ApiStage::CommitStatus));
    assert!(matches!(action, ApiAction::Get(ref u) if u == "https://api.github.com/repos/o/r/commits/a1b2c3d"));
    let (stage, _) = api_step(&request, stage, ApiEvent::Status(200));
    let (_, action) = api_step(&request, stage, ApiEvent::Json(fields(Some("a1b2c3d4e5"), None, None, None)));
    assert!(matches!(action, ApiAction::Commit(ref c) if c == "a1b2c3d4e5"));
}

#[test]
fn request_failures() {
    let request = ApiRequest::ResolveRef { owner: s("o"), repo: s("r"), git_ref: s("a1b2c3d") };
    let (stage, _) = api_start(&request);
    let (_, action) = api_step(&request, stage, ApiEvent::Status(404));
    let ApiAction::Fail(GraftError::SourcePathNotFound { path, repo, version }) = action else { panic!("expected a failure") };
    assert_eq!((path, repo, version), (s("a1b2c3d"), s("o/r"), s("a1b2c3d")));

    let request = ApiRequest::ResolveRef { owner: s("o"), repo: s("r"), git_ref: s("v9") };
    let (stage, _) = api_start(&request);
    let (_, action) = api_step(&request, stage, ApiEvent::Status(404));
    assert!(matches!(action, ApiAction::Fail(GraftError::TagNotFound { .. })));

    let request = ApiRequest::FetchFile { owner: s("o"), repo: s("r"), path: s("f"), git_ref: s("v1") };
    let (stage, _) = api_start(&request);
    let (stage, action) = api_step(&request, stage, ApiEvent::Status(502));
    assert!(matches!(action, ApiAction::ReadText));
    let (_, action) = api_step(&request, stage, ApiEvent::Text(s("bad gateway")));
    let ApiAction::Fail(GraftError::GitHubApi { status, message }) = action else { panic!("expected a failure") };
    assert_eq!((status, message), (502, s("bad gateway")));
}

#[test]
fn files_come_from_the_contents_api() {
    let request = ApiRequest::FetchFile { owner: s("o"), repo: s("r"), path: s("dir/f.txt"), git_ref: s("abc") };
    let (stage, action) = api_start(&request);
    assert!(matches!(action, ApiAction::Get(ref u) if u == "https://api.github.com/repos/o/r/contents/dir/f.txt?ref=abc"));
    let (stage, _) = api_step(&request, stage, ApiEvent::Status(200));
    let (_, action) = api_step(&request, stage, ApiEvent::Json(fields(None, None, None, Some("aGVs\nbG8=\n"))));
    assert!(matches!(action, ApiAction::File(ref b) if b == b"hello"));
}

#[test]
fn directories_come_from_the_tarball() {
    let files = vec![s("a.md")];
    let request =
        ApiRequest::FetchDirectory { owner: s("o"), repo: s("r"), path: s("skills/"), git_ref: s("abc"), files: Some(files) };
    let (stage, action) = api_start(&request);
    assert!(matches!(action, ApiAction::Get(ref u) if u == "https://api.github.com/repos/o/r/tarball/abc"));
    let (stage, action) = api_step(&request, stage, ApiEvent::Status(200));
    assert!(matches!(action, ApiAction::ReadBytes));
    let archive = tar_gz(&[("o-r-abc/skills/a.md", b"alpha"), ("o-r-abc/skills/b.md", b"beta")], &[]);
    let (_, action) = api_step(&request, stage, ApiEvent::Bytes(archive));
    let ApiAction::Directory(found) = action else { panic!("expected the files") };
    assert_eq!(found, vec![(s("a.md"), b"alpha".to_vec())]);
}

#[test]
fn directory_files_from_a_listing() {
    let entry = |path: &str, is_dir: bool, content: &[u8]| TarEntry { path: s(path), is_dir, content: content.to_vec() };
    let entries = vec![
        entry("top/skills", true, b""),
        entry("top/skills/a.md", false, b"alpha"),
        entry("top/skills-extra/b.md", false, b"beta"),
        entry("top/skills/sub/c.md", false, b"gamma"),
        entry("no-slash", false, b"x"),
    ];
    assert_eq!(
        select_from_listing(&entries, "skills/", None),
        vec![(s("a.md"), b"alpha".to_vec()), (s("sub/c.md"), b"gamma".to_vec())]
    );
    let filter = vec![s("c.md")];
    assert_eq!(select_from_listing(&entries, "skills", Some(filter.as_slice())), vec![(s("sub/c.md"), b"gamma".to_vec())]);
    assert_eq!(select_from_listing(&entries, "", None).len(), 3);
}
