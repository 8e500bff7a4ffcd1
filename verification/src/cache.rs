use vstd::prelude::*;

verus! {

/// A path that `Path::join` adjoins to a base: one that is not absolute (on Unix,
/// one that does not start with `/`).
pub open spec fn is_relative(seg: Seq<char>) -> bool {
    !(seg.len() > 0 && seg[0] == '/')
}

/// `Path::join`, for UTF-8 paths on Unix: an absolute segment replaces the base; a
/// relative one is adjoined to a base that is not empty and does not end with `/`,
/// with a `/` between them. What it gives for an empty base, or for one that ends
/// with `/`, is not stated here.
#[verifier::external_body]
fn join_path(base: &str, seg: &str) -> (r: String)
    ensures
        !is_relative(seg@) ==> r@ == seg@,
        is_relative(seg@) && base@.len() > 0 && base@.last() != '/' ==> r@ == base@ + seq!['/'] + seg@,
{
    std::path::Path::new(base).join(seg).to_string_lossy().into_owned()
}

/// The on-disk cache of fetched files, keyed by repository, commit and path.
pub struct Cache {
    root: String,
}

/// A part of a cache key that joins plainly: not empty, and neither starting nor
/// ending with `/`.
pub open spec fn plain_part(s: Seq<char>) -> bool {
    s.len() > 0 && s[0] != '/' && s.last() != '/'
}

/// Where the cache keeps a file: `root/owner/repo/commit/path`.
pub open spec fn cache_key(root: Seq<char>, owner: Seq<char>, repo: Seq<char>, commit: Seq<char>, path: Seq<char>) -> Seq<char> {
    root + seq!['/'] + owner + seq!['/'] + repo + seq!['/'] + commit + seq!['/'] + path
}

impl Cache {
    /// The directory the cache lives in.
    pub closed spec fn root_spec(&self) -> Seq<char> {
        self.root@
    }

    /// A cache rooted at the given directory.
    pub fn with_root(root: String) -> (r: Cache)
        ensures
            r.root_spec() == root@,
    {
        Cache { root }
    }

    /// The directory the cache lives in.
    pub fn root(&self) -> (r: &String)
        ensures
            r@ == self.root_spec(),
    {
        &self.root
    }

    /// Where the cache keeps a file of a repository at a commit: the root, owner,
    /// repository, commit and path joined as paths. Where the root is not empty and
    /// does not end with `/`, the owner, repository and commit are plain parts and
    /// the path is relative, that is `root/owner/repo/commit/path`.
    pub fn key_path(&self, owner: &str, repo: &str, commit: &str, path: &str) -> (r: String)
        ensures
            self.root_spec().len() > 0 && self.root_spec().last() != '/' && plain_part(owner@) && plain_part(repo@)
                && plain_part(commit@) && is_relative(path@) ==> r@ == cache_key(
                self.root_spec(),
                owner@,
                repo@,
                commit@,
                path@,
            ),
    {
        let a = join_path(self.root.as_str(), owner);
        let b = join_path(a.as_str(), repo);
        let c = join_path(b.as_str(), commit);
        let r = join_path(c.as_str(), path);
        proof {
            if self.root_spec().len() > 0 && self.root_spec().last() != '/' && plain_part(owner@) && plain_part(repo@)
                && plain_part(commit@) && is_relative(path@) {
                assert(a@.last() == owner@.last());
                assert(b@.last() == repo@.last());
                assert(c@.last() == commit@.last());
                assert(r@ =~= cache_key(self.root_spec(), owner@, repo@, commit@, path@));
            }
        }
        r
    }
}

/// The cache path of a file of a directory dependency: the dependency's path (which
/// ends with `/`) followed by the file's path inside it.
pub open spec fn cached_file_path(dir_path: Seq<char>, file: Seq<char>) -> Seq<char> {
    dir_path + file
}

/// The cache path of a file of a directory dependency.
pub fn cached_file_path_of(dir_path: &str, file: &str) -> (r: String)
    ensures
        r@ == cached_file_path(dir_path@, file@),
{
    let mut r = String::new();
    r.append(dir_path);
    r.append(file);
    assert(r@ =~= cached_file_path(dir_path@, file@));
    r
}

} // verus!
