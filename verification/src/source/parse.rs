use vstd::prelude::*;

use crate::error::GraftError;
use crate::text::{
    chars_of, contains_char, find_char, first_index, has_prefix, has_suffix, last_index, push_char, rfind_char,
    starts_with_at, string_of,
};

verus! {

/// A parsed GitHub source reference: `gh:owner/repo/path`.
#[derive(Debug, Clone, PartialEq, Eq)]
pub struct GraftSource {
    pub owner: String,
    pub repo: String,
    pub path: String,
}

impl View for GraftSource {
    type V = (Seq<char>, Seq<char>, Seq<char>);

    open spec fn view(&self) -> (Seq<char>, Seq<char>, Seq<char>) {
        (self.owner@, self.repo@, self.path@)
    }
}

/// The prefix that every GitHub source carries.
pub open spec fn gh_prefix() -> Seq<char> {
    seq!['g', 'h', ':']
}

/// The owner, repository and path that a source text names: the text after `gh:`
/// split at its first two `/`, the path being all that follows the second one and
/// not empty. `None` for any other text.
pub open spec fn source_parts(input: Seq<char>) -> Option<(Seq<char>, Seq<char>, Seq<char>)> {
    if !has_prefix(input, gh_prefix()) {
        None
    } else {
        let rest = input.skip(3);
        let i = first_index(rest, '/');
        if i < 0 {
            None
        } else {
            let after = rest.skip(i + 1);
            let j = first_index(after, '/');
            if j < 0 {
                None
            } else {
                let path = after.skip(j + 1);
                if path.len() == 0 {
                    None
                } else {
                    Some((rest.take(i), after.take(j), path))
                }
            }
        }
    }
}

/// The canonical text of a source: `gh:{owner}/{repo}/{path}`.
pub open spec fn source_text(owner: Seq<char>, repo: Seq<char>, path: Seq<char>) -> Seq<char> {
    gh_prefix() + owner + seq!['/'] + repo + seq!['/'] + path
}

/// The source text and the version of `source@version`: split at the last `@`,
/// the version not empty. `None` where there is no `@` or nothing after the last one.
pub open spec fn versioned_parts(input: Seq<char>) -> Option<(Seq<char>, Seq<char>)> {
    let k = last_index(input, '@');
    if k < 0 || k + 1 == input.len() {
        None
    } else {
        Some((input.take(k), input.skip(k + 1)))
    }
}

proof fn lemma_first_index_is(s: Seq<char>, c: char, i: int)
    requires
        0 <= i < s.len(),
        s[i] == c,
        forall|j: int| 0 <= j < i ==> s[j] != c,
    ensures
        first_index(s, c) == i,
{
    let k = first_index(s, c);
    assert(0 <= k < s.len() && s[k] == c && forall|j: int| 0 <= j < k ==> s[j] != c);
    if k < i {
        assert(s[k] != c);
    }
    if i < k {
        assert(s[i] != c);
    }
}

proof fn lemma_first_index_none(s: Seq<char>, c: char)
    requires
        forall|j: int| 0 <= j < s.len() ==> s[j] != c,
    ensures
        first_index(s, c) == -1,
{
}

proof fn lemma_last_index_is(s: Seq<char>, c: char, i: int)
    requires
        0 <= i < s.len(),
        s[i] == c,
        forall|j: int| i < j < s.len() ==> s[j] != c,
    ensures
        last_index(s, c) == i,
{
    let k = last_index(s, c);
    assert(0 <= k < s.len() && s[k] == c && forall|j: int| k < j < s.len() ==> s[j] != c);
    if k < i {
        assert(s[i] != c);
    }
    if i < k {
        assert(s[k] != c);
    }
}

/// Parsing then printing a source gives back the text that was parsed: whenever
/// `GraftSource::parse` accepts a text, `to_source_string` of the result is that text.
pub proof fn law_parse_then_print(input: Seq<char>)
    requires
        source_parts(input) is Some,
    ensures
        source_text(
            source_parts(input).unwrap().0,
            source_parts(input).unwrap().1,
            source_parts(input).unwrap().2,
        ) == input,
{
    let rest = input.skip(3);
    let i = first_index(rest, '/');
    let after = rest.skip(i + 1);
    let j = first_index(after, '/');
    assert(after =~= after.take(j) + seq!['/'] + after.skip(j + 1));
    assert(rest =~= rest.take(i) + seq!['/'] + after);
    assert(input =~= gh_prefix() + rest);
}

/// Printing then parsing a source gives back its parts: an owner and a repository
/// without `/` and a path that is not empty are read back from their canonical text.
pub proof fn law_print_then_parse(owner: Seq<char>, repo: Seq<char>, path: Seq<char>)
    requires
        !contains_char(owner, '/'),
        !contains_char(repo, '/'),
        path.len() > 0,
    ensures
        source_parts(source_text(owner, repo, path)) == Some((owner, repo, path)),
{
    let input = source_text(owner, repo, path);
    assert(input.take(3) =~= gh_prefix());
    let rest = input.skip(3);
    assert(rest =~= owner + seq!['/'] + repo + seq!['/'] + path);
    assert(rest[owner.len() as int] == '/');
    assert forall|k: int| 0 <= k < owner.len() implies rest[k] != '/' by {
        assert(rest[k] == owner[k]);
    }
    lemma_first_index_is(rest, '/', owner.len() as int);
    let after = rest.skip(owner.len() as int + 1);
    assert(after =~= repo + seq!['/'] + path);
    assert(after[repo.len() as int] == '/');
    assert forall|k: int| 0 <= k < repo.len() implies after[k] != '/' by {
        assert(after[k] == repo[k]);
    }
    lemma_first_index_is(after, '/', repo.len() as int);
    assert(rest.take(owner.len() as int) =~= owner);
    assert(after.take(repo.len() as int) =~= repo);
    assert(after.skip(repo.len() as int + 1) =~= path);
}

/// A source written with a version is read back as that source and that version,
/// for any version that is not empty and holds no `@`.
pub proof fn law_version_suffix(source: Seq<char>, version: Seq<char>)
    requires
        version.len() > 0,
        !contains_char(version, '@'),
    ensures
        versioned_parts(source + seq!['@'] + version) == Some((source, version)),
{
    let input = source + seq!['@'] + version;
    let k = source.len() as int;
    assert(input[k] == '@');
    assert forall|j: int| k < j < input.len() implies input[j] != '@' by {
        assert(input[j] == version[j - k - 1]);
    }
    lemma_last_index_is(input, '@', k);
    assert(input.take(k) =~= source);
    assert(input.skip(k + 1) =~= version);
}

impl GraftSource {
    /// Parse a source string in the format `gh:owner/repo/path/to/file`.
    ///
    /// The path portion may contain multiple `/`-separated segments.
    /// A trailing `/` indicates a directory source.
    pub fn parse(input: &str) -> (r: Result<Self, GraftError>)
        ensures
            r is Ok <==> source_parts(input@) is Some,
            r matches Ok(s) ==> s@ == source_parts(input@).unwrap(),
            r matches Err(e) ==> (e matches GraftError::InvalidSource { input: x } && x@ == input@),
    {
        let v = chars_of(input);
        let gh = vec!['g', 'h', ':'];
        assert(gh@ =~= gh_prefix());
        if !starts_with_at(&v, 0, v.len(), &gh) {
            assert(v@.subrange(0, v@.len() as int) =~= v@);
            return Err(GraftError::InvalidSource { input: input.to_owned() });
        }
        assert(v@.subrange(0, v@.len() as int) =~= v@);
        let ghost rest = v@.skip(3);
        let first = find_char(&v, 3, v.len(), '/');
        let i = match first {
            Some(i) => i,
            None => {
                proof { lemma_first_index_none(rest, '/'); }
                return Err(GraftError::InvalidSource { input: input.to_owned() });
            },
        };
        proof { lemma_first_index_is(rest, '/', i - 3); }
        let ghost after = rest.skip(i - 3 + 1);
        assert(after =~= v@.skip(i + 1));
        let second = find_char(&v, i + 1, v.len(), '/');
        let j = match second {
            Some(j) => j,
            None => {
                proof { lemma_first_index_none(after, '/'); }
                return Err(GraftError::InvalidSource { input: input.to_owned() });
            },
        };
        proof { lemma_first_index_is(after, '/', j - (i + 1)); }
        if j + 1 == v.len() {
            return Err(GraftError::InvalidSource { input: input.to_owned() });
        }
        let owner = string_of(&v, 3, i);
        let repo = string_of(&v, i + 1, j);
        let path = string_of(&v, j + 1, v.len());
        assert(owner@ =~= rest.take(i - 3));
        assert(repo@ =~= after.take(j - (i + 1)));
        assert(path@ =~= after.skip(j - (i + 1) + 1));
        Ok(GraftSource { owner, repo, path })
    }

    /// Parse a source string with a version suffix: `gh:owner/repo/path@version`.
    ///
    /// Splits on the last `@` to separate the version from the source.
    pub fn parse_with_version(input: &str) -> (r: Result<(Self, String), GraftError>)
        ensures
            r is Ok <==> (versioned_parts(input@) matches Some(p) && source_parts(p.0) is Some),
            r matches Ok(p) ==> (p.0@ == source_parts(versioned_parts(input@).unwrap().0).unwrap()
                && p.1@ == versioned_parts(input@).unwrap().1),
            r matches Err(e) ==> (e matches GraftError::InvalidSource { input: x } && (
            versioned_parts(input@) is None ==> x@ == input@) && (versioned_parts(input@) matches Some(
                p,
            ) ==> x@ == p.0)),
    {
        let v = chars_of(input);
        let at = match rfind_char(&v, '@') {
            Some(k) => k,
            None => {
                return Err(GraftError::InvalidSource { input: input.to_owned() });
            },
        };
        proof { lemma_last_index_is(v@, '@', at as int); }
        if at == v.len() - 1 {
            return Err(GraftError::InvalidSource { input: input.to_owned() });
        }
        let source_part = string_of(&v, 0, at);
        let version = string_of(&v, at + 1, v.len());
        assert(source_part@ =~= v@.take(at as int));
        assert(version@ =~= v@.skip(at + 1));
        let source = Self::parse(source_part.as_str())?;
        Ok((source, version))
    }

    /// Return the canonical source string: `gh:{owner}/{repo}/{path}`.
    pub fn to_source_string(&self) -> (r: String)
        ensures
            r@ == source_text(self.owner@, self.repo@, self.path@),
    {
        let mut r = String::new();
        push_char(&mut r, 'g');
        push_char(&mut r, 'h');
        push_char(&mut r, ':');
        r.append(self.owner.as_str());
        push_char(&mut r, '/');
        r.append(self.repo.as_str());
        push_char(&mut r, '/');
        r.append(self.path.as_str());
        assert(r@ =~= source_text(self.owner@, self.repo@, self.path@));
        r
    }

    /// Returns true if the path ends with `/`, indicating a directory source.
    pub fn is_directory(&self) -> (r: bool)
        ensures
            r == has_suffix(self.path@, seq!['/']),
    {
        let v = chars_of(self.path.as_str());
        if v.len() == 0 {
            false
        } else {
            assert(v@.skip(v@.len() - 1) =~= seq![v@.last()]);
            let slash = v[v.len() - 1] == '/';
            proof {
                if !slash {
                    assert(seq![v@.last()][0] != seq!['/'][0]);
                }
            }
            slash
        }
    }
}

} // verus!
