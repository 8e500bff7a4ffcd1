use vstd::prelude::*;

use crate::config::entries::{has_key, insert_entry, keys_distinct, lookup, remove_entry};
use crate::error::GraftError;
use crate::text::{chars_of, has_prefix, push_char, starts_with_at, sub_vec, vec_eq};

verus! {

/// One dependency in `graft.toml`.
#[derive(Debug, Clone, PartialEq)]
pub struct GraftDep {
    pub source: String,
    pub version: String,
    pub dest: String,
    pub files: Option<Vec<String>>,
}

/// The dependencies of a project, by name, in the order of `graft.toml`.
#[derive(Debug)]
pub struct Manifest {
    pub grafts: indexmap::IndexMap<String, GraftDep>,
}

/// The texts of a dependency: source, version, destination, and the file names it
/// is limited to, if any.
pub type DepView = (Seq<char>, Seq<char>, Seq<char>, Option<Seq<Seq<char>>>);

/// The texts of a list of strings.
pub open spec fn strings_view(v: Seq<String>) -> Seq<Seq<char>> {
    v.map_values(|s: String| s@)
}

/// The texts of an optional list of strings.
pub open spec fn opt_strings_view(o: Option<Vec<String>>) -> Option<Seq<Seq<char>>> {
    match o {
        Some(v) => Some(strings_view(v@)),
        None => None,
    }
}

impl View for GraftDep {
    type V = DepView;

    open spec fn view(&self) -> DepView {
        (self.source@, self.version@, self.dest@, opt_strings_view(self.files))
    }
}

/// What the manifest's map holds: each name with its dependency, in map order.
pub uninterp spec fn manifest_entries(m: indexmap::IndexMap<String, GraftDep>) -> Seq<(Seq<char>, DepView)>;

/// The version a dependency gets where `graft.toml` names none.
pub open spec fn default_version_text() -> Seq<char> {
    seq!['l', 'a', 't', 'e', 's', 't']
}

/// The version a dependency gets where `graft.toml` names none: `latest`.
pub fn default_version() -> (r: String)
    ensures
        r@ == default_version_text(),
{
    let mut r = String::new();
    push_char(&mut r, 'l');
    push_char(&mut r, 'a');
    push_char(&mut r, 't');
    push_char(&mut r, 'e');
    push_char(&mut r, 's');
    push_char(&mut r, 't');
    assert(r@ =~= default_version_text());
    r
}

/// A copy of a list of strings.
pub fn copy_strings(v: &Vec<String>) -> (r: Vec<String>)
    ensures
        strings_view(r@) == strings_view(v@),
{
    let mut r: Vec<String> = Vec::new();
    let mut i: usize = 0;
    while i < v.len()
        invariant
            i <= v@.len(),
            r@.len() == i,
            forall|j: int| 0 <= j < i ==> (#[trigger] r@[j])@ == v@[j]@,
        decreases v@.len() - i,
    {
        r.push(v[i].clone());
        i = i + 1;
    }
    assert(strings_view(r@) =~= strings_view(v@));
    r
}

/// A copy of an optional list of strings.
pub fn copy_optional_strings(v: &Option<Vec<String>>) -> (r: Option<Vec<String>>)
    ensures
        opt_strings_view(r) == opt_strings_view(*v),
{
    match v {
        Some(list) => Some(copy_strings(list)),
        None => None,
    }
}

impl GraftDep {
    /// An equal copy of this dependency.
    pub fn copy(&self) -> (r: GraftDep)
        ensures
            r@ == self@,
    {
        GraftDep {
            source: self.source.clone(),
            version: self.version.clone(),
            dest: self.dest.clone(),
            files: copy_optional_strings(&self.files),
        }
    }
}

/// A path component `..` spans `s[i..i + 2]`: it stands between separators or the
/// ends of the text.
pub open spec fn parent_dir_at(s: Seq<char>, i: int) -> bool {
    &&& 0 <= i
    &&& i + 2 <= s.len()
    &&& s[i] == '.'
    &&& s[i + 1] == '.'
    &&& (i == 0 || s[i - 1] == '/')
    &&& (i + 2 == s.len() || s[i + 2] == '/')
}

/// The path has a `..` component.
pub open spec fn has_parent_dir_component(s: Seq<char>) -> bool {
    exists|i: int| parent_dir_at(s, i)
}

/// The path is `.git` or lies under it.
pub open spec fn targets_git(s: Seq<char>) -> bool {
    ||| s == seq!['.', 'g', 'i', 't']
    ||| has_prefix(s, seq!['.', 'g', 'i', 't', '/'])
    ||| has_prefix(s, seq!['.', 'g', 'i', 't', '\\'])
}

/// The path is absolute: it starts at the root.
pub open spec fn is_absolute(s: Seq<char>) -> bool {
    s.len() > 0 && s[0] == '/'
}

/// The path without its leading `.` components (and the separators after them).
pub open spec fn skip_current_dirs(s: Seq<char>) -> Seq<char>
    decreases s.len(),
{
    if s.len() >= 2 && s[0] == '.' && s[1] == '/' {
        skip_current_dirs(s.skip(2))
    } else if s.len() >= 1 && s[0] == '/' {
        skip_current_dirs(s.skip(1))
    } else {
        s
    }
}

/// What is wrong with a destination path on its own: 1 where it escapes the project
/// root (it is absolute, or goes up through `..`), 2 where it targets `.git` (also
/// when reached through leading `./`), 0 where it is fine.
pub open spec fn dest_check(s: Seq<char>) -> int {
    if has_parent_dir_component(s) || is_absolute(s) {
        1
    } else if targets_git(skip_current_dirs(s)) {
        2
    } else {
        0
    }
}

/// What is wrong with the destination of the `i`-th entry: the problems of
/// `dest_check`, else 3 where an earlier entry has the same destination, else 0.
pub open spec fn dest_problem(s: Seq<(Seq<char>, DepView)>, i: int) -> int {
    let d = s[i].1.2;
    if dest_check(d) != 0 {
        dest_check(d)
    } else if exists|j: int| 0 <= j < i && #[trigger] s[j].1.2 == d {
        3
    } else {
        0
    }
}

/// Two dependencies may never share a destination, however far apart they stand:
/// where entries `i < j` have the same destination, some entry up to `j` has a
/// problem, so `validate` fails; and where every destination is fine on its own,
/// the problem of entry `j` is a duplicate (`DuplicateDest`).
pub proof fn law_shared_destinations_are_refused(s: Seq<(Seq<char>, DepView)>, i: int, j: int)
    requires
        0 <= i < j < s.len(),
        s[i].1.2 == s[j].1.2,
    ensures
        exists|k: int| 0 <= k <= j && dest_problem(s, k) != 0,
        (forall|m: int| 0 <= m < s.len() ==> dest_check(#[trigger] s[m].1.2) == 0) ==> dest_problem(s, j) == 3,
{
    if dest_check(s[j].1.2) != 0 {
        assert(dest_problem(s, j) != 0);
    } else {
        assert(s[i].1.2 == s[j].1.2);
        assert(dest_problem(s, j) == 3);
    }
}

/// The error that graft reports for a destination problem.
pub open spec fn dest_error_is(e: GraftError, problem: int, dest: Seq<char>) -> bool {
    &&& problem == 1 ==> (e matches GraftError::DestEscapesRoot { path } && path@ == dest)
    &&& problem == 2 ==> (e matches GraftError::DestTargetsGit { path } && path@ == dest)
    &&& problem == 3 ==> (e matches GraftError::DuplicateDest { path } && path@ == dest)
}

/// Whether the path has a `..` component.
pub fn has_parent_dir(v: &Vec<char>) -> (r: bool)
    ensures
        r == has_parent_dir_component(v@),
{
    let n = v.len();
    if n < 2 {
        return false;
    }
    let mut i: usize = 0;
    while i < n - 1
        invariant
            n == v@.len(),
            2 <= n,
            i <= n,
            forall|j: int| 0 <= j < i ==> !parent_dir_at(v@, j),
        decreases n - i,
    {
        if v[i] == '.' && v[i + 1] == '.' && (i == 0 || v[i - 1] == '/') && (i + 2 == n || v[i + 2] == '/') {
            assert(parent_dir_at(v@, i as int));
            return true;
        }
        i = i + 1;
    }
    assert forall|j: int| !parent_dir_at(v@, j) by {
        if 0 <= j < i {
        }
    }
    false
}

/// Whether the path is `.git` or lies under it.
pub fn is_git_path(v: &Vec<char>) -> (r: bool)
    ensures
        r == targets_git(v@),
{
    let git = vec!['.', 'g', 'i', 't'];
    let git_slash = vec!['.', 'g', 'i', 't', '/'];
    let git_backslash = vec!['.', 'g', 'i', 't', '\\'];
    assert(git@ =~= seq!['.', 'g', 'i', 't']);
    assert(git_slash@ =~= seq!['.', 'g', 'i', 't', '/']);
    assert(git_backslash@ =~= seq!['.', 'g', 'i', 't', '\\']);
    assert(v@.subrange(0, v@.len() as int) =~= v@);
    vec_eq(v, &git) || starts_with_at(v, 0, v.len(), &git_slash) || starts_with_at(
        v,
        0,
        v.len(),
        &git_backslash,
    )
}

/// The error for a destination path that is wrong on its own, if it is.
pub fn check_dest(dest: &str) -> (r: Result<(), GraftError>)
    ensures
        r is Ok <==> dest_check(dest@) == 0,
        r matches Err(e) ==> dest_error_is(e, dest_check(dest@), dest@),
{
    let v = chars_of(dest);
    if has_parent_dir(&v) || (v.len() > 0 && v[0] == '/') {
        return Err(GraftError::DestEscapesRoot { path: dest.to_owned() });
    }
    let n = v.len();
    let mut i: usize = 0;
    assert(v@.skip(0) =~= v@);
    loop
        invariant
            i <= n,
            n == v@.len(),
            skip_current_dirs(v@.skip(i as int)) == skip_current_dirs(v@),
        ensures
            i <= n,
            skip_current_dirs(v@.skip(i as int)) == v@.skip(i as int),
            skip_current_dirs(v@.skip(i as int)) == skip_current_dirs(v@),
        decreases n - i,
    {
        if i < n && v[i] == '.' && i < n - 1 && v[i + 1] == '/' {
            assert(v@.skip(i as int).skip(2) =~= v@.skip(i + 2));
            i = i + 2;
        } else if i < n && v[i] == '/' {
            assert(v@.skip(i as int).skip(1) =~= v@.skip(i + 1));
            i = i + 1;
        } else {
            break;
        }
    }
    let rest = sub_vec(&v, i, n);
    assert(rest@ =~= v@.skip(i as int));
    if is_git_path(&rest) {
        return Err(GraftError::DestTargetsGit { path: dest.to_owned() });
    }
    Ok(())
}

impl Manifest {
    /// The manifest's entries: each name with its dependency, in order.
    pub open spec fn entries(&self) -> Seq<(Seq<char>, DepView)> {
        manifest_entries(self.grafts)
    }

    /// `IndexMap::new`: a manifest without dependencies.
    #[verifier::external_body]
    pub(crate) fn empty() -> (r: Manifest)
        ensures
            manifest_entries(r.grafts) == Seq::<(Seq<char>, DepView)>::empty(),
            keys_distinct(manifest_entries(r.grafts)),
    {
        Manifest { grafts: indexmap::IndexMap::new() }
    }

    /// `IndexMap::len`: the number of dependencies.
    #[verifier::external_body]
    pub(crate) fn len(&self) -> (r: usize)
        ensures
            r == manifest_entries(self.grafts).len(),
    {
        self.grafts.len()
    }

    /// `IndexMap::get_index`: the name and dependency at a position, in map order.
    #[verifier::external_body]
    pub(crate) fn entry_at(&self, i: usize) -> (r: Option<(&String, &GraftDep)>)
        ensures
            r is Some <==> i < manifest_entries(self.grafts).len(),
            r matches Some(p) ==> (p.0@, p.1@) == manifest_entries(self.grafts)[i as int],
    {
        self.grafts.get_index(i)
    }

    /// `IndexMap::get`: the dependency with the name, if there is one.
    #[verifier::external_body]
    pub(crate) fn get(&self, name: &str) -> (r: Option<&GraftDep>)
        ensures
            r is Some <==> has_key(manifest_entries(self.grafts), name@),
            r matches Some(d) ==> Some(d@) == lookup(manifest_entries(self.grafts), name@),
    {
        self.grafts.get(name)
    }

    /// `IndexMap::contains_key`: whether a dependency has the name.
    #[verifier::external_body]
    pub(crate) fn contains_key(&self, name: &str) -> (r: bool)
        ensures
            r == has_key(manifest_entries(self.grafts), name@),
    {
        self.grafts.contains_key(name)
    }

    /// `IndexMap::insert`: an existing name keeps its place and takes the new
    /// dependency; a new name goes last. Returns the dependency it replaced.
    #[verifier::external_body]
    pub(crate) fn insert(&mut self, name: String, dep: GraftDep) -> (r: Option<GraftDep>)
        ensures
            keys_distinct(manifest_entries(final(self).grafts)),
            manifest_entries(final(self).grafts) == insert_entry(manifest_entries(old(self).grafts), name@, dep@),
            r matches Some(d) ==> Some(d@) == lookup(manifest_entries(old(self).grafts), name@),
            r is None <==> !has_key(manifest_entries(old(self).grafts), name@),
    {
        self.grafts.insert(name, dep)
    }

    /// `IndexMap::shift_remove`: removes the dependency with the name, the others
    /// keeping their order. Returns the removed dependency.
    #[verifier::external_body]
    pub(crate) fn shift_remove(&mut self, name: &str) -> (r: Option<GraftDep>)
        ensures
            keys_distinct(manifest_entries(final(self).grafts)),
            manifest_entries(final(self).grafts) == remove_entry(manifest_entries(old(self).grafts), name@),
            r matches Some(d) ==> Some(d@) == lookup(manifest_entries(old(self).grafts), name@),
            r is None <==> !has_key(manifest_entries(old(self).grafts), name@),
    {
        self.grafts.shift_remove(name)
    }

    /// Check that every destination stays inside the project, avoids `.git`, and is
    /// used by one dependency only. Reports the first problem, in manifest order.
    pub fn validate(&self) -> (r: Result<(), GraftError>)
        ensures
            r is Ok <==> forall|i: int| 0 <= i < self.entries().len() ==> dest_problem(self.entries(), i) == 0,
            r matches Err(e) ==> exists|i: int|
                0 <= i < self.entries().len() && (forall|j: int| 0 <= j < i ==> dest_problem(self.entries(), j) == 0)
                    && dest_problem(self.entries(), i) != 0 && dest_error_is(
                    e,
                    dest_problem(self.entries(), i),
                    self.entries()[i].1.2,
                ),
            r is Ok ==> forall|i: int, j: int|
                0 <= i < j < self.entries().len() ==> #[trigger] self.entries()[i].1.2 != #[trigger] self.entries()[j].1.2,
    {
        let ghost s = self.entries();
        let n = self.len();
        let mut seen: Vec<Vec<char>> = Vec::new();
        let mut i: usize = 0;
        while i < n
            invariant
                n == s.len(),
                s == self.entries(),
                i <= n,
                seen@.len() == i,
                forall|j: int| 0 <= j < i ==> (#[trigger] seen@[j])@ == s[j].1.2,
                forall|j: int| 0 <= j < i ==> dest_problem(s, j) == 0,
            decreases n - i,
        {
            let (name, dep) = match self.entry_at(i) {
                Some(p) => p,
                None => { return Ok(()); },
            };
            let dest = chars_of(dep.dest.as_str());
            if let Err(e) = check_dest(dep.dest.as_str()) {
                assert(dest_problem(s, i as int) == dest_check(s[i as int].1.2));
                return Err(e);
            }
            let mut k: usize = 0;
            while k < i
                invariant
                    k <= i,
                    seen@.len() == i,
                    i < s.len(),
                    s == self.entries(),
                    forall|j: int| 0 <= j < i ==> dest_problem(s, j) == 0,
                    forall|j: int| 0 <= j < i ==> (#[trigger] seen@[j])@ == s[j].1.2,
                    dest@ == s[i as int].1.2,
                    dep.dest@ == s[i as int].1.2,
                    dest_check(s[i as int].1.2) == 0,
                    forall|j: int| 0 <= j < k ==> (#[trigger] seen@[j])@ != dest@,
                decreases i - k,
            {
                if vec_eq(&seen[k], &dest) {
                    assert(s[k as int].1.2 == s[i as int].1.2);
                    assert(dest_problem(s, i as int) == 3);
                    let path = dep.dest.clone();
                    assert(dest_error_is(GraftError::DuplicateDest { path }, 3, s[i as int].1.2));
                    assert((forall|j: int| 0 <= j < i ==> dest_problem(s, j) == 0) && dest_problem(s, i as int) != 0);
                    return Err(GraftError::DuplicateDest { path });
                }
                k = k + 1;
            }
            assert forall|j: int| 0 <= j < i implies #[trigger] s[j].1.2 != s[i as int].1.2 by {
                assert(seen@[j]@ == s[j].1.2);
            }
            seen.push(dest);
            i = i + 1;
        }
        proof {
            assert forall|a: int, b: int| 0 <= a < b < s.len() implies #[trigger] s[a].1.2 != #[trigger] s[b].1.2 by {
                if s[a].1.2 == s[b].1.2 {
                    assert(dest_problem(s, b) == 0);
                }
            }
        }
        Ok(())
    }
}

} // verus!
