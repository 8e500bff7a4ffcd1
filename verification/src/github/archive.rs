use vstd::prelude::*;

use crate::error::GraftError;
use crate::text::{chars_of, find_char, first_index, has_prefix, last_index, rfind_char, starts_with_at, string_of_all, sub_vec, vec_eq};

verus! {

/// An entry of a tar archive: its path, whether it is a directory, and its bytes.
pub struct TarEntry {
    pub path: String,
    pub is_dir: bool,
    pub content: Vec<u8>,
}

/// The texts of a tar entry.
pub type TarEntryView = (Seq<char>, bool, Seq<u8>);

impl View for TarEntry {
    type V = TarEntryView;

    open spec fn view(&self) -> TarEntryView {
        (self.path@, self.is_dir, self.content@)
    }
}

/// The entries that `tar` lists in a gzip-compressed archive, each path read as
/// text (`to_string_lossy`), or `None` where the archive cannot be read to its end.
pub uninterp spec fn tar_gz_listing(archive: Seq<u8>) -> Option<Seq<TarEntryView>>;

/// The read of an archive that failed: opening its entries, the next entry, an
/// entry's path, or the content of the entry with the given path.
pub enum TarStep {
    Entries,
    Entry,
    EntryPath,
    EntryContent(String),
}

/// `tar::Archive::entries` over `flate2::read::GzDecoder`: every entry of a
/// gzip-compressed tar archive, with its path as text, whether it is a directory,
/// and its bytes, in archive order. On failure, the read that failed and the error
/// it gave. The listing is named by `tar_gz_listing`; where it fails is not stated.
#[verifier::external_body]
fn tar_gz_entries(archive: &[u8]) -> (r: Result<Vec<TarEntry>, (TarStep, std::io::Error)>)
    ensures
        r is Ok <==> tar_gz_listing(archive@) is Some,
        r matches Ok(v) ==> v@.map_values(|e: TarEntry| e@) == tar_gz_listing(archive@).unwrap(),
{
    let mut out = Vec::new();
    let mut tar = tar::Archive::new(flate2::read::GzDecoder::new(archive));
    for entry in tar.entries().map_err(|e| (TarStep::Entries, e))? {
        let mut entry = entry.map_err(|e| (TarStep::Entry, e))?;
        let path = entry.path().map_err(|e| (TarStep::EntryPath, e))?.to_string_lossy().into_owned();
        let is_dir = entry.header().entry_type().is_dir();
        let mut content = Vec::new();
        if let Err(e) = std::io::Read::read_to_end(&mut entry, &mut content) {
            return Err((TarStep::EntryContent(path), e));
        }
        out.push(TarEntry { path, is_dir, content });
    }
    Ok(out)
}

/// What an I/O error while reading an archive says was being done: for an entry's
/// content, its path without the first part (the directory GitHub adds).
pub open spec fn tar_context(step: TarStep) -> Seq<char> {
    match step {
        TarStep::Entries => "reading tarball entries"@,
        TarStep::Entry => "reading tarball entry"@,
        TarStep::EntryPath => "reading entry path"@,
        TarStep::EntryContent(p) => "reading tarball entry "@ + p@.skip(first_index(p@, '/') + 1),
    }
}

/// The text `tar_context` states.
fn tar_context_of(step: &TarStep) -> (r: String)
    ensures
        r@ == tar_context(*step),
{
    match step {
        TarStep::Entries => "reading tarball entries".to_owned(),
        TarStep::Entry => "reading tarball entry".to_owned(),
        TarStep::EntryPath => "reading entry path".to_owned(),
        TarStep::EntryContent(p) => {
            let v = chars_of(p.as_str());
            let start = match find_char(&v, 0, v.len(), '/') {
                Some(k) => {
                    proof { lemma_first_index_is(v@, '/', k as int); }
                    k + 1
                },
                None => {
                    assert(first_index(v@, '/') == -1);
                    0
                },
            };
            let rest = sub_vec(&v, start, v.len());
            assert(rest@ =~= p@.skip(first_index(p@, '/') + 1));
            let mut r = "reading tarball entry ".to_owned();
            r.append(string_of_all(&rest).as_str());
            r
        },
    }
}

/// A text without its trailing `/`s.
pub open spec fn trim_end_slashes(s: Seq<char>) -> Seq<char>
    decreases s.len(),
{
    if s.len() > 0 && s.last() == '/' {
        trim_end_slashes(s.drop_last())
    } else {
        s
    }
}

/// A text without its leading `/`s.
pub open spec fn trim_start_slashes(s: Seq<char>) -> Seq<char>
    decreases s.len(),
{
    if s.len() > 0 && s[0] == '/' {
        trim_start_slashes(s.drop_first())
    } else {
        s
    }
}

/// The last `/`-separated part of a path.
pub open spec fn last_segment(s: Seq<char>) -> Seq<char> {
    s.skip(last_index(s, '/') + 1)
}

/// The path `s` lies under the directory `prefix`: it begins with it, and it ends
/// there or a `/` follows (any path lies under the empty prefix).
pub open spec fn under_dir(s: Seq<char>, prefix: Seq<char>) -> bool {
    has_prefix(s, prefix) && (prefix.len() == 0 || s.len() == prefix.len() || s[prefix.len() as int] == '/')
}

/// The file that an archive entry gives for a directory dependency, if any. The
/// first part of the entry's path (the `owner-repo-sha/` directory GitHub adds) is
/// left out; what remains must lie under the dependency's path (its trailing `/`s
/// left out: it is that path, or a `/` follows it) and not be a directory; the file's path is what follows, its leading
/// `/`s left out, and must not be empty; where a filter is given, the file's name
/// (its last part) must be in it.
pub open spec fn selected_file(e: TarEntryView, prefix: Seq<char>, filter: Option<Seq<Seq<char>>>) -> Option<(Seq<char>, Seq<u8>)> {
    let k = first_index(e.0, '/');
    if k < 0 {
        None
    } else {
        let stripped = e.0.skip(k + 1);
        if !under_dir(stripped, prefix) || e.1 {
            None
        } else {
            let relative = trim_start_slashes(stripped.skip(prefix.len() as int));
            if relative.len() == 0 {
                None
            } else if filter matches Some(f) && !f.contains(last_segment(relative)) {
                None
            } else {
                Some((relative, e.2))
            }
        }
    }
}

/// The files that archive entries give for a directory dependency, in archive order.
pub open spec fn selected_files(es: Seq<TarEntryView>, prefix: Seq<char>, filter: Option<Seq<Seq<char>>>) -> Seq<(Seq<char>, Seq<u8>)>
    decreases es.len(),
{
    if es.len() == 0 {
        seq![]
    } else {
        let rest = selected_files(es.drop_last(), prefix, filter);
        match selected_file(es.last(), prefix, filter) {
            Some(f) => rest.push(f),
            None => rest,
        }
    }
}

/// The texts of the files of a directory.
pub open spec fn dir_files_view(s: Seq<(String, Vec<u8>)>) -> Seq<(Seq<char>, Seq<u8>)> {
    s.map_values(|f: (String, Vec<u8>)| (f.0@, f.1@))
}

proof fn lemma_first_index_is(s: Seq<char>, c: char, i: int)
    requires
        0 <= i < s.len(),
        s[i] == c,
        forall|j: int| 0 <= j < i ==> s[j] != c,
    ensures
        first_index(s, c) == i,
{
    let k = first_index(s, c);
    assert(0 <= k < s.len() && s[k] == c && forall|j: int| 0 <= j < k ==> s[j] != c);
    if k < i {
        assert(s[k] != c);
    }
    if i < k {
        assert(s[i] != c);
    }
}

proof fn lemma_last_index_is(s: Seq<char>, c: char, i: int)
    requires
        0 <= i < s.len(),
        s[i] == c,
        forall|j: int| i < j < s.len() ==> s[j] != c,
    ensures
        last_index(s, c) == i,
{
    let k = last_index(s, c);
    assert(0 <= k < s.len() && s[k] == c && forall|j: int| k < j < s.len() ==> s[j] != c);
    if k < i {
        assert(s[i] != c);
    }
    if i < k {
        assert(s[k] != c);
    }
}

/// The length of a text once its trailing `/`s are left out.
fn trimmed_end_len(v: &Vec<char>) -> (q: usize)
    ensures
        q <= v@.len(),
        v@.take(q as int) == trim_end_slashes(v@),
{
    let mut q = v.len();
    assert(v@.take(q as int) =~= v@);
    while q > 0 && v[q - 1] == '/'
        invariant
            q <= v@.len(),
            trim_end_slashes(v@.take(q as int)) == trim_end_slashes(v@),
        decreases q,
    {
        assert(v@.take(q as int).drop_last() =~= v@.take(q - 1));
        q = q - 1;
    }
    q
}

/// The start of `v[lo..]` once its leading `/`s are left out.
fn trimmed_start(v: &Vec<char>, lo: usize) -> (r: usize)
    requires
        lo <= v@.len(),
    ensures
        lo <= r <= v@.len(),
        v@.skip(r as int) == trim_start_slashes(v@.skip(lo as int)),
{
    let mut r = lo;
    while r < v.len() && v[r] == '/'
        invariant
            lo <= r <= v@.len(),
            trim_start_slashes(v@.skip(r as int)) == trim_start_slashes(v@.skip(lo as int)),
        decreases v@.len() - r,
    {
        assert(v@.skip(r as int).drop_first() =~= v@.skip(r + 1));
        r = r + 1;
    }
    r
}

/// The last `/`-separated part of a path.
fn last_segment_of(v: &Vec<char>) -> (r: Vec<char>)
    ensures
        r@ == last_segment(v@),
{
    let n = v.len();
    match rfind_char(v, '/') {
        Some(i) => {
            proof { lemma_last_index_is(v@, '/', i as int); }
            let r = sub_vec(v, i + 1, n);
            assert(r@ =~= v@.skip(i + 1));
            r
        },
        None => {
            let r = sub_vec(v, 0, v.len());
            assert(r@ =~= v@.skip(0));
            r
        },
    }
}

/// Whether the name is one of the filter's names.
fn filter_contains(filter: &[String], name: &Vec<char>) -> (r: bool)
    ensures
        r == filter@.map_values(|s: String| s@).contains(name@),
{
    let ghost names = filter@.map_values(|s: String| s@);
    let mut i: usize = 0;
    while i < filter.len()
        invariant
            i <= filter@.len(),
            names == filter@.map_values(|s: String| s@),
            forall|j: int| 0 <= j < i ==> names[j] != name@,
        decreases filter@.len() - i,
    {
        let f = chars_of(filter[i].as_str());
        if vec_eq(&f, name) {
            assert(names[i as int] == name@);
            return true;
        }
        i = i + 1;
    }
    false
}

/// The file that an archive entry gives, as `selected_file` states it.
fn select_one(e: &TarEntry, prefix: &Vec<char>, filter: Option<&[String]>) -> (r: Option<(String, Vec<u8>)>)
    ensures
        match r {
            None => selected_file(e@, prefix@, match filter { Some(f) => Some(f@.map_values(|s: String| s@)), None => None }) is None,
            Some(x) => selected_file(e@, prefix@, match filter { Some(f) => Some(f@.map_values(|s: String| s@)), None => None }) == Some((x.0@, x.1@)),
        },
{
    let ev = chars_of(e.path.as_str());
    let k = match find_char(&ev, 0, ev.len(), '/') {
        Some(k) => k,
        None => {
            assert(first_index(ev@, '/') == -1);
            return None;
        },
    };
    proof { lemma_first_index_is(ev@, '/', k as int); }
    let ghost stripped = ev@.skip(k + 1);
    assert(ev@.subrange(k + 1, ev@.len() as int) =~= stripped);
    if !starts_with_at(&ev, k + 1, ev.len(), prefix) || e.is_dir {
        return None;
    }
    let end = k + 1 + prefix.len();
    if !(prefix.len() == 0 || end == ev.len() || ev[end] == '/') {
        return None;
    }
    let rs = trimmed_start(&ev, k + 1 + prefix.len());
    assert(stripped.skip(prefix@.len() as int) =~= ev@.skip(k + 1 + prefix@.len()));
    let relative = sub_vec(&ev, rs, ev.len());
    assert(relative@ =~= ev@.skip(rs as int));
    if relative.len() == 0 {
        return None;
    }
    match filter {
        Some(f) => {
            let name = last_segment_of(&relative);
            if !filter_contains(f, &name) {
                return None;
            }
        },
        None => {},
    }
    let content = e.content.clone();
    assert(content@ =~= e.content@);
    Some((string_of_all(&relative), content))
}

/// The files of a directory dependency from the repository's tarball: every file
/// that `selected_files` selects, in archive order. A tarball that cannot be read
/// is an I/O error.
pub fn select_directory_files(archive: &[u8], path: &str, filter: Option<&[String]>) -> (r: Result<Vec<(String, Vec<u8>)>, GraftError>)
    ensures
        r is Ok <==> tar_gz_listing(archive@) is Some,
        r matches Ok(files) ==> dir_files_view(files@) == selected_files(
            tar_gz_listing(archive@).unwrap(),
            trim_end_slashes(path@),
            match filter { Some(f) => Some(f@.map_values(|s: String| s@)), None => None },
        ),
        r matches Err(e) ==> e is Io,
        r matches Err(GraftError::Io { context, .. }) ==> exists|step: TarStep| context@ == tar_context(step),
{
    let entries = match tar_gz_entries(archive) {
        Ok(v) => v,
        Err((step, source)) => {
            return Err(GraftError::Io { context: tar_context_of(&step), source });
        },
    };
    Ok(select_from_listing(entries.as_slice(), path, filter))
}

/// The files of a directory dependency among the entries of a repository's
/// tarball: every file that `selected_files` selects, in archive order.
pub fn select_from_listing(entries: &[TarEntry], path: &str, filter: Option<&[String]>) -> (r: Vec<(String, Vec<u8>)>)
    ensures
        dir_files_view(r@) == selected_files(
            entries@.map_values(|e: TarEntry| e@),
            trim_end_slashes(path@),
            match filter { Some(f) => Some(f@.map_values(|s: String| s@)), None => None },
        ),
{
    let ghost es = entries@.map_values(|e: TarEntry| e@);
    let ghost fl = match filter { Some(f) => Some(f@.map_values(|s: String| s@)), None => None };
    let pv = chars_of(path);
    let q = trimmed_end_len(&pv);
    let prefix = sub_vec(&pv, 0, q);
    assert(prefix@ =~= pv@.take(q as int));
    let mut out: Vec<(String, Vec<u8>)> = Vec::new();
    let mut i: usize = 0;
    while i < entries.len()
        invariant
            i <= entries@.len(),
            es == entries@.map_values(|e: TarEntry| e@),
            fl == match filter { Some(f) => Some(f@.map_values(|s: String| s@)), None => None },
            prefix@ == trim_end_slashes(path@),
            dir_files_view(out@) == selected_files(es.take(i as int), prefix@, fl),
        decreases entries@.len() - i,
    {
        let picked = select_one(&entries[i], &prefix, filter);
        let ghost old_out = out@;
        proof {
            assert(es.take(i + 1).drop_last() =~= es.take(i as int));
            assert(es.take(i + 1).last() == entries@[i as int]@);
        }
        match picked {
            Some(x) => {
                out.push(x);
                assert(dir_files_view(out@) =~= dir_files_view(old_out).push((x.0@, x.1@)));
            },
            None => {},
        }
        i = i + 1;
    }
    assert(es.take(entries@.len() as int) =~= es);
    out
}

} // verus!
