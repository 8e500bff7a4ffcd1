use vstd::prelude::*;
use vstd::multiset::Multiset;
use vstd::utf8::encode_utf8;

use crate::text::{
    chars_of, compare_text, lemma_text_order_antisymmetric, lemma_text_order_transitive, push_char, text_order,
};

verus! {

/// The SHA-256 digest of some bytes, as `sha2::Sha256` computes it.
pub uninterp spec fn sha256_digest(data: Seq<u8>) -> Seq<u8>;

/// `sha2::Sha256::digest`: the 32-byte SHA-256 digest of the input. What the digest
/// is is named by `sha256_digest`; its length is the fixed output size of SHA-256.
#[verifier::external_body]
fn sha256(data: &[u8]) -> (r: Vec<u8>)
    ensures
        r@ == sha256_digest(data@),
        r@.len() == 32,
{
    <sha2::Sha256 as sha2::Digest>::digest(data).to_vec()
}

/// The lowercase hexadecimal digit of a value below 16.
pub open spec fn hex_digit(n: u8) -> char {
    seq!['0', '1', '2', '3', '4', '5', '6', '7', '8', '9', 'a', 'b', 'c', 'd', 'e', 'f'][n as int]
}

/// Bytes as lowercase hexadecimal text: two digits per byte, the high half first.
pub open spec fn hex_text(bytes: Seq<u8>) -> Seq<char>
    decreases bytes.len(),
{
    if bytes.len() == 0 {
        seq![]
    } else {
        hex_text(bytes.drop_last()) + seq![hex_digit(bytes.last() / 16), hex_digit(bytes.last() % 16)]
    }
}

/// `hex::encode`: the bytes as lowercase hexadecimal text, two digits per byte, the
/// high half of each byte first.
#[verifier::external_body]
fn hex_encode(bytes: &[u8]) -> (r: String)
    ensures
        r@ == hex_text(bytes@),
{
    hex::encode(bytes)
}

proof fn lemma_hex_text_len(bytes: Seq<u8>)
    ensures
        hex_text(bytes).len() == 2 * bytes.len(),
    decreases bytes.len(),
{
    if bytes.len() > 0 {
        lemma_hex_text_len(bytes.drop_last());
    }
}

/// The prefix of every checksum.
pub open spec fn sha256_prefix() -> Seq<char> {
    seq!['s', 'h', 'a', '2', '5', '6', ':']
}

/// The checksum of some bytes: `sha256:` and the hex digest.
pub open spec fn checksum_text(data: Seq<u8>) -> Seq<char> {
    sha256_prefix() + hex_text(sha256_digest(data))
}

/// Compute SHA-256 checksum of raw bytes. Returns "sha256:{hex}".
pub fn checksum_bytes(content: &[u8]) -> (r: String)
    ensures
        r@ == checksum_text(content@),
        r@.len() == 7 + 64,
{
    let digest = sha256(content);
    proof { lemma_hex_text_len(digest@); }
    let hex = hex_encode(digest.as_slice());
    let mut r = String::new();
    push_char(&mut r, 's');
    push_char(&mut r, 'h');
    push_char(&mut r, 'a');
    push_char(&mut r, '2');
    push_char(&mut r, '5');
    push_char(&mut r, '6');
    push_char(&mut r, ':');
    r.append(hex.as_str());
    assert(r@ =~= checksum_text(content@));
    r
}

/// A file of a directory: its path and its content.
pub type FileView = (Seq<char>, Seq<u8>);

/// The texts of a list of files.
pub open spec fn files_view(s: Seq<(String, Vec<u8>)>) -> Seq<FileView> {
    s.map_values(|f: (String, Vec<u8>)| (f.0@, f.1@))
}

/// `x` put into `s` before the first file whose path comes after its own.
pub open spec fn insert_by_path(s: Seq<FileView>, x: FileView) -> Seq<FileView>
    decreases s.len(),
{
    if s.len() == 0 {
        seq![x]
    } else if text_order(s[0].0, x.0) == 1 {
        seq![x] + s
    } else {
        seq![s[0]] + insert_by_path(s.drop_first(), x)
    }
}

/// Files sorted by path, files with equal paths kept in their order.
pub open spec fn sort_by_path(s: Seq<FileView>) -> Seq<FileView>
    decreases s.len(),
{
    if s.len() == 0 {
        seq![]
    } else {
        insert_by_path(sort_by_path(s.drop_last()), s.last())
    }
}

/// The hex digests of the files' contents, one after another.
pub open spec fn digests_text(s: Seq<FileView>) -> Seq<char>
    decreases s.len(),
{
    if s.len() == 0 {
        seq![]
    } else {
        digests_text(s.drop_last()) + hex_text(sha256_digest(s.last().1))
    }
}

/// The checksum of a directory: the checksum of the hex digests of its files'
/// contents, taken in path order.
pub open spec fn directory_checksum_text(files: Seq<FileView>) -> Seq<char> {
    checksum_text(encode_utf8(digests_text(sort_by_path(files))))
}

proof fn lemma_insert_by_path_split(s: Seq<FileView>, x: FileView, k: int)
    requires
        0 <= k <= s.len(),
        forall|j: int| 0 <= j < k ==> text_order(#[trigger] s[j].0, x.0) <= 0,
    ensures
        insert_by_path(s, x) == s.take(k) + insert_by_path(s.skip(k), x),
    decreases k,
{
    if k > 0 {
        assert(s.skip(1) =~= s.drop_first());
        lemma_insert_by_path_split(s.drop_first(), x, k - 1);
        assert(s.drop_first().take(k - 1) + insert_by_path(s.drop_first().skip(k - 1), x) == insert_by_path(
            s.drop_first(),
            x,
        ));
        assert(s.drop_first().skip(k - 1) =~= s.skip(k));
        assert(s.take(k) =~= seq![s[0]] + s.drop_first().take(k - 1));
    } else {
        assert(s.take(0) =~= Seq::<FileView>::empty());
        assert(s.skip(0) =~= s);
    }
}

/// Compute deterministic checksum for a directory.
/// Sort files by path, compute each SHA-256, concatenate hex hashes, hash the result.
pub fn checksum_directory(files: &[(String, Vec<u8>)]) -> (r: String)
    ensures
        r@ == directory_checksum_text(files_view(files@)),
{
    // Sort by path (stable), tracking the paths as characters.
    let ghost fv = files_view(files@);
    let mut sorted: Vec<usize> = Vec::new();
    let mut paths: Vec<Vec<char>> = Vec::new();
    let mut i: usize = 0;
    while i < files.len()
        invariant
            i <= files@.len(),
            fv == files_view(files@),
            sorted@.len() == i,
            paths@.len() == i,
            forall|k: int| 0 <= k < i ==> (#[trigger] sorted@[k]) < files@.len(),
            forall|k: int| 0 <= k < i ==> (#[trigger] paths@[k])@ == fv[sorted@[k] as int].0,
            sorted@.map_values(|j: usize| fv[j as int]) == sort_by_path(fv.take(i as int)),
        decreases files@.len() - i,
    {
        let p = chars_of(files[i].0.as_str());
        let ghost x = fv[i as int];
        let ghost cur = sorted@.map_values(|j: usize| fv[j as int]);
        let mut k: usize = 0;
        while k < sorted.len() && compare_text(&paths[k], &p) != 1
            invariant
                k <= sorted@.len(),
                sorted@.len() == paths@.len(),
                cur == sorted@.map_values(|j: usize| fv[j as int]),
                forall|m: int| 0 <= m < sorted@.len() ==> (#[trigger] paths@[m])@ == cur[m].0,
                p@ == x.0,
                forall|m: int| 0 <= m < k ==> text_order(#[trigger] cur[m].0, x.0) <= 0,
            decreases sorted@.len() - k,
        {
            proof { lemma_text_order_antisymmetric(cur[k as int].0, x.0); }
            k = k + 1;
        }
        proof {
            lemma_insert_by_path_split(cur, x, k as int);
            if k < cur.len() {
                assert(text_order(cur[k as int].0, x.0) == 1);
                assert(cur.skip(k as int)[0] == cur[k as int]);
                assert(insert_by_path(cur.skip(k as int), x) == seq![x] + cur.skip(k as int));
            } else {
                assert(cur.skip(k as int) =~= Seq::<FileView>::empty());
            }
            assert(fv.take(i + 1).drop_last() =~= fv.take(i as int));
            assert(fv.take(i + 1).last() == x);
        }
        let ghost old_sorted = sorted@;
        let ghost old_paths = paths@;
        sorted.insert(k, i);
        paths.insert(k, p);
        proof {
            assert(sorted@.map_values(|j: usize| fv[j as int]) =~= cur.take(k as int) + (seq![x] + cur.skip(
                k as int,
            )));
            assert forall|m: int| 0 <= m < i + 1 implies (#[trigger] paths@[m])@ == fv[sorted@[m] as int].0 by {
                if m < k {
                    assert(paths@[m] == old_paths[m] && sorted@[m] == old_sorted[m]);
                } else if m > k {
                    assert(paths@[m] == old_paths[m - 1] && sorted@[m] == old_sorted[m - 1]);
                }
            }
            assert forall|m: int| 0 <= m < i + 1 implies (#[trigger] sorted@[m]) < files@.len() by {
                if m < k {
                    assert(sorted@[m] == old_sorted[m]);
                } else if m > k {
                    assert(sorted@[m] == old_sorted[m - 1]);
                }
            }
        }
        i = i + 1;
    }
    assert(fv.take(files@.len() as int) =~= fv);
    let ghost order = sort_by_path(fv);
    // Concatenate the hex digests in that order.
    let mut combined = String::new();
    let mut k: usize = 0;
    while k < sorted.len()
        invariant
            k <= sorted@.len(),
            fv == files_view(files@),
            forall|m: int| 0 <= m < sorted@.len() ==> (#[trigger] sorted@[m]) < files@.len(),
            sorted@.map_values(|j: usize| fv[j as int]) == order,
            combined@ == digests_text(order.take(k as int)),
        decreases sorted@.len() - k,
    {
        let idx = sorted[k];
        let digest = sha256(files[idx].1.as_slice());
        let hex = hex_encode(digest.as_slice());
        combined.append(hex.as_str());
        proof {
            assert(order.take(k + 1).drop_last() =~= order.take(k as int));
            assert(order.take(k + 1).last() == fv[idx as int]);
            assert(fv[idx as int].1 == files@[idx as int].1@);
        }
        k = k + 1;
    }
    assert(order.take(sorted@.len() as int) =~= order);
    checksum_bytes(combined.as_str().as_bytes())
}

/// The files are in path order.
pub open spec fn in_path_order(s: Seq<FileView>) -> bool {
    forall|i: int, j: int| 0 <= i < j < s.len() ==> text_order(s[i].0, s[j].0) <= 0
}

/// No two files share a path.
pub open spec fn paths_distinct(s: Seq<FileView>) -> bool {
    forall|i: int, j: int| 0 <= i < j < s.len() ==> s[i].0 != s[j].0
}

/// Each file of the multiset occurs once, and no two of its files share a path.
pub open spec fn unique_by_path(m: Multiset<FileView>) -> bool {
    forall|a: FileView, b: FileView| #[trigger] m.count(a) > 0 && #[trigger] m.count(b) > 0 && a.0 == b.0 ==> a == b
        && m.count(a) == 1
}

proof fn lemma_insert_by_path_multiset(s: Seq<FileView>, x: FileView)
    ensures
        insert_by_path(s, x).to_multiset() == s.to_multiset().insert(x),
    decreases s.len(),
{
    broadcast use vstd::seq_lib::group_to_multiset_ensures;

    if s.len() == 0 {
        assert(insert_by_path(s, x) =~= seq![x]);
        assert(seq![x] =~= Seq::<FileView>::empty().push(x));
        vstd::seq_lib::to_multiset_build(Seq::<FileView>::empty(), x);
    } else if text_order(s[0].0, x.0) == 1 {
        assert(seq![x] + s =~= s.insert(0, x));
        vstd::seq_lib::to_multiset_insert(s, 0, x);
    } else {
        lemma_insert_by_path_multiset(s.drop_first(), x);
        let t = insert_by_path(s.drop_first(), x);
        assert(seq![s[0]] + t =~= t.insert(0, s[0]));
        vstd::seq_lib::to_multiset_insert(t, 0, s[0]);
        assert(s.drop_first().insert(0, s[0]) =~= s);
        vstd::seq_lib::to_multiset_insert(s.drop_first(), 0, s[0]);
        assert(s.to_multiset().insert(x) =~= s.drop_first().to_multiset().insert(x).insert(s[0]));
    }
}

proof fn lemma_sort_by_path_multiset(s: Seq<FileView>)
    ensures
        sort_by_path(s).to_multiset() == s.to_multiset(),
    decreases s.len(),
{
    if s.len() > 0 {
        lemma_sort_by_path_multiset(s.drop_last());
        lemma_insert_by_path_multiset(sort_by_path(s.drop_last()), s.last());
        assert(s.drop_last().push(s.last()) =~= s);
        vstd::seq_lib::to_multiset_build(s.drop_last(), s.last());
    } else {
        assert(sort_by_path(s) =~= s);
    }
}

proof fn lemma_member_of(s: Seq<FileView>, y: FileView) -> (k: int)
    requires
        s.to_multiset().count(y) > 0,
    ensures
        0 <= k < s.len(),
        s[k] == y,
{
    vstd::seq_lib::to_multiset_contains(s, y);
    choose|k: int| 0 <= k < s.len() && s[k] == y
}

proof fn lemma_count_of_member(s: Seq<FileView>, k: int)
    requires
        0 <= k < s.len(),
    ensures
        s.to_multiset().count(s[k]) > 0,
{
    vstd::seq_lib::to_multiset_contains(s, s[k]);
}

proof fn lemma_insert_by_path_ordered(s: Seq<FileView>, x: FileView)
    requires
        in_path_order(s),
    ensures
        in_path_order(insert_by_path(s, x)),
    decreases s.len(),
{
    if s.len() == 0 {
    } else if text_order(s[0].0, x.0) == 1 {
        let t = seq![x] + s;
        lemma_text_order_antisymmetric(s[0].0, x.0);
        assert forall|i: int, j: int| 0 <= i < j < t.len() implies text_order(t[i].0, t[j].0) <= 0 by {
            if i == 0 {
                if j > 1 {
                    lemma_text_order_transitive(x.0, s[0].0, s[j - 1].0);
                }
            } else {
                assert(t[i] == s[i - 1] && t[j] == s[j - 1]);
            }
        }
    } else {
        lemma_text_order_antisymmetric(s[0].0, x.0);
        let rest = s.drop_first();
        lemma_insert_by_path_ordered(rest, x);
        let u = insert_by_path(rest, x);
        let t = seq![s[0]] + u;
        lemma_insert_by_path_multiset(rest, x);
        assert forall|i: int, j: int| 0 <= i < j < t.len() implies text_order(t[i].0, t[j].0) <= 0 by {
            if i == 0 {
                let y = u[j - 1];
                lemma_count_of_member(u, j - 1);
                if y != x {
                    assert(rest.to_multiset().count(y) > 0);
                    let k = lemma_member_of(rest, y);
                    assert(s[k + 1] == y);
                }
            } else {
                assert(t[i] == u[i - 1] && t[j] == u[j - 1]);
            }
        }
    }
}

proof fn lemma_sort_by_path_ordered(s: Seq<FileView>)
    ensures
        in_path_order(sort_by_path(s)),
    decreases s.len(),
{
    if s.len() > 0 {
        lemma_sort_by_path_ordered(s.drop_last());
        lemma_insert_by_path_ordered(sort_by_path(s.drop_last()), s.last());
    }
}

proof fn lemma_distinct_paths_unique(s: Seq<FileView>)
    requires
        paths_distinct(s),
    ensures
        unique_by_path(s.to_multiset()),
    decreases s.len(),
{
    broadcast use vstd::multiset::group_multiset_axioms;

    if s.len() == 0 {
        assert forall|a: FileView| s.to_multiset().count(a) == 0 by {
            vstd::seq_lib::to_multiset_contains(s, a);
        }
    } else {
        let p = s.drop_last();
        let z = s.last();
        assert forall|i: int, j: int| 0 <= i < j < p.len() implies p[i].0 != p[j].0 by {
            assert(p[i] == s[i] && p[j] == s[j]);
        }
        lemma_distinct_paths_unique(p);
        assert(p.push(z) =~= s);
        vstd::seq_lib::to_multiset_build(p, z);
        let m = s.to_multiset();
        let mp = p.to_multiset();
        assert forall|y: FileView| #[trigger] mp.count(y) > 0 implies y.0 != z.0 by {
            let k = lemma_member_of(p, y);
            assert(s[k] == y);
        }
        assert forall|a: FileView, b: FileView| #[trigger] m.count(a) > 0 && #[trigger] m.count(b) > 0 && a.0 == b.0 implies a == b
            && m.count(a) == 1 by {
            if a == z {
                assert(mp.count(z) == 0);
                if b != z {
                    assert(mp.count(b) > 0);
                }
            } else {
                assert(mp.count(a) > 0);
                if b == z {
                } else {
                    assert(mp.count(b) > 0);
                }
            }
        }
    }
}

proof fn lemma_ordered_unique_equal(a: Seq<FileView>, b: Seq<FileView>)
    requires
        in_path_order(a),
        in_path_order(b),
        a.to_multiset() == b.to_multiset(),
        unique_by_path(a.to_multiset()),
    ensures
        a == b,
    decreases a.len(),
{
    broadcast use vstd::multiset::group_multiset_axioms;

    vstd::seq_lib::to_multiset_len(a);
    vstd::seq_lib::to_multiset_len(b);
    if a.len() == 0 {
        assert(a =~= b);
    } else {
        let m = a.to_multiset();
        lemma_count_of_member(a, 0);
        lemma_count_of_member(b, 0);
        let kb = lemma_member_of(b, a[0]);
        let ka = lemma_member_of(a, b[0]);
        if kb > 0 {
            assert(text_order(b[0].0, b[kb].0) <= 0);
        }
        if ka > 0 {
            assert(text_order(a[0].0, a[ka].0) <= 0);
        }
        lemma_text_order_antisymmetric(a[0].0, b[0].0);
        assert(a[0].0 == b[0].0);
        assert(a[0] == b[0]);
        vstd::seq_lib::to_multiset_remove(a, 0);
        vstd::seq_lib::to_multiset_remove(b, 0);
        assert(a.remove(0) =~= a.drop_first());
        assert(b.remove(0) =~= b.drop_first());
        let ra = a.drop_first();
        let rb = b.drop_first();
        assert forall|i: int, j: int| 0 <= i < j < ra.len() implies text_order(ra[i].0, ra[j].0) <= 0 by {
            assert(ra[i] == a[i + 1] && ra[j] == a[j + 1]);
        }
        assert forall|i: int, j: int| 0 <= i < j < rb.len() implies text_order(rb[i].0, rb[j].0) <= 0 by {
            assert(rb[i] == b[i + 1] && rb[j] == b[j + 1]);
        }
        let mr = ra.to_multiset();
        assert forall|x: FileView, y: FileView| #[trigger] mr.count(x) > 0 && #[trigger] mr.count(y) > 0 && x.0 == y.0 implies x
            == y && mr.count(x) == 1 by {
            assert(m.count(x) > 0 && m.count(y) > 0);
        }
        lemma_ordered_unique_equal(ra, rb);
        assert(a =~= seq![a[0]] + ra);
        assert(b =~= seq![b[0]] + rb);
    }
}

/// The hex digests of files, one per file, in order.
proof fn lemma_digests_are_flattened(s: Seq<FileView>)
    ensures
        digests_text(s) == s.map_values(|f: FileView| hex_text(sha256_digest(f.1))).flatten(),
    decreases s.len(),
{
    if s.len() > 0 {
        lemma_digests_are_flattened(s.drop_last());
        let m = s.drop_last().map_values(|f: FileView| hex_text(sha256_digest(f.1)));
        assert(s.map_values(|f: FileView| hex_text(sha256_digest(f.1))) =~= m.push(hex_text(sha256_digest(s.last().1))));
        m.lemma_flatten_push(hex_text(sha256_digest(s.last().1)));
    } else {
        assert(s.map_values(|f: FileView| hex_text(sha256_digest(f.1))) =~= Seq::<Seq<char>>::empty());
    }
}

/// The checksum of a directory takes every one of its files into account: it is
/// the checksum of the hex digests of ALL its files' contents (an empty file too),
/// one digest per file, taken in path order, that is, in an ordering of the files
/// by path that holds each of them as often as the listing does.
pub proof fn law_directory_checksum_hashes_every_file(files: Seq<FileView>)
    ensures
        exists|sorted: Seq<FileView>|
            #![trigger sorted.to_multiset()]
            sorted.to_multiset() == files.to_multiset() && in_path_order(sorted) && directory_checksum_text(files)
                == checksum_text(encode_utf8(sorted.map_values(|f: FileView| hex_text(sha256_digest(f.1))).flatten())),
{
    let sorted = sort_by_path(files);
    lemma_sort_by_path_multiset(files);
    lemma_sort_by_path_ordered(files);
    lemma_digests_are_flattened(sorted);
    assert(sorted.to_multiset() == files.to_multiset() && in_path_order(sorted));
}

/// The checksum of a directory does not depend on the order in which its files are
/// listed: any two listings of the same files, no two of which share a path, have
/// the same checksum.
pub proof fn law_directory_checksum_order_independent(a: Seq<FileView>, b: Seq<FileView>)
    requires
        a.to_multiset() == b.to_multiset(),
        paths_distinct(a),
    ensures
        directory_checksum_text(a) == directory_checksum_text(b),
{
    lemma_sort_by_path_multiset(a);
    lemma_sort_by_path_multiset(b);
    lemma_sort_by_path_ordered(a);
    lemma_sort_by_path_ordered(b);
    lemma_distinct_paths_unique(a);
    lemma_ordered_unique_equal(sort_by_path(a), sort_by_path(b));
}

} // verus!
