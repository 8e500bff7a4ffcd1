use vstd::prelude::*;

use crate::source::semantic::{compare_semver, parse_semver, semver_parse, semver_precedence, SemVer, SemVerParts};
use crate::text::{
    chars_of, compare_text, is_white_space, ends_with_at, find_char, first_index, has_prefix, has_suffix,
    lemma_text_order_antisymmetric, lemma_text_order_transitive, starts_with_at, string_of_all, sub_vec, text_order,
    trim, trim_bounds, vec_eq,
};

verus! {

/// One line of `git ls-remote --tags` as graft reads it: the tag name, the SHA, and
/// whether the line names the dereferenced commit of an annotated tag (`^{}`).
pub type RefEntry = (Seq<char>, Seq<char>, bool);

/// The lines of a text as `str::lines` splits it: at each `\n`, a `\r` before it
/// dropped, and no empty line after a final `\n`.
pub open spec fn lines(s: Seq<char>) -> Seq<Seq<char>>
    decreases s.len(),
{
    if s.len() == 0 {
        seq![]
    } else {
        let i = first_index(s, '\n');
        if i < 0 || i >= s.len() {
            seq![s]
        } else {
            let line = s.take(i);
            let line = if line.len() > 0 && line.last() == '\r' {
                line.drop_last()
            } else {
                line
            };
            seq![line] + lines(s.skip(i + 1))
        }
    }
}

pub open spec fn refs_tags_prefix() -> Seq<char> {
    seq!['r', 'e', 'f', 's', '/', 't', 'a', 'g', 's', '/']
}

pub open spec fn deref_suffix() -> Seq<char> {
    seq!['^', '{', '}']
}

/// What one line of `git ls-remote --tags` says, if anything. The line (trimmed
/// where `trim_line` is set) is split at its first tab: the SHA before it and the
/// ref name after it, each trimmed. Only `refs/tags/` refs count; a `^{}` suffix
/// marks the dereferenced commit of an annotated tag.
pub open spec fn ref_entry(line: Seq<char>, trim_line: bool) -> Option<RefEntry> {
    let l = if trim_line {
        trim(line)
    } else {
        line
    };
    let t = first_index(l, '\t');
    if t < 0 {
        None
    } else {
        let sha = trim(l.take(t));
        let refname = trim(l.skip(t + 1));
        if !has_prefix(refname, refs_tags_prefix()) {
            None
        } else {
            let tag = refname.skip(10);
            if has_suffix(tag, deref_suffix()) {
                Some((tag.take(tag.len() - 3), sha, true))
            } else {
                Some((tag, sha, false))
            }
        }
    }
}

/// The table after one more line: a dereferenced entry always sets the tag's SHA;
/// a plain entry sets it unless a dereferenced entry for the tag came before.
pub open spec fn tag_step(
    m: Map<Seq<char>, (Seq<char>, bool)>,
    e: Option<RefEntry>,
) -> Map<Seq<char>, (Seq<char>, bool)> {
    match e {
        None => m,
        Some(entry) => {
            if entry.2 {
                m.insert(entry.0, (entry.1, true))
            } else if m.contains_key(entry.0) && m[entry.0].1 {
                m
            } else {
                m.insert(entry.0, (entry.1, false))
            }
        },
    }
}

/// The table of tags after the given lines, each tag with its SHA and whether that
/// SHA came from a dereferenced entry.
pub open spec fn tag_table(ls: Seq<Seq<char>>, trim_line: bool) -> Map<
    Seq<char>,
    (Seq<char>, bool),
>
    decreases ls.len(),
{
    if ls.len() == 0 {
        Map::empty()
    } else {
        tag_step(tag_table(ls.drop_last(), trim_line), ref_entry(ls.last(), trim_line))
    }
}

/// Each tag named in `git ls-remote --tags` output with the SHA that graft takes
/// for it: the dereferenced commit where the output gives one.
pub open spec fn remote_tag_map(output: Seq<char>, trim_line: bool) -> Map<Seq<char>, Seq<char>> {
    let t = tag_table(lines(output), trim_line);
    Map::new(|k: Seq<char>| t.contains_key(k), |k: Seq<char>| t[k].0)
}

/// The pairs name each tag of `m` once, with its SHA, and nothing else.
pub open spec fn pairs_match_map(r: Seq<(String, String)>, m: Map<Seq<char>, Seq<char>>) -> bool {
    &&& forall|i: int, j: int| 0 <= i < j < r.len() ==> r[i].0@ != r[j].0@
    &&& forall|i: int| 0 <= i < r.len() ==> m.contains_key(#[trigger] r[i].0@) && m[r[i].0@] == r[i].1@
    &&& forall|k: Seq<char>| m.contains_key(k) ==> exists|i: int| 0 <= i < r.len() && #[trigger] r[i].0@ == k
}

/// The working table holds each tag of `m` once.
pub open spec fn table_models(
    t: Seq<(Vec<char>, Vec<char>, bool)>,
    m: Map<Seq<char>, (Seq<char>, bool)>,
) -> bool {
    &&& forall|i: int, j: int| 0 <= i < j < t.len() ==> t[i].0@ != t[j].0@
    &&& forall|i: int|
        0 <= i < t.len() ==> m.contains_key(#[trigger] t[i].0@) && m[t[i].0@] == (t[i].1@, t[i].2)
    &&& forall|k: Seq<char>| m.contains_key(k) ==> exists|i: int| 0 <= i < t.len() && #[trigger] t[i].0@ == k
}

proof fn lemma_first_index_is(s: Seq<char>, c: char, i: int)
    requires
        0 <= i < s.len(),
        s[i] == c,
        forall|j: int| 0 <= j < i ==> s[j] != c,
    ensures
        first_index(s, c) == i,
{
    let k = first_index(s, c);
    assert(0 <= k < s.len() && s[k] == c && forall|j: int| 0 <= j < k ==> s[j] != c);
    if k < i {
        assert(s[k] != c);
    }
    if i < k {
        assert(s[i] != c);
    }
}

/// The entry of the line `v[lo..hi]`.
fn line_entry(v: &Vec<char>, lo: usize, hi: usize, trim_line: bool) -> (r: Option<(Vec<char>, Vec<char>, bool)>)
    requires
        lo <= hi <= v@.len(),
    ensures
        match r {
            None => ref_entry(v@.subrange(lo as int, hi as int), trim_line) is None,
            Some(e) => ref_entry(v@.subrange(lo as int, hi as int), trim_line) == Some((e.0@, e.1@, e.2)),
        },
{
    let ghost line = v@.subrange(lo as int, hi as int);
    let (a, b) = if trim_line {
        trim_bounds(v, lo, hi)
    } else {
        (lo, hi)
    };
    let ghost l = v@.subrange(a as int, b as int);
    assert(l == if trim_line { trim(line) } else { line });
    let t = match find_char(v, a, b, '\t') {
        Some(t) => t,
        None => {
            assert(first_index(l, '\t') == -1);
            return None;
        },
    };
    proof { lemma_first_index_is(l, '\t', t - a); }
    let (sa, sb) = trim_bounds(v, a, t);
    let (ra, rb) = trim_bounds(v, t + 1, b);
    assert(l.take(t - a) =~= v@.subrange(a as int, t as int));
    assert(l.skip(t - a + 1) =~= v@.subrange(t + 1, b as int));
    let ghost refname = v@.subrange(ra as int, rb as int);
    let prefix = vec!['r', 'e', 'f', 's', '/', 't', 'a', 'g', 's', '/'];
    assert(prefix@ =~= refs_tags_prefix());
    if !starts_with_at(v, ra, rb, &prefix) {
        assert(v@.subrange(ra as int, rb as int) =~= refname);
        return None;
    }
    let ta = ra + 10;
    let ghost tag = refname.skip(10);
    assert(tag =~= v@.subrange(ta as int, rb as int));
    let suffix = vec!['^', '{', '}'];
    assert(suffix@ =~= deref_suffix());
    let sha = sub_vec(v, sa, sb);
    if ends_with_at(v, ta, rb, &suffix) {
        let name = sub_vec(v, ta, rb - 3);
        assert(name@ =~= tag.take(tag.len() - 3));
        Some((name, sha, true))
    } else {
        let name = sub_vec(v, ta, rb);
        Some((name, sha, false))
    }
}

/// The position of `name` in the table, if it is there.
fn find_name(table: &Vec<(Vec<char>, Vec<char>, bool)>, name: &Vec<char>) -> (r: Option<usize>)
    ensures
        r matches Some(i) ==> i < table@.len() && table@[i as int].0@ == name@,
        r is None ==> forall|j: int| 0 <= j < table@.len() ==> table@[j].0@ != name@,
{
    let mut i: usize = 0;
    while i < table.len()
        invariant
            i <= table@.len(),
            forall|j: int| 0 <= j < i ==> table@[j].0@ != name@,
        decreases table@.len() - i,
    {
        if vec_eq(&table[i].0, name) {
            return Some(i);
        }
        i = i + 1;
    }
    None
}

/// The table after one more entry.
fn table_step(
    table: &mut Vec<(Vec<char>, Vec<char>, bool)>,
    e: Option<(Vec<char>, Vec<char>, bool)>,
    Ghost(m): Ghost<Map<Seq<char>, (Seq<char>, bool)>>,
)
    requires
        table_models(old(table)@, m),
    ensures
        table_models(
            final(table)@,
            tag_step(m, match e { None => None, Some(x) => Some((x.0@, x.1@, x.2)) }),
        ),
{
    let (name, sha, deref) = match e {
        None => { return; },
        Some(x) => x,
    };
    let ghost m2 = tag_step(m, Some((name@, sha@, deref)));
    let ghost old_t = table@;
    match find_name(table, &name) {
        Some(i) => {
            let old_deref = table[i].2;
            assert(m.contains_key(name@) && m[name@].1 == old_deref);
            if deref || !old_deref {
                table.set(i, (name, sha, deref));
                assert(m2 == m.insert(old_t[i as int].0@, (table@[i as int].1@, deref)));
                assert forall|k: Seq<char>| m2.contains_key(k) implies exists|j: int|
                    0 <= j < table@.len() && #[trigger] table@[j].0@ == k by {
                    let j = choose|j: int| 0 <= j < old_t.len() && #[trigger] old_t[j].0@ == k;
                    assert(table@[j].0@ == k);
                }
                assert forall|j: int| 0 <= j < table@.len() implies m2.contains_key(#[trigger] table@[j].0@)
                    && m2[table@[j].0@] == (table@[j].1@, table@[j].2) by {
                    if j != i {
                        assert(table@[j] == old_t[j]);
                        assert(old_t[j].0@ != old_t[i as int].0@);
                    }
                }
            }
        },
        None => {
            table.push((name, sha, deref));
            let ghost n = old_t.len();
            assert(m2 == m.insert(table@[n as int].0@, (table@[n as int].1@, deref)));
            assert forall|k: Seq<char>| m2.contains_key(k) implies exists|j: int|
                0 <= j < table@.len() && #[trigger] table@[j].0@ == k by {
                if k != table@[n as int].0@ {
                    let j = choose|j: int| 0 <= j < old_t.len() && #[trigger] old_t[j].0@ == k;
                    assert(table@[j].0@ == k);
                } else {
                    assert(table@[n as int].0@ == k);
                }
            }
            assert forall|j: int| 0 <= j < table@.len() implies m2.contains_key(#[trigger] table@[j].0@)
                && m2[table@[j].0@] == (table@[j].1@, table@[j].2) by {
                if j < n {
                    assert(table@[j] == old_t[j]);
                }
            }
        },
    }
}

proof fn lemma_lines_step(s: Seq<char>, i: int)
    requires
        0 <= i < s.len(),
        s[i] == '\n',
        forall|j: int| 0 <= j < i ==> s[j] != '\n',
    ensures
        lines(s) == seq![
            if i > 0 && s[i - 1] == '\r' {
                s.take(i - 1)
            } else {
                s.take(i)
            },
        ] + lines(s.skip(i + 1)),
{
    lemma_first_index_is(s, '\n', i);
    if i > 0 && s[i - 1] == '\r' {
        assert(s.take(i).drop_last() =~= s.take(i - 1));
    }
}

proof fn lemma_lines_last(s: Seq<char>)
    requires
        s.len() > 0,
        forall|j: int| 0 <= j < s.len() ==> s[j] != '\n',
    ensures
        lines(s) == seq![s],
{
}

/// The bounds of the line that starts at `p`, and where the next line starts.
#[verifier::spinoff_prover]
fn next_line(v: &Vec<char>, p: usize) -> (r: (usize, usize, usize))
    requires
        p < v@.len(),
    ensures
        p <= r.0 <= r.1 <= r.2 <= v@.len(),
        p < r.2,
        lines(v@.skip(p as int)) == seq![v@.subrange(r.0 as int, r.1 as int)] + lines(v@.skip(r.2 as int)),
{
    let ghost rest = v@.skip(p as int);
    match find_char(v, p, v.len(), '\n') {
        Some(i) => {
            proof {
                lemma_lines_step(rest, i - p);
                assert(rest.take(i - p) =~= v@.subrange(p as int, i as int));
                assert(rest.skip(i - p + 1) =~= v@.skip(i + 1));
            }
            if i > p && v[i - 1] == '\r' {
                assert(rest.take(i - p - 1) =~= v@.subrange(p as int, i - 1));
                (p, i - 1, i + 1)
            } else {
                (p, i, i + 1)
            }
        },
        None => {
            proof {
                lemma_lines_last(rest);
                assert(rest =~= v@.subrange(p as int, v@.len() as int));
                assert(v@.skip(v@.len() as int) =~= Seq::<char>::empty());
            }
            (p, v.len(), v.len())
        },
    }
}

/// The tags that `git ls-remote --tags` output names, each once, with the SHA graft
/// takes for it. Lines are trimmed first where `trim_lines` is set. In which order
/// the pairs come is not stated.
pub fn collect_tag_refs(output: &str, trim_lines: bool) -> (r: Vec<(String, String)>)
    ensures
        pairs_match_map(r@, remote_tag_map(output@, trim_lines)),
{
    let v = chars_of(output);
    let mut table: Vec<(Vec<char>, Vec<char>, bool)> = Vec::new();
    let mut p: usize = 0;
    let ghost mut done: Seq<Seq<char>> = seq![];
    assert(v@.skip(0) =~= v@);
    while p < v.len()
        invariant
            p <= v@.len(),
            lines(v@) == done + lines(v@.skip(p as int)),
            table_models(table@, tag_table(done, trim_lines)),
        decreases v@.len() - p,
    {
        let (lo, hi, next) = next_line(&v, p);
        let ghost line = v@.subrange(lo as int, hi as int);
        let e = line_entry(&v, lo, hi, trim_lines);
        proof {
            assert((done.push(line)).drop_last() =~= done);
            assert((done.push(line)).last() == line);
        }
        table_step(&mut table, e, Ghost(tag_table(done, trim_lines)));
        proof {
            done = done.push(line);
            assert(lines(v@) =~= done + lines(v@.skip(next as int)));
        }
        p = next;
    }
    assert(lines(v@.skip(p as int)) =~= Seq::<Seq<char>>::empty()) by {
        assert(v@.skip(p as int).len() == 0);
    }
    assert(done =~= lines(v@));
    let ghost m = tag_table(lines(v@), trim_lines);
    let mut r: Vec<(String, String)> = Vec::new();
    let mut i: usize = 0;
    while i < table.len()
        invariant
            i <= table@.len(),
            table_models(table@, m),
            r@.len() == i,
            forall|j: int| 0 <= j < i ==> (#[trigger] r@[j]).0@ == table@[j].0@ && r@[j].1@ == table@[j].1@,
        decreases table@.len() - i,
    {
        let name = string_of_all(&table[i].0);
        let sha = string_of_all(&table[i].1);
        r.push((name, sha));
        i = i + 1;
    }
    let ghost mm = remote_tag_map(output@, trim_lines);
    assert forall|k: Seq<char>| mm.contains_key(k) implies exists|j: int| 0 <= j < r@.len() && #[trigger] r@[j].0@ == k by {
        let j = choose|j: int| 0 <= j < table@.len() && #[trigger] table@[j].0@ == k;
        assert(r@[j].0@ == k);
    }
    assert forall|a: int, b: int| 0 <= a < b < r@.len() implies r@[a].0@ != r@[b].0@ by {
        assert(r@[a].0@ == table@[a].0@);
        assert(r@[b].0@ == table@[b].0@);
    }
    assert forall|j: int| 0 <= j < r@.len() implies mm.contains_key(#[trigger] r@[j].0@) && mm[r@[j].0@] == r@[j].1@ by {
        assert(r@[j].0@ == table@[j].0@);
    }
    r
}

/// Parse `git ls-remote --tags` output into (tag_name, commit_sha) pairs, each
/// tag once. Handles annotated tags: when a `^{}` entry exists, use its SHA and
/// discard the non-dereferenced one. In which order the pairs come is not stated.
pub fn parse_ls_remote_tags(output: &str) -> (r: Vec<(String, String)>)
    ensures
        pairs_match_map(r@, remote_tag_map(output@, true)),
{
    collect_tag_refs(output, true)
}

/// A tag without one leading `v` or `V`.
pub open spec fn strip_v_spec(t: Seq<char>) -> Seq<char> {
    if t.len() > 0 && (t[0] == 'v' || t[0] == 'V') {
        t.drop_first()
    } else {
        t
    }
}

/// The semantic version that a tag names, read after a leading `v` or `V`.
pub open spec fn tag_version(t: Seq<char>) -> Option<SemVerParts> {
    semver_parse(strip_v_spec(t))
}

/// The order in which graft lists tags: semantic versions first, in version order;
/// the other tags after them, in text order. -1, 0 or 1.
pub open spec fn tag_order(a: Seq<char>, b: Seq<char>) -> int {
    match (tag_version(a), tag_version(b)) {
        (Some(x), Some(y)) => semver_precedence(x, y),
        (Some(_), None) => -1,
        (None, Some(_)) => 1,
        (None, None) => text_order(a, b),
    }
}

/// The texts of a (name, SHA) pair.
pub open spec fn pair_view(p: (String, String)) -> (Seq<char>, Seq<char>) {
    (p.0@, p.1@)
}

/// The texts of a list of (name, SHA) pairs.
pub open spec fn pairs_view(s: Seq<(String, String)>) -> Seq<(Seq<char>, Seq<char>)> {
    s.map_values(|p: (String, String)| pair_view(p))
}

/// Each tag of the list comes no later than the next in `tag_order`.
pub open spec fn tags_in_order(s: Seq<(String, String)>) -> bool {
    forall|k: int| 0 <= k < s.len() - 1 ==> tag_order(#[trigger] s[k].0@, s[k + 1].0@) <= 0
}

/// The tag at `s[i]` is newer than `current`: a semantic version above the current
/// one where the current tag is a semantic version, else after it in text order.
pub open spec fn is_newer(tag: Seq<char>, current: Seq<char>) -> bool {
    match tag_version(current) {
        Some(cv) => tag_version(tag) matches Some(tv) && semver_precedence(tv, cv) == 1,
        None => text_order(tag, current) == 1,
    }
}

/// Strip leading 'v' or 'V' for semver parsing.
fn strip_v(tag: &Vec<char>) -> (r: Vec<char>)
    ensures
        r@ == strip_v_spec(tag@),
{
    if tag.len() > 0 && (tag[0] == 'v' || tag[0] == 'V') {
        let r = sub_vec(tag, 1, tag.len());
        assert(r@ =~= tag@.drop_first());
        r
    } else {
        let r = sub_vec(tag, 0, tag.len());
        assert(r@ =~= tag@);
        r
    }
}

/// `key` is what `semver` reads from the tag `name`.
pub open spec fn key_of(key: Option<SemVer>, name: Seq<char>) -> bool {
    match key {
        Some(v) => tag_version(name) == Some(v@),
        None => tag_version(name) is None,
    }
}

/// Parse a tag name as semver, stripping a leading 'v'.
pub fn parse_tag_semver(tag: &Vec<char>) -> (r: Option<SemVer>)
    ensures
        key_of(r, tag@),
{
    let stripped = string_of_all(&strip_v(tag));
    parse_semver(stripped.as_str())
}

/// Where two tags stand in `tag_order`.
fn compare_tags(a: &Option<SemVer>, an: &Vec<char>, b: &Option<SemVer>, bn: &Vec<char>) -> (r: i8)
    requires
        key_of(*a, an@),
        key_of(*b, bn@),
    ensures
        r == tag_order(an@, bn@),
        r == -tag_order(bn@, an@),
        -1 <= r <= 1,
{
    match (a, b) {
        (Some(x), Some(y)) => compare_semver(x, y),
        (Some(_), None) => -1,
        (None, Some(_)) => 1,
        (None, None) => {
            proof { lemma_text_order_antisymmetric(an@, bn@); }
            compare_text(an, bn)
        },
    }
}

/// Inserting the next tag at `k`, after every tag it does not rank below and before
/// the tags it ranks below, keeps the arrangement stable.
proof fn lemma_stable_insert(
    tags: Seq<(String, String)>,
    r: Seq<(String, String)>,
    p: Seq<int>,
    k: int,
    i: int,
    item: (String, String),
    name: Seq<char>,
)
    requires
        0 <= k <= r.len(),
        r.len() == i,
        i < tags.len(),
        stable_arrangement(tags, r, p),
        forall|j: int| 0 <= j < i ==> #[trigger] p[j] < i,
        pair_view(item) == pair_view(tags[i]),
        name == item.0@,
        forall|j: int| k <= j < i ==> tag_order(name, (#[trigger] r[j]).0@) == -1,
    ensures
        stable_arrangement(tags, r.insert(k, item), p.insert(k, i)),
        forall|j: int| 0 <= j < i + 1 ==> #[trigger] p.insert(k, i)[j] < i + 1,
{
    let r2 = r.insert(k, item);
    let p2 = p.insert(k, i);
    assert forall|j: int| 0 <= j < p2.len() implies 0 <= #[trigger] p2[j] < tags.len() && pair_view(r2[j]) == pair_view(tags[p2[j]]) by {
        if j < k {
            assert(p2[j] == p[j] && r2[j] == r[j]);
        } else if j > k {
            assert(p2[j] == p[j - 1] && r2[j] == r[j - 1]);
        }
    }
    assert forall|a: int, b: int| #![trigger p2[a], p2[b]] 0 <= a < b < p2.len() implies p2[a] != p2[b] by {
        if a != k && b != k {
            let a1 = if a < k { a } else { a - 1 };
            let b1 = if b < k { b } else { b - 1 };
            assert(p2[a] == p[a1] && p2[b] == p[b1]);
            assert(p[a1] != p[b1]);
        } else if a == k {
            assert(p2[b] == p[b - 1]);
            assert(p[b - 1] < i);
        } else {
            assert(p2[a] == p[a]);
            assert(p[a] < i);
        }
    }
    assert forall|a: int, b: int|
        #![trigger p2[a], p2[b]]
        0 <= a < b < p2.len() && tag_order(r2[a].0@, r2[b].0@) == 0 implies p2[a] < p2[b] by {
        if a != k && b != k {
            let a1 = if a < k { a } else { a - 1 };
            let b1 = if b < k { b } else { b - 1 };
            assert(p2[a] == p[a1] && p2[b] == p[b1] && r2[a] == r[a1] && r2[b] == r[b1]);
            assert(p[a1] < p[b1]);
        } else if a == k {
            assert(r2[b] == r[b - 1] && r2[a] == item);
            assert(tag_order(name, r[b - 1].0@) == -1);
        } else {
            assert(p2[a] == p[a]);
            assert(p[a] < i);
        }
    }
    assert forall|j: int| 0 <= j < i + 1 implies #[trigger] p2[j] < i + 1 by {
        if j < k {
            assert(p2[j] == p[j]);
        } else if j > k {
            assert(p2[j] == p[j - 1]);
        }
    }
}

/// `r` lists pairs of `tags`, each at most once, at the places `p` gives: `r[k]`
/// is `tags[p[k]]`, and two tags that `tag_order` ranks alike keep their order.
pub open spec fn stable_arrangement(tags: Seq<(String, String)>, r: Seq<(String, String)>, p: Seq<int>) -> bool {
    &&& p.len() == r.len()
    &&& forall|k: int| 0 <= k < p.len() ==> 0 <= #[trigger] p[k] < tags.len() && pair_view(r[k]) == pair_view(tags[p[k]])
    &&& forall|a: int, b: int| #![trigger p[a], p[b]] 0 <= a < b < p.len() ==> p[a] != p[b]
    &&& forall|a: int, b: int|
        #![trigger p[a], p[b]]
        0 <= a < b < p.len() && tag_order(r[a].0@, r[b].0@) == 0 ==> p[a] < p[b]
}

/// Sort tags by semver (strip leading 'v' for parsing).
/// Non-semver tags sort after semver tags, lexicographically among themselves.
/// The sort is stable: tags that rank alike keep the order they came in; a list
/// that is already in tag order comes back as it is, so sorting twice changes
/// nothing more.
pub fn sort_tags(tags: &[(String, String)]) -> (r: Vec<(String, String)>)
    ensures
        r@.len() == tags@.len(),
        pairs_view(r@).to_multiset() == pairs_view(tags@).to_multiset(),
        tags_in_order(r@),
        exists|p: Seq<int>| stable_arrangement(tags@, r@, p),
        tags_in_order(tags@) ==> pairs_view(r@) == pairs_view(tags@),
{
    let mut keys: Vec<Option<SemVer>> = Vec::new();
    let mut i: usize = 0;
    while i < tags.len()
        invariant
            i <= tags@.len(),
            keys@.len() == i,
            forall|j: int| 0 <= j < i ==> key_of(#[trigger] keys@[j], tags@[j].0@),
        decreases tags@.len() - i,
    {
        let name = chars_of(tags[i].0.as_str());
        keys.push(parse_tag_semver(&name));
        i = i + 1;
    }
    sort_parsed_tags(tags, &keys)
}

/// Sort tags whose semantic versions have been read already (`keys[i]` for
/// `tags[i]`), as `sort_tags` states it.
#[verifier::spinoff_prover]
#[verifier::rlimit(60)]
pub fn sort_parsed_tags(tags: &[(String, String)], keys: &Vec<Option<SemVer>>) -> (r: Vec<(String, String)>)
    requires
        keys@.len() == tags@.len(),
        forall|i: int| 0 <= i < tags@.len() ==> key_of(#[trigger] keys@[i], tags@[i].0@),
    ensures
        r@.len() == tags@.len(),
        pairs_view(r@).to_multiset() == pairs_view(tags@).to_multiset(),
        tags_in_order(r@),
        exists|p: Seq<int>| stable_arrangement(tags@, r@, p),
        tags_in_order(tags@) ==> pairs_view(r@) == pairs_view(tags@),
{
    let n = tags.len();
    let mut r: Vec<(String, String)> = Vec::new();
    let mut order: Vec<usize> = Vec::new();
    let mut names: Vec<Vec<char>> = Vec::new();
    let mut i: usize = 0;
    let ghost mut perm: Seq<int> = Seq::empty();
    assert(pairs_view(r@) =~= pairs_view(tags@.take(0)));
    while i < n
        invariant
            n == tags@.len(),
            i <= n,
            r@.len() == i,
            order@.len() == i,
            names@.len() == i,
            keys@.len() == n,
            forall|j: int| 0 <= j < n ==> key_of(#[trigger] keys@[j], tags@[j].0@),
            forall|k: int| 0 <= k < i ==> (#[trigger] names@[k])@ == r@[k].0@ && order@[k] < n && key_of(keys@[order@[k] as int], names@[k]@),
            forall|k: int| 0 <= k < i ==> #[trigger] order@[k] < n,
            pairs_view(r@).to_multiset() == pairs_view(tags@.take(i as int)).to_multiset(),
            tags_in_order(r@),
            stable_arrangement(tags@, r@, perm),
            forall|k: int| 0 <= k < i ==> #[trigger] perm[k] < i,
            tags_in_order(tags@) ==> pairs_view(r@) == pairs_view(tags@.take(i as int)),
        decreases n - i,
    {
        let name = chars_of(tags[i].0.as_str());
        let mut k = i;
        while k > 0 && compare_tags(&keys[order[k - 1]], &names[k - 1], &keys[i], &name) == 1
            invariant
                k <= i,
                r@.len() == i,
                order@.len() == i,
                names@.len() == i,
                i < n,
                keys@.len() == n,
                forall|j: int| 0 <= j < i ==> (#[trigger] names@[j])@ == r@[j].0@ && order@[j] < n && key_of(keys@[order@[j] as int], names@[j]@),
                forall|j: int| 0 <= j < i ==> #[trigger] order@[j] < n,
                key_of(keys@[i as int], name@),
                forall|j: int| k <= j < i ==> tag_order(name@, (#[trigger] r@[j]).0@) == -1,
                k < i ==> tag_order(r@[i - 1].0@, name@) == 1,
            decreases k,
        {
            k = k - 1;
        }
        proof {
            if tags_in_order(tags@) && k < i {
                assert(pairs_view(r@)[i - 1] == pairs_view(tags@.take(i as int))[i - 1]);
                assert(tag_order(tags@[i - 1].0@, tags@[i as int].0@) <= 0);
            }
        }
        let ghost old_r = r@;
        let ghost old_names = names@;
        let ghost old_order = order@;
        let ghost old_perm = perm;
        let item = (tags[i].0.clone(), tags[i].1.clone());
        r.insert(k, item);
        order.insert(k, i);
        names.insert(k, name);
        proof {
            perm = old_perm.insert(k as int, i as int);
            lemma_stable_insert(tags@, old_r, old_perm, k as int, i as int, item, name@);
            assert(r@ == old_r.insert(k as int, item));
            assert(pairs_view(r@) =~= pairs_view(old_r).insert(k as int, pair_view(item)));
            assert(pairs_view(tags@.take(i + 1)) =~= pairs_view(tags@.take(i as int)).push(pair_view(tags@[i as int])));
            vstd::seq_lib::to_multiset_insert(pairs_view(old_r), k as int, pair_view(item));
            vstd::seq_lib::to_multiset_build(pairs_view(tags@.take(i as int)), pair_view(tags@[i as int]));
            if tags_in_order(tags@) {
                assert(k == i);
                assert(pairs_view(r@) =~= pairs_view(tags@.take(i + 1)));
            }
            assert forall|j: int| 0 <= j < i + 1 implies (#[trigger] names@[j])@ == r@[j].0@ && order@[j] < n && key_of(keys@[order@[j] as int], names@[j]@) by {
                if j < k {
                    assert(names@[j] == old_names[j] && order@[j] == old_order[j] && r@[j] == old_r[j]);
                } else if j == k {
                    assert(names@[j] == name && order@[j] == i);
                } else {
                    assert(names@[j] == old_names[j - 1] && order@[j] == old_order[j - 1] && r@[j] == old_r[j - 1]);
                }
            }
            assert forall|j: int| 0 <= j < i + 1 implies #[trigger] order@[j] < n by {
                if j < k {
                    assert(order@[j] == old_order[j]);
                } else if j > k {
                    assert(order@[j] == old_order[j - 1]);
                }
            }
            assert forall|m: int| 0 <= m < r@.len() - 1 implies tag_order(#[trigger] r@[m].0@, r@[m + 1].0@) <= 0 by {
                if m + 1 < k {
                    assert(r@[m] == old_r[m] && r@[m + 1] == old_r[m + 1]);
                } else if m + 1 == k {
                    assert(r@[m] == old_r[m]);
                } else if m == k {
                    assert(r@[m + 1] == old_r[m]);
                } else {
                    assert(r@[m] == old_r[m - 1] && r@[m + 1] == old_r[m]);
                }
            }
        }
        i = i + 1;
    }
    assert(tags@.take(n as int) =~= tags@);
    r
}

/// Some tag of `s` is newer than `current`.
pub open spec fn some_newer(s: Seq<(String, String)>, current: Seq<char>) -> bool {
    exists|i: int| 0 <= i < s.len() && is_newer((#[trigger] s[i]).0@, current)
}

/// Whether the last tag of `s` is kept among the newer tags: for a current version
/// that is a semantic version, once a newer tag has come (the list being sorted, so
/// that any tags after it are newer semantic versions or tags that are none); for
/// any other, where it is newer in text order.
pub open spec fn keeps_last(s: Seq<(String, String)>, current: Seq<char>) -> bool {
    match tag_version(current) {
        Some(_) => some_newer(s, current),
        None => is_newer(s.last().0@, current),
    }
}

/// The pairs of `s` that `find_newer_tags` keeps, in order: for a current version
/// that is a semantic version, every tag from the first newer one on; for any
/// other, the tags after it in text order.
pub open spec fn newer_pairs(s: Seq<(String, String)>, current: Seq<char>) -> Seq<(Seq<char>, Seq<char>)>
    decreases s.len(),
{
    if s.len() == 0 {
        seq![]
    } else {
        let rest = newer_pairs(s.drop_last(), current);
        if keeps_last(s, current) {
            rest.push(pair_view(s.last()))
        } else {
            rest
        }
    }
}

/// Some tag of a list with one more tag is newer exactly when one before it is or
/// the new one is.
proof fn lemma_some_newer_push(s: Seq<(String, String)>, current: Seq<char>)
    requires
        s.len() > 0,
    ensures
        some_newer(s, current) == (some_newer(s.drop_last(), current) || is_newer(s.last().0@, current)),
{
    let rest = s.drop_last();
    if some_newer(rest, current) {
        let i = choose|i: int| 0 <= i < rest.len() && is_newer((#[trigger] rest[i]).0@, current);
        assert(s[i] == rest[i]);
    }
    if some_newer(s, current) && !is_newer(s.last().0@, current) {
        let i = choose|i: int| 0 <= i < s.len() && is_newer((#[trigger] s[i]).0@, current);
        assert(i < s.len() - 1);
        assert(rest[i] == s[i]);
    }
    if is_newer(s.last().0@, current) {
        assert(is_newer(s[s.len() - 1].0@, current));
    }
}

/// The kept tags are not empty exactly when some tag is newer.
pub proof fn lemma_newer_pairs_nonempty(s: Seq<(String, String)>, current: Seq<char>)
    ensures
        newer_pairs(s, current).len() > 0 <==> some_newer(s, current),
    decreases s.len(),
{
    if s.len() > 0 {
        lemma_newer_pairs_nonempty(s.drop_last(), current);
        lemma_some_newer_push(s, current);
    }
}

/// Find tags newer than `current` from a sorted list, as `newer_pairs` states it:
/// for a current semantic version, the tail of the list from the first newer
/// semantic version; for any other current tag, the tags after it in text order.
pub fn find_newer_tags(current: &str, tags: &[(String, String)]) -> (r: Vec<(String, String)>)
    ensures
        pairs_view(r@) == newer_pairs(tags@, current@),
{
    let cur = chars_of(current);
    let current_key = parse_tag_semver(&cur);
    let mut keys: Vec<Option<SemVer>> = Vec::new();
    let mut i: usize = 0;
    while i < tags.len()
        invariant
            i <= tags@.len(),
            keys@.len() == i,
            forall|j: int| 0 <= j < i ==> key_of(#[trigger] keys@[j], tags@[j].0@),
        decreases tags@.len() - i,
    {
        let name = chars_of(tags[i].0.as_str());
        keys.push(parse_tag_semver(&name));
        i = i + 1;
    }
    find_newer_parsed(current, &current_key, tags, &keys)
}

/// Find tags newer than `current` among tags whose semantic versions have been
/// read already (`current_key` for `current`, `keys[i]` for `tags[i]`), as
/// `find_newer_tags` states it.
pub fn find_newer_parsed(
    current: &str,
    current_key: &Option<SemVer>,
    tags: &[(String, String)],
    keys: &Vec<Option<SemVer>>,
) -> (r: Vec<(String, String)>)
    requires
        key_of(*current_key, current@),
        keys@.len() == tags@.len(),
        forall|i: int| 0 <= i < tags@.len() ==> key_of(#[trigger] keys@[i], tags@[i].0@),
    ensures
        pairs_view(r@) == newer_pairs(tags@, current@),
{
    let cur = chars_of(current);
    let n = tags.len();
    let mut r: Vec<(String, String)> = Vec::new();
    let mut i: usize = 0;
    let mut started = false;
    assert(tags@.take(0) =~= Seq::<(String, String)>::empty());
    while i < n
        invariant
            n == tags@.len(),
            i <= n,
            keys@.len() == n,
            forall|j: int| 0 <= j < n ==> key_of(#[trigger] keys@[j], tags@[j].0@),
            key_of(*current_key, cur@),
            cur@ == current@,
            pairs_view(r@) == newer_pairs(tags@.take(i as int), current@),
            started == some_newer(tags@.take(i as int), current@),
        decreases n - i,
    {
        let name = chars_of(tags[i].0.as_str());
        let newer = match current_key {
            Some(cv) => {
                match &keys[i] {
                    Some(tv) => compare_semver(tv, cv) == 1,
                    None => false,
                }
            },
            None => compare_text(&name, &cur) == 1,
        };
        assert(key_of(keys@[i as int], tags@[i as int].0@));
        assert(newer == is_newer(tags@[i as int].0@, current@));
        assert(tags@.take(i + 1).drop_last() =~= tags@.take(i as int));
        assert(tags@.take(i + 1).last() == tags@[i as int]);
        proof { lemma_some_newer_push(tags@.take(i + 1), current@); }
        started = started || newer;
        let keep = match current_key {
            Some(_) => started,
            None => newer,
        };
        if keep {
            let ghost old_r = r@;
            let item = (tags[i].0.clone(), tags[i].1.clone());
            r.push(item);
            assert(pairs_view(r@) =~= pairs_view(old_r).push(pair_view(tags@[i as int])));
        }
        i = i + 1;
    }
    assert(tags@.take(n as int) =~= tags@);
    r
}

/// A text without white space at either end is its own trim.
proof fn lemma_trim_of_trimmed(s: Seq<char>)
    requires
        s.len() > 0 ==> !is_white_space(s[0]) && !is_white_space(s.last()),
    ensures
        trim(s) == s,
{
}

/// A line `<sha>\trefs/tags/<tag>` (the SHA and the tag free of white space) names
/// the tag with exactly that SHA, every character of it, whether the line is
/// trimmed first or not; with `^{}` after the tag it names the dereferenced commit
/// of the annotated tag.
pub proof fn law_tag_line_keeps_its_whole_sha(sha: Seq<char>, tag: Seq<char>, trim_line: bool)
    requires
        sha.len() > 0,
        forall|i: int| 0 <= i < sha.len() ==> !is_white_space(#[trigger] sha[i]),
        forall|i: int| 0 <= i < tag.len() ==> !is_white_space(#[trigger] tag[i]),
        !has_suffix(tag, deref_suffix()),
    ensures
        ref_entry(sha + seq!['\t'] + refs_tags_prefix() + tag, trim_line) == Some((tag, sha, false)),
        ref_entry(sha + seq!['\t'] + refs_tags_prefix() + tag + deref_suffix(), trim_line) == Some((tag, sha, true)),
{
    lemma_tag_line(sha, tag, trim_line);
    let t = tag + deref_suffix();
    assert forall|i: int| 0 <= i < t.len() implies !is_white_space(#[trigger] t[i]) by {
        if i < tag.len() {
            assert(t[i] == tag[i]);
        }
    }
    lemma_tag_line(sha, t, trim_line);
    assert(sha + seq!['\t'] + refs_tags_prefix() + t == sha + seq!['\t'] + refs_tags_prefix() + tag + deref_suffix());
    assert(has_suffix(t, deref_suffix())) by {
        assert(t.skip(t.len() - 3) =~= deref_suffix());
    }
    assert(t.take(t.len() - 3) =~= tag);
}

/// What a line `<sha>\trefs/tags/<rest>` reads as, `rest` being free of white space.
proof fn lemma_tag_line(sha: Seq<char>, rest: Seq<char>, trim_line: bool)
    requires
        sha.len() > 0,
        forall|i: int| 0 <= i < sha.len() ==> !is_white_space(#[trigger] sha[i]),
        forall|i: int| 0 <= i < rest.len() ==> !is_white_space(#[trigger] rest[i]),
    ensures
        ({
            let l = sha + seq!['\t'] + refs_tags_prefix() + rest;
            let refname = refs_tags_prefix() + rest;
            &&& trim(l) == l
            &&& first_index(l, '\t') == sha.len()
            &&& l.take(sha.len() as int) == sha
            &&& l.skip(sha.len() + 1int) == refname
            &&& trim(sha) == sha
            &&& trim(refname) == refname
            &&& has_prefix(refname, refs_tags_prefix())
            &&& refname.skip(10) == rest
        }),
{
    let l = sha + seq!['\t'] + refs_tags_prefix() + rest;
    let refname = refs_tags_prefix() + rest;
    assert(is_white_space('\t'));
    assert(l[sha.len() as int] == '\t');
    assert forall|j: int| 0 <= j < sha.len() implies l[j] != '\t' by {
        assert(l[j] == sha[j]);
    }
    lemma_first_index_is(l, '\t', sha.len() as int);
    assert(l.take(sha.len() as int) =~= sha);
    assert(l.skip(sha.len() + 1int) =~= refname);
    assert(refname[0] == 'r');
    if rest.len() > 0 {
        assert(refname.last() == rest.last());
        assert(l.last() == rest.last());
    } else {
        assert(refname.last() == '/');
        assert(l.last() == '/');
    }
    assert(l[0] == sha[0]);
    lemma_trim_of_trimmed(sha);
    lemma_trim_of_trimmed(refname);
    lemma_trim_of_trimmed(l);
    assert(refname.take(10) =~= refs_tags_prefix());
    assert(refname.skip(10) =~= rest);
}

/// The tag table does not depend on trimming where every line is trimmed already.
proof fn lemma_tag_table_trimmed_lines(ls: Seq<Seq<char>>)
    requires
        forall|i: int| 0 <= i < ls.len() ==> trim(#[trigger] ls[i]) == ls[i],
    ensures
        tag_table(ls, true) == tag_table(ls, false),
    decreases ls.len(),
{
    if ls.len() > 0 {
        let rest = ls.drop_last();
        assert forall|i: int| 0 <= i < rest.len() implies trim(#[trigger] rest[i]) == rest[i] by {
            assert(rest[i] == ls[i]);
        }
        lemma_tag_table_trimmed_lines(rest);
        assert(trim(ls[ls.len() - 1]) == ls[ls.len() - 1]);
    }
}

/// On well-formed `git ls-remote --tags` output, where no line has white space
/// around it, reading the lines as they are (as the remote tag listing does) and
/// reading them trimmed (as `parse_ls_remote_tags` does) name the same tags with
/// the same SHAs.
pub proof fn law_trimming_changes_nothing_on_well_formed_output(output: Seq<char>)
    requires
        forall|i: int| 0 <= i < lines(output).len() ==> trim(#[trigger] lines(output)[i]) == lines(output)[i],
    ensures
        remote_tag_map(output, true) == remote_tag_map(output, false),
{
    lemma_tag_table_trimmed_lines(lines(output));
    assert(remote_tag_map(output, true) =~= remote_tag_map(output, false));
}

/// Annotated tags take the SHA of their dereferenced entry: where a line names the
/// `^{}` entry of a tag and no later line does, the tag maps to that line's SHA,
/// whatever plain entries for the tag come before or after it.
pub proof fn law_dereferenced_sha_wins(ls: Seq<Seq<char>>, trim_line: bool, k: int)
    requires
        0 <= k < ls.len(),
        ref_entry(ls[k], trim_line) matches Some(e) && e.2,
        forall|j: int|
            k < j < ls.len() ==> !(ref_entry(#[trigger] ls[j], trim_line) matches Some(f) && f.2 && f.0
                == ref_entry(ls[k], trim_line).unwrap().0),
    ensures
        tag_table(ls, trim_line).contains_key(ref_entry(ls[k], trim_line).unwrap().0),
        tag_table(ls, trim_line)[ref_entry(ls[k], trim_line).unwrap().0] == (
            ref_entry(ls[k], trim_line).unwrap().1,
            true,
        ),
    decreases ls.len(),
{
    if k < ls.len() - 1 {
        let prefix = ls.drop_last();
        assert forall|j: int| k < j < prefix.len() implies !(ref_entry(#[trigger] prefix[j], trim_line) matches Some(f)
            && f.2 && f.0 == ref_entry(prefix[k], trim_line).unwrap().0) by {
            assert(prefix[j] == ls[j]);
        }
        law_dereferenced_sha_wins(prefix, trim_line, k);
        assert(prefix[k] == ls[k]);
    }
}

/// Every tag that some line names is in the table, and only those.
pub proof fn law_table_names_exactly_the_named_tags(ls: Seq<Seq<char>>, trim_line: bool, name: Seq<char>)
    ensures
        tag_table(ls, trim_line).contains_key(name) <==> exists|j: int|
            0 <= j < ls.len() && (ref_entry(#[trigger] ls[j], trim_line) matches Some(e) && e.0 == name),
    decreases ls.len(),
{
    if ls.len() > 0 {
        let prefix = ls.drop_last();
        law_table_names_exactly_the_named_tags(prefix, trim_line, name);
        if tag_table(prefix, trim_line).contains_key(name) {
            let j = choose|j: int|
                0 <= j < prefix.len() && (ref_entry(#[trigger] prefix[j], trim_line) matches Some(e) && e.0 == name);
            assert(ls[j] == prefix[j]);
        }
        if exists|j: int| 0 <= j < ls.len() && (ref_entry(#[trigger] ls[j], trim_line) matches Some(e) && e.0 == name) {
            let j = choose|j: int| 0 <= j < ls.len() && (ref_entry(#[trigger] ls[j], trim_line) matches Some(e) && e.0 == name);
            if j < ls.len() - 1 {
                assert(prefix[j] == ls[j]);
            }
        }
    }
}

/// In a list in tag order, every tag before a semantic version is a semantic version
/// too: semantic versions come first.
pub proof fn law_semver_tags_first(s: Seq<(String, String)>, i: int, j: int)
    requires
        tags_in_order(s),
        0 <= i <= j < s.len(),
        tag_version(s[j].0@) is Some,
    ensures
        tag_version(s[i].0@) is Some,
    decreases j - i,
{
    if i < j {
        let m = j - 1;
        assert(tag_order(s[m].0@, s[m + 1].0@) <= 0);
        law_semver_tags_first(s, i, m);
    }
}

/// In a list in tag order, the tags that are not semantic versions are in text order
/// among themselves.
pub proof fn law_other_tags_in_text_order(s: Seq<(String, String)>, i: int, j: int)
    requires
        tags_in_order(s),
        0 <= i < j < s.len(),
        tag_version(s[i].0@) is None,
        tag_version(s[j].0@) is None,
    ensures
        text_order(s[i].0@, s[j].0@) <= 0,
    decreases j - i,
{
    let m = i + 1;
    assert(tag_order(s[i].0@, s[m].0@) <= 0);
    if tag_version(s[m].0@) is Some {
        law_semver_tags_first(s, m, m);
        law_semver_tags_first(s, i, m);
    } else if m < j {
        law_other_tags_in_text_order(s, m, j);
        lemma_text_order_transitive(s[i].0@, s[m].0@, s[j].0@);
    }
}

} // verus!
