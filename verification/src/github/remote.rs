use vstd::prelude::*;

use crate::error::GraftError;
use crate::github::api::{repo_slug, repo_slug_of};
use crate::source::tags::{collect_tag_refs, pair_view, pairs_match_map, pairs_view, remote_tag_map};
use crate::text::{
    chars_of, compare_text, contains_at_all, contains_text, lemma_text_order_antisymmetric,
    lemma_text_order_transitive, push_char, text_from_bytes_lossy, text_order, utf8_lossy,
};

verus! {

/// The URL that `git ls-remote` lists a repository's tags from.
pub open spec fn remote_url(owner: Seq<char>, repo: Seq<char>) -> Seq<char> {
    "https://github.com/"@ + owner + seq!['/'] + repo
}

/// The URL that `git ls-remote` lists a repository's tags from.
pub fn remote_url_of(owner: &str, repo: &str) -> (r: String)
    ensures
        r@ == remote_url(owner@, repo@),
{
    let mut r = "https://github.com/".to_owned();
    r.append(owner);
    push_char(&mut r, '/');
    r.append(repo);
    assert(r@ =~= remote_url(owner@, repo@));
    r
}

/// The names of the pairs come in strictly increasing text order.
pub open spec fn names_ascending(r: Seq<(String, String)>) -> bool {
    forall|a: int, b: int| 0 <= a < b < r.len() ==> text_order(r[a].0@, r[b].0@) == -1
}

/// Where a name goes among names in ascending order: after every smaller name.
fn insert_position(names: &Vec<Vec<char>>, name: &Vec<char>) -> (k: usize)
    ensures
        k <= names@.len(),
        forall|m: int| 0 <= m < k ==> text_order((#[trigger] names@[m])@, name@) == -1,
        k < names@.len() ==> text_order(names@[k as int]@, name@) != -1,
{
    let mut k: usize = 0;
    while k < names.len() && compare_text(&names[k], name) == -1
        invariant
            k <= names@.len(),
            forall|m: int| 0 <= m < k ==> text_order((#[trigger] names@[m])@, name@) == -1,
        decreases names@.len() - k,
    {
        k = k + 1;
    }
    k
}

proof fn lemma_insert_ascending(old_r: Seq<(String, String)>, k: int, item: (String, String))
    requires
        names_ascending(old_r),
        0 <= k <= old_r.len(),
        forall|m: int| 0 <= m < k ==> text_order((#[trigger] old_r[m]).0@, item.0@) == -1,
        k < old_r.len() ==> text_order(item.0@, old_r[k].0@) == -1,
    ensures
        names_ascending(old_r.insert(k, item)),
{
    let r = old_r.insert(k, item);
    let x = item.0@;
    assert forall|a: int, b: int| 0 <= a < b < r.len() implies text_order(r[a].0@, r[b].0@) == -1 by {
        if b < k {
            assert(r[a] == old_r[a] && r[b] == old_r[b]);
        } else if b == k {
            assert(r[a] == old_r[a]);
        } else if a == k {
            assert(r[b] == old_r[b - 1]);
            if b - 1 > k {
                assert(text_order(old_r[k].0@, old_r[b - 1].0@) == -1);
                lemma_text_order_transitive(x, old_r[k].0@, old_r[b - 1].0@);
                lemma_text_order_antisymmetric(x, old_r[b - 1].0@);
                lemma_text_order_antisymmetric(x, old_r[k].0@);
                if x == old_r[b - 1].0@ {
                    lemma_text_order_antisymmetric(old_r[k].0@, old_r[b - 1].0@);
                }
            }
        } else if a < k {
            assert(r[a] == old_r[a] && r[b] == old_r[b - 1]);
            if b - 1 >= k {
                if b - 1 > k {
                    lemma_text_order_transitive(x, old_r[k].0@, old_r[b - 1].0@);
                }
                lemma_text_order_transitive(old_r[a].0@, x, old_r[b - 1].0@);
                lemma_text_order_antisymmetric(old_r[a].0@, old_r[b - 1].0@);
            }
        } else {
            assert(r[a] == old_r[a - 1] && r[b] == old_r[b - 1]);
        }
    }
}

/// A pair of `s` with its texts as they are.
proof fn lemma_member(s: Seq<(String, String)>, k: int)
    requires
        0 <= k < s.len(),
    ensures
        pairs_view(s).to_multiset().count(pair_view(s[k])) > 0,
{
    assert(pairs_view(s)[k] == pair_view(s[k]));
    vstd::seq_lib::to_multiset_contains(pairs_view(s), pair_view(s[k]));
}

/// What is in the multiset of `s` is the texts of one of its pairs.
proof fn lemma_from_member(s: Seq<(String, String)>, x: (Seq<char>, Seq<char>)) -> (j: int)
    requires
        pairs_view(s).to_multiset().count(x) > 0,
    ensures
        0 <= j < s.len(),
        pair_view(s[j]) == x,
{
    vstd::seq_lib::to_multiset_contains(pairs_view(s), x);
    let j = choose|j: int| 0 <= j < pairs_view(s).len() && pairs_view(s)[j] == x;
    j
}

/// The pairs sorted by name, for pairs whose names are all different.
fn sort_by_name(t: Vec<(String, String)>) -> (r: Vec<(String, String)>)
    requires
        forall|i: int, j: int| 0 <= i < j < t@.len() ==> t@[i].0@ != t@[j].0@,
    ensures
        names_ascending(r@),
        pairs_view(r@).to_multiset() == pairs_view(t@).to_multiset(),
{
    let mut r: Vec<(String, String)> = Vec::new();
    let mut names: Vec<Vec<char>> = Vec::new();
    let mut i: usize = 0;
    assert(pairs_view(r@) =~= pairs_view(t@.take(0)));
    while i < t.len()
        invariant
            i <= t@.len(),
            forall|a: int, b: int| 0 <= a < b < t@.len() ==> t@[a].0@ != t@[b].0@,
            r@.len() == i,
            names@.len() == i,
            forall|k: int| 0 <= k < i ==> (#[trigger] names@[k])@ == r@[k].0@,
            names_ascending(r@),
            pairs_view(r@).to_multiset() == pairs_view(t@.take(i as int)).to_multiset(),
        decreases t@.len() - i,
    {
        let name = chars_of(t[i].0.as_str());
        let k = insert_position(&names, &name);
        assert forall|m: int| 0 <= m < i implies #[trigger] r@[m].0@ != name@ by {
            lemma_member(r@, m);
            let j = lemma_from_member(t@.take(i as int), pair_view(r@[m]));
            assert(t@.take(i as int)[j] == t@[j]);
            assert(t@[j].0@ != t@[i as int].0@);
        }
        assert forall|m: int| 0 <= m < k implies text_order((#[trigger] r@[m]).0@, name@) == -1 by {
            assert(names@[m]@ == r@[m].0@);
        }
        if k < i {
            assert(names@[k as int]@ == r@[k as int].0@);
            proof {
                lemma_text_order_antisymmetric(r@[k as int].0@, name@);
            }
        }
        let ghost old_r = r@;
        let ghost old_names = names@;
        let item = (t[i].0.clone(), t[i].1.clone());
        proof {
            lemma_insert_ascending(old_r, k as int, item);
        }
        r.insert(k, item);
        names.insert(k, name);
        proof {
            assert(pairs_view(r@) =~= pairs_view(old_r).insert(k as int, pair_view(item)));
            assert(pairs_view(t@.take(i + 1)) =~= pairs_view(t@.take(i as int)).push(pair_view(t@[i as int])));
            vstd::seq_lib::to_multiset_insert(pairs_view(old_r), k as int, pair_view(item));
            vstd::seq_lib::to_multiset_build(pairs_view(t@.take(i as int)), pair_view(t@[i as int]));
        }
        assert forall|m: int| 0 <= m < i + 1 implies (#[trigger] names@[m])@ == r@[m].0@ by {
            if m < k {
                assert(names@[m] == old_names[m] && r@[m] == old_r[m]);
            } else if m > k {
                assert(names@[m] == old_names[m - 1] && r@[m] == old_r[m - 1]);
            }
        }
        i = i + 1;
    }
    assert(t@.take(t@.len() as int) =~= t@);
    r
}

/// A sorted permutation of pairs that name each tag of `m` once names each once too.
proof fn lemma_sorted_pairs_match(t: Seq<(String, String)>, r: Seq<(String, String)>, m: Map<Seq<char>, Seq<char>>)
    requires
        pairs_match_map(t, m),
        names_ascending(r),
        pairs_view(r).to_multiset() == pairs_view(t).to_multiset(),
    ensures
        pairs_match_map(r, m),
{
    assert forall|a: int, b: int| 0 <= a < b < r.len() implies r[a].0@ != r[b].0@ by {
        lemma_text_order_antisymmetric(r[a].0@, r[b].0@);
    }
    assert forall|k: int| 0 <= k < r.len() implies m.contains_key(#[trigger] r[k].0@) && m[r[k].0@] == r[k].1@ by {
        lemma_member(r, k);
        let j = lemma_from_member(t, pair_view(r[k]));
        assert(m.contains_key(t[j].0@));
    }
    assert forall|key: Seq<char>| m.contains_key(key) implies exists|k: int| 0 <= k < r.len() && #[trigger] r[k].0@ == key by {
        let j = choose|j: int| 0 <= j < t.len() && #[trigger] t[j].0@ == key;
        lemma_member(t, j);
        let k = lemma_from_member(r, pair_view(t[j]));
        assert(r[k].0@ == key);
    }
}

/// Whether the text says that `git ls-remote` could not authenticate: it mentions
/// `Authentication`, `403` or `401`.
pub open spec fn mentions_auth_failure(err: Seq<char>) -> bool {
    contains_text(err, "Authentication"@) || contains_text(err, "403"@) || contains_text(err, "401"@)
}

/// The tags of a repository from how `git ls-remote --tags` ended. Where it failed,
/// an authentication failure where its error output says so, else an API error with
/// that output. Where it succeeded, each tag that its output names (lines taken as
/// they are) once, with the SHA graft takes for it, sorted by name.
pub fn tags_from_ls_remote(success: bool, stdout: &[u8], stderr: &[u8], owner: &str, repo: &str) -> (r: Result<Vec<(String, String)>, GraftError>)
    ensures
        success ==> (r matches Ok(tags) && pairs_match_map(tags@, remote_tag_map(utf8_lossy(stdout@), false))
            && names_ascending(tags@)),
        !success && mentions_auth_failure(utf8_lossy(stderr@)) ==> (r matches Err(GraftError::AuthFailed { repo: s })
            && s@ == repo_slug(owner@, repo@)),
        !success && !mentions_auth_failure(utf8_lossy(stderr@)) ==> (r matches Err(GraftError::GitHubApi { status, message })
            && status == 0 && message@ == "git ls-remote failed: "@ + utf8_lossy(stderr@)),
{
    if !success {
        let err = text_from_bytes_lossy(stderr);
        let ev = chars_of(err.as_str());
        let auth = chars_of("Authentication");
        let forbidden = chars_of("403");
        let unauthorized = chars_of("401");
        if contains_at_all(&ev, &auth) || contains_at_all(&ev, &forbidden) || contains_at_all(&ev, &unauthorized) {
            return Err(GraftError::AuthFailed { repo: repo_slug_of(owner, repo) });
        }
        let mut message = "git ls-remote failed: ".to_owned();
        message.append(err.as_str());
        return Err(GraftError::GitHubApi { status: 0, message });
    }
    let out = text_from_bytes_lossy(stdout);
    let tags = collect_tag_refs(out.as_str(), false);
    let ghost t = tags@;
    let sorted = sort_by_name(tags);
    proof { lemma_sorted_pairs_match(t, sorted@, remote_tag_map(utf8_lossy(stdout@), false)); }
    Ok(sorted)
}

} // verus!
