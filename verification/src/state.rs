use vstd::prelude::*;

use crate::config::lockfile::LockedDep;
use crate::text::{chars_of, contains_at_all, contains_text, push_char};

verus! {

/// Where a dependency stands on disk against its locked state.
#[derive(Debug, Clone, Copy, PartialEq, Eq, Structural)]
pub enum GraftState {
    Synced,
    Modified,
    Outdated,
    Conflicted,
    Missing,
}

/// The name graft prints for a state.
pub open spec fn state_name(s: GraftState) -> Seq<char> {
    match s {
        GraftState::Synced => seq!['s', 'y', 'n', 'c', 'e', 'd'],
        GraftState::Modified => seq!['m', 'o', 'd', 'i', 'f', 'i', 'e', 'd'],
        GraftState::Outdated => seq!['o', 'u', 't', 'd', 'a', 't', 'e', 'd'],
        GraftState::Conflicted => seq!['c', 'o', 'n', 'f', 'l', 'i', 'c', 't', 'e', 'd'],
        GraftState::Missing => seq!['m', 'i', 's', 's', 'i', 'n', 'g'],
    }
}

/// A string made of the given characters.
fn string_from_chars(v: Vec<char>) -> (r: String)
    ensures
        r@ == v@,
{
    let mut r = String::new();
    let mut i: usize = 0;
    while i < v.len()
        invariant
            i <= v@.len(),
            r@ == v@.take(i as int),
        decreases v@.len() - i,
    {
        push_char(&mut r, v[i]);
        assert(r@ =~= v@.take(i + 1));
        i = i + 1;
    }
    assert(v@.take(v@.len() as int) =~= v@);
    r
}

impl GraftState {
    /// The name graft prints for the state.
    pub fn to_string(&self) -> (r: String)
        ensures
            r@ == state_name(*self),
    {
        let v = match self {
            GraftState::Synced => vec!['s', 'y', 'n', 'c', 'e', 'd'],
            GraftState::Modified => vec!['m', 'o', 'd', 'i', 'f', 'i', 'e', 'd'],
            GraftState::Outdated => vec!['o', 'u', 't', 'd', 'a', 't', 'e', 'd'],
            GraftState::Conflicted => vec!['c', 'o', 'n', 'f', 'l', 'i', 'c', 't', 'e', 'd'],
            GraftState::Missing => vec!['m', 'i', 's', 's', 'i', 'n', 'g'],
        };
        let r = string_from_chars(v);
        assert(r@ =~= state_name(*self));
        r
    }
}

/// The start marker of a conflict: seven `<`.
pub open spec fn conflict_start() -> Seq<char> {
    seq!['<', '<', '<', '<', '<', '<', '<']
}

/// The end marker of a conflict: seven `>`.
pub open spec fn conflict_end() -> Seq<char> {
    seq!['>', '>', '>', '>', '>', '>', '>']
}

/// The text still holds conflict markers: both the start and the end marker.
pub open spec fn has_conflict_markers(text: Seq<char>) -> bool {
    contains_text(text, conflict_start()) && contains_text(text, conflict_end())
}

/// Whether the text still holds conflict markers.
pub fn conflict_markers_present(text: &str) -> (r: bool)
    ensures
        r == has_conflict_markers(text@),
{
    let v = chars_of(text);
    let start = vec!['<', '<', '<', '<', '<', '<', '<'];
    let end = vec!['>', '>', '>', '>', '>', '>', '>'];
    assert(start@ =~= conflict_start());
    assert(end@ =~= conflict_end());
    contains_at_all(&v, &start) && contains_at_all(&v, &end)
}

/// The state of a dependency where it can be told without a checksum: missing where
/// the destination or the lock entry is absent; conflicted where the destination's
/// text holds conflict markers. `None` where the checksum decides.
pub open spec fn early_state(dest_exists: bool, has_lock: bool, text: Option<Seq<char>>) -> Option<GraftState> {
    if !dest_exists || !has_lock {
        Some(GraftState::Missing)
    } else if text matches Some(t) && has_conflict_markers(t) {
        Some(GraftState::Conflicted)
    } else {
        None
    }
}

/// The state of a dependency from what is known about its destination: whether it
/// exists, the checksum of its lock entry (if it has one), its content as text
/// (where it reads as text), and the checksum of what is on disk: the early state
/// where there is one, else synced where the checksum is the locked one and
/// modified otherwise.
pub open spec fn graft_state(
    dest_exists: bool,
    locked_checksum: Option<Seq<char>>,
    text: Option<Seq<char>>,
    current_checksum: Seq<char>,
) -> GraftState {
    match early_state(dest_exists, locked_checksum is Some, text) {
        Some(s) => s,
        None => if current_checksum == locked_checksum.unwrap() {
            GraftState::Synced
        } else {
            GraftState::Modified
        },
    }
}

/// The state of a dependency where it can be told without a checksum, as
/// `early_state` states it.
pub fn state_before_checksum(dest_exists: bool, locked: Option<&LockedDep>, dest_text: Option<&str>) -> (r: Option<GraftState>)
    ensures
        r == early_state(
            dest_exists,
            locked is Some,
            match dest_text {
                Some(t) => Some(t@),
                None => None,
            },
        ),
{
    if !dest_exists {
        return Some(GraftState::Missing);
    }
    if locked.is_none() {
        return Some(GraftState::Missing);
    }
    match dest_text {
        Some(t) => {
            if conflict_markers_present(t) {
                return Some(GraftState::Conflicted);
            }
        },
        None => {},
    }
    None
}

/// The state of a dependency whose destination and lock entry exist and whose text
/// holds no conflict markers: synced where the checksum on disk is the locked one,
/// modified otherwise.
pub fn state_from_checksum(current_checksum: &str, locked: &LockedDep) -> (r: GraftState)
    ensures
        r == (if current_checksum@ == locked.checksum@ {
            GraftState::Synced
        } else {
            GraftState::Modified
        }),
{
    let a = chars_of(current_checksum);
    let b = chars_of(locked.checksum.as_str());
    if crate::text::vec_eq(&a, &b) {
        GraftState::Synced
    } else {
        GraftState::Modified
    }
}

/// A dependency whose destination exists, has a lock entry and holds no conflict
/// markers is in sync exactly when the checksum of what is on disk is the locked one.
pub proof fn law_synced_exactly_when_checksum_matches(
    locked_checksum: Seq<char>,
    text: Option<Seq<char>>,
    current_checksum: Seq<char>,
)
    requires
        !(text matches Some(t) && has_conflict_markers(t)),
    ensures
        (graft_state(true, Some(locked_checksum), text, current_checksum) == GraftState::Synced) == (current_checksum
            == locked_checksum),
        graft_state(true, Some(locked_checksum), text, current_checksum) != GraftState::Synced ==> graft_state(
            true,
            Some(locked_checksum),
            text,
            current_checksum,
        ) == GraftState::Modified,
{
}

/// Conflict markers win over checksums: a file that still holds them is conflicted
/// whatever its checksum, as long as it exists and is locked.
pub proof fn law_conflict_markers_win(locked_checksum: Seq<char>, text: Seq<char>, current_checksum: Seq<char>)
    requires
        has_conflict_markers(text),
    ensures
        graft_state(true, Some(locked_checksum), Some(text), current_checksum) == GraftState::Conflicted,
{
}

} // verus!
