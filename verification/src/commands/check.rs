use vstd::prelude::*;

use crate::state::GraftState;

verus! {

/// The names and states of the dependencies that are not in sync, in order.
pub open spec fn unsynced(s: Seq<(String, GraftState)>) -> Seq<(Seq<char>, GraftState)>
    decreases s.len(),
{
    if s.len() == 0 {
        seq![]
    } else {
        let rest = unsynced(s.drop_last());
        if s.last().1 != GraftState::Synced {
            rest.push((s.last().0@, s.last().1))
        } else {
            rest
        }
    }
}

/// The dependencies that are not in sync, with their states, in order.
pub fn problems(states: &Vec<(String, GraftState)>) -> (r: Vec<(String, GraftState)>)
    ensures
        r@.map_values(|p: (String, GraftState)| (p.0@, p.1)) == unsynced(states@),
        r@.map_values(|p: (String, GraftState)| (p.0@, p.1)) == states@.filter(
            |p: (String, GraftState)| p.1 != GraftState::Synced,
        ).map_values(|p: (String, GraftState)| (p.0@, p.1)),
{
    let mut r: Vec<(String, GraftState)> = Vec::new();
    let mut i: usize = 0;
    let n = states.len();
    while i < n
        invariant
            n == states@.len(),
            i <= n,
            r@.map_values(|p: (String, GraftState)| (p.0@, p.1)) == unsynced(states@.take(i as int)),
        decreases n - i,
    {
        assert(states@.take(i + 1).drop_last() =~= states@.take(i as int));
        assert(states@.take(i + 1).last() == states@[i as int]);
        if states[i].1 != GraftState::Synced {
            let ghost old_r = r@;
            let item = (states[i].0.clone(), states[i].1);
            r.push(item);
            assert(r@.map_values(|p: (String, GraftState)| (p.0@, p.1)) =~= old_r.map_values(
                |p: (String, GraftState)| (p.0@, p.1),
            ).push((item.0@, item.1)));
        }
        i = i + 1;
    }
    assert(states@.take(n as int) =~= states@);
    proof { law_problems_are_the_unsynced_pairs_unchanged(states@); }
    r
}

/// `check` passes when every dependency is in sync.
pub fn check_passes(problems: &Vec<(String, GraftState)>) -> (r: bool)
    ensures
        r == (problems@.len() == 0),
{
    problems.len() == 0
}

/// `check` passes exactly when every dependency is in sync: the list of problems
/// is empty if and only if every state is `Synced`.
pub proof fn law_check_passes_exactly_when_all_synced(states: Seq<(String, GraftState)>)
    ensures
        unsynced(states).len() == 0 <==> forall|i: int| 0 <= i < states.len() ==> (#[trigger] states[i]).1
            == GraftState::Synced,
    decreases states.len(),
{
    if states.len() > 0 {
        let rest = states.drop_last();
        law_check_passes_exactly_when_all_synced(rest);
        assert forall|i: int| 0 <= i < rest.len() implies #[trigger] rest[i] == states[i] by {}
        if states.last().1 == GraftState::Synced {
            if unsynced(states).len() == 0 {
                assert forall|i: int| 0 <= i < states.len() implies (#[trigger] states[i]).1 == GraftState::Synced by {
                    if i < rest.len() {
                        assert(rest[i] == states[i]);
                    }
                }
            } else {
                let j = choose|j: int| 0 <= j < rest.len() && (#[trigger] rest[j]).1 != GraftState::Synced;
                assert(states[j] == rest[j]);
            }
        } else {
            assert(states[states.len() - 1].1 != GraftState::Synced);
        }
    }
}

/// `check` reports exactly the dependencies that are not in sync, each with its name
/// and the very state it was given, in order: the problems are the input pairs
/// whose state is not `Synced`, kept as they are.
pub proof fn law_problems_are_the_unsynced_pairs_unchanged(states: Seq<(String, GraftState)>)
    ensures
        unsynced(states) == states.filter(|p: (String, GraftState)| p.1 != GraftState::Synced).map_values(
            |p: (String, GraftState)| (p.0@, p.1),
        ),
    decreases states.len(),
{
    reveal(Seq::filter);
    if states.len() > 0 {
        law_problems_are_the_unsynced_pairs_unchanged(states.drop_last());
        let f = states.drop_last().filter(|p: (String, GraftState)| p.1 != GraftState::Synced);
        assert(f.push(states.last()).map_values(|p: (String, GraftState)| (p.0@, p.1)) =~= f.map_values(
            |p: (String, GraftState)| (p.0@, p.1),
        ).push((states.last().0@, states.last().1)));
    }
}

} // verus!
