use vstd::prelude::*;

use itertools::Itertools;

use crate::state::{RaftState, RaftStateView, RoleView};
use crate::types::Term;

verus! {

/// Relies on `itertools::Itertools::all_unique`: true exactly when no two items are equal.
#[verifier::external_body]
fn all_unique_terms(terms: &Vec<Term>) -> (r: bool)
    ensures
        r == terms@.no_duplicates(),
{
    terms.iter().all_unique()
}

/// How often in a row a node's current role timed out (zero for a follower).
pub open spec fn consecutive_timeouts(s: RaftStateView) -> int {
    match s.role {
        RoleView::Follower => 0,
        RoleView::Candidate { n_consecutive_timeouts, .. } => n_consecutive_timeouts as int,
        RoleView::Leader { n_consecutive_timeouts } => n_consecutive_timeouts as int,
    }
}

/// No two leaders share a term.
pub open spec fn election_safe(states: Seq<RaftState>) -> bool {
    forall|i: int, j: int|
        0 <= i < j < states.len() && states[i]@.is_leader() && states[j]@.is_leader()
            ==> states[i].current_term != states[j].current_term
}

/// Some node leads, or the run has reached its exploration bound.
pub open spec fn leader_or_bound(states: Seq<RaftState>, max_term: Term, max_timeouts: usize) -> bool {
    exists|i: int|
        0 <= i < states.len() && (states[i]@.is_leader() || states[i].current_term == max_term
            || consecutive_timeouts(states[i]@) == max_timeouts)
}

/// Every node is within the exploration bound.
pub open spec fn within_bound(states: Seq<RaftState>, max_term: Term, max_timeouts: usize) -> bool {
    forall|i: int|
        0 <= i < states.len() ==> states[i].current_term <= max_term && consecutive_timeouts(states[i]@)
            <= max_timeouts
}

/// The consecutive-timeout counter of a node's role.
pub fn n_consecutive_timeouts(s: &RaftState) -> (r: usize)
    ensures
        r == consecutive_timeouts(s@),
{
    match &s.state {
        crate::state::State::Follower => 0,
        crate::state::State::Candidate(c) => c.n_consecutive_timeouts,
        crate::state::State::Leader(l) => l.n_consecutive_timeouts,
    }
}

/// Election safety over the states of all nodes: the terms of the leaders are distinct.
pub fn election_safety(states: &Vec<RaftState>) -> (r: bool)
    ensures
        r == election_safe(states@),
{
    let mut terms: Vec<Term> = Vec::new();
    let ghost mut idx: Seq<int> = Seq::empty();
    let mut i: usize = 0;
    while i < states.len()
        invariant
            i <= states@.len(),
            terms@.len() == idx.len(),
            forall|k: int| 0 <= k < idx.len() ==> 0 <= #[trigger] idx[k] < i && states@[idx[k]]@.is_leader()
                && terms@[k] == states@[idx[k]].current_term,
            forall|k: int, l: int| 0 <= k < l < idx.len() ==> idx[k] < idx[l],
            forall|j: int| 0 <= j < i && states@[j]@.is_leader() ==> exists|k: int| 0 <= k < idx.len() && idx[k] == j,
        decreases states@.len() - i,
    {
        let ghost prev = idx;
        if states[i].is_leader() {
            terms.push(states[i].current_term);
            proof {
                idx = idx.push(i as int);
            }
        }
        proof {
            assert forall|j: int| 0 <= j < i + 1 && states@[j]@.is_leader() implies exists|k: int|
                0 <= k < idx.len() && idx[k] == j by {
                if j == i {
                    assert(idx[idx.len() - 1] == j);
                } else {
                    let k = choose|k: int| 0 <= k < prev.len() && prev[k] == j;
                    assert(idx[k] == prev[k]);
                }
            }
        }
        i = i + 1;
    }
    let r = all_unique_terms(&terms);
    proof {
        if r {
            assert forall|a: int, b: int|
                0 <= a < b < states@.len() && states@[a]@.is_leader() && states@[b]@.is_leader() implies states@[a].current_term
                != states@[b].current_term by {
                let ka = choose|k: int| 0 <= k < idx.len() && idx[k] == a;
                let kb = choose|k: int| 0 <= k < idx.len() && idx[k] == b;
                assert(ka != kb);
                assert(terms@[ka] != terms@[kb]);
            }
        } else {
            let (ka, kb) = choose|ka: int, kb: int|
                0 <= ka < terms@.len() && 0 <= kb < terms@.len() && ka != kb && terms@[ka] == terms@[kb];
            if ka < kb {
                assert(idx[ka] < idx[kb]);
                assert(!election_safe(states@));
            } else {
                assert(idx[kb] < idx[ka]);
                assert(!election_safe(states@));
            }
        }
    }
    r
}

/// Some node leads, or some node has reached the term bound or the timeout bound.
pub fn leader_elected_or_bounded(states: &Vec<RaftState>, max_term: Term, max_timeouts: usize) -> (r: bool)
    ensures
        r == leader_or_bound(states@, max_term, max_timeouts),
{
    let mut i: usize = 0;
    while i < states.len()
        invariant
            i <= states@.len(),
            forall|j: int|
                0 <= j < i ==> !(states@[j]@.is_leader() || states@[j].current_term == max_term
                    || consecutive_timeouts(states@[j]@) == max_timeouts),
        decreases states@.len() - i,
    {
        let s = &states[i];
        if s.is_leader() || s.current_term == max_term || n_consecutive_timeouts(s) == max_timeouts {
            return true;
        }
        i = i + 1;
    }
    false
}

/// Every node's term and timeout counter are within the exploration bound.
pub fn within_boundary(states: &Vec<RaftState>, max_term: Term, max_timeouts: usize) -> (r: bool)
    ensures
        r == within_bound(states@, max_term, max_timeouts),
{
    let mut i: usize = 0;
    while i < states.len()
        invariant
            i <= states@.len(),
            forall|j: int|
                0 <= j < i ==> states@[j].current_term <= max_term && consecutive_timeouts(states@[j]@)
                    <= max_timeouts,
        decreases states@.len() - i,
    {
        let s = &states[i];
        if s.current_term > max_term || n_consecutive_timeouts(s) > max_timeouts {
            return false;
        }
        i = i + 1;
    }
    true
}

} // verus!
