use vstd::prelude::*;

use stateright::util::HashableHashSet;

use crate::types::NodeId;

verus! {

/// A set of node identities, kept in stateright's hashable hash set.
#[verifier::external_body]
#[derive(Debug, PartialEq, Eq, Hash)]
pub struct Votes {
    set: HashableHashSet<NodeId>,
}

/// The identities held by a vote set.
pub uninterp spec fn votes_of(s: Votes) -> Set<NodeId>;

/// Relies on `HashableHashSet::new`: a set with no members.
#[verifier::external_body]
pub(crate) fn empty_votes() -> (r: Votes)
    ensures
        votes_of(r) == Set::<NodeId>::empty(),
{
    Votes { set: HashableHashSet::new() }
}

/// Relies on `HashSet::contains` (reached through `Deref`): membership.
#[verifier::external_body]
pub(crate) fn votes_contains(s: &Votes, id: NodeId) -> (r: bool)
    ensures
        r == votes_of(*s).contains(id),
{
    s.set.contains(&id)
}

/// Relies on `HashSet::insert` (reached through `DerefMut`): adds one member.
#[verifier::external_body]
pub(crate) fn votes_insert(s: &mut Votes, id: NodeId)
    ensures
        votes_of(*final(s)) == votes_of(*old(s)).insert(id),
{
    s.set.insert(id);
}

/// Relies on `HashSet::len` (reached through `Deref`): the number of members.
#[verifier::external_body]
pub(crate) fn votes_len(s: &Votes) -> (r: usize)
    ensures
        r == votes_of(*s).len(),
{
    s.set.len()
}

impl Clone for Votes {
    /// Relies on the derived `Clone` of `HashableHashSet`: a copy with the same members.
    #[verifier::external_body]
    fn clone(&self) -> (r: Votes)
        ensures
            votes_of(r) == votes_of(*self),
    {
        Votes { set: self.set.clone() }
    }
}

impl Votes {
    pub fn new() -> (r: Votes)
        ensures
            votes_of(r) == Set::<NodeId>::empty(),
    {
        empty_votes()
    }

    pub fn contains(&self, id: NodeId) -> (r: bool)
        ensures
            r == votes_of(*self).contains(id),
    {
        votes_contains(self, id)
    }

    pub fn len(&self) -> (r: usize)
        ensures
            r == votes_of(*self).len(),
    {
        votes_len(self)
    }
}

/// What a candidate holds: the peers that granted it a vote in its current
/// term (never itself), and how often its election timer fired in a row.
#[derive(Clone, Debug, PartialEq, Hash)]
pub struct State {
    pub votes: Votes,
    pub n_consecutive_timeouts: usize,
}

impl Default for State {
    fn default() -> (r: State)
        ensures
            votes_of(r.votes) == Set::<NodeId>::empty(),
            r.n_consecutive_timeouts == 0,
    {
        State { votes: empty_votes(), n_consecutive_timeouts: 0 }
    }
}

} // verus!
