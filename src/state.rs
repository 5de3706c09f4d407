use vstd::prelude::*;

pub mod candidate_state;
pub mod leader_state;

use crate::state::candidate_state::{votes_contains, votes_of};
use crate::types::{NodeId, Term};

verus! {

/// The role of a node, with what each role carries.
#[derive(Clone, Debug, PartialEq, Hash)]
pub enum State {
    Follower,
    Candidate(candidate_state::State),
    Leader(leader_state::State),
}

/// The mutable state of one node.
#[derive(Clone, Debug, PartialEq, Hash)]
pub struct RaftState {
    pub current_term: Term,
    pub voted_for: Option<NodeId>,
    pub state: State,
}

/// The role of a node as a mathematical value.
pub enum RoleView {
    Follower,
    Candidate { votes: Set<NodeId>, n_consecutive_timeouts: usize },
    Leader { n_consecutive_timeouts: usize },
}

/// A node's state as a mathematical value.
pub struct RaftStateView {
    pub current_term: Term,
    pub voted_for: Option<NodeId>,
    pub role: RoleView,
}

impl View for State {
    type V = RoleView;

    open spec fn view(&self) -> RoleView {
        match self {
            State::Follower => RoleView::Follower,
            State::Candidate(c) => RoleView::Candidate {
                votes: votes_of(c.votes),
                n_consecutive_timeouts: c.n_consecutive_timeouts,
            },
            State::Leader(l) => RoleView::Leader { n_consecutive_timeouts: l.n_consecutive_timeouts },
        }
    }
}

impl View for RaftState {
    type V = RaftStateView;

    open spec fn view(&self) -> RaftStateView {
        RaftStateView { current_term: self.current_term, voted_for: self.voted_for, role: self.state@ }
    }
}

impl RaftStateView {
    /// Consistency of a node's own state: a candidate or a leader has voted
    /// for itself in its current term, and a candidate's tally never holds
    /// its own identity.
    pub open spec fn inv(self, id: NodeId) -> bool {
        &&& !(self.role is Follower) ==> self.voted_for == Some(id)
        &&& self.role matches RoleView::Candidate { votes, .. } ==> !votes.contains(id)
    }

    pub open spec fn is_leader(self) -> bool {
        self.role is Leader
    }
}

impl RaftState {
    /// The node's current term.
    pub fn current_term(&self) -> (r: Term)
        ensures
            r == self.current_term,
    {
        self.current_term
    }

    /// The vote cast in the current term, if any.
    pub fn voted_for(&self) -> (r: Option<NodeId>)
        ensures
            r == self.voted_for,
    {
        self.voted_for
    }

    /// Whether the state is consistent for the node `id` (see `RaftStateView::inv`).
    pub fn is_consistent(&self, id: NodeId) -> (r: bool)
        ensures
            r == self@.inv(id),
    {
        let self_vote = match self.voted_for {
            Some(v) => v == id,
            None => false,
        };
        match &self.state {
            State::Follower => true,
            State::Candidate(c) => self_vote && !votes_contains(&c.votes, id),
            State::Leader(_) => self_vote,
        }
    }

    pub fn is_leader(&self) -> (r: bool)
        ensures
            r == self@.is_leader(),
    {
        matches!(self.state, State::Leader(_))
    }
}

} // verus!
