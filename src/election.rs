use vstd::prelude::*;

use crate::messages::{append_entries, request_vote, RaftMsg};
use crate::out::{broadcast_spec, Command, Out};
use crate::server::RaftServer;
use crate::state::candidate_state::{self, empty_votes, votes_contains, votes_insert, votes_len};
use crate::state::{leader_state, RaftState, RaftStateView, RoleView, State};
use crate::timers::RaftTimer;
use crate::types::NodeId;

verus! {

/// The size of a quorum in a cluster of `n` members.
pub open spec fn majority_of(n: int) -> int {
    n / 2 + 1
}

/// Relies on `stateright::actor::majority`: `cluster_size / 2 + 1`.
#[verifier::external_body]
pub(crate) fn majority(cluster_size: usize) -> (r: usize)
    ensures
        r == majority_of(cluster_size as int),
{
    stateright::actor::majority(cluster_size)
}

impl RaftServer {
    /// The election timer may fire only for a follower or a candidate, and
    /// only while the term and the timeout counter can still grow.
    pub open spec fn election_timeout_enabled(&self, s: RaftStateView) -> bool {
        &&& !(s.role is Leader)
        &&& s.current_term < u64::MAX
        &&& (s.role matches RoleView::Candidate { n_consecutive_timeouts, .. } ==> n_consecutive_timeouts < usize::MAX)
    }

    /// Start (or restart) a candidacy at the next term.
    pub open spec fn election_timeout_spec(&self, s: RaftStateView) -> (RaftStateView, Seq<Command>) {
        let term = (s.current_term + 1) as u64;
        let next = match s.role {
            RoleView::Candidate { n_consecutive_timeouts, .. } => RaftStateView {
                current_term: term,
                voted_for: s.voted_for,
                role: RoleView::Candidate {
                    votes: Set::empty(),
                    n_consecutive_timeouts: (n_consecutive_timeouts + 1) as usize,
                },
            },
            _ => RaftStateView {
                current_term: term,
                voted_for: Some(self.id),
                role: RoleView::Candidate { votes: Set::empty(), n_consecutive_timeouts: 0 },
            },
        };
        let req = RaftMsg::RequestVoteReq(request_vote::Request { term });
        (next, broadcast_spec(self.peers@, req).push(self.election_timer()))
    }

    pub fn on_election_timeout(&self, state: &mut RaftState, o: &mut Out)
        requires
            old(state)@.inv(self.id),
            self.election_timeout_enabled(old(state)@),
        ensures
            final(state)@ == self.election_timeout_spec(old(state)@).0,
            final(o)@ == old(o)@ + self.election_timeout_spec(old(state)@).1,
            final(state)@.inv(self.id),
    {
        let term = state.current_term + 1;
        let next = if let State::Candidate(c) = &state.state {
            let votes = empty_votes();
            let cand = candidate_state::State { votes, n_consecutive_timeouts: c.n_consecutive_timeouts + 1 };
            RaftState { current_term: term, voted_for: state.voted_for, state: State::Candidate(cand) }
        } else {
            RaftState {
                current_term: term,
                voted_for: Some(self.id),
                state: State::Candidate(candidate_state::State::default()),
            }
        };
        *state = next;
        let req = RaftMsg::RequestVoteReq(request_vote::Request { term });
        o.broadcast(&self.peers, &req);
        o.set_timer(
            RaftTimer::Election,
            self.config.election_timeout_min_ms,
            self.config.election_timeout_max_ms,
        );
        proof {
            assert(final(o)@ == old(o)@ + self.election_timeout_spec(old(state)@).1);
        }
    }

    /// Answer a vote request by the vote-once rule, after the term-update rule.
    pub open spec fn request_vote_request_spec(
        &self,
        s: RaftStateView,
        src: NodeId,
        req: request_vote::Request,
    ) -> (RaftStateView, Seq<Command>) {
        let (s1, c1) = self.update_term_spec(s, req.term);
        let (next, granted) = if req.term < s1.current_term {
            (s1, false)
        } else {
            match s1.voted_for {
                None => (RaftStateView { voted_for: Some(src), ..s1 }, true),
                Some(v) => (s1, v == src),
            }
        };
        let res = request_vote::Response { term: s1.current_term, granted };
        (next, c1.push(Command::Send(src, RaftMsg::RequestVoteRes(res))))
    }

    pub fn handle_request_vote_request(
        &self,
        state: &mut RaftState,
        src: NodeId,
        req: request_vote::Request,
        o: &mut Out,
    )
        requires
            old(state)@.inv(self.id),
        ensures
            final(state)@ == self.request_vote_request_spec(old(state)@, src, req).0,
            final(o)@ == old(o)@ + self.request_vote_request_spec(old(state)@, src, req).1,
            final(state)@.inv(self.id),
    {
        self.update_term(state, req.term, o);
        let ghost o1 = o@;
        let res = if req.term < state.current_term {
            request_vote::Response { term: state.current_term, granted: false }
        } else {
            match state.voted_for {
                None => {
                    state.voted_for = Some(src);
                    request_vote::Response { term: state.current_term, granted: true }
                },
                Some(id) => request_vote::Response { term: state.current_term, granted: id == src },
            }
        };
        o.send(src, RaftMsg::RequestVoteRes(res));
        proof {
            assert(final(o)@ == old(o)@ + self.request_vote_request_spec(old(state)@, src, req).1);
        }
    }

    /// Count a vote response, after the term-update rule; on reaching a
    /// quorum (self included), become leader and start heartbeats.
    pub open spec fn request_vote_response_spec(
        &self,
        s: RaftStateView,
        src: NodeId,
        res: request_vote::Response,
    ) -> (RaftStateView, Seq<Command>) {
        let (s1, c1) = self.update_term_spec(s, res.term);
        if res.term < s1.current_term {
            (s1, c1)
        } else {
            match s1.role {
                RoleView::Candidate { votes, n_consecutive_timeouts } => {
                    if res.granted && !votes.contains(src) {
                        let votes2 = votes.insert(src);
                        if votes2.len() + 1 < majority_of((self.peers@.len() + 1) as int) {
                            (RaftStateView { role: RoleView::Candidate { votes: votes2, n_consecutive_timeouts }, ..s1 }, c1)
                        } else {
                            let hb = RaftMsg::AppendEntriesReq(append_entries::Request { term: s1.current_term });
                            (
                                RaftStateView { role: RoleView::Leader { n_consecutive_timeouts: 0 }, ..s1 },
                                (c1.push(Command::CancelTimer(RaftTimer::Election)) + broadcast_spec(self.peers@, hb)).push(
                                    self.heartbeat_timer(),
                                ),
                            )
                        }
                    } else {
                        (s1, c1)
                    }
                },
                _ => (s1, c1),
            }
        }
    }

    pub fn handle_request_vote_response(
        &self,
        state: &mut RaftState,
        src: NodeId,
        res: request_vote::Response,
        o: &mut Out,
    )
        requires
            old(state)@.inv(self.id),
            src != self.id,
            self.peers@.len() < usize::MAX,
        ensures
            final(state)@ == self.request_vote_response_spec(old(state)@, src, res).0,
            final(o)@ == old(o)@ + self.request_vote_response_spec(old(state)@, src, res).1,
            final(state)@.inv(self.id),
    {
        self.update_term(state, res.term, o);
        if res.term < state.current_term {
            // a stale response
        } else if let State::Candidate(c) = &state.state {
            if res.granted && !votes_contains(&c.votes, src) {
                let mut votes = c.votes.clone();
                votes_insert(&mut votes, src);
                let n_votes = votes_len(&votes);
                let quorum = majority(self.peers.len() + 1);
                if n_votes < quorum - 1 {
                    let cand = candidate_state::State { votes, n_consecutive_timeouts: c.n_consecutive_timeouts };
                    *state = RaftState { current_term: state.current_term, voted_for: state.voted_for, state: State::Candidate(cand) };
                } else {
                    o.cancel_timer(RaftTimer::Election);
                    *state = RaftState {
                        current_term: state.current_term,
                        voted_for: state.voted_for,
                        state: State::Leader(leader_state::State::default()),
                    };
                    let req = RaftMsg::AppendEntriesReq(append_entries::Request { term: state.current_term });
                    o.broadcast(&self.peers, &req);
                    o.set_timer(RaftTimer::Heartbeat, self.config.heartbeat_period_ms, self.config.heartbeat_period_ms);
                }
            }
        }
    }
}

} // verus!
