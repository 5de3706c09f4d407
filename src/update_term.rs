use vstd::prelude::*;

use crate::out::{Command, Out};
use crate::server::RaftServer;
use crate::state::{RaftState, RaftStateView, RoleView, State};
use crate::timers::RaftTimer;
use crate::types::Term;

verus! {

impl RaftServer {
    /// The term-update rule: on seeing a newer term, adopt it, forget the
    /// vote, and fall back to follower with a freshly armed election timer
    /// (after cancelling the timer that the old role held).
    pub open spec fn update_term_spec(&self, s: RaftStateView, new_term: Term) -> (RaftStateView, Seq<Command>) {
        if new_term > s.current_term {
            let held = if s.role is Leader {
                RaftTimer::Heartbeat
            } else {
                RaftTimer::Election
            };
            (
                RaftStateView { current_term: new_term, voted_for: None, role: RoleView::Follower },
                seq![Command::CancelTimer(held), self.election_timer()],
            )
        } else {
            (s, Seq::empty())
        }
    }

    pub fn update_term(&self, state: &mut RaftState, new_term: Term, o: &mut Out)
        requires
            old(state)@.inv(self.id),
        ensures
            final(state)@ == self.update_term_spec(old(state)@, new_term).0,
            final(o)@ == old(o)@ + self.update_term_spec(old(state)@, new_term).1,
            final(state)@.inv(self.id),
            final(state).current_term >= old(state).current_term,
            final(state).current_term > old(state).current_term ==> final(state).voted_for is None,
    {
        if new_term > state.current_term {
            if state.is_leader() {
                o.cancel_timer(RaftTimer::Heartbeat);
            } else {
                o.cancel_timer(RaftTimer::Election);
            }
            *state = RaftState { current_term: new_term, voted_for: None, state: State::Follower };
            o.set_timer(
                RaftTimer::Election,
                self.config.election_timeout_min_ms,
                self.config.election_timeout_max_ms,
            );
            proof {
                assert(final(o)@ == old(o)@ + self.update_term_spec(old(state)@, new_term).1);
            }
        } else {
            proof {
                assert(old(o)@ + Seq::<Command>::empty() == old(o)@);
            }
        }
    }
}

} // verus!
