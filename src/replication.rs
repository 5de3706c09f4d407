use vstd::prelude::*;

use crate::messages::{append_entries, RaftMsg};
use crate::out::{broadcast_spec, Command, Out};
use crate::server::RaftServer;
use crate::state::{leader_state, RaftState, RaftStateView, RoleView, State};
use crate::timers::RaftTimer;
use crate::types::NodeId;

verus! {

impl RaftServer {
    /// The heartbeat timer may fire only for a leader whose counter can still grow.
    pub open spec fn heartbeat_timeout_enabled(&self, s: RaftStateView) -> bool {
        s.role matches RoleView::Leader { n_consecutive_timeouts } && n_consecutive_timeouts < usize::MAX
    }

    /// A leader re-sends its heartbeat to every peer.
    pub open spec fn heartbeat_timeout_spec(&self, s: RaftStateView) -> (RaftStateView, Seq<Command>) {
        let n = match s.role {
            RoleView::Leader { n_consecutive_timeouts } => n_consecutive_timeouts,
            _ => 0,
        };
        let hb = RaftMsg::AppendEntriesReq(append_entries::Request { term: s.current_term });
        (
            RaftStateView { role: RoleView::Leader { n_consecutive_timeouts: (n + 1) as usize }, ..s },
            broadcast_spec(self.peers@, hb).push(self.heartbeat_timer()),
        )
    }

    pub fn on_heartbeat_timeout(&self, state: &mut RaftState, o: &mut Out)
        requires
            old(state)@.inv(self.id),
            self.heartbeat_timeout_enabled(old(state)@),
        ensures
            final(state)@ == self.heartbeat_timeout_spec(old(state)@).0,
            final(o)@ == old(o)@ + self.heartbeat_timeout_spec(old(state)@).1,
            final(state)@.inv(self.id),
    {
        let req = RaftMsg::AppendEntriesReq(append_entries::Request { term: state.current_term });
        o.broadcast(&self.peers, &req);
        if let State::Leader(leader) = &state.state {
            let n = leader.n_consecutive_timeouts + 1;
            state.state = State::Leader(leader_state::State { n_consecutive_timeouts: n });
        }
        o.set_timer(RaftTimer::Heartbeat, self.config.heartbeat_period_ms, self.config.heartbeat_period_ms);
    }

    /// Answer a heartbeat after the term-update rule; a heartbeat of the
    /// current term (or newer) re-arms the election timer.
    pub open spec fn append_entries_request_spec(
        &self,
        s: RaftStateView,
        src: NodeId,
        req: append_entries::Request,
    ) -> (RaftStateView, Seq<Command>) {
        let (s1, c1) = self.update_term_spec(s, req.term);
        let success = req.term >= s1.current_term;
        let c2 = if success {
            c1.push(Command::CancelTimer(RaftTimer::Election)).push(self.election_timer())
        } else {
            c1
        };
        let res = append_entries::Response { term: s1.current_term, success };
        (s1, c2.push(Command::Send(src, RaftMsg::AppendEntriesRes(res))))
    }

    pub fn handle_append_entries_request(
        &self,
        state: &mut RaftState,
        src: NodeId,
        req: append_entries::Request,
        o: &mut Out,
    )
        requires
            old(state)@.inv(self.id),
        ensures
            final(state)@ == self.append_entries_request_spec(old(state)@, src, req).0,
            final(o)@ == old(o)@ + self.append_entries_request_spec(old(state)@, src, req).1,
            final(state)@.inv(self.id),
    {
        self.update_term(state, req.term, o);
        let success = req.term >= state.current_term;
        let res = append_entries::Response { term: state.current_term, success };
        if success {
            o.cancel_timer(RaftTimer::Election);
            o.set_timer(
                RaftTimer::Election,
                self.config.election_timeout_min_ms,
                self.config.election_timeout_max_ms,
            );
        }
        o.send(src, RaftMsg::AppendEntriesRes(res));
        proof {
            assert(final(o)@ == old(o)@ + self.append_entries_request_spec(old(state)@, src, req).1);
        }
    }

    /// A heartbeat response only feeds the term-update rule: this variant
    /// keeps no replication progress.
    pub open spec fn append_entries_response_spec(
        &self,
        s: RaftStateView,
        res: append_entries::Response,
    ) -> (RaftStateView, Seq<Command>) {
        self.update_term_spec(s, res.term)
    }

    pub fn handle_append_entries_response(
        &self,
        state: &mut RaftState,
        _src: NodeId,
        res: append_entries::Response,
        o: &mut Out,
    )
        requires
            old(state)@.inv(self.id),
        ensures
            final(state)@ == self.append_entries_response_spec(old(state)@, res).0,
            final(o)@ == old(o)@ + self.append_entries_response_spec(old(state)@, res).1,
            final(state)@.inv(self.id),
    {
        self.update_term(state, res.term, o);
    }
}

} // verus!
