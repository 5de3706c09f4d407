use vstd::prelude::*;

use crate::config::RaftConfig;
use crate::messages::RaftMsg;
use crate::out::{Command, Out};
use crate::state::{leader_state, RaftState, RaftStateView, RoleView, State};
use crate::timers::RaftTimer;
use crate::types::NodeId;

verus! {

/// An event delivered to one node: a message from a peer, or a timer firing.
#[derive(Clone, Copy, Debug, PartialEq, Eq, Hash, Structural)]
pub enum Event {
    Msg(NodeId, RaftMsg),
    Timeout(RaftTimer),
}

/// The peers of member `ix` in a cluster of `count`: every other member, in increasing order.
pub open spec fn is_cluster_peers(peers: Seq<NodeId>, ix: NodeId, count: usize) -> bool {
    &&& forall|k: int| 0 <= k < peers.len() ==> #[trigger] peers[k] < count && peers[k] != ix
    &&& forall|k: int, l: int| 0 <= k < l < peers.len() ==> peers[k] < peers[l]
    &&& forall|j: NodeId| j < count && j != ix ==> peers.contains(j)
}

/// Relies on `stateright::actor::model_peers`: the indices `0..count` other
/// than `self_ix`, in increasing order.
#[verifier::external_body]
fn model_peers(self_ix: usize, count: usize) -> (r: Vec<NodeId>)
    ensures
        is_cluster_peers(r@, self_ix, count),
        self_ix < count ==> r@.len() + 1 == count,
{
    stateright::actor::model_peers(self_ix, count).into_iter().map(usize::from).collect()
}

/// One node: its identity, its tunables and the other members of its cluster.
#[derive(Clone, Debug)]
pub struct RaftServer {
    pub id: NodeId,
    pub config: RaftConfig,
    pub peers: Vec<NodeId>,
}

impl RaftServer {
    /// Member `ix` of a cluster of `count` nodes, whose peers are all the other members.
    pub fn in_cluster(ix: NodeId, count: usize, config: RaftConfig) -> (r: RaftServer)
        ensures
            r.id == ix,
            r.config == config,
            is_cluster_peers(r.peers@, ix, count),
            ix < count ==> r.peers@.len() + 1 == count,
    {
        RaftServer { id: ix, config, peers: model_peers(ix, count) }
    }

    /// Whether `on_msg` may be called with this message.
    pub fn can_handle_msg(&self, state: &RaftState, src: NodeId, msg: &RaftMsg) -> (r: bool)
        ensures
            r == self.msg_enabled(state@, src, *msg),
    {
        self.peers.len() < usize::MAX && (!matches!(msg, RaftMsg::RequestVoteRes(_)) || src != self.id)
    }

    /// Whether `on_timeout` may be called with this timer.
    pub fn can_handle_timeout(&self, state: &RaftState, timer: RaftTimer) -> (r: bool)
        ensures
            r == self.timeout_enabled(state@, timer),
    {
        match (timer, &state.state) {
            (RaftTimer::Election, State::Follower) => state.current_term < u64::MAX,
            (RaftTimer::Election, State::Candidate(c)) => state.current_term < u64::MAX
                && c.n_consecutive_timeouts < usize::MAX,
            (RaftTimer::Heartbeat, State::Leader(l)) => l.n_consecutive_timeouts < usize::MAX,
            _ => false,
        }
    }

    /// Arming the election timer with a randomized duration from the configured range.
    pub open spec fn election_timer(&self) -> Command {
        Command::SetTimer(RaftTimer::Election, self.config.election_timeout_min_ms, self.config.election_timeout_max_ms)
    }

    /// Arming the heartbeat timer at the fixed period.
    pub open spec fn heartbeat_timer(&self) -> Command {
        Command::SetTimer(RaftTimer::Heartbeat, self.config.heartbeat_period_ms, self.config.heartbeat_period_ms)
    }

    /// The state a node starts in, and what it asks for on startup.
    pub open spec fn on_start_spec(&self) -> (RaftStateView, Seq<Command>) {
        if self.peers@.len() == 0 {
            (
                RaftStateView {
                    current_term: 0,
                    voted_for: Some(self.id),
                    role: RoleView::Leader { n_consecutive_timeouts: 0 },
                },
                Seq::empty(),
            )
        } else {
            (RaftStateView { current_term: 0, voted_for: None, role: RoleView::Follower }, seq![self.election_timer()])
        }
    }

    /// Startup: a node without peers is its own quorum and leads at term 0;
    /// any other node starts as a follower at term 0 with its election timer armed.
    pub fn on_start(&self, id: NodeId, o: &mut Out) -> (r: RaftState)
        requires
            id == self.id,
        ensures
            r@ == self.on_start_spec().0,
            final(o)@ == old(o)@ + self.on_start_spec().1,
            r@.inv(self.id),
    {
        if self.peers.len() == 0 {
            proof {
                assert(old(o)@ + Seq::<Command>::empty() == old(o)@);
            }
            RaftState { current_term: 0, voted_for: Some(id), state: State::Leader(leader_state::State::default()) }
        } else {
            o.set_timer(
                RaftTimer::Election,
                self.config.election_timeout_min_ms,
                self.config.election_timeout_max_ms,
            );
            proof {
                assert(final(o)@ == old(o)@ + seq![self.election_timer()]);
            }
            RaftState { current_term: 0, voted_for: None, state: State::Follower }
        }
    }

    /// When a message may be handled: a node never counts a vote from itself,
    /// and its cluster size (peers and itself) fits in a `usize`.
    pub open spec fn msg_enabled(&self, s: RaftStateView, src: NodeId, msg: RaftMsg) -> bool {
        &&& self.peers@.len() < usize::MAX
        &&& (msg is RequestVoteRes ==> src != self.id)
    }

    /// The effect of a message on a node's state, and the commands it yields.
    pub open spec fn on_msg_spec(&self, s: RaftStateView, src: NodeId, msg: RaftMsg) -> (RaftStateView, Seq<Command>) {
        match msg {
            RaftMsg::RequestVoteReq(req) => self.request_vote_request_spec(s, src, req),
            RaftMsg::RequestVoteRes(res) => self.request_vote_response_spec(s, src, res),
            RaftMsg::AppendEntriesReq(req) => self.append_entries_request_spec(s, src, req),
            RaftMsg::AppendEntriesRes(res) => self.append_entries_response_spec(s, res),
        }
    }

    /// When a timer may fire: the election timer never runs on a leader, the
    /// heartbeat timer only on one.
    pub open spec fn timeout_enabled(&self, s: RaftStateView, timer: RaftTimer) -> bool {
        match timer {
            RaftTimer::Election => self.election_timeout_enabled(s),
            RaftTimer::Heartbeat => self.heartbeat_timeout_enabled(s),
        }
    }

    /// The effect of a timer on a node's state, and the commands it yields.
    pub open spec fn on_timeout_spec(&self, s: RaftStateView, timer: RaftTimer) -> (RaftStateView, Seq<Command>) {
        match timer {
            RaftTimer::Election => self.election_timeout_spec(s),
            RaftTimer::Heartbeat => self.heartbeat_timeout_spec(s),
        }
    }

    pub open spec fn enabled(&self, s: RaftStateView, e: Event) -> bool {
        match e {
            Event::Msg(src, msg) => self.msg_enabled(s, src, msg),
            Event::Timeout(timer) => self.timeout_enabled(s, timer),
        }
    }

    /// One step of the node's state machine.
    pub open spec fn step(&self, s: RaftStateView, e: Event) -> (RaftStateView, Seq<Command>) {
        match e {
            Event::Msg(src, msg) => self.on_msg_spec(s, src, msg),
            Event::Timeout(timer) => self.on_timeout_spec(s, timer),
        }
    }

    /// Dispatch a message to its handler.
    pub fn on_msg(&self, state: &mut RaftState, src: NodeId, msg: RaftMsg, o: &mut Out)
        requires
            old(state)@.inv(self.id),
            self.msg_enabled(old(state)@, src, msg),
        ensures
            final(state)@ == self.on_msg_spec(old(state)@, src, msg).0,
            final(o)@ == old(o)@ + self.on_msg_spec(old(state)@, src, msg).1,
            final(state)@.inv(self.id),
            final(state).current_term >= old(state).current_term,
    {
        match msg {
            RaftMsg::RequestVoteReq(req) => self.handle_request_vote_request(state, src, req, o),
            RaftMsg::RequestVoteRes(res) => self.handle_request_vote_response(state, src, res, o),
            RaftMsg::AppendEntriesReq(req) => self.handle_append_entries_request(state, src, req, o),
            RaftMsg::AppendEntriesRes(res) => self.handle_append_entries_response(state, src, res, o),
        }
    }

    /// Dispatch a fired timer to its handler.
    pub fn on_timeout(&self, state: &mut RaftState, timer: RaftTimer, o: &mut Out)
        requires
            old(state)@.inv(self.id),
            self.timeout_enabled(old(state)@, timer),
        ensures
            final(state)@ == self.on_timeout_spec(old(state)@, timer).0,
            final(o)@ == old(o)@ + self.on_timeout_spec(old(state)@, timer).1,
            final(state)@.inv(self.id),
            final(state).current_term >= old(state).current_term,
    {
        match timer {
            RaftTimer::Election => self.on_election_timeout(state, o),
            RaftTimer::Heartbeat => self.on_heartbeat_timeout(state, o),
        }
    }
}

} // verus!
