use vstd::prelude::*;

use crate::election::majority_of;
use crate::laws::{grant, granted_to, lemma_step};
use crate::messages::{append_entries, request_vote, RaftMsg};
use crate::out::{broadcast_spec, Command};
use crate::server::{Event, RaftServer};
use crate::state::{RaftStateView, RoleView};
use crate::timers::RaftTimer;
use crate::types::{NodeId, Term};

verus! {

/// A message on the network: sender, recipient, payload.
pub type Envelope = (NodeId, NodeId, RaftMsg);

/// A whole cluster: the state of each node (indexed by identity) and every
/// message ever sent. A sent message may be delivered at any later time, any
/// number of times, or never, which covers reordering, duplication and loss;
/// a crashed node is one that takes no further step.
pub struct ClusterState {
    pub nodes: Seq<RaftStateView>,
    pub network: Set<Envelope>,
}

/// What the environment does next: deliver a sent message, or fire a timer.
pub enum Action {
    Deliver { src: NodeId, dst: NodeId, msg: RaftMsg },
    Fire { node: NodeId, timer: RaftTimer },
}

/// A vote granted in term `t`.
pub open spec fn vote_granted(t: Term) -> RaftMsg {
    RaftMsg::RequestVoteRes(request_vote::Response { term: t, granted: true })
}

/// Member `i` of `servers` has identity `i` and knows the other members of
/// the cluster as its peers.
pub open spec fn cluster_wf(servers: Seq<RaftServer>) -> bool {
    forall|i: int|
        0 <= i < servers.len() ==> #[trigger] servers[i].id == i && servers[i].peers@.len() + 1 == servers.len()
            && forall|k: int| 0 <= k < servers[i].peers@.len() ==> #[trigger] servers[i].peers@[k] < servers.len()
}

/// Every node as it starts, with nothing sent yet.
pub open spec fn init_cluster(servers: Seq<RaftServer>) -> ClusterState {
    ClusterState {
        nodes: Seq::new(servers.len(), |i: int| servers[i].on_start_spec().0),
        network: Set::empty(),
    }
}

pub open spec fn action_node(a: Action) -> NodeId {
    match a {
        Action::Deliver { dst, .. } => dst,
        Action::Fire { node, .. } => node,
    }
}

pub open spec fn action_event(a: Action) -> Event {
    match a {
        Action::Deliver { src, msg, .. } => Event::Msg(src, msg),
        Action::Fire { timer, .. } => Event::Timeout(timer),
    }
}

/// The messages that node `i` sends through `cmds`.
pub open spec fn sent_by(i: NodeId, cmds: Seq<Command>) -> Set<Envelope> {
    Set::new(
        |e: Envelope| e.0 == i && exists|k: int| 0 <= k < cmds.len() && cmds[k] == Command::Send(e.1, e.2),
    )
}

/// The action concerns a member, delivers only a message that was sent to
/// that member, and is allowed in the member's state.
pub open spec fn action_enabled(servers: Seq<RaftServer>, g: ClusterState, a: Action) -> bool {
    &&& action_node(a) < servers.len()
    &&& (a matches Action::Deliver { src, dst, msg } ==> g.network.contains((src, dst, msg)))
    &&& servers[action_node(a) as int].enabled(g.nodes[action_node(a) as int], action_event(a))
}

/// The cluster after one node handles one event.
pub open spec fn apply(servers: Seq<RaftServer>, g: ClusterState, a: Action) -> ClusterState {
    let i = action_node(a);
    let (s2, c) = servers[i as int].step(g.nodes[i as int], action_event(a));
    ClusterState { nodes: g.nodes.update(i as int, s2), network: g.network + sent_by(i, c) }
}

/// The cluster after `actions`, from the start.
pub open spec fn run_cluster(servers: Seq<RaftServer>, actions: Seq<Action>) -> ClusterState
    decreases actions.len(),
{
    if actions.len() == 0 {
        init_cluster(servers)
    } else {
        apply(servers, run_cluster(servers, actions.drop_last()), actions.last())
    }
}

/// Every action is allowed in the cluster state where it happens.
pub open spec fn valid_cluster_run(servers: Seq<RaftServer>, actions: Seq<Action>) -> bool
    decreases actions.len(),
{
    actions.len() == 0 || (valid_cluster_run(servers, actions.drop_last()) && action_enabled(
        servers,
        run_cluster(servers, actions.drop_last()),
        actions.last(),
    ))
}

/// No two nodes lead in the same term.
pub open spec fn election_safety_holds(g: ClusterState) -> bool {
    forall|i: int, j: int|
        0 <= i < g.nodes.len() && 0 <= j < g.nodes.len() && g.nodes[i].role is Leader && g.nodes[j].role is Leader
            && g.nodes[i].current_term == g.nodes[j].current_term ==> i == j
}

/// Node `c` holds, for term `t`, a quorum of members that voted for it.
pub open spec fn has_quorum(g: ClusterState, c: NodeId, t: Term, n: nat) -> bool {
    exists|q: Set<NodeId>|
        q.finite() && q.len() >= majority_of(n as int) && forall|p: NodeId| #[trigger]
            q.contains(p) ==> p < n && (p == c || g.network.contains((p, c, vote_granted(t))))
}

/// What holds in every reachable cluster state.
pub open spec fn cluster_inv(servers: Seq<RaftServer>, g: ClusterState) -> bool {
    let n = servers.len();
    &&& g.nodes.len() == n
    &&& forall|i: int| 0 <= i < n ==> #[trigger] g.nodes[i].inv(i as NodeId)
    &&& forall|e: Envelope| #[trigger] g.network.contains(e) ==> e.0 < n && e.1 < n
    &&& forall|j: NodeId, c: NodeId, t: Term|
        #[trigger] g.network.contains((j, c, vote_granted(t))) ==> t < g.nodes[j as int].current_term || (t
            == g.nodes[j as int].current_term && g.nodes[j as int].voted_for == Some(c))
    &&& forall|j: NodeId, c: NodeId, d: NodeId, t: Term|
        #[trigger] g.network.contains((j, c, vote_granted(t))) && #[trigger] g.network.contains(
            (j, d, vote_granted(t)),
        ) ==> c == d
    &&& forall|i: int|
        0 <= i < n ==> (#[trigger] g.nodes[i].role matches RoleView::Candidate { votes, .. } ==> votes.finite()
            && forall|p: NodeId|
            #[trigger] votes.contains(p) ==> g.network.contains((p, i as NodeId, vote_granted(g.nodes[i].current_term))))
    &&& forall|i: int|
        0 <= i < n && #[trigger] g.nodes[i].role is Leader ==> has_quorum(g, i as NodeId, g.nodes[i].current_term, n)
}

/// Every message a step sends goes to a peer, or answers the sender of the
/// message being handled.
proof fn lemma_step_destinations(server: RaftServer, s: RaftStateView, e: Event)
    ensures
        forall|k: int|
            0 <= k < server.step(s, e).1.len() && #[trigger] server.step(s, e).1[k] is Send ==> server.peers@.contains(
                server.step(s, e).1[k]->Send_0,
            ) || (e matches Event::Msg(src, _) && server.step(s, e).1[k]->Send_0 == src),
{
    let c = server.step(s, e).1;
    assert forall|k: int| 0 <= k < c.len() && #[trigger] c[k] is Send implies server.peers@.contains(c[k]->Send_0) || (
    e matches Event::Msg(src, _) && c[k]->Send_0 == src) by {
        let peers = server.peers@;
        match e {
            Event::Msg(src, msg) => {
                match msg {
                    RaftMsg::RequestVoteRes(res) => {
                        let (s1, c1) = server.update_term_spec(s, res.term);
                        let hb = RaftMsg::AppendEntriesReq(append_entries::Request { term: s1.current_term });
                        let pre = c1.push(Command::CancelTimer(RaftTimer::Election));
                        if c.len() > c1.len() {
                            assert(c == (pre + broadcast_spec(peers, hb)).push(server.heartbeat_timer()));
                            if pre.len() <= k < pre.len() + peers.len() {
                                assert(c[k] == broadcast_spec(peers, hb)[k - pre.len()]);
                                assert(c[k]->Send_0 == peers[k - pre.len()]);
                            }
                        }
                    },
                    _ => {},
                }
            },
            Event::Timeout(RaftTimer::Election) => {
                let term = (s.current_term + 1) as u64;
                let req = RaftMsg::RequestVoteReq(request_vote::Request { term });
                if k < peers.len() {
                    assert(c[k] == broadcast_spec(peers, req)[k]);
                    assert(c[k]->Send_0 == peers[k]);
                }
            },
            Event::Timeout(RaftTimer::Heartbeat) => {
                let hb = RaftMsg::AppendEntriesReq(append_entries::Request { term: s.current_term });
                if k < peers.len() {
                    assert(c[k] == broadcast_spec(peers, hb)[k]);
                    assert(c[k]->Send_0 == peers[k]);
                }
            },
        }
    }
}

/// A step leaves a candidate's tally empty, unchanged, or grown by the
/// sender of a vote granted in the candidate's term.
proof fn lemma_step_votes(server: RaftServer, s: RaftStateView, e: Event)
    requires
        s.inv(server.id),
        server.enabled(s, e),
    ensures
        server.step(s, e).0.role matches RoleView::Candidate { votes: v2, .. } ==> v2 == Set::<NodeId>::empty() || (
        s.role matches RoleView::Candidate { votes: v, .. } && s.current_term == server.step(s, e).0.current_term && (
        v2 == v || (e matches Event::Msg(src, msg) && msg == vote_granted(s.current_term) && v2 == v.insert(src)))),
{
}

/// A step yields a leader only from a leader of the same term, or from a
/// candidate whose fresh vote brings it to a quorum.
proof fn lemma_step_leader(server: RaftServer, s: RaftStateView, e: Event)
    requires
        s.inv(server.id),
        server.enabled(s, e),
    ensures
        server.step(s, e).0.role is Leader ==> s.current_term == server.step(s, e).0.current_term && (s.role is Leader || (
        s.role matches RoleView::Candidate { votes: v, .. } && e matches Event::Msg(src, msg) && msg == vote_granted(
            s.current_term,
        ) && src != server.id && !v.contains(src) && v.insert(src).len() + 1 >= majority_of(
            (server.peers@.len() + 1) as int,
        ))),
{
}

proof fn lemma_quorum_kept(g: ClusterState, g2: ClusterState, c: NodeId, t: Term, n: nat)
    requires
        has_quorum(g, c, t, n),
        g.network.subset_of(g2.network),
    ensures
        has_quorum(g2, c, t, n),
{
    let q = choose|q: Set<NodeId>|
        q.finite() && q.len() >= majority_of(n as int) && forall|p: NodeId| #[trigger]
            q.contains(p) ==> p < n && (p == c || g.network.contains((p, c, vote_granted(t))));
    assert(forall|p: NodeId| #[trigger]
        q.contains(p) ==> p < n && (p == c || g2.network.contains((p, c, vote_granted(t)))));
}

proof fn lemma_init(servers: Seq<RaftServer>)
    requires
        cluster_wf(servers),
    ensures
        cluster_inv(servers, init_cluster(servers)),
{
    let g = init_cluster(servers);
    let n = servers.len();
    assert forall|i: int| 0 <= i < n implies #[trigger] g.nodes[i].inv(i as NodeId) by {
        assert(servers[i].id == i);
    }
    assert forall|i: int| 0 <= i < n && #[trigger] g.nodes[i].role is Leader implies has_quorum(
        g,
        i as NodeId,
        g.nodes[i].current_term,
        n,
    ) by {
        assert(servers[i].id == i);
        let q = Set::<NodeId>::empty().insert(i as NodeId);
        assert(q.contains(i as NodeId));
        assert(q.len() == 1);
        assert(forall|p: NodeId| #[trigger] q.contains(p) ==> p < n && p == i as NodeId);
    }
}

proof fn lemma_cluster_step(servers: Seq<RaftServer>, g: ClusterState, a: Action)
    requires
        cluster_wf(servers),
        cluster_inv(servers, g),
        action_enabled(servers, g, a),
    ensures
        cluster_inv(servers, apply(servers, g, a)),
{
    let n = servers.len();
    let i = action_node(a);
    let ii = i as int;
    let e = action_event(a);
    let server = servers[ii];
    let s = g.nodes[ii];
    let s2 = server.step(s, e).0;
    let c = server.step(s, e).1;
    let g2 = apply(servers, g, a);
    assert(server.id == i);
    assert(g.nodes[ii].inv(ii as NodeId));
    assert(s.inv(i));
    lemma_step(server, s, e);
    lemma_step_destinations(server, s, e);
    lemma_step_votes(server, s, e);
    lemma_step_leader(server, s, e);
    assert(g2.nodes[ii] == s2);
    assert(g.network.subset_of(g2.network));

    assert forall|j: int| 0 <= j < n implies #[trigger] g2.nodes[j].inv(j as NodeId) by {
        if j != ii {
            assert(g2.nodes[j] == g.nodes[j]);
        }
    }

    assert forall|env: Envelope| #[trigger] g2.network.contains(env) implies env.0 < n && env.1 < n by {
        if !g.network.contains(env) {
            assert(sent_by(i, c).contains(env));
            let k = choose|k: int| 0 <= k < c.len() && c[k] == Command::Send(env.1, env.2);
            assert(c[k] is Send);
            if server.peers@.contains(env.1) {
                let m = choose|m: int| 0 <= m < server.peers@.len() && server.peers@[m] == env.1;
                assert(server.peers@[m] < n);
            } else {
                if let Action::Deliver { src, dst, msg } = a {
                    assert(g.network.contains((src, dst, msg)));
                }
            }
        }
    }

    assert forall|j: NodeId, cc: NodeId, t: Term| #[trigger] g2.network.contains((j, cc, vote_granted(t))) implies t
        < g2.nodes[j as int].current_term || (t == g2.nodes[j as int].current_term && g2.nodes[j as int].voted_for == Some(
        cc,
    )) by {
        if j == i {
            if !g.network.contains((j, cc, vote_granted(t))) {
                assert(sent_by(i, c).contains((j, cc, vote_granted(t))));
                let k = choose|k: int| 0 <= k < c.len() && c[k] == Command::Send(cc, vote_granted(t));
                assert(c[k] == grant(cc, t));
                assert(granted_to(c, cc, t));
            }
        } else {
            assert(g.network.contains((j, cc, vote_granted(t))));
            assert(g2.nodes[j as int] == g.nodes[j as int]);
        }
    }

    assert forall|j: NodeId, cc: NodeId, d: NodeId, t: Term|
        #[trigger] g2.network.contains((j, cc, vote_granted(t))) && #[trigger] g2.network.contains(
            (j, d, vote_granted(t)),
        ) implies cc == d by {
        if j == i {
            let old_c = g.network.contains((j, cc, vote_granted(t)));
            let old_d = g.network.contains((j, d, vote_granted(t)));
            if !old_c {
                assert(sent_by(i, c).contains((j, cc, vote_granted(t))));
                let k = choose|k: int| 0 <= k < c.len() && c[k] == Command::Send(cc, vote_granted(t));
                assert(c[k] == grant(cc, t));
                assert(granted_to(c, cc, t));
            }
            if !old_d {
                assert(sent_by(i, c).contains((j, d, vote_granted(t))));
                let k = choose|k: int| 0 <= k < c.len() && c[k] == Command::Send(d, vote_granted(t));
                assert(c[k] == grant(d, t));
                assert(granted_to(c, d, t));
            }
        } else {
            assert(g.network.contains((j, cc, vote_granted(t))));
            assert(g.network.contains((j, d, vote_granted(t))));
        }
    }

    assert forall|j: int|
        0 <= j < n implies (#[trigger] g2.nodes[j].role matches RoleView::Candidate { votes, .. } ==> votes.finite()
        && forall|p: NodeId|
        #[trigger] votes.contains(p) ==> g2.network.contains((p, j as NodeId, vote_granted(g2.nodes[j].current_term)))) by {
        if j != ii {
            assert(g2.nodes[j] == g.nodes[j]);
        } else if let RoleView::Candidate { votes: v2, .. } = s2.role {
            if v2 != Set::<NodeId>::empty() {
                if let RoleView::Candidate { votes: v, .. } = s.role {
                    assert forall|p: NodeId| #[trigger] v2.contains(p) implies g2.network.contains(
                        (p, i, vote_granted(s2.current_term)),
                    ) by {
                        if !v.contains(p) {
                            if let Action::Deliver { src, dst, msg } = a {
                                assert(g.network.contains((src, dst, msg)));
                            }
                        }
                    }
                }
            }
        }
    }

    assert forall|j: int| 0 <= j < n && #[trigger] g2.nodes[j].role is Leader implies has_quorum(
        g2,
        j as NodeId,
        g2.nodes[j].current_term,
        n,
    ) by {
        if j != ii {
            assert(g2.nodes[j] == g.nodes[j]);
            assert(g.nodes[j].role is Leader);
            lemma_quorum_kept(g, g2, j as NodeId, g.nodes[j].current_term, n);
        } else if s.role is Leader {
            assert(g.nodes[ii].role is Leader);
            lemma_quorum_kept(g, g2, i, s.current_term, n);
        } else if let RoleView::Candidate { votes: v, .. } = s.role {
            if let Action::Deliver { src, dst, msg } = a {
                let t = s.current_term;
                assert(g.network.contains((src, dst, msg)));
                let q = v.insert(src).insert(i);
                assert(v.finite());
                assert(!v.contains(i));
                assert(!v.insert(src).contains(i));
                assert(q.len() == v.insert(src).len() + 1);
                assert forall|p: NodeId| #[trigger] q.contains(p) implies p < n && (p == i || g2.network.contains(
                    (p, i, vote_granted(t)),
                )) by {
                    if p != i && p != src {
                        assert(v.contains(p));
                        assert(g.network.contains((p, i, vote_granted(t))));
                    }
                }
                assert(server.peers@.len() + 1 == n);
                assert(q.finite() && q.len() >= majority_of(n as int));
                assert(has_quorum(g2, i, t, n));
            }
        }
    }
}

/// Every cluster state reached by an allowed run satisfies the invariant.
proof fn lemma_run_inv(servers: Seq<RaftServer>, actions: Seq<Action>)
    requires
        cluster_wf(servers),
        valid_cluster_run(servers, actions),
    ensures
        cluster_inv(servers, run_cluster(servers, actions)),
    decreases actions.len(),
{
    if actions.len() == 0 {
        lemma_init(servers);
    } else {
        lemma_run_inv(servers, actions.drop_last());
        lemma_cluster_step(servers, run_cluster(servers, actions.drop_last()), actions.last());
    }
}

/// A finite set of identities below `n` has at most `n` members.
proof fn lemma_bounded_len(s: Set<NodeId>, n: nat)
    requires
        s.finite(),
        forall|p: NodeId| #[trigger] s.contains(p) ==> p < n,
    ensures
        s.len() <= n,
    decreases n,
{
    if n == 0 {
        if s.len() > 0 {
            let p = s.choose();
            assert(s.contains(p));
        }
    } else {
        let top = (n - 1) as int;
        if top <= usize::MAX {
            let r = s.remove(top as NodeId);
            lemma_bounded_len(r, (n - 1) as nat);
        } else {
            lemma_bounded_len(s, (n - 1) as nat);
        }
    }
}

/// Two quorums of members below `n` share a member.
proof fn lemma_quorums_meet(q1: Set<NodeId>, q2: Set<NodeId>, n: nat) -> (p: NodeId)
    requires
        q1.finite(),
        q2.finite(),
        q1.len() >= majority_of(n as int),
        q2.len() >= majority_of(n as int),
        forall|p: NodeId| #[trigger] q1.contains(p) ==> p < n,
        forall|p: NodeId| #[trigger] q2.contains(p) ==> p < n,
    ensures
        q1.contains(p) && q2.contains(p),
{
    lemma_bounded_len(q1 + q2, n);
    vstd::set_lib::lemma_set_intersect_union_lens(q1, q2);
    let both = q1.intersect(q2);
    assert(both.len() > 0);
    let p = both.choose();
    assert(both.contains(p));
    p
}

/// Election safety: in every cluster state that an allowed run reaches, no
/// two nodes are leaders of the same term.
pub proof fn lemma_election_safety(servers: Seq<RaftServer>, actions: Seq<Action>)
    requires
        cluster_wf(servers),
        valid_cluster_run(servers, actions),
    ensures
        election_safety_holds(run_cluster(servers, actions)),
{
    let g = run_cluster(servers, actions);
    let n = servers.len();
    lemma_run_inv(servers, actions);
    assert forall|i: int, j: int|
        0 <= i < g.nodes.len() && 0 <= j < g.nodes.len() && g.nodes[i].role is Leader && g.nodes[j].role is Leader
            && g.nodes[i].current_term == g.nodes[j].current_term implies i == j by {
        let t = g.nodes[i].current_term;
        assert(servers[i].id == i && servers[j].id == j);
        let a = i as NodeId;
        let b = j as NodeId;
        assert(has_quorum(g, a, t, n));
        assert(has_quorum(g, b, t, n));
        let q1 = choose|q: Set<NodeId>|
            q.finite() && q.len() >= majority_of(n as int) && forall|p: NodeId| #[trigger]
                q.contains(p) ==> p < n && (p == a || g.network.contains((p, a, vote_granted(t))));
        let q2 = choose|q: Set<NodeId>|
            q.finite() && q.len() >= majority_of(n as int) && forall|p: NodeId| #[trigger]
                q.contains(p) ==> p < n && (p == b || g.network.contains((p, b, vote_granted(t))));
        let p = lemma_quorums_meet(q1, q2, n);
        assert(q1.contains(p) && q2.contains(p));
        assert(g.nodes[i].inv(a));
        assert(g.nodes[j].inv(b));
        if p == a && p != b {
            assert(g.network.contains((p, b, vote_granted(t))));
            assert(g.nodes[p as int] == g.nodes[i]);
        } else if p == b && p != a {
            assert(g.network.contains((p, a, vote_granted(t))));
            assert(g.nodes[p as int] == g.nodes[j]);
        } else if p != a && p != b {
            assert(g.network.contains((p, a, vote_granted(t))));
            assert(g.network.contains((p, b, vote_granted(t))));
        }
    }
}

} // verus!
