use vstd::prelude::*;

use crate::election::majority_of;
use crate::messages::{request_vote, RaftMsg};
use crate::out::{broadcast_spec, Command};
use crate::server::{Event, RaftServer};
use crate::state::{RaftStateView, RoleView};
use crate::timers::RaftTimer;
use crate::types::{NodeId, Term};

verus! {

/// The state reached and the commands produced by handling `events` in order from `s`.
pub open spec fn run(server: RaftServer, s: RaftStateView, events: Seq<Event>) -> (RaftStateView, Seq<Command>)
    decreases events.len(),
{
    if events.len() == 0 {
        (s, Seq::empty())
    } else {
        let (sp, cp) = run(server, s, events.drop_last());
        let (s2, c2) = server.step(sp, events.last());
        (s2, cp + c2)
    }
}

/// Every event of `events` is one that may happen in the state where it is handled.
pub open spec fn valid_run(server: RaftServer, s: RaftStateView, events: Seq<Event>) -> bool
    decreases events.len(),
{
    events.len() == 0 || (valid_run(server, s, events.drop_last()) && server.enabled(
        run(server, s, events.drop_last()).0,
        events.last(),
    ))
}

/// The response that grants a vote to `p` in term `t`.
pub open spec fn grant(p: NodeId, t: Term) -> Command {
    Command::Send(p, RaftMsg::RequestVoteRes(request_vote::Response { term: t, granted: true }))
}

/// `cmds` grants a vote to `p` in term `t`.
pub open spec fn granted_to(cmds: Seq<Command>, p: NodeId, t: Term) -> bool {
    exists|k: int| 0 <= k < cmds.len() && cmds[k] == grant(p, t)
}

proof fn lemma_granted_concat(a: Seq<Command>, b: Seq<Command>, p: NodeId, t: Term)
    ensures
        granted_to(a + b, p, t) <==> (granted_to(a, p, t) || granted_to(b, p, t)),
{
    if granted_to(a + b, p, t) {
        let k = choose|k: int| 0 <= k < (a + b).len() && (a + b)[k] == grant(p, t);
        if k >= a.len() {
            assert(b[k - a.len()] == grant(p, t));
        }
    }
    if granted_to(b, p, t) {
        let k = choose|k: int| 0 <= k < b.len() && b[k] == grant(p, t);
        assert((a + b)[k + a.len()] == grant(p, t));
    }
    if granted_to(a, p, t) {
        let k = choose|k: int| 0 <= k < a.len() && a[k] == grant(p, t);
        assert((a + b)[k] == grant(p, t));
    }
}

proof fn lemma_granted_push(a: Seq<Command>, c: Command, p: NodeId, t: Term)
    ensures
        granted_to(a.push(c), p, t) <==> (granted_to(a, p, t) || c == grant(p, t)),
{
    lemma_granted_concat(a, seq![c], p, t);
    assert(a.push(c) == a + seq![c]);
    if c == grant(p, t) {
        assert(seq![c][0] == grant(p, t));
    }
}

proof fn lemma_broadcast_grants_nothing(peers: Seq<NodeId>, msg: RaftMsg, p: NodeId, t: Term)
    requires
        !(msg is RequestVoteRes),
    ensures
        !granted_to(broadcast_spec(peers, msg), p, t),
{
    if granted_to(broadcast_spec(peers, msg), p, t) {
        let k = choose|k: int|
            0 <= k < broadcast_spec(peers, msg).len() && broadcast_spec(peers, msg)[k] == grant(p, t);
        assert(broadcast_spec(peers, msg)[k] == Command::Send(peers[k], msg));
    }
}

proof fn lemma_update_term_grants_nothing(server: RaftServer, s: RaftStateView, t0: Term, p: NodeId, t: Term)
    ensures
        !granted_to(server.update_term_spec(s, t0).1, p, t),
{
    let c = server.update_term_spec(s, t0).1;
    if granted_to(c, p, t) {
        let k = choose|k: int| 0 <= k < c.len() && c[k] == grant(p, t);
        assert(!(c[k] is Send));
    }
}

/// What every allowed step keeps: the node's consistency, a term that never
/// decreases, a vote that stays put while the term does, and a vote granted
/// only to the peer recorded in `voted_for` at the term the node ends in.
pub(crate) proof fn lemma_step(server: RaftServer, s: RaftStateView, e: Event)
    requires
        s.inv(server.id),
        server.enabled(s, e),
    ensures
        server.step(s, e).0.inv(server.id),
        server.step(s, e).0.current_term >= s.current_term,
        server.step(s, e).0.current_term == s.current_term && s.voted_for is Some ==> server.step(s, e).0.voted_for
            == s.voted_for,
        forall|p: NodeId, t: Term| #[trigger]
            granted_to(server.step(s, e).1, p, t) ==> t == server.step(s, e).0.current_term
                && server.step(s, e).0.voted_for == Some(p),
{
    let (s2, c) = server.step(s, e);
    assert forall|p: NodeId, t: Term| #[trigger] granted_to(c, p, t) implies t == s2.current_term && s2.voted_for
        == Some(p) by {
        lemma_update_term_grants_nothing(server, s, 0, p, t);
        match e {
            Event::Msg(src, msg) => {
                match msg {
                    RaftMsg::RequestVoteReq(req) => {
                        let (s1, c1) = server.update_term_spec(s, req.term);
                        lemma_update_term_grants_nothing(server, s, req.term, p, t);
                        let last = c[c.len() - 1];
                        assert(c == c1.push(last));
                        lemma_granted_push(c1, last, p, t);
                    },
                    RaftMsg::RequestVoteRes(res) => {
                        let (s1, c1) = server.update_term_spec(s, res.term);
                        lemma_update_term_grants_nothing(server, s, res.term, p, t);
                        let hb = RaftMsg::AppendEntriesReq(
                            crate::messages::append_entries::Request { term: s1.current_term },
                        );
                        lemma_granted_push(c1, Command::CancelTimer(RaftTimer::Election), p, t);
                        lemma_broadcast_grants_nothing(server.peers@, hb, p, t);
                        lemma_granted_concat(
                            c1.push(Command::CancelTimer(RaftTimer::Election)),
                            broadcast_spec(server.peers@, hb),
                            p,
                            t,
                        );
                        lemma_granted_push(
                            c1.push(Command::CancelTimer(RaftTimer::Election)) + broadcast_spec(server.peers@, hb),
                            server.heartbeat_timer(),
                            p,
                            t,
                        );
                    },
                    RaftMsg::AppendEntriesReq(req) => {
                        let (s1, c1) = server.update_term_spec(s, req.term);
                        lemma_update_term_grants_nothing(server, s, req.term, p, t);
                        lemma_granted_push(c1, Command::CancelTimer(RaftTimer::Election), p, t);
                        lemma_granted_push(
                            c1.push(Command::CancelTimer(RaftTimer::Election)),
                            server.election_timer(),
                            p,
                            t,
                        );
                        let last = c[c.len() - 1];
                        if req.term >= s1.current_term {
                            assert(c == c1.push(Command::CancelTimer(RaftTimer::Election)).push(
                                server.election_timer(),
                            ).push(last));
                            lemma_granted_push(
                                c1.push(Command::CancelTimer(RaftTimer::Election)).push(server.election_timer()),
                                last,
                                p,
                                t,
                            );
                        } else {
                            assert(c == c1.push(last));
                            lemma_granted_push(c1, last, p, t);
                        }
                    },
                    RaftMsg::AppendEntriesRes(res) => {
                        lemma_update_term_grants_nothing(server, s, res.term, p, t);
                    },
                }
            },
            Event::Timeout(RaftTimer::Election) => {
                let term = (s.current_term + 1) as u64;
                let req = RaftMsg::RequestVoteReq(request_vote::Request { term });
                lemma_broadcast_grants_nothing(server.peers@, req, p, t);
                lemma_granted_push(broadcast_spec(server.peers@, req), server.election_timer(), p, t);
            },
            Event::Timeout(RaftTimer::Heartbeat) => {
                let hb = RaftMsg::AppendEntriesReq(
                    crate::messages::append_entries::Request { term: s.current_term },
                );
                lemma_broadcast_grants_nothing(server.peers@, hb, p, t);
                lemma_granted_push(broadcast_spec(server.peers@, hb), server.heartbeat_timer(), p, t);
            },
        }
    }
}

/// Consistency is kept along every allowed run, and the term never decreases along it.
pub proof fn lemma_term_never_decreases(server: RaftServer, s: RaftStateView, events: Seq<Event>)
    requires
        s.inv(server.id),
        valid_run(server, s, events),
    ensures
        run(server, s, events).0.inv(server.id),
        run(server, s, events).0.current_term >= s.current_term,
    decreases events.len(),
{
    if events.len() > 0 {
        lemma_term_never_decreases(server, s, events.drop_last());
        lemma_step(server, run(server, s, events.drop_last()).0, events.last());
    }
}

/// Once a vote is cast, it stays cast, for the same peer, for as long as the term does not change.
pub proof fn lemma_vote_kept_within_term(server: RaftServer, s: RaftStateView, events: Seq<Event>)
    requires
        s.inv(server.id),
        valid_run(server, s, events),
        s.voted_for is Some,
        run(server, s, events).0.current_term == s.current_term,
    ensures
        run(server, s, events).0.voted_for == s.voted_for,
    decreases events.len(),
{
    if events.len() > 0 {
        let sp = run(server, s, events.drop_last()).0;
        lemma_term_never_decreases(server, s, events.drop_last());
        lemma_step(server, sp, events.last());
        lemma_vote_kept_within_term(server, s, events.drop_last());
    }
}

/// Along any allowed run, a node grants its vote for a term to one peer at
/// most (granting it again to that same peer is allowed).
pub proof fn lemma_vote_once(server: RaftServer, s: RaftStateView, events: Seq<Event>, p: NodeId, q: NodeId, t: Term)
    requires
        s.inv(server.id),
        valid_run(server, s, events),
        granted_to(run(server, s, events).1, p, t),
        granted_to(run(server, s, events).1, q, t),
    ensures
        p == q,
{
    lemma_grants_recorded(server, s, events);
}

/// The grants of a run: each is for a term already passed, or for the
/// current term and to the peer that the node voted for; and no two grants
/// of one term go to different peers.
proof fn lemma_grants_recorded(server: RaftServer, s: RaftStateView, events: Seq<Event>)
    requires
        s.inv(server.id),
        valid_run(server, s, events),
    ensures
        forall|p: NodeId, t: Term| #[trigger]
            granted_to(run(server, s, events).1, p, t) ==> t < run(server, s, events).0.current_term || (t
                == run(server, s, events).0.current_term && run(server, s, events).0.voted_for == Some(p)),
        forall|p: NodeId, q: NodeId, t: Term|
            #[trigger] granted_to(run(server, s, events).1, p, t) && #[trigger] granted_to(
                run(server, s, events).1,
                q,
                t,
            ) ==> p == q,
    decreases events.len(),
{
    if events.len() > 0 {
        let (sp, cp) = run(server, s, events.drop_last());
        let (s2, c2) = server.step(sp, events.last());
        lemma_grants_recorded(server, s, events.drop_last());
        lemma_term_never_decreases(server, s, events.drop_last());
        lemma_step(server, sp, events.last());
        assert(run(server, s, events) == (s2, cp + c2));
        assert forall|p: NodeId, t: Term| #[trigger] granted_to(cp + c2, p, t) implies t < s2.current_term || (t
            == s2.current_term && s2.voted_for == Some(p)) by {
            lemma_granted_concat(cp, c2, p, t);
        }
        assert forall|p: NodeId, q: NodeId, t: Term|
            #[trigger] granted_to(cp + c2, p, t) && #[trigger] granted_to(cp + c2, q, t) implies p == q by {
            lemma_granted_concat(cp, c2, p, t);
            lemma_granted_concat(cp, c2, q, t);
            if granted_to(cp, p, t) && granted_to(cp, q, t) {
            } else if granted_to(c2, p, t) && granted_to(c2, q, t) {
            } else {
                assert(granted_to(cp, p, t) ==> t < sp.current_term || sp.voted_for == Some(p));
                assert(granted_to(cp, q, t) ==> t < sp.current_term || sp.voted_for == Some(q));
            }
        }
    }
}

/// A candidate that receives, at its own term, a granted vote from a peer
/// not yet counted, bringing its tally (itself included) to a quorum, becomes
/// leader at that term: it first cancels its election timer and, after
/// announcing itself to every peer, arms its heartbeat timer.
pub proof fn lemma_promotion(server: RaftServer, s: RaftStateView, src: NodeId, res: request_vote::Response)
    requires
        s.role matches RoleView::Candidate { votes, .. } && !votes.contains(src) && votes.insert(src).len() + 1
            >= majority_of((server.peers@.len() + 1) as int),
        res.term == s.current_term,
        res.granted,
    ensures
        server.request_vote_response_spec(s, src, res).0 == (RaftStateView {
            role: RoleView::Leader { n_consecutive_timeouts: 0 },
            ..s
        }),
        server.request_vote_response_spec(s, src, res).1.len() == server.peers@.len() + 2,
        server.request_vote_response_spec(s, src, res).1[0] == Command::CancelTimer(RaftTimer::Election),
        server.request_vote_response_spec(s, src, res).1.last() == server.heartbeat_timer(),
{
}

/// A leader is never promoted again: a vote response at its term or an
/// older one leaves its state as it is and asks for nothing.
pub proof fn lemma_leader_stays(server: RaftServer, s: RaftStateView, src: NodeId, res: request_vote::Response)
    requires
        s.role is Leader,
        res.term <= s.current_term,
    ensures
        server.request_vote_response_spec(s, src, res) == (s, Seq::<Command>::empty()),
{
}

} // verus!
