use raft_stateright::config::RaftConfig;
use raft_stateright::messages::{append_entries, request_vote, RaftMsg};
use raft_stateright::out::{Command, Out};
use raft_stateright::server::RaftServer;
use raft_stateright::state::candidate_state;
use raft_stateright::state::{leader_state, RaftState, State};
use raft_stateright::timers::RaftTimer;
use stateright::actor::majority;

fn server(id: usize, n: usize) -> RaftServer {
    RaftServer::in_cluster(id, n, RaftConfig::default())
}

fn follower(term: u64, voted_for: Option<usize>) -> RaftState {
    RaftState { current_term: term, voted_for, state: State::Follower }
}

#[test]
fn test_quorum_size_formula() {
    println!("Servers | Quorum Size");
    let expected = [1, 2, 2, 3, 3, 4, 4];
    for n_servers in 1..=7 {
        println!("{} | {}", n_servers, majority(n_servers));
        assert_eq!(majority(n_servers), expected[n_servers - 1]);
    }
}

#[test]
fn default_config_values() {
    let c = RaftConfig::default();
    assert_eq!(c.election_timeout_min_ms, 150);
    assert_eq!(c.election_timeout_max_ms, 300);
    assert_eq!(c.heartbeat_period_ms, 75);
    assert_eq!(c.max_term, u64::MAX);
}

#[test]
fn cluster_peers_exclude_self() {
    assert_eq!(server(1, 4).peers, vec![0, 2, 3]);
    assert_eq!(server(0, 3).peers, vec![1, 2]);
    assert!(server(0, 1).peers.is_empty());
}

#[test]
fn higher_term_demotes_leader() {
    let s = server(0, 3);
    let mut state = RaftState { current_term: 2, voted_for: Some(0), state: State::Leader(leader_state::State::default()) };
    let mut o = Out::new();
    s.update_term(&mut state, 4, &mut o);
    assert_eq!(state, follower(4, None));
    assert_eq!(
        o.commands,
        vec![Command::CancelTimer(RaftTimer::Heartbeat), Command::SetTimer(RaftTimer::Election, 150, 300)]
    );
}

#[test]
fn equal_or_lower_term_is_ignored() {
    let s = server(0, 3);
    let mut state = follower(3, Some(2));
    let mut o = Out::new();
    s.update_term(&mut state, 3, &mut o);
    s.update_term(&mut state, 1, &mut o);
    assert_eq!(state, follower(3, Some(2)));
    assert!(o.commands.is_empty());
}

#[test]
fn stale_vote_request_is_refused() {
    let s = server(0, 3);
    let mut state = follower(4, None);
    let mut o = Out::new();
    s.handle_request_vote_request(&mut state, 1, request_vote::Request { term: 3 }, &mut o);
    assert_eq!(state, follower(4, None));
    let no = RaftMsg::RequestVoteRes(request_vote::Response { term: 4, granted: false });
    assert_eq!(o.commands, vec![Command::Send(1, no)]);
}

#[test]
fn vote_is_granted_once_per_term() {
    let s = server(0, 3);
    let mut state = follower(2, None);
    let mut o = Out::new();
    s.handle_request_vote_request(&mut state, 1, request_vote::Request { term: 2 }, &mut o);
    s.handle_request_vote_request(&mut state, 2, request_vote::Request { term: 2 }, &mut o);
    s.handle_request_vote_request(&mut state, 1, request_vote::Request { term: 2 }, &mut o);
    let grant = RaftMsg::RequestVoteRes(request_vote::Response { term: 2, granted: true });
    let refuse = RaftMsg::RequestVoteRes(request_vote::Response { term: 2, granted: false });
    assert_eq!(o.commands, vec![Command::Send(1, grant), Command::Send(2, refuse), Command::Send(1, grant)]);
    assert_eq!(state.voted_for, Some(1));
}

#[test]
fn newer_term_resets_vote_before_granting() {
    let s = server(0, 3);
    let mut state = follower(2, Some(1));
    let mut o = Out::new();
    s.handle_request_vote_request(&mut state, 2, request_vote::Request { term: 3 }, &mut o);
    assert_eq!(state, follower(3, Some(2)));
    let grant = RaftMsg::RequestVoteRes(request_vote::Response { term: 3, granted: true });
    assert_eq!(o.commands.last(), Some(&Command::Send(2, grant)));
}

#[test]
fn duplicate_vote_is_counted_once() {
    let s = server(0, 5);
    let mut state = follower(0, None);
    let mut o = Out::new();
    s.on_election_timeout(&mut state, &mut o);
    let yes = request_vote::Response { term: 1, granted: true };
    s.handle_request_vote_response(&mut state, 1, yes, &mut o);
    s.handle_request_vote_response(&mut state, 1, yes, &mut o);
    match &state.state {
        State::Candidate(c) => {
            assert_eq!(c.votes.len(), 1);
            assert!(c.votes.contains(1));
            assert!(!c.votes.contains(0));
        }
        _ => panic!("expected a candidate"),
    }
    // the third member of a quorum of five arrives
    let mut o = Out::new();
    s.handle_request_vote_response(&mut state, 3, yes, &mut o);
    assert!(state.is_leader());
    assert_eq!(o.commands.first(), Some(&Command::CancelTimer(RaftTimer::Election)));
    assert_eq!(o.commands.last(), Some(&Command::SetTimer(RaftTimer::Heartbeat, 75, 75)));
    assert_eq!(o.commands.len(), 6);
}

#[test]
fn refused_vote_is_not_counted() {
    let s = server(0, 3);
    let mut state = follower(0, None);
    let mut o = Out::new();
    s.on_election_timeout(&mut state, &mut o);
    let mut o = Out::new();
    s.handle_request_vote_response(&mut state, 1, request_vote::Response { term: 1, granted: false }, &mut o);
    assert!(o.commands.is_empty());
    assert!(matches!(state.state, State::Candidate(ref c) if c.votes.len() == 0));
}

#[test]
fn higher_term_response_demotes_candidate() {
    let s = server(0, 3);
    let mut state = follower(0, None);
    let mut o = Out::new();
    s.on_election_timeout(&mut state, &mut o);
    let mut o = Out::new();
    s.handle_request_vote_response(&mut state, 2, request_vote::Response { term: 7, granted: true }, &mut o);
    assert_eq!(state, follower(7, None));
    assert_eq!(
        o.commands,
        vec![Command::CancelTimer(RaftTimer::Election), Command::SetTimer(RaftTimer::Election, 150, 300)]
    );
}

#[test]
fn term_never_decreases_over_events() {
    let s = server(0, 3);
    let mut state = s.on_start(0, &mut Out::new());
    let mut o = Out::new();
    let mut last = state.current_term;
    let msgs = [
        RaftMsg::AppendEntriesReq(append_entries::Request { term: 2 }),
        RaftMsg::RequestVoteReq(request_vote::Request { term: 1 }),
        RaftMsg::AppendEntriesRes(append_entries::Response { term: 0, success: true }),
        RaftMsg::RequestVoteRes(request_vote::Response { term: 5, granted: true }),
    ];
    for m in msgs {
        s.on_msg(&mut state, 1, m, &mut o);
        assert!(state.current_term >= last);
        last = state.current_term;
    }
    s.on_timeout(&mut state, RaftTimer::Election, &mut o);
    assert_eq!(state.current_term, 6);
}

#[test]
fn heartbeat_counts_consecutive_timeouts() {
    let s = server(0, 3);
    let mut state = RaftState { current_term: 3, voted_for: Some(0), state: State::Leader(leader_state::State::default()) };
    let mut o = Out::new();
    s.on_heartbeat_timeout(&mut state, &mut o);
    s.on_heartbeat_timeout(&mut state, &mut o);
    assert_eq!(state.state, State::Leader(leader_state::State { n_consecutive_timeouts: 2 }));
    let hb = RaftMsg::AppendEntriesReq(append_entries::Request { term: 3 });
    assert_eq!(
        &o.commands[0..3],
        &[Command::Send(1, hb), Command::Send(2, hb), Command::SetTimer(RaftTimer::Heartbeat, 75, 75)]
    );
}

#[test]
fn stale_heartbeat_is_rejected_without_timer_reset() {
    let s = server(1, 3);
    let mut state = follower(4, None);
    let mut o = Out::new();
    s.handle_append_entries_request(&mut state, 0, append_entries::Request { term: 3 }, &mut o);
    let res = RaftMsg::AppendEntriesRes(append_entries::Response { term: 4, success: false });
    assert_eq!(o.commands, vec![Command::Send(0, res)]);
    assert_eq!(state, follower(4, None));
}

#[test]
fn candidate_restart_clears_votes() {
    let s = server(0, 5);
    let mut state = follower(0, None);
    let mut o = Out::new();
    s.on_election_timeout(&mut state, &mut o);
    s.handle_request_vote_response(&mut state, 2, request_vote::Response { term: 1, granted: true }, &mut o);
    s.on_election_timeout(&mut state, &mut o);
    assert_eq!(state.current_term, 2);
    assert_eq!(state.voted_for, Some(0));
    match &state.state {
        State::Candidate(c) => {
            assert_eq!(c.votes.len(), 0);
            assert_eq!(c.n_consecutive_timeouts, 1);
        }
        _ => panic!("expected a candidate"),
    }
}

#[test]
fn consistency_and_enabledness_checks() {
    let s = server(0, 3);
    let votes = candidate_state::Votes::new();
    assert_eq!(votes.len(), 0);
    let cand = RaftState {
        current_term: 1,
        voted_for: Some(0),
        state: State::Candidate(candidate_state::State { votes: votes.clone(), n_consecutive_timeouts: 0 }),
    };
    assert!(cand.is_consistent(0));
    assert!(!cand.is_consistent(1));
    let leader = RaftState { current_term: 1, voted_for: None, state: State::Leader(leader_state::State::default()) };
    assert!(!leader.is_consistent(0));
    assert!(follower(1, None).is_consistent(0));
    assert!(s.can_handle_timeout(&cand, RaftTimer::Election));
    assert!(!s.can_handle_timeout(&cand, RaftTimer::Heartbeat));
    assert!(!s.can_handle_timeout(&follower(u64::MAX, None), RaftTimer::Election));
    let res = RaftMsg::RequestVoteRes(request_vote::Response { term: 1, granted: true });
    assert!(!s.can_handle_msg(&cand, 0, &res));
    assert!(s.can_handle_msg(&cand, 1, &res));
}
