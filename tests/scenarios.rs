use raft_stateright::config::RaftConfig;
use raft_stateright::messages::{append_entries, request_vote, RaftMsg};
use raft_stateright::out::{Command, Out};
use raft_stateright::server::RaftServer;
use raft_stateright::state::{RaftState, State};
use raft_stateright::timers::RaftTimer;

fn cluster(n: usize) -> Vec<RaftServer> {
    (0..n).map(|i| RaftServer::in_cluster(i, n, RaftConfig::default())).collect()
}

fn start(servers: &[RaftServer]) -> Vec<RaftState> {
    servers.iter().map(|s| s.on_start(s.id, &mut Out::new())).collect()
}

fn deliver(server: &RaftServer, state: &mut RaftState, src: usize, msg: RaftMsg) -> Vec<Command> {
    let mut o = Out::new();
    server.on_msg(state, src, msg, &mut o);
    o.commands
}

fn fire(server: &RaftServer, state: &mut RaftState, timer: RaftTimer) -> Vec<Command> {
    let mut o = Out::new();
    server.on_timeout(state, timer, &mut o);
    o.commands
}

fn votes_len(state: &RaftState) -> usize {
    match &state.state {
        State::Candidate(c) => c.votes.len(),
        _ => panic!("not a candidate"),
    }
}

#[test]
fn single_node_leads_at_start() {
    let server = RaftServer::in_cluster(0, 1, RaftConfig::default());
    assert!(server.peers.is_empty());
    let mut o = Out::new();
    let state = server.on_start(0, &mut o);
    assert_eq!(state.current_term, 0);
    assert_eq!(state.voted_for, Some(0));
    assert!(matches!(state.state, State::Leader(ref l) if l.n_consecutive_timeouts == 0));
    assert!(o.commands.is_empty());
}

#[test]
fn follower_starts_with_election_timer() {
    let servers = cluster(3);
    let mut o = Out::new();
    let state = servers[1].on_start(1, &mut o);
    assert_eq!(state.current_term, 0);
    assert_eq!(state.voted_for, None);
    assert!(matches!(state.state, State::Follower));
    assert_eq!(o.commands, vec![Command::SetTimer(RaftTimer::Election, 150, 300)]);
}

#[test]
fn three_nodes_elect_first_candidate() {
    let servers = cluster(3);
    let mut states = start(&servers);

    let cmds = fire(&servers[0], &mut states[0], RaftTimer::Election);
    let req = RaftMsg::RequestVoteReq(request_vote::Request { term: 1 });
    assert_eq!(
        cmds,
        vec![Command::Send(1, req), Command::Send(2, req), Command::SetTimer(RaftTimer::Election, 150, 300)]
    );
    assert_eq!(states[0].current_term, 1);
    assert_eq!(states[0].voted_for, Some(0));
    assert_eq!(votes_len(&states[0]), 0);

    let yes = RaftMsg::RequestVoteRes(request_vote::Response { term: 1, granted: true });
    for i in 1..3 {
        let cmds = deliver(&servers[i], &mut states[i], 0, req);
        assert_eq!(
            cmds,
            vec![
                Command::CancelTimer(RaftTimer::Election),
                Command::SetTimer(RaftTimer::Election, 150, 300),
                Command::Send(0, yes),
            ]
        );
        assert_eq!(states[i].current_term, 1);
        assert_eq!(states[i].voted_for, Some(0));
        assert!(matches!(states[i].state, State::Follower));
    }

    let cmds = deliver(&servers[0], &mut states[0], 1, yes);
    let hb = RaftMsg::AppendEntriesReq(append_entries::Request { term: 1 });
    assert_eq!(
        cmds,
        vec![
            Command::CancelTimer(RaftTimer::Election),
            Command::Send(1, hb),
            Command::Send(2, hb),
            Command::SetTimer(RaftTimer::Heartbeat, 75, 75),
        ]
    );
    assert!(states[0].is_leader());
    assert_eq!(states[0].current_term, 1);

    // the second grant arrives after the promotion and changes nothing
    let before = states[0].clone();
    let cmds = deliver(&servers[0], &mut states[0], 2, yes);
    assert!(cmds.is_empty());
    assert_eq!(states[0], before);

    let ok = RaftMsg::AppendEntriesRes(append_entries::Response { term: 1, success: true });
    for i in 1..3 {
        let cmds = deliver(&servers[i], &mut states[i], 0, hb);
        assert_eq!(
            cmds,
            vec![
                Command::CancelTimer(RaftTimer::Election),
                Command::SetTimer(RaftTimer::Election, 150, 300),
                Command::Send(0, ok),
            ]
        );
    }
}

#[test]
fn split_vote_retries_at_next_term() {
    let servers = cluster(3);
    let mut states = start(&servers);

    fire(&servers[0], &mut states[0], RaftTimer::Election);
    fire(&servers[1], &mut states[1], RaftTimer::Election);
    let req1 = RaftMsg::RequestVoteReq(request_vote::Request { term: 1 });

    // the candidates refuse each other: each has voted for itself
    let no = RaftMsg::RequestVoteRes(request_vote::Response { term: 1, granted: false });
    let yes = RaftMsg::RequestVoteRes(request_vote::Response { term: 1, granted: true });
    assert_eq!(deliver(&servers[1], &mut states[1], 0, req1), vec![Command::Send(0, no)]);
    assert_eq!(deliver(&servers[0], &mut states[0], 1, req1), vec![Command::Send(1, no)]);

    // node 2 grants the request that arrives first and refuses the other
    assert_eq!(deliver(&servers[2], &mut states[2], 1, req1).last(), Some(&Command::Send(1, yes)));
    assert_eq!(deliver(&servers[2], &mut states[2], 0, req1), vec![Command::Send(0, no)]);
    assert_eq!(states[2].voted_for, Some(1));

    // the grant to node 1 is lost on the network: neither candidate reaches a quorum
    deliver(&servers[0], &mut states[0], 1, no);
    deliver(&servers[1], &mut states[1], 0, no);
    deliver(&servers[0], &mut states[0], 2, no);
    assert!(!states[0].is_leader());
    assert!(!states[1].is_leader());

    for i in 0..2 {
        let cmds = fire(&servers[i], &mut states[i], RaftTimer::Election);
        assert_eq!(states[i].current_term, 2);
        assert_eq!(states[i].voted_for, Some(i));
        assert_eq!(votes_len(&states[i]), 0);
        assert!(matches!(states[i].state, State::Candidate(ref c) if c.n_consecutive_timeouts == 1));
        assert_eq!(cmds.last(), Some(&Command::SetTimer(RaftTimer::Election, 150, 300)));
    }
}

#[test]
fn stale_heartbeat_response_changes_nothing() {
    let servers = cluster(3);
    let mut state = RaftState { current_term: 5, voted_for: Some(0), state: State::Leader(Default::default()) };
    let before = state.clone();
    let res = RaftMsg::AppendEntriesRes(append_entries::Response { term: 3, success: false });
    let cmds = deliver(&servers[0], &mut state, 1, res);
    assert!(cmds.is_empty());
    assert_eq!(state, before);
}
