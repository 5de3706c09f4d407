use raft_stateright::checker::cli::{CommandArgs, ConfigError, NetworkArg};
use raft_stateright::checker::properties::{election_safety, leader_elected_or_bounded, within_boundary};
use raft_stateright::state::candidate_state;
use raft_stateright::state::{leader_state, RaftState, State};

fn leader(term: u64, id: usize) -> RaftState {
    RaftState { current_term: term, voted_for: Some(id), state: State::Leader(leader_state::State::default()) }
}

fn follower(term: u64) -> RaftState {
    RaftState { current_term: term, voted_for: None, state: State::Follower }
}

fn candidate(term: u64, id: usize, timeouts: usize) -> RaftState {
    RaftState {
        current_term: term,
        voted_for: Some(id),
        state: State::Candidate(candidate_state::State {
            votes: candidate_state::Votes::new(),
            n_consecutive_timeouts: timeouts,
        }),
    }
}

fn args(server_count: usize, max_crashes: usize) -> CommandArgs {
    CommandArgs {
        server_count,
        network: NetworkArg::Ordered,
        lossy_network: false,
        max_term: 3,
        max_timeouts: 2,
        max_crashes,
    }
}

#[test]
fn leaders_of_distinct_terms_are_safe() {
    assert!(election_safety(&vec![leader(1, 0), follower(1), leader(2, 2)]));
    assert!(election_safety(&vec![]));
    assert!(election_safety(&vec![follower(1), follower(1)]));
}

#[test]
fn two_leaders_in_one_term_are_unsafe() {
    assert!(!election_safety(&vec![leader(1, 0), follower(2), leader(1, 2)]));
}

#[test]
fn leadership_or_bound_reached() {
    assert!(leader_elected_or_bounded(&vec![follower(1), leader(1, 1)], 5, 3));
    assert!(!leader_elected_or_bounded(&vec![follower(1), candidate(2, 1, 0)], 5, 3));
    assert!(leader_elected_or_bounded(&vec![follower(5), candidate(2, 1, 0)], 5, 3));
    assert!(leader_elected_or_bounded(&vec![follower(1), candidate(2, 1, 3)], 5, 3));
    assert!(!leader_elected_or_bounded(&vec![], 5, 3));
}

#[test]
fn boundary_on_term_and_timeouts() {
    assert!(within_boundary(&vec![follower(5), candidate(2, 1, 3)], 5, 3));
    assert!(!within_boundary(&vec![follower(6)], 5, 3));
    assert!(!within_boundary(&vec![candidate(2, 1, 4)], 5, 3));
}

#[test]
fn crash_tolerance_needs_enough_servers() {
    assert_eq!(args(3, 1).validate(), Ok(()));
    assert_eq!(args(1, 0).validate(), Ok(()));
    assert_eq!(args(5, 2).validate(), Ok(()));
    assert_eq!(args(4, 2).validate(), Err(ConfigError::TooFewServers { server_count: 4, max_crashes: 2 }));
    assert_eq!(args(0, 0).validate(), Err(ConfigError::TooFewServers { server_count: 0, max_crashes: 0 }));
}
