use raft::server::{RaftServer, State};
use std::time::{Duration, Instant};

#[test]
fn new_server_is_follower() {
    let s = RaftServer::new(1, vec![2, 3], Duration::from_millis(200));
    assert_eq!(s.id, 1);
    assert_eq!(s.state, State::Follower);
    assert_eq!(s.current_term, 0);
    assert_eq!(s.voted_for, None);
    assert_eq!(s.peers, vec![2, 3]);
    assert_eq!(s.election_timeout, Duration::from_millis(200));
}

#[test]
fn heartbeat_from_newer_term_makes_follower() {
    let mut s = RaftServer::new(1, vec![2], Duration::from_millis(200));
    s.state = State::Leader;
    s.current_term = 3;
    s.receive_heartbeat(5);
    assert_eq!(s.current_term, 5);
    assert_eq!(s.state, State::Follower);
}

#[test]
fn heartbeat_from_same_term_makes_follower() {
    let mut s = RaftServer::new(1, vec![2], Duration::from_millis(200));
    s.state = State::Candidate;
    s.current_term = 4;
    s.receive_heartbeat(4);
    assert_eq!(s.current_term, 4);
    assert_eq!(s.state, State::Follower);
}

#[test]
fn heartbeat_from_older_term_is_ignored() {
    let mut s = RaftServer::new(1, vec![2], Duration::from_millis(200));
    s.state = State::Leader;
    s.current_term = 4;
    let before = s.last_heartbeat;
    s.receive_heartbeat(2);
    assert_eq!(s.current_term, 4);
    assert_eq!(s.state, State::Leader);
    assert_eq!(s.last_heartbeat, before);
}

#[test]
fn heartbeat_at_records_time() {
    let mut s = RaftServer::new(1, vec![], Duration::from_millis(200));
    let later = s.last_heartbeat + Duration::from_millis(5);
    s.receive_heartbeat_at(1, later);
    assert_eq!(s.last_heartbeat, later);
}

#[test]
fn follower_times_out_to_candidate() {
    let mut s = RaftServer::new(1, vec![2], Duration::from_millis(200));
    let now = Instant::now();
    s.tick_at(false, now);
    assert_eq!(s.state, State::Follower);
    s.tick_at(true, now);
    assert_eq!(s.state, State::Candidate);
    assert_eq!(s.current_term, 0);
}

#[test]
fn candidate_takes_next_term_and_leads() {
    let mut s = RaftServer::new(7, vec![2], Duration::from_millis(200));
    s.state = State::Candidate;
    s.current_term = 2;
    s.tick_at(false, Instant::now());
    assert_eq!(s.state, State::Leader);
    assert_eq!(s.current_term, 3);
    assert_eq!(s.voted_for, Some(7));
}

#[test]
fn leader_refreshes_heartbeat() {
    let mut s = RaftServer::new(1, vec![2], Duration::from_millis(200));
    s.state = State::Leader;
    let later = s.last_heartbeat + Duration::from_millis(50);
    s.tick_at(true, later);
    assert_eq!(s.state, State::Leader);
    assert_eq!(s.last_heartbeat, later);
}

#[test]
fn tick_with_long_timeout_keeps_follower() {
    let mut s = RaftServer::new(1, vec![2], Duration::from_secs(3600));
    s.tick();
    assert_eq!(s.state, State::Follower);
}

#[test]
fn tick_with_zero_timeout_starts_election() {
    let mut s = RaftServer::new(1, vec![2], Duration::from_nanos(0));
    let start = Instant::now();
    while start.elapsed() < Duration::from_millis(2) {}
    s.tick();
    assert_eq!(s.state, State::Candidate);
}

#[test]
fn new_at_starts_heartbeat_timer_then() {
    let now = Instant::now();
    let s = RaftServer::new_at(3, vec![1], Duration::from_millis(10), now);
    assert_eq!(s.last_heartbeat, now);
    assert_eq!(s.state, State::Follower);
    assert_eq!(s.current_term, 0);
}
