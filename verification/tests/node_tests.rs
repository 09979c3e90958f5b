use raft::log_entry::LogEntry;
use raft::node::{count_votes, RaftNodeCore, TickAction};
use raft::role::RoleType;
use raft::rpc::{AppendEntriesRequest, RequestVoteRequest, RequestVoteResponse};
use raft::state::{State, StateView};
use raft::storage::{Storage, StorageError};
use std::time::Duration;

struct MemStorage {
    saved: Option<State>,
    saves: usize,
}

fn copy_state(s: &State) -> State {
    State {
        current_term: s.current_term,
        voted_for: s.voted_for,
        commit_index: s.commit_index,
        last_applied: s.last_applied,
        last_log_index: s.last_log_index,
        last_log_term: s.last_log_term,
        log: s.log.clone(),
    }
}

impl Storage for MemStorage {
    fn saved_states(&self) -> vstd::seq::Seq<StateView> {
        unreachable!()
    }
    fn save_state(&mut self, state: &State) -> Result<(), StorageError> {
        self.saved = Some(copy_state(state));
        self.saves += 1;
        Ok(())
    }
    fn load_state(&self) -> Result<State, StorageError> {
        match &self.saved {
            Some(s) => Ok(copy_state(s)),
            None => Err(StorageError { message: "nothing saved".to_string() }),
        }
    }
    fn append_log(&mut self, _entries: &[LogEntry]) -> Result<(), StorageError> {
        Ok(())
    }
    fn get_log(&self, _index: u64) -> Result<Option<LogEntry>, StorageError> {
        Ok(None)
    }
    fn get_logs(&self, _start: u64, _end: u64) -> Result<Vec<LogEntry>, StorageError> {
        Ok(Vec::new())
    }
    fn truncate_suffix(&mut self, _from_index: u64) -> Result<(), StorageError> {
        Ok(())
    }
    fn last_log_entry(&self) -> Result<Option<LogEntry>, StorageError> {
        Ok(None)
    }
    fn term_at(&self, _index: u64) -> Result<Option<u64>, StorageError> {
        Ok(None)
    }
}

fn empty_storage() -> MemStorage {
    MemStorage { saved: None, saves: 0 }
}

fn entry(term: u64) -> LogEntry {
    LogEntry { term, command: vec![term as u8] }
}

/// A follower in `term` whose log holds entries with the given terms.
fn node_with(term: u64, terms: &[u64]) -> RaftNodeCore<MemStorage, ()> {
    let mut s = State::new();
    s.current_term = term;
    for t in terms {
        s.log.push(entry(*t));
    }
    RaftNodeCore::with_loaded_state(1, vec![2, 3], empty_storage(), (), Ok(s), 200, tokio::time::Instant::now())
}

fn append_req(term: u64, prev_index: u64, prev_term: u64, entries: Vec<LogEntry>, commit: u64) -> AppendEntriesRequest {
    AppendEntriesRequest { term, leader_id: 2, prev_log_index: prev_index, prev_log_term: prev_term, entries, leader_commit: commit }
}

fn vote_req(term: u64, candidate: u64, last_index: u64, last_term: u64) -> RequestVoteRequest {
    RequestVoteRequest { term, candidate_id: candidate, last_log_index: last_index, last_log_term: last_term }
}

#[test]
fn new_node_without_saved_state() {
    let n: RaftNodeCore<MemStorage, ()> = RaftNodeCore::new(5, vec![6, 7], empty_storage(), ());
    assert_eq!(n.id(), 5);
    assert_eq!(n.peers(), &vec![6, 7]);
    assert_eq!(n.get_role(), RoleType::Follower);
    assert_eq!(n.state().current_term, 0);
    assert!(n.state().log.is_empty());
    assert!(n.election_timeout_ms() >= 150 && n.election_timeout_ms() < 300);
    assert_eq!(n.heartbeat_interval_ms(), 50);
}

#[test]
fn new_node_loads_saved_state() {
    let mut storage = empty_storage();
    let mut s = State::new();
    s.current_term = 9;
    s.voted_for = Some(3);
    s.log.push(entry(9));
    storage.saved = Some(s);
    let n: RaftNodeCore<MemStorage, ()> = RaftNodeCore::new(1, vec![], storage, ());
    assert_eq!(n.state().current_term, 9);
    assert_eq!(n.state().voted_for, Some(3));
    assert_eq!(n.state().log.len(), 1);
}

#[test]
fn loaded_state_error_gives_fresh_state() {
    let now = tokio::time::Instant::now();
    let n: RaftNodeCore<MemStorage, ()> = RaftNodeCore::with_loaded_state(
        1, vec![2], empty_storage(), (), Err(StorageError { message: "disk".to_string() }), 170, now);
    assert_eq!(n.state().current_term, 0);
    assert_eq!(n.election_timeout_ms(), 170);
    assert_eq!(n.last_heartbeat(), now);
}

#[test]
fn append_entries_from_older_term_is_refused() {
    let mut n = node_with(5, &[1]);
    let r = n.process_append_entries(append_req(4, 1, 1, vec![entry(4)], 1));
    assert_eq!(r.term, 5);
    assert!(!r.success);
    assert_eq!(r.match_index, 0);
    assert_eq!(n.state().log.len(), 1);
    assert_eq!(n.state().current_term, 5);
}

#[test]
fn append_entries_from_newer_term_steps_down() {
    let mut n = node_with(3, &[]);
    n.on_tick_at(1_000_000_000, tokio::time::Instant::now()); // follower -> candidate in term 4
    assert_eq!(n.get_role(), RoleType::Candidate);
    let r = n.process_append_entries(append_req(7, 0, 0, vec![], 0));
    assert_eq!(r.term, 7);
    assert!(!r.success);
    assert_eq!(n.get_role(), RoleType::Follower);
    assert_eq!(n.state().current_term, 7);
    assert_eq!(n.state().voted_for, None);
    assert!(n.election_timeout_ms() >= 150 && n.election_timeout_ms() < 300);
}

#[test]
fn append_entries_with_missing_prev_entry_is_refused() {
    let mut n = node_with(2, &[1]);
    let r = n.process_append_entries(append_req(2, 3, 1, vec![entry(2)], 0));
    assert!(!r.success);
    let r = n.process_append_entries(append_req(2, 1, 2, vec![entry(2)], 0));
    assert!(!r.success);
    assert_eq!(n.state().log.len(), 1);
}

#[test]
fn append_entries_appends_and_commits() {
    let mut n = node_with(2, &[1]);
    let t0 = n.last_heartbeat();
    let later = t0 + Duration::from_millis(30);
    let r = n.process_append_entries_at(append_req(2, 1, 1, vec![entry(2), entry(2)], 2), later);
    assert!(r.success);
    assert_eq!(r.term, 2);
    assert_eq!(r.match_index, 2);
    assert_eq!(n.state().log.iter().map(|e| e.term).collect::<Vec<_>>(), vec![1, 2, 2]);
    assert_eq!(n.state().commit_index, 2);
    assert_eq!(n.last_heartbeat(), later);
}

#[test]
fn append_entries_commit_capped_by_log() {
    let mut n = node_with(2, &[2]);
    let r = n.process_append_entries(append_req(2, 1, 2, vec![], 10));
    assert!(r.success);
    assert_eq!(r.match_index, 1);
}

#[test]
fn append_entries_to_empty_log() {
    let mut n = node_with(2, &[]);
    let r = n.process_append_entries(append_req(2, 0, 0, vec![entry(2)], 0));
    assert!(r.success);
    assert_eq!(n.state().log.len(), 1);
    assert_eq!(n.state().log[0].term, 2);
}

#[test]
fn append_entries_overrun_is_reported() {
    let n = node_with(2, &[1, 1]);
    assert!(n.append_entries_would_overrun(&append_req(2, 1, 1, vec![entry(1)], 0)));
    assert!(!n.append_entries_would_overrun(&append_req(2, 2, 1, vec![entry(2)], 0)));
    assert!(!n.append_entries_would_overrun(&append_req(1, 1, 1, vec![entry(1)], 0)));
}

#[test]
fn vote_from_older_term_is_refused() {
    let mut n = node_with(5, &[]);
    let r = n.process_request_vote(vote_req(4, 2, 10, 4));
    assert_eq!(r.term, 5);
    assert!(!r.vote_granted);
}

#[test]
fn vote_from_newer_term_steps_down_and_refuses() {
    let mut n = node_with(5, &[]);
    let r = n.process_request_vote(vote_req(6, 2, 10, 6));
    assert_eq!(r.term, 6);
    assert!(!r.vote_granted);
    assert_eq!(n.state().current_term, 6);
    assert_eq!(n.state().voted_for, None);
    assert_eq!(n.get_role(), RoleType::Follower);
}

#[test]
fn vote_granted_once_per_term() {
    let mut n = node_with(5, &[]);
    let r = n.process_request_vote(vote_req(5, 2, 0, 0));
    assert!(r.vote_granted);
    assert_eq!(n.state().voted_for, Some(2));
    let r = n.process_request_vote(vote_req(5, 3, 0, 0));
    assert!(!r.vote_granted);
    let r = n.process_request_vote(vote_req(5, 2, 0, 0));
    assert!(r.vote_granted);
}

#[test]
fn vote_refused_to_stale_log() {
    let mut n = node_with(5, &[1, 3]);
    assert!(!n.process_request_vote(vote_req(5, 2, 1, 5)).vote_granted);
    assert!(!n.process_request_vote(vote_req(5, 2, 2, 2)).vote_granted);
    assert!(n.process_request_vote(vote_req(5, 2, 2, 3)).vote_granted);
}

#[test]
fn follower_tick_before_timeout_does_nothing() {
    let mut n = node_with(1, &[]);
    let a = n.on_tick_at(199_999_999, tokio::time::Instant::now());
    assert!(matches!(a, TickAction::Idle));
    assert_eq!(n.get_role(), RoleType::Follower);
    assert_eq!(n.state().current_term, 1);
}

#[test]
fn follower_tick_after_timeout_starts_election() {
    let mut n = node_with(1, &[]);
    let a = n.on_tick_at(200_000_000, tokio::time::Instant::now());
    assert!(matches!(a, TickAction::Idle));
    assert_eq!(n.get_role(), RoleType::Candidate);
    assert_eq!(n.state().current_term, 2);
    assert_eq!(n.state().voted_for, Some(1));
}

#[test]
fn candidate_tick_requests_votes() {
    let mut n = node_with(1, &[1, 2]);
    n.on_tick_at(1_000_000_000, tokio::time::Instant::now());
    let a = n.on_tick_at(n.election_timeout_ms() as u128 * 1_000_000, tokio::time::Instant::now());
    match a {
        TickAction::RequestVotes(req) => {
            assert_eq!(req, vote_req(2, 1, 2, 2));
        }
        _ => panic!("expected a vote request"),
    }
}

#[test]
fn election_with_majority_makes_leader_then_heartbeats() {
    let mut n = node_with(1, &[1]);
    n.on_tick_at(1_000_000_000, tokio::time::Instant::now());
    let req = vote_req(2, 1, 1, 1);
    let answers = vec![
        RequestVoteResponse { term: 2, vote_granted: true },
        RequestVoteResponse { term: 2, vote_granted: false },
    ];
    n.on_vote_results(&req, &answers);
    assert_eq!(n.get_role(), RoleType::Leader);
    assert_eq!(n.state().voted_for, None);
    assert_eq!(n.state().commit_index, 1);
    let now = n.last_heartbeat() + Duration::from_millis(60);
    let a = n.on_tick_at(50_000_000, now);
    match a {
        TickAction::SendHeartbeats(hb) => {
            assert_eq!(hb.term, 2);
            assert_eq!(hb.leader_id, 1);
            assert_eq!(hb.prev_log_index, 1);
            assert_eq!(hb.prev_log_term, 1);
            assert!(hb.entries.is_empty());
            assert_eq!(hb.leader_commit, 1);
        }
        _ => panic!("expected heartbeats"),
    }
    assert_eq!(n.last_heartbeat(), now);
    let a = n.on_tick_at(49_999_999, now);
    assert!(matches!(a, TickAction::Idle));
}

#[test]
fn election_without_majority_steps_down() {
    let mut n = node_with(1, &[]);
    n.on_tick_at(1_000_000_000, tokio::time::Instant::now());
    let req = vote_req(2, 1, 0, 0);
    let answers = vec![
        RequestVoteResponse { term: 2, vote_granted: false },
        RequestVoteResponse { term: 2, vote_granted: false },
    ];
    n.on_vote_results(&req, &answers);
    assert_eq!(n.get_role(), RoleType::Follower);
    assert_eq!(n.state().current_term, 2);
    assert_eq!(n.state().voted_for, None);
}

#[test]
fn votes_counted_with_own_vote() {
    let answers = vec![
        RequestVoteResponse { term: 1, vote_granted: true },
        RequestVoteResponse { term: 1, vote_granted: false },
        RequestVoteResponse { term: 1, vote_granted: true },
    ];
    assert_eq!(count_votes(&answers), 3);
    assert_eq!(count_votes(&vec![]), 1);
}

#[test]
fn single_node_wins_alone() {
    let now = tokio::time::Instant::now();
    let mut n: RaftNodeCore<MemStorage, ()> =
        RaftNodeCore::with_loaded_state(1, vec![], empty_storage(), (), Ok(State::new()), 150, now);
    n.on_tick_at(150_000_000, now);
    n.on_vote_results(&vote_req(1, 1, 0, 0), &vec![]);
    assert_eq!(n.get_role(), RoleType::Leader);
}

#[test]
fn tick_reads_clock() {
    let mut n = node_with(1, &[]);
    let a = n.on_tick();
    assert!(matches!(a, TickAction::Idle));
    assert_eq!(n.get_role(), RoleType::Follower);
}

#[test]
fn leader_heartbeat_accepted_by_equal_log() {
    let mut leader = node_with(1, &[1, 1]);
    leader.on_tick_at(1_000_000_000, tokio::time::Instant::now());
    leader.on_vote_results(&vote_req(2, 1, 2, 1), &vec![RequestVoteResponse { term: 2, vote_granted: true }]);
    assert_eq!(leader.get_role(), RoleType::Leader);
    let hb = match leader.on_tick_at(60_000_000, tokio::time::Instant::now()) {
        TickAction::SendHeartbeats(hb) => hb,
        _ => panic!("expected heartbeats"),
    };
    let mut follower = node_with(2, &[1, 1]);
    let r = follower.process_append_entries(hb);
    assert!(r.success);
    assert_eq!(follower.state().log.len(), 2);
    assert_eq!(follower.state().commit_index, 2);
    assert_eq!(r.match_index, 2);
}

#[test]
fn candidate_request_granted_by_equal_log() {
    let mut candidate = node_with(1, &[1]);
    candidate.on_tick_at(1_000_000_000, tokio::time::Instant::now());
    let req = match candidate.on_tick_at(1_000_000_000, tokio::time::Instant::now()) {
        TickAction::RequestVotes(req) => req,
        _ => panic!("expected a vote request"),
    };
    let mut voter = node_with(2, &[1]);
    let r = voter.process_request_vote(req);
    assert!(r.vote_granted);
    assert_eq!(voter.state().voted_for, Some(1));
}

#[test]
fn tick_keeps_log_and_commit() {
    let mut n = node_with(3, &[1, 2, 3]);
    let before: Vec<u64> = n.state().log.iter().map(|e| e.term).collect();
    n.on_tick_at(u128::MAX, tokio::time::Instant::now());
    n.on_tick_at(u128::MAX, tokio::time::Instant::now());
    let after: Vec<u64> = n.state().log.iter().map(|e| e.term).collect();
    assert_eq!(before, after);
    assert_eq!(n.state().commit_index, 0);
    assert_eq!(n.state().current_term, 4);
}

#[test]
fn accepted_append_keeps_prefix() {
    let mut n = node_with(2, &[1, 1, 1]);
    // prev_log_index 1 with a conflict at log[2]: entries at positions up to 1 stay.
    let r = n.process_append_entries(append_req(2, 1, 1, vec![entry(2)], 0));
    assert!(r.success);
    assert_eq!(n.state().log.len(), 2);
    assert_eq!(n.state().log[0].term, 1);
}

#[test]
fn granted_vote_is_saved_with_the_vote() {
    let mut n = node_with(5, &[]);
    assert!(!n.process_request_vote(vote_req(4, 2, 0, 0)).vote_granted);
    assert_eq!(n.storage().saves, 0);
    assert!(n.process_request_vote(vote_req(5, 2, 0, 0)).vote_granted);
    assert_eq!(n.storage().saves, 1);
    assert_eq!(n.storage().saved.as_ref().unwrap().voted_for, Some(2));
    assert!(!n.process_request_vote(vote_req(5, 3, 0, 0)).vote_granted);
    assert_eq!(n.storage().saves, 1);
    assert!(!n.process_request_vote(vote_req(6, 3, 0, 0)).vote_granted);
    assert_eq!(n.storage().saves, 1);
}

#[test]
fn accepted_append_is_saved_refused_is_not() {
    let mut n = node_with(2, &[1]);
    assert!(!n.process_append_entries(append_req(1, 1, 1, vec![entry(1)], 0)).success);
    assert!(!n.process_append_entries(append_req(2, 1, 9, vec![entry(2)], 0)).success);
    assert_eq!(n.storage().saves, 0);
    assert!(n.process_append_entries(append_req(2, 1, 1, vec![entry(2)], 2)).success);
    assert_eq!(n.storage().saves, 1);
    let saved = n.storage().saved.as_ref().unwrap();
    assert_eq!(saved.log.len(), 2);
    assert_eq!(saved.commit_index, 2);
}

#[test]
fn leadership_is_saved_ticks_and_lost_elections_are_not() {
    let mut n = node_with(1, &[1]);
    n.on_tick_at(1_000_000_000, tokio::time::Instant::now());
    assert_eq!(n.storage().saves, 0);
    n.on_vote_results(&vote_req(2, 1, 1, 1), &vec![RequestVoteResponse { term: 2, vote_granted: true }]);
    assert_eq!(n.get_role(), RoleType::Leader);
    assert_eq!(n.storage().saves, 1);
    let saved = n.storage().saved.as_ref().unwrap();
    assert_eq!(saved.commit_index, 1);
    assert_eq!(saved.voted_for, None);

    let mut m = node_with(1, &[]);
    m.on_tick_at(1_000_000_000, tokio::time::Instant::now());
    m.on_vote_results(&vote_req(2, 1, 0, 0), &vec![]);
    assert_eq!(m.get_role(), RoleType::Follower);
    assert_eq!(m.storage().saves, 0);
}

#[test]
fn heartbeat_without_entries_keeps_log() {
    let mut n = node_with(2, &[1, 2]);
    let r = n.process_append_entries(append_req(2, 1, 1, vec![], 0));
    assert!(r.success);
    assert_eq!(n.state().log.len(), 2);
}

#[test]
fn run_keeps_terms_and_role_order() {
    let mut n = node_with(1, &[1]);
    let mut terms = vec![n.state().current_term];
    let mut roles = vec![n.get_role()];
    n.on_tick_at(1_000_000_000, tokio::time::Instant::now());
    terms.push(n.state().current_term);
    roles.push(n.get_role());
    n.process_append_entries(append_req(1, 0, 0, vec![], 0));
    terms.push(n.state().current_term);
    roles.push(n.get_role());
    n.on_vote_results(&vote_req(2, 1, 1, 1), &vec![RequestVoteResponse { term: 2, vote_granted: true }]);
    terms.push(n.state().current_term);
    roles.push(n.get_role());
    n.process_request_vote(vote_req(5, 3, 1, 1));
    terms.push(n.state().current_term);
    roles.push(n.get_role());
    assert_eq!(terms, vec![1, 2, 2, 2, 5]);
    assert_eq!(roles, vec![RoleType::Follower, RoleType::Candidate, RoleType::Candidate, RoleType::Leader, RoleType::Follower]);
}

#[test]
fn heartbeat_needs_no_length_bound_on_empty_entries() {
    let mut n = node_with(3, &[3, 3, 3]);
    let r = n.process_append_entries(append_req(3, 3, 3, vec![], 1));
    assert!(r.success);
    assert_eq!(n.state().log.len(), 3);
    assert_eq!(n.storage().saves, 1);
}
