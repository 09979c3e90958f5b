use raft::log_entry::LogEntry;
use raft::state::State;

fn entry(term: u64, command: &[u8]) -> LogEntry {
    LogEntry { term, command: command.to_vec() }
}

fn state_with_terms(terms: &[u64]) -> State {
    let mut s = State::new();
    for (i, t) in terms.iter().enumerate() {
        s.log.push(entry(*t, &[i as u8]));
    }
    s
}

fn terms(s: &State) -> Vec<u64> {
    s.log.iter().map(|e| e.term).collect()
}

#[test]
fn new_state_is_empty() {
    let s = State::new();
    assert_eq!(s.current_term, 0);
    assert_eq!(s.voted_for, None);
    assert_eq!(s.commit_index, 0);
    assert_eq!(s.last_applied, 0);
    assert_eq!(s.last_log_index, 0);
    assert_eq!(s.last_log_term, 0);
    assert!(s.log.is_empty());
    assert_eq!(s.last_log_index(), 0);
    assert_eq!(s.last_log_term(), 0);
}

#[test]
fn log_entry_clone_keeps_fields() {
    let e = entry(7, b"set x 1");
    let c = e.clone();
    assert_eq!(c.term, 7);
    assert_eq!(c.command, b"set x 1".to_vec());
}

#[test]
fn last_log_position_and_term() {
    let s = state_with_terms(&[1, 1, 3]);
    assert_eq!(s.last_log_index(), 3);
    assert_eq!(s.last_log_term(), 3);
}

#[test]
fn prev_log_matching() {
    let s = state_with_terms(&[1, 2]);
    assert!(s.prev_log_matches(0, 99));
    assert!(s.prev_log_matches(1, 1));
    assert!(s.prev_log_matches(2, 2));
    assert!(!s.prev_log_matches(2, 1));
    assert!(!s.prev_log_matches(3, 2));
}

#[test]
fn up_to_date_comparison() {
    let s = state_with_terms(&[1, 2]);
    // shorter log of the candidate
    assert!(!s.is_up_to_date(1, 5));
    // same length, older last term
    assert!(!s.is_up_to_date(2, 1));
    // same length, same last term
    assert!(s.is_up_to_date(2, 2));
    // longer log
    assert!(s.is_up_to_date(3, 0));
}

#[test]
fn commit_index_follows_leader_capped_by_log() {
    let mut s = state_with_terms(&[1, 1, 1]);
    s.advance_commit_index(2);
    assert_eq!(s.commit_index, 2);
    s.advance_commit_index(10);
    assert_eq!(s.commit_index, 3);
    s.advance_commit_index(1);
    assert_eq!(s.commit_index, 3);
}

#[test]
fn append_behind_end_extends_log() {
    let mut s = state_with_terms(&[1, 1]);
    let new = vec![entry(2, b"a"), entry(2, b"b")];
    assert!(!s.append_would_overrun(2, &new));
    s.append_entries(2, &new);
    assert_eq!(terms(&s), vec![1, 1, 2, 2]);
    assert_eq!(s.log[3].command, b"b".to_vec());
}

#[test]
fn append_on_empty_log() {
    let mut s = State::new();
    let new = vec![entry(1, b"x")];
    s.append_entries(0, &new);
    assert_eq!(terms(&s), vec![1]);
}

#[test]
fn append_conflict_cuts_log() {
    // prev_index 0: the first new entry is compared with log[1].
    let mut s = state_with_terms(&[1, 1, 1, 1]);
    let new = vec![entry(2, b"n")];
    assert!(!s.append_would_overrun(0, &new));
    s.append_entries(0, &new);
    assert_eq!(terms(&s), vec![1]);
}

#[test]
fn append_matching_entries_keeps_log() {
    let mut s = state_with_terms(&[1, 1, 2, 2]);
    // compares new[0] with log[1] and new[1] with log[2]
    let new = vec![entry(1, b"p"), entry(2, b"q")];
    assert!(!s.append_would_overrun(0, &new));
    s.append_entries(0, &new);
    assert_eq!(terms(&s), vec![1, 1, 2, 2]);
    assert_eq!(s.log[1].command, vec![1u8]);
}

#[test]
fn append_overrun_is_detected() {
    let s = state_with_terms(&[1, 1]);
    // prev_index 1: new[0] would be compared with log[2], past the end.
    assert!(s.append_would_overrun(1, &vec![entry(1, b"x")]));
    // prev_index 0 with two matching entries runs past the end too.
    assert!(s.append_would_overrun(0, &vec![entry(1, b"x"), entry(1, b"y")]));
    // a conflict before the end stops the walk.
    assert!(!s.append_would_overrun(0, &vec![entry(3, b"x"), entry(1, b"y")]));
    // appending behind the end never overruns.
    assert!(!s.append_would_overrun(2, &vec![entry(1, b"x")]));
}
