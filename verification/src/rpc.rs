use vstd::prelude::*;

use crate::log_entry::{entries_view, LogEntry, LogEntryView};

verus! {

/// A leader's request to replicate `entries` behind position
/// `prev_log_index`, whose entry must have term `prev_log_term`; an empty
/// list of entries makes it a heartbeat.
#[derive(Debug)]
pub struct AppendEntriesRequest {
    pub term: u64,
    pub leader_id: u64,
    pub prev_log_index: u64,
    pub prev_log_term: u64,
    pub entries: Vec<LogEntry>,
    pub leader_commit: u64,
}

/// An append-entries request as mathematical values.
pub struct AppendEntriesRequestView {
    pub term: u64,
    pub leader_id: u64,
    pub prev_log_index: u64,
    pub prev_log_term: u64,
    pub entries: Seq<LogEntryView>,
    pub leader_commit: u64,
}

impl View for AppendEntriesRequest {
    type V = AppendEntriesRequestView;

    open spec fn view(&self) -> AppendEntriesRequestView {
        AppendEntriesRequestView {
            term: self.term,
            leader_id: self.leader_id,
            prev_log_index: self.prev_log_index,
            prev_log_term: self.prev_log_term,
            entries: entries_view(self.entries@),
            leader_commit: self.leader_commit,
        }
    }
}

/// The answer to an append-entries request: the receiver's term, whether
/// the entries were accepted, and the receiver's commit index.
#[derive(Debug, Clone, Copy, PartialEq, Eq, Structural)]
pub struct AppendEntriesResponse {
    pub term: u64,
    pub success: bool,
    pub match_index: u64,
}

/// A candidate's request for a vote, with the last position and term of its log.
#[derive(Debug, Clone, Copy, PartialEq, Eq, Structural)]
pub struct RequestVoteRequest {
    pub term: u64,
    pub candidate_id: u64,
    pub last_log_index: u64,
    pub last_log_term: u64,
}

/// The answer to a vote request: the receiver's term and whether it voted
/// for the candidate.
#[derive(Debug, Clone, Copy, PartialEq, Eq, Structural)]
pub struct RequestVoteResponse {
    pub term: u64,
    pub vote_granted: bool,
}

} // verus!
