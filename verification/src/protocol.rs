use vstd::prelude::*;

use crate::role::RoleType;
use crate::rpc::{AppendEntriesRequestView, AppendEntriesResponse, RequestVoteRequest, RequestVoteResponse};
use crate::state::{
    commit_after, last_term_of, lemma_append_cases, log_after_append, log_up_to_date,
    prev_entry_matches, StateView,
};

verus! {

/// What a node's protocol decisions read and write: its identity, its
/// peers, its role and its persistent state. Timers and the storage and
/// transport handles are kept apart.
#[verifier::ext_equal]
pub struct NodeView {
    pub id: u64,
    pub peers: Seq<u64>,
    pub role: RoleType,
    pub state: StateView,
}

/// The node after stepping down to follower in `term`: its vote is cleared.
pub open spec fn step_down(v: NodeView, term: u64) -> NodeView {
    NodeView {
        role: RoleType::Follower,
        state: StateView { current_term: term, voted_for: None, ..v.state },
        ..v
    }
}

/// The node after starting an election: candidate in the next term, with
/// its own vote.
pub open spec fn start_election(v: NodeView) -> NodeView {
    NodeView {
        role: RoleType::Candidate,
        state: StateView {
            current_term: (v.state.current_term + 1) as u64,
            voted_for: Some(v.id),
            ..v.state
        },
        ..v
    }
}

/// The node after winning an election: leader with no vote recorded, and
/// everything in its log counted as committed.
pub open spec fn take_leadership(v: NodeView) -> NodeView {
    NodeView {
        role: RoleType::Leader,
        state: StateView {
            voted_for: None,
            commit_index: v.state.log.len() as u64,
            ..v.state
        },
        ..v
    }
}

/// A negative answer to an append-entries request.
pub open spec fn append_refused(v: NodeView) -> AppendEntriesResponse {
    AppendEntriesResponse {
        term: v.state.current_term,
        success: false,
        match_index: v.state.commit_index,
    }
}

/// How a node handles an append-entries request: the node afterwards and
/// its answer.
/// - An older term is refused.
/// - A newer term makes the node step down to follower in that term, and
///   the request is refused.
/// - A log without the entry at `prev_log_index` with `prev_log_term`
///   refuses the request.
/// - Otherwise the entries are appended, the commit index follows the
///   leader's, and the request succeeds.
pub open spec fn append_entries_step(v: NodeView, req: AppendEntriesRequestView) -> (NodeView, AppendEntriesResponse) {
    let s = v.state;
    if req.term < s.current_term {
        (v, append_refused(v))
    } else if req.term > s.current_term {
        let v2 = step_down(v, req.term);
        (v2, append_refused(v2))
    } else if !prev_entry_matches(s.log, req.prev_log_index, req.prev_log_term) {
        (v, append_refused(v))
    } else {
        let log2 = log_after_append(s.log, req.prev_log_index as int, req.entries);
        let commit2 = commit_after(s.commit_index, req.leader_commit, log2.len());
        let v2 = NodeView { state: StateView { log: log2, commit_index: commit2, ..s }, ..v };
        (v2, AppendEntriesResponse { term: s.current_term, success: true, match_index: commit2 })
    }
}

/// An append-entries request reaches the append and the append would
/// compare a new entry with the position just past the end of the log.
pub open spec fn append_entries_overruns(v: NodeView, req: AppendEntriesRequestView) -> bool {
    &&& req.term == v.state.current_term
    &&& prev_entry_matches(v.state.log, req.prev_log_index, req.prev_log_term)
    &&& crate::state::append_overruns(v.state.log, req.prev_log_index as int, req.entries)
}

/// The vote checks once the terms agree: a node that voted for someone else
/// in this term refuses, and so does one whose log is more up to date than
/// the candidate's; otherwise it records its vote for the candidate.
pub open spec fn vote_in_term(v: NodeView, req: RequestVoteRequest) -> (NodeView, RequestVoteResponse) {
    let s = v.state;
    let refused = RequestVoteResponse { term: s.current_term, vote_granted: false };
    if s.voted_for is Some && s.voted_for->0 != req.candidate_id {
        (v, refused)
    } else if !log_up_to_date(s.log, req.last_log_index, req.last_log_term) {
        (v, refused)
    } else {
        (
            NodeView { state: StateView { voted_for: Some(req.candidate_id), ..s }, ..v },
            RequestVoteResponse { term: s.current_term, vote_granted: true },
        )
    }
}

/// How a node handles a vote request when a newer term ends the handling:
/// an older term is refused, a newer term makes the node step down and
/// refuse, and the same term goes through the vote checks.
pub open spec fn request_vote_step(v: NodeView, req: RequestVoteRequest) -> (NodeView, RequestVoteResponse) {
    if req.term < v.state.current_term {
        (v, RequestVoteResponse { term: v.state.current_term, vote_granted: false })
    } else if req.term > v.state.current_term {
        let v2 = step_down(v, req.term);
        (v2, RequestVoteResponse { term: req.term, vote_granted: false })
    } else {
        vote_in_term(v, req)
    }
}

/// How a node handles a vote request when a newer term only makes it step
/// down first: an older term is refused, and otherwise the vote checks run
/// in the (possibly new) term.
pub open spec fn request_vote_step_after_step_down(v: NodeView, req: RequestVoteRequest) -> (NodeView, RequestVoteResponse) {
    if req.term < v.state.current_term {
        (v, RequestVoteResponse { term: v.state.current_term, vote_granted: false })
    } else if req.term > v.state.current_term {
        vote_in_term(step_down(v, req.term), req)
    } else {
        vote_in_term(v, req)
    }
}

/// A role change that follows the protocol's order: the role stays, the
/// node falls back to follower, a follower becomes candidate, or a
/// candidate becomes leader.
pub open spec fn role_change_in_order(before: RoleType, after: RoleType) -> bool {
    ||| before == after
    ||| after == RoleType::Follower
    ||| (before == RoleType::Follower && after == RoleType::Candidate)
    ||| (before == RoleType::Candidate && after == RoleType::Leader)
}

/// The heartbeat a leader sends: its term and ID, the last position and
/// term of its log, no entries, and its commit index.
pub open spec fn heartbeat_for(v: NodeView) -> AppendEntriesRequestView {
    AppendEntriesRequestView {
        term: v.state.current_term,
        leader_id: v.id,
        prev_log_index: v.state.log.len() as u64,
        prev_log_term: last_term_of(v.state.log),
        entries: Seq::empty(),
        leader_commit: v.state.commit_index,
    }
}

/// The vote request a candidate sends: its term and ID, and the last
/// position and term of its log.
pub open spec fn vote_request_for(v: NodeView) -> RequestVoteRequest {
    RequestVoteRequest {
        term: v.state.current_term,
        candidate_id: v.id,
        last_log_index: v.state.log.len() as u64,
        last_log_term: last_term_of(v.state.log),
    }
}

/// How many of the answers grant the vote.
pub open spec fn granted_count(responses: Seq<RequestVoteResponse>) -> nat
    decreases responses.len(),
{
    if responses.len() == 0 {
        0
    } else {
        granted_count(responses.drop_last()) + if responses.last().vote_granted {
            1nat
        } else {
            0nat
        }
    }
}

/// A candidate's own vote together with the granted answers is more than
/// half of the cluster, the peers and the candidate itself.
pub open spec fn wins_election(v: NodeView, responses: Seq<RequestVoteResponse>) -> bool {
    1 + granted_count(responses) > (v.peers.len() + 1) / 2
}

/// Granted answers are never more than the answers.
pub proof fn lemma_granted_count_bound(responses: Seq<RequestVoteResponse>)
    ensures
        granted_count(responses) <= responses.len(),
    decreases responses.len(),
{
    if responses.len() > 0 {
        lemma_granted_count_bound(responses.drop_last());
    }
}

// ---------------------------------------------------------------------------
// Laws of the request handlers.

/// After an append-entries request the node's term is the larger of its
/// old term and the request's, and the answer carries that term.
pub proof fn lemma_append_entries_adopts_newer_term(v: NodeView, req: AppendEntriesRequestView)
    ensures
        ({
            let (v2, resp) = append_entries_step(v, req);
            &&& v2.state.current_term == if req.term > v.state.current_term {
                req.term
            } else {
                v.state.current_term
            }
            &&& resp.term == v2.state.current_term
        }),
{
}

/// A request from an older term is refused and changes nothing.
pub proof fn lemma_stale_append_entries_refused(v: NodeView, req: AppendEntriesRequestView)
    requires
        req.term < v.state.current_term,
    ensures
        append_entries_step(v, req).0 == v,
        !append_entries_step(v, req).1.success,
{
}

/// An append-entries request succeeds exactly when its term is the node's
/// term and the node's log holds the entry it names at `prev_log_index`.
pub proof fn lemma_append_entries_success(v: NodeView, req: AppendEntriesRequestView)
    ensures
        append_entries_step(v, req).1.success <==> (req.term == v.state.current_term
            && prev_entry_matches(v.state.log, req.prev_log_index, req.prev_log_term)),
{
}

/// An accepted append never changes the log up to `prev_log_index`: those
/// entries stay where they were.
pub proof fn lemma_append_entries_keeps_prefix(v: NodeView, req: AppendEntriesRequestView)
    requires
        append_entries_step(v, req).1.success,
    ensures
        ({
            let log2 = append_entries_step(v, req).0.state.log;
            &&& log2.len() >= req.prev_log_index
            &&& forall|k: int| 0 <= k < req.prev_log_index ==> #[trigger] log2[k] == v.state.log[k]
        }),
{
}

/// When the node's log ends exactly at `prev_log_index`, an accepted append
/// makes the log the old log followed by the leader's entries.
pub proof fn lemma_append_entries_extends_log(v: NodeView, req: AppendEntriesRequestView)
    requires
        req.term == v.state.current_term,
        req.prev_log_index == v.state.log.len(),
        prev_entry_matches(v.state.log, req.prev_log_index, req.prev_log_term),
    ensures
        append_entries_step(v, req).0.state.log == v.state.log + req.entries,
        append_entries_step(v, req).1.success,
{
}

/// A request without entries, such as a heartbeat, never changes the log.
pub proof fn lemma_empty_append_keeps_log(v: NodeView, req: AppendEntriesRequestView)
    requires
        req.entries.len() == 0,
    ensures
        append_entries_step(v, req).0.state.log == v.state.log,
{
    assert(v.state.log + req.entries =~= v.state.log);
}

/// An accepted append whose new entries conflict with the stored log at any
/// compared position `k` (the `k`-th new entry against the stored entry at
/// `prev_log_index + 1 + k`) cuts the log to its first
/// `prev_log_index + 1` entries.
pub proof fn lemma_append_conflict_cuts_log(v: NodeView, req: AppendEntriesRequestView, k: int)
    requires
        req.term == v.state.current_term,
        prev_entry_matches(v.state.log, req.prev_log_index, req.prev_log_term),
        req.prev_log_index < v.state.log.len(),
        0 <= k < req.entries.len(),
        req.prev_log_index + 1 + k < v.state.log.len(),
        v.state.log[req.prev_log_index + 1 + k].term != req.entries[k].term,
    ensures
        append_entries_step(v, req).1.success,
        append_entries_step(v, req).0.state.log == v.state.log.take(req.prev_log_index + 1),
{
    lemma_append_cases(v.state.log, req.prev_log_index as int, req.entries);
}

/// An accepted append whose compared entries all match the stored log, and
/// that starts inside it, leaves the log as it is.
pub proof fn lemma_append_matching_keeps_log(v: NodeView, req: AppendEntriesRequestView)
    requires
        req.term == v.state.current_term,
        prev_entry_matches(v.state.log, req.prev_log_index, req.prev_log_term),
        req.prev_log_index < v.state.log.len(),
        forall|k: int|
            0 <= k < req.entries.len() && req.prev_log_index + 1 + k < v.state.log.len()
                ==> v.state.log[req.prev_log_index + 1 + k].term == #[trigger] req.entries[k].term,
    ensures
        append_entries_step(v, req).1.success,
        append_entries_step(v, req).0.state.log == v.state.log,
{
    lemma_append_cases(v.state.log, req.prev_log_index as int, req.entries);
}

/// A candidate of the node's term, asking a node that has not voted for
/// anyone else, gets the vote when its log reaches further than the node's,
/// or ends at the same position with a last term that is not older.
pub proof fn lemma_vote_granted_to_up_to_date_candidate(v: NodeView, req: RequestVoteRequest)
    requires
        req.term == v.state.current_term,
        v.state.voted_for is None || v.state.voted_for == Some(req.candidate_id),
        req.last_log_index > v.state.log.len() || (req.last_log_index == v.state.log.len() && (
        v.state.log.len() == 0 || req.last_log_term >= v.state.log[v.state.log.len() - 1].term)),
    ensures
        request_vote_step(v, req).1.vote_granted,
        request_vote_step(v, req).0.state.voted_for == Some(req.candidate_id),
        request_vote_step_after_step_down(v, req).1.vote_granted,
{
}

/// A candidate whose log ends before the node's, or at the same position
/// with an older last term, never gets the vote.
pub proof fn lemma_vote_refused_to_stale_candidate(v: NodeView, req: RequestVoteRequest)
    requires
        req.last_log_index < v.state.log.len() || (req.last_log_index == v.state.log.len()
            && v.state.log.len() > 0 && req.last_log_term < v.state.log[v.state.log.len() - 1].term),
    ensures
        !request_vote_step(v, req).1.vote_granted,
        !request_vote_step_after_step_down(v, req).1.vote_granted,
{
}

/// An append-entries request in the node's term or an older one leaves its
/// vote, its role and its term as they were.
pub proof fn lemma_append_entries_keeps_vote(v: NodeView, req: AppendEntriesRequestView)
    requires
        req.term <= v.state.current_term,
    ensures
        append_entries_step(v, req).0.state.voted_for == v.state.voted_for,
        append_entries_step(v, req).0.role == v.role,
        append_entries_step(v, req).0.state.current_term == v.state.current_term,
{
}

/// After a vote request the node's term is the larger of its old term and
/// the request's, and the answer carries that term (both ways of handling).
pub proof fn lemma_request_vote_adopts_newer_term(v: NodeView, req: RequestVoteRequest)
    ensures
        ({
            let (v2, resp) = request_vote_step(v, req);
            &&& v2.state.current_term == if req.term > v.state.current_term {
                req.term
            } else {
                v.state.current_term
            }
            &&& resp.term == v2.state.current_term
        }),
        ({
            let (v2, resp) = request_vote_step_after_step_down(v, req);
            &&& v2.state.current_term == if req.term > v.state.current_term {
                req.term
            } else {
                v.state.current_term
            }
            &&& resp.term == v2.state.current_term
        }),
{
}

/// A vote is granted only in the candidate's term, to a candidate whose log
/// is at least as up to date as the node's, and the node then records its
/// vote for that candidate (both ways of handling).
pub proof fn lemma_granted_vote_is_recorded(v: NodeView, req: RequestVoteRequest)
    ensures
        request_vote_step(v, req).1.vote_granted ==> {
            let v2 = request_vote_step(v, req).0;
            &&& req.term == v.state.current_term
            &&& log_up_to_date(v.state.log, req.last_log_index, req.last_log_term)
            &&& v2.state.voted_for == Some(req.candidate_id)
            &&& v2.state.current_term == req.term
        },
        request_vote_step_after_step_down(v, req).1.vote_granted ==> {
            let v2 = request_vote_step_after_step_down(v, req).0;
            &&& req.term >= v.state.current_term
            &&& log_up_to_date(v.state.log, req.last_log_index, req.last_log_term)
            &&& v2.state.voted_for == Some(req.candidate_id)
            &&& v2.state.current_term == req.term
        },
{
}

/// A node votes for at most one candidate per term: once it granted its
/// vote in a term, a later request of another candidate in the same term is
/// refused (both ways of handling).
pub proof fn lemma_one_vote_per_term(v: NodeView, r1: RequestVoteRequest, r2: RequestVoteRequest)
    requires
        r1.term == r2.term,
        r1.candidate_id != r2.candidate_id,
    ensures
        request_vote_step(v, r1).1.vote_granted ==> !request_vote_step(request_vote_step(v, r1).0, r2).1.vote_granted,
        request_vote_step_after_step_down(v, r1).1.vote_granted
            ==> !request_vote_step_after_step_down(request_vote_step_after_step_down(v, r1).0, r2).1.vote_granted,
{
}

/// A leader's heartbeat reaches a node of the same term whose log equals
/// the leader's: the node accepts it, keeps its log, and moves its commit
/// index towards the leader's.
pub proof fn lemma_heartbeat_accepted_by_equal_log(leader: NodeView, follower: NodeView)
    requires
        follower.state.current_term == leader.state.current_term,
        follower.state.log == leader.state.log,
        leader.state.log.len() <= u64::MAX,
    ensures
        ({
            let (f2, resp) = append_entries_step(follower, heartbeat_for(leader));
            &&& resp.success
            &&& f2.state.log == follower.state.log
            &&& f2.state.commit_index == commit_after(
                follower.state.commit_index,
                leader.state.commit_index,
                follower.state.log.len(),
            )
            &&& f2.state.voted_for == follower.state.voted_for
            &&& f2.role == follower.role
        }),
{
    assert(follower.state.log + Seq::<crate::log_entry::LogEntryView>::empty() =~= follower.state.log);
}

/// A candidate's vote request reaches a node of the same term that has not
/// voted yet and whose log equals the candidate's: the node grants its vote.
pub proof fn lemma_vote_granted_to_equal_log(candidate: NodeView, voter: NodeView)
    requires
        voter.state.current_term == candidate.state.current_term,
        voter.state.voted_for is None,
        voter.state.log == candidate.state.log,
        candidate.state.log.len() <= u64::MAX,
    ensures
        request_vote_step(voter, vote_request_for(candidate)).1.vote_granted,
        request_vote_step_after_step_down(voter, vote_request_for(candidate)).1.vote_granted,
{
}

/// An election is won only with votes of more than half of the cluster: a
/// candidate with no peers wins alone, and a candidate with peers needs at
/// least one granted vote.
pub proof fn lemma_election_needs_majority(v: NodeView, responses: Seq<RequestVoteResponse>)
    requires
        wins_election(v, responses),
    ensures
        2 * (1 + granted_count(responses)) > v.peers.len() + 1,
        v.peers.len() > 0 ==> granted_count(responses) > 0,
{
}

} // verus!
