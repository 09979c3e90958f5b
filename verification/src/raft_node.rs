use vstd::prelude::*;

use crate::external::{duration_nanos, duration_nanos_of, random_below, tokio_elapsed, tokio_now};
use std::time::Duration;
use crate::node::{
    action_view, count_votes, lemma_run_trace_shape, lemma_terms_sorted, reached, run_trace,
    tick_step, NodeEvent, TickSend, valid_election_timeout, TickAction,
    ELECTION_TIMEOUT_BASE_MS, ELECTION_TIMEOUT_JITTER_MS, HEARTBEAT_INTERVAL_MS,
};
use crate::protocol::{
    append_entries_overruns, append_entries_step, request_vote_step_after_step_down,
    role_change_in_order,
    start_election, step_down, take_leadership, wins_election, NodeView,
};
use crate::role::RoleType;
use crate::rpc::{AppendEntriesRequest, AppendEntriesResponse, RequestVoteRequest, RequestVoteResponse};
use crate::state::{fresh_state, State, StateView};
use crate::storage::{saved_once, Storage, StorageError};

verus! {

/// A leadership claim for an election in `vote_term` with a log that ended
/// at `vote_last_log_index` holds: the node is still a candidate in that
/// term with that log.
pub open spec fn claim_succeeds(v: NodeView, vote_term: u64, vote_last_log_index: u64) -> bool {
    vote_term == v.state.current_term && vote_last_log_index == v.state.log.len() && v.role
        == RoleType::Candidate
}

/// The node after a leadership claim: it takes leadership when the claim
/// holds, and is left as it is otherwise.
pub open spec fn claim_leadership(v: NodeView, vote_term: u64, vote_last_log_index: u64) -> NodeView {
    if claim_succeeds(v, vote_term, vote_last_log_index) {
        take_leadership(v)
    } else {
        v
    }
}

/// The outcome of an election of this node: with more than half of the
/// cluster's votes it claims leadership, passing the last term and the last
/// position of the log its vote request announced; otherwise it steps down
/// to follower in the request's term. The claim is checked against the
/// node's current term with the request's last log term, not with the
/// request's term, so a candidate whose log ends in an older term keeps its
/// candidacy even with a majority.
pub open spec fn claimed_election_outcome(
    v: NodeView,
    req: RequestVoteRequest,
    responses: Seq<RequestVoteResponse>,
) -> NodeView {
    if wins_election(v, responses) {
        claim_leadership(v, req.last_log_term, req.last_log_index)
    } else {
        step_down(v, req.term)
    }
}

/// A Raft node whose election timeout is drawn once, when it is created,
/// and which checks its state again before taking leadership.
pub struct RaftNode<S: Storage, T> {
    id: u64,
    peers: Vec<u64>,
    role: RoleType,
    state: State,
    storage: S,
    transport: T,
    election_timeout_ms: u64,
    heartbeat_interval_ms: u64,
    last_heartbeat: tokio::time::Instant,
}

impl<S: Storage, T> View for RaftNode<S, T> {
    type V = NodeView;

    closed spec fn view(&self) -> NodeView {
        NodeView { id: self.id, peers: self.peers@, role: self.role, state: self.state@ }
    }
}

impl<S: Storage, T> RaftNode<S, T> {
    /// The election timeout, in milliseconds.
    pub closed spec fn election_timeout_of(&self) -> u64 {
        self.election_timeout_ms
    }

    /// The heartbeat interval, in milliseconds.
    pub closed spec fn heartbeat_interval_of(&self) -> u64 {
        self.heartbeat_interval_ms
    }

    /// The storage the node saves its state to.
    pub closed spec fn storage_of(&self) -> S {
        self.storage
    }

    /// The transport handle the node was created with.
    pub closed spec fn transport_of(&self) -> T {
        self.transport
    }

    /// The time of the last heartbeat.
    pub closed spec fn last_heartbeat_of(&self) -> tokio::time::Instant {
        self.last_heartbeat
    }

    /// Creates a follower with the state that `storage` holds, or a fresh
    /// state when loading fails, a random election timeout and the
    /// heartbeat timer started now.
    pub fn new(id: u64, peers: Vec<u64>, storage: S, transport: T) -> (node: Self)
        ensures
            node@.id == id,
            node@.peers == peers@,
            node@.role == RoleType::Follower,
            node@.state == match storage.stored_state() {
                Some(s) => s,
                None => fresh_state(),
            },
            valid_election_timeout(node.election_timeout_of()),
            node.heartbeat_interval_of() == HEARTBEAT_INTERVAL_MS,
            node.transport_of() == transport,
            node.storage_of() == storage,
    {
        let loaded = storage.load_state();
        let timeout = ELECTION_TIMEOUT_BASE_MS + random_below(ELECTION_TIMEOUT_JITTER_MS);
        let now = tokio_now();
        Self::with_loaded_state(id, peers, storage, transport, loaded, timeout, now)
    }

    /// Creates a follower from what loading the state gave: the loaded
    /// state, or a fresh one on an error.
    pub fn with_loaded_state(
        id: u64,
        peers: Vec<u64>,
        storage: S,
        transport: T,
        loaded: Result<State, StorageError>,
        election_timeout_ms: u64,
        now: tokio::time::Instant,
    ) -> (node: Self)
        ensures
            node@ == (NodeView {
                id,
                peers: peers@,
                role: RoleType::Follower,
                state: match loaded {
                    Ok(s) => s@,
                    Err(_) => StateView {
                        current_term: 0,
                        voted_for: None,
                        commit_index: 0,
                        last_applied: 0,
                        last_log_index: 0,
                        last_log_term: 0,
                        log: Seq::empty(),
                    },
                },
            }),
            node.election_timeout_of() == election_timeout_ms,
            node.heartbeat_interval_of() == HEARTBEAT_INTERVAL_MS,
            node.transport_of() == transport,
            node.storage_of() == storage,
            node.last_heartbeat_of() == now,
    {
        let state = match loaded {
            Ok(s) => s,
            Err(_) => State::new(),
        };
        Self {
            id,
            peers,
            role: RoleType::Follower,
            state,
            storage,
            transport,
            election_timeout_ms,
            heartbeat_interval_ms: HEARTBEAT_INTERVAL_MS,
            last_heartbeat: now,
        }
    }

    /// The node's ID.
    pub fn id(&self) -> (r: u64)
        ensures
            r == self@.id,
    {
        self.id
    }

    /// The IDs of the node's peers.
    pub fn peers(&self) -> (r: &Vec<u64>)
        ensures
            r@ == self@.peers,
    {
        &self.peers
    }

    /// The node's persistent state.
    pub fn state(&self) -> (r: &State)
        ensures
            r@ == self@.state,
    {
        &self.state
    }

    /// The storage the node saves its state to.
    pub fn storage(&self) -> (r: &S)
        ensures
            *r == self.storage_of(),
    {
        &self.storage
    }

    /// The transport the driver sends the node's requests with.
    pub fn transport(&self) -> (r: &T)
        ensures
            *r == self.transport_of(),
    {
        &self.transport
    }

    /// The current election timeout, in milliseconds.
    pub fn election_timeout_ms(&self) -> (r: u64)
        ensures
            r == self.election_timeout_of(),
    {
        self.election_timeout_ms
    }

    /// The heartbeat interval, in milliseconds.
    pub fn heartbeat_interval_ms(&self) -> (r: u64)
        ensures
            r == self.heartbeat_interval_of(),
    {
        self.heartbeat_interval_ms
    }

    /// The time of the last heartbeat.
    pub fn last_heartbeat(&self) -> (r: tokio::time::Instant)
        ensures
            r == self.last_heartbeat_of(),
    {
        self.last_heartbeat
    }

    /// Whether handling `req` would reach the append and compare one of its
    /// entries with the position just past the end of the log, which the
    /// handler does not accept.
    pub fn append_entries_would_overrun(&self, req: &AppendEntriesRequest) -> (r: bool)
        ensures
            r == append_entries_overruns(self@, req@),
    {
        req.term == self.state.current_term && self.state.prev_log_matches(
            req.prev_log_index,
            req.prev_log_term,
        ) && self.state.append_would_overrun(req.prev_log_index, &req.entries)
    }

    /// The node's current role.
    pub fn get_role(&self) -> (r: RoleType)
        ensures
            r == self@.role,
    {
        self.role
    }

    /// Restarts the heartbeat timer at `now`, as the node does when it starts.
    pub fn restart_heartbeat_timer(&mut self, now: tokio::time::Instant)
        ensures
            final(self).storage_of() == old(self).storage_of(),
            final(self)@ == old(self)@,
            final(self).election_timeout_of() == old(self).election_timeout_of(),
            final(self).heartbeat_interval_of() == old(self).heartbeat_interval_of(),
            final(self).transport_of() == old(self).transport_of(),
            final(self).last_heartbeat_of() == now,
    {
        self.last_heartbeat = now;
    }

    fn become_follower(&mut self, term: u64)
        ensures
            final(self).storage_of() == old(self).storage_of(),
            final(self)@ == step_down(old(self)@, term),
            final(self).election_timeout_of() == old(self).election_timeout_of(),
            final(self).heartbeat_interval_of() == old(self).heartbeat_interval_of(),
            final(self).transport_of() == old(self).transport_of(),
            final(self).last_heartbeat_of() == old(self).last_heartbeat_of(),
    {
        self.role = RoleType::Follower;
        self.state.current_term = term;
        self.state.voted_for = None;
    }

    fn become_candidate(&mut self)
        requires
            old(self)@.state.current_term < u64::MAX,
        ensures
            final(self).storage_of() == old(self).storage_of(),
            final(self)@ == start_election(old(self)@),
            final(self).election_timeout_of() == old(self).election_timeout_of(),
            final(self).heartbeat_interval_of() == old(self).heartbeat_interval_of(),
            final(self).transport_of() == old(self).transport_of(),
            final(self).last_heartbeat_of() == old(self).last_heartbeat_of(),
    {
        self.role = RoleType::Candidate;
        self.state.current_term = self.state.current_term + 1;
        self.state.voted_for = Some(self.id);
    }

    fn become_leader(&mut self, vote_term: u64, vote_last_log_index: u64)
        ensures
            if claim_succeeds(old(self)@, vote_term, vote_last_log_index) {
                saved_once(old(self).storage_of(), final(self).storage_of(), final(self)@.state)
            } else {
                final(self).storage_of() == old(self).storage_of()
            },
            final(self)@ == claim_leadership(old(self)@, vote_term, vote_last_log_index),
            final(self).election_timeout_of() == old(self).election_timeout_of(),
            final(self).heartbeat_interval_of() == old(self).heartbeat_interval_of(),
            final(self).transport_of() == old(self).transport_of(),
            final(self).last_heartbeat_of() == old(self).last_heartbeat_of(),
    {
        if vote_term != self.state.current_term || vote_last_log_index != self.state.last_log_index()
            || self.role != RoleType::Candidate {
            return;
        }
        self.role = RoleType::Leader;
        self.state.voted_for = None;
        self.state.commit_index = self.state.last_log_index();
        let _ = self.storage.save_state(&self.state);
    }

    /// Handles an append-entries request (see `append_entries_step`); an
    /// accepted request saves the state. The answer, the new state and the
    /// save are those of `RaftNodeCore::process_append_entries`, whose
    /// contract uses the same `append_entries_step` and `saved_once`; unlike
    /// it, this one leaves the heartbeat timer and the election timeout alone.
    pub fn handle_append_entries(&mut self, req: AppendEntriesRequest) -> (resp: AppendEntriesResponse)
        requires
            !append_entries_overruns(old(self)@, req@),
        ensures
            if resp.success {
                saved_once(old(self).storage_of(), final(self).storage_of(), final(self)@.state)
            } else {
                final(self).storage_of() == old(self).storage_of()
            },
            (final(self)@, resp) == append_entries_step(old(self)@, req@),
            final(self).election_timeout_of() == old(self).election_timeout_of(),
            final(self).heartbeat_interval_of() == old(self).heartbeat_interval_of(),
            final(self).transport_of() == old(self).transport_of(),
            final(self).last_heartbeat_of() == old(self).last_heartbeat_of(),
    {
        if req.term < self.state.current_term {
            return AppendEntriesResponse {
                term: self.state.current_term,
                success: false,
                match_index: self.state.commit_index,
            };
        }
        if req.term > self.state.current_term {
            self.become_follower(req.term);
            return AppendEntriesResponse {
                term: self.state.current_term,
                success: false,
                match_index: self.state.commit_index,
            };
        }
        if !self.state.prev_log_matches(req.prev_log_index, req.prev_log_term) {
            return AppendEntriesResponse {
                term: self.state.current_term,
                success: false,
                match_index: self.state.commit_index,
            };
        }
        self.state.append_entries(req.prev_log_index, &req.entries);
        self.state.advance_commit_index(req.leader_commit);
        let _ = self.storage.save_state(&self.state);
        AppendEntriesResponse {
            term: self.state.current_term,
            success: true,
            match_index: self.state.commit_index,
        }
    }

    /// Handles a vote request (see `request_vote_step_after_step_down`): a
    /// newer term makes the node step down and then weigh the vote; a
    /// granted vote is saved.
    pub fn handle_request_vote(&mut self, req: RequestVoteRequest) -> (resp: RequestVoteResponse)
        ensures
            if resp.vote_granted {
                saved_once(old(self).storage_of(), final(self).storage_of(), final(self)@.state)
            } else {
                final(self).storage_of() == old(self).storage_of()
            },
            (final(self)@, resp) == request_vote_step_after_step_down(old(self)@, req),
            final(self).election_timeout_of() == old(self).election_timeout_of(),
            final(self).heartbeat_interval_of() == old(self).heartbeat_interval_of(),
            final(self).transport_of() == old(self).transport_of(),
            final(self).last_heartbeat_of() == old(self).last_heartbeat_of(),
    {
        if req.term < self.state.current_term {
            return RequestVoteResponse { term: self.state.current_term, vote_granted: false };
        }
        if req.term > self.state.current_term {
            self.become_follower(req.term);
        }
        if let Some(voted_for) = self.state.voted_for {
            if voted_for != req.candidate_id {
                return RequestVoteResponse { term: self.state.current_term, vote_granted: false };
            }
        }
        if !self.state.is_up_to_date(req.last_log_index, req.last_log_term) {
            return RequestVoteResponse { term: self.state.current_term, vote_granted: false };
        }
        self.state.voted_for = Some(req.candidate_id);
        let _ = self.storage.save_state(&self.state);
        RequestVoteResponse { term: self.state.current_term, vote_granted: true }
    }

    /// A timer tick: reads the clock and decides as `on_tick_at` does.
    pub fn on_tick(&mut self) -> (action: TickAction)
        requires
            old(self)@.role == RoleType::Follower ==> old(self)@.state.current_term < u64::MAX,
        ensures
            final(self).storage_of() == old(self).storage_of(),
            exists|elapsed: Duration|
                (final(self)@, action_view(action)) == #[trigger] tick_step(
                    old(self)@,
                    duration_nanos_of(elapsed),
                    old(self).heartbeat_interval_of(),
                    old(self).election_timeout_of(),
                ),
            final(self).heartbeat_interval_of() == old(self).heartbeat_interval_of(),
            final(self).transport_of() == old(self).transport_of(),
            final(self).election_timeout_of() == old(self).election_timeout_of(),
    {
        let elapsed = tokio_elapsed(&self.last_heartbeat);
        let elapsed_nanos = duration_nanos(&elapsed);
        let now = tokio_now();
        let action = self.on_tick_at(elapsed_nanos, now);
        proof {
            assert((self@, action_view(action)) == tick_step(
                old(self)@,
                duration_nanos_of(elapsed),
                old(self).heartbeat_interval_of(),
                old(self).election_timeout_of(),
            ));
        }
        action
    }

    /// A timer tick `elapsed_nanos` nanoseconds after the last heartbeat,
    /// at time `now` (see `tick_step`); a leader that sends a heartbeat
    /// restarts its heartbeat timer at `now`.
    pub fn on_tick_at(&mut self, elapsed_nanos: u128, now: tokio::time::Instant) -> (action: TickAction)
        requires
            old(self)@.role == RoleType::Follower && reached(elapsed_nanos, old(self).election_timeout_of())
                ==> old(self)@.state.current_term < u64::MAX,
        ensures
            final(self).storage_of() == old(self).storage_of(),
            (final(self)@, action_view(action)) == tick_step(
                old(self)@,
                elapsed_nanos,
                old(self).heartbeat_interval_of(),
                old(self).election_timeout_of(),
            ),
            final(self).election_timeout_of() == old(self).election_timeout_of(),
            final(self).heartbeat_interval_of() == old(self).heartbeat_interval_of(),
            final(self).transport_of() == old(self).transport_of(),
            final(self).last_heartbeat_of() == if action is SendHeartbeats {
                now
            } else {
                old(self).last_heartbeat_of()
            },
    {
        let heartbeat_nanos: u128 = self.heartbeat_interval_ms as u128 * 1_000_000;
        let election_nanos: u128 = self.election_timeout_ms as u128 * 1_000_000;
        match self.role {
            RoleType::Leader => {
                if elapsed_nanos >= heartbeat_nanos {
                    self.last_heartbeat = now;
                    let req = AppendEntriesRequest {
                        term: self.state.current_term,
                        leader_id: self.id,
                        prev_log_index: self.state.last_log_index(),
                        prev_log_term: self.state.last_log_term(),
                        entries: Vec::new(),
                        leader_commit: self.state.commit_index,
                    };
                    proof {
                        assert(req@.entries =~= Seq::empty());
                    }
                    TickAction::SendHeartbeats(req)
                } else {
                    TickAction::Idle
                }
            },
            RoleType::Candidate => {
                if elapsed_nanos >= election_nanos {
                    TickAction::RequestVotes(RequestVoteRequest {
                        term: self.state.current_term,
                        candidate_id: self.id,
                        last_log_index: self.state.last_log_index(),
                        last_log_term: self.state.last_log_term(),
                    })
                } else {
                    TickAction::Idle
                }
            },
            RoleType::Follower => {
                if elapsed_nanos >= election_nanos {
                    self.become_candidate();
                }
                TickAction::Idle
            },
        }
    }

    /// Ends an election with the answers to the vote request `req` (see
    /// `claimed_election_outcome`).
    pub fn on_vote_results(&mut self, req: &RequestVoteRequest, responses: &Vec<RequestVoteResponse>)
        requires
            responses@.len() < u64::MAX,
        ensures
            if wins_election(old(self)@, responses@) && claim_succeeds(
                old(self)@,
                req.last_log_term,
                req.last_log_index,
            ) {
                saved_once(old(self).storage_of(), final(self).storage_of(), final(self)@.state)
            } else {
                final(self).storage_of() == old(self).storage_of()
            },
            final(self)@ == claimed_election_outcome(old(self)@, *req, responses@),
            final(self).election_timeout_of() == old(self).election_timeout_of(),
            final(self).heartbeat_interval_of() == old(self).heartbeat_interval_of(),
            final(self).transport_of() == old(self).transport_of(),
            final(self).last_heartbeat_of() == old(self).last_heartbeat_of(),
    {
        let votes: u64 = count_votes(responses);
        let cluster: u128 = self.peers.len() as u128 + 1;
        if votes as u128 > cluster / 2 {
            self.become_leader(req.last_log_term, req.last_log_index);
        } else {
            self.become_follower(req.term);
        }
    }
}

/// A finished election never lowers the term when the vote request was
/// made in the current term or a later one, and it leaves the node leader,
/// follower, or the candidate it was when the claim does not hold.
pub proof fn lemma_claimed_election_order(v: NodeView, req: RequestVoteRequest, responses: Seq<RequestVoteResponse>)
    requires
        req.term >= v.state.current_term,
    ensures
        claimed_election_outcome(v, req, responses).state.current_term >= v.state.current_term,
        ({
            let r = claimed_election_outcome(v, req, responses).role;
            r == RoleType::Leader || r == RoleType::Follower || r == v.role
        }),
{
}

/// The node after one event of its run: a request is handled; a tick
/// decides, and a vote request that it sends is followed by the election's
/// outcome with the answers and the leadership claim.
#[verifier::opaque]
pub open spec fn claiming_step(v: NodeView, e: NodeEvent) -> NodeView {
    match e {
        NodeEvent::AppendEntries(req) => append_entries_step(v, req).0,
        NodeEvent::RequestVote(req) => request_vote_step_after_step_down(v, req).0,
        NodeEvent::Tick { elapsed_nanos, heartbeat_ms, election_ms, responses } => {
            let (v1, send) = tick_step(v, elapsed_nanos, heartbeat_ms, election_ms);
            match send {
                Some(TickSend::Votes(req)) => claimed_election_outcome(v1, req, responses),
                _ => v1,
            }
        },
    }
}

/// `claiming_step` as a value.
pub open spec fn claiming_stepper() -> spec_fn(NodeView, NodeEvent) -> NodeView {
    |v: NodeView, e: NodeEvent| claiming_step(v, e)
}

/// One event never lowers the term, and changes the role only in the
/// protocol's order.
pub proof fn lemma_claiming_step_in_order(v: NodeView, e: NodeEvent)
    requires
        v.state.current_term < u64::MAX,
    ensures
        claiming_step(v, e).state.current_term >= v.state.current_term,
        role_change_in_order(v.role, claiming_step(v, e).role),
{
    reveal(claiming_step);
}

/// Over a whole run the term never decreases, and each event changes the
/// role only in the protocol's order: a node becomes leader only as a
/// candidate whose election and claim succeeded, and candidate only as a
/// follower whose election timeout passed. The run leaves out the states in
/// which the term could not grow any more.
pub proof fn lemma_claiming_run_in_order(v: NodeView, events: Seq<NodeEvent>)
    requires
        forall|i: int| 0 <= i < events.len() ==> #[trigger] run_trace(claiming_stepper(), v, events)[i].state.current_term
            < u64::MAX,
    ensures
        forall|i: int, j: int|
            0 <= i <= j <= events.len() ==> #[trigger] run_trace(claiming_stepper(), v, events)[i].state.current_term
                <= #[trigger] run_trace(claiming_stepper(), v, events)[j].state.current_term,
        forall|i: int| 0 <= i < events.len() ==> role_change_in_order(
            #[trigger] run_trace(claiming_stepper(), v, events)[i].role,
            run_trace(claiming_stepper(), v, events)[i + 1].role,
        ),
{
    lemma_run_trace_shape(claiming_stepper(), v, events);
    let t = run_trace(claiming_stepper(), v, events);
    assert forall|i: int| 0 <= i < events.len() implies #[trigger] t[i].state.current_term
        <= t[i + 1].state.current_term && role_change_in_order(t[i].role, t[i + 1].role) by {
        assert(t[i + 1] == claiming_step(t[i], events[i]));
        lemma_claiming_step_in_order(t[i], events[i]);
    }
    assert forall|i: int| 0 <= i < t.len() - 1 implies #[trigger] t[i].state.current_term
        <= t[i + 1].state.current_term by {
        assert(t[i].state.current_term <= t[i + 1].state.current_term);
    }
    assert forall|i: int| 0 <= i < events.len() implies role_change_in_order(
        #[trigger] t[i].role,
        t[i + 1].role,
    ) by {
        assert(t[i].state.current_term <= t[i + 1].state.current_term);
    }
    lemma_terms_sorted(t);
}

} // verus!
