use vstd::prelude::*;

use crate::external::{duration_nanos, duration_nanos_of, random_below, tokio_elapsed, tokio_now};
use std::time::Duration;
use crate::protocol::{
    append_entries_overruns, append_entries_step, granted_count, heartbeat_for,
    lemma_granted_count_bound, request_vote_step, role_change_in_order, start_election, step_down, take_leadership,
    vote_request_for, wins_election, NodeView,
};
use crate::role::RoleType;
use crate::rpc::{AppendEntriesRequest, AppendEntriesRequestView, AppendEntriesResponse, RequestVoteRequest, RequestVoteResponse};
use crate::state::{fresh_state, State, StateView};
use crate::storage::{saved_once, Storage, StorageError};

verus! {

/// The shortest election timeout, in milliseconds.
pub const ELECTION_TIMEOUT_BASE_MS: u64 = 150;

/// The width of the window from which an election timeout is drawn, in milliseconds.
pub const ELECTION_TIMEOUT_JITTER_MS: u64 = 150;

/// How often a leader sends heartbeats, in milliseconds.
pub const HEARTBEAT_INTERVAL_MS: u64 = 50;

/// An election timeout drawn for a node lies in `[150, 300)` milliseconds.
pub open spec fn valid_election_timeout(ms: u64) -> bool {
    ELECTION_TIMEOUT_BASE_MS <= ms < ELECTION_TIMEOUT_BASE_MS + ELECTION_TIMEOUT_JITTER_MS
}

/// `elapsed_nanos` nanoseconds are at least `ms` milliseconds.
pub open spec fn reached(elapsed_nanos: u128, ms: u64) -> bool {
    elapsed_nanos >= ms * 1_000_000
}

/// What a timer tick asks the driver to do.
#[derive(Debug)]
pub enum TickAction {
    /// Nothing to send.
    Idle,
    /// Send this heartbeat to every peer; the answers are not needed.
    SendHeartbeats(AppendEntriesRequest),
    /// Send this vote request to every peer and hand the answers to
    /// `on_vote_results`.
    RequestVotes(RequestVoteRequest),
}

/// What a tick of a node in view `v` does with `elapsed_nanos` nanoseconds
/// since its last heartbeat: a leader whose heartbeat interval has passed
/// sends a heartbeat, a candidate whose election timeout has passed asks
/// for votes, and a follower whose election timeout has passed starts an
/// election (it sends nothing on this tick).
pub open spec fn tick_step(
    v: NodeView,
    elapsed_nanos: u128,
    heartbeat_ms: u64,
    election_ms: u64,
) -> (NodeView, Option<TickSend>) {
    match v.role {
        RoleType::Leader => if reached(elapsed_nanos, heartbeat_ms) {
            (v, Some(TickSend::Heartbeats(heartbeat_for(v))))
        } else {
            (v, None)
        },
        RoleType::Candidate => if reached(elapsed_nanos, election_ms) {
            (v, Some(TickSend::Votes(vote_request_for(v))))
        } else {
            (v, None)
        },
        RoleType::Follower => if reached(elapsed_nanos, election_ms) {
            (start_election(v), None)
        } else {
            (v, None)
        },
    }
}

/// What a tick asks the driver to send, as mathematical values.
pub enum TickSend {
    Heartbeats(AppendEntriesRequestView),
    Votes(RequestVoteRequest),
}

/// The view of a tick action.
pub open spec fn action_view(a: TickAction) -> Option<TickSend> {
    match a {
        TickAction::Idle => None,
        TickAction::SendHeartbeats(req) => Some(TickSend::Heartbeats(req@)),
        TickAction::RequestVotes(req) => Some(TickSend::Votes(req)),
    }
}

/// The outcome of an election: with the answers to its vote request the
/// candidate becomes leader when it has more than half of the cluster, and
/// otherwise steps down to follower in the request's term.
pub open spec fn election_outcome(
    v: NodeView,
    req: RequestVoteRequest,
    responses: Seq<RequestVoteResponse>,
) -> NodeView {
    if wins_election(v, responses) {
        take_leadership(v)
    } else {
        step_down(v, req.term)
    }
}

/// The core of a Raft node: its role and persistent state, its storage and
/// transport handles, and its timers. A driver feeds it requests, timer
/// ticks and vote answers, and performs the sends it asks for.
pub struct RaftNodeCore<S: Storage, T> {
    id: u64,
    peers: Vec<u64>,
    role: RoleType,
    state: State,
    storage: S,
    transport: T,
    election_timeout_ms: u64,
    heartbeat_interval_ms: u64,
    last_heartbeat: tokio::time::Instant,
}

impl<S: Storage, T> View for RaftNodeCore<S, T> {
    type V = NodeView;

    closed spec fn view(&self) -> NodeView {
        NodeView { id: self.id, peers: self.peers@, role: self.role, state: self.state@ }
    }
}

impl<S: Storage, T> RaftNodeCore<S, T> {
    /// The current election timeout, in milliseconds.
    pub closed spec fn election_timeout_of(&self) -> u64 {
        self.election_timeout_ms
    }

    /// The heartbeat interval, in milliseconds.
    pub closed spec fn heartbeat_interval_of(&self) -> u64 {
        self.heartbeat_interval_ms
    }

    /// The storage the node saves its state to.
    pub closed spec fn storage_of(&self) -> S {
        self.storage
    }

    /// The transport handle the node was created with.
    pub closed spec fn transport_of(&self) -> T {
        self.transport
    }

    /// The time of the last heartbeat.
    pub closed spec fn last_heartbeat_of(&self) -> tokio::time::Instant {
        self.last_heartbeat
    }

    /// Creates a follower with the state that `storage` holds, or a fresh
    /// state when loading fails, a random election timeout and the
    /// heartbeat timer started now.
    pub fn new(id: u64, peers: Vec<u64>, storage: S, transport: T) -> (node: Self)
        ensures
            node@.id == id,
            node@.peers == peers@,
            node@.role == RoleType::Follower,
            node@.state == match storage.stored_state() {
                Some(s) => s,
                None => fresh_state(),
            },
            valid_election_timeout(node.election_timeout_of()),
            node.heartbeat_interval_of() == HEARTBEAT_INTERVAL_MS,
            node.transport_of() == transport,
            node.storage_of() == storage,
    {
        let loaded = storage.load_state();
        let timeout = Self::generate_election_timeout();
        let now = tokio_now();
        Self::with_loaded_state(id, peers, storage, transport, loaded, timeout, now)
    }

    /// Creates a follower from what loading the state gave: the loaded
    /// state, or a fresh one on an error.
    pub fn with_loaded_state(
        id: u64,
        peers: Vec<u64>,
        storage: S,
        transport: T,
        loaded: Result<State, StorageError>,
        election_timeout_ms: u64,
        now: tokio::time::Instant,
    ) -> (node: Self)
        ensures
            node@ == (NodeView {
                id,
                peers: peers@,
                role: RoleType::Follower,
                state: match loaded {
                    Ok(s) => s@,
                    Err(_) => StateView {
                        current_term: 0,
                        voted_for: None,
                        commit_index: 0,
                        last_applied: 0,
                        last_log_index: 0,
                        last_log_term: 0,
                        log: Seq::empty(),
                    },
                },
            }),
            node.election_timeout_of() == election_timeout_ms,
            node.heartbeat_interval_of() == HEARTBEAT_INTERVAL_MS,
            node.transport_of() == transport,
            node.storage_of() == storage,
            node.last_heartbeat_of() == now,
    {
        let state = match loaded {
            Ok(s) => s,
            Err(_) => State::new(),
        };
        Self {
            id,
            peers,
            role: RoleType::Follower,
            state,
            storage,
            transport,
            election_timeout_ms,
            heartbeat_interval_ms: HEARTBEAT_INTERVAL_MS,
            last_heartbeat: now,
        }
    }

    /// A random election timeout in `[150, 300)` milliseconds.
    fn generate_election_timeout() -> (ms: u64)
        ensures
            valid_election_timeout(ms),
    {
        ELECTION_TIMEOUT_BASE_MS + random_below(ELECTION_TIMEOUT_JITTER_MS)
    }

    /// The node's ID.
    pub fn id(&self) -> (r: u64)
        ensures
            r == self@.id,
    {
        self.id
    }

    /// The IDs of the node's peers.
    pub fn peers(&self) -> (r: &Vec<u64>)
        ensures
            r@ == self@.peers,
    {
        &self.peers
    }

    /// The node's persistent state.
    pub fn state(&self) -> (r: &State)
        ensures
            r@ == self@.state,
    {
        &self.state
    }

    /// The storage the node saves its state to.
    pub fn storage(&self) -> (r: &S)
        ensures
            *r == self.storage_of(),
    {
        &self.storage
    }

    /// The transport the driver sends the node's requests with.
    pub fn transport(&self) -> (r: &T)
        ensures
            *r == self.transport_of(),
    {
        &self.transport
    }

    /// The current election timeout, in milliseconds.
    pub fn election_timeout_ms(&self) -> (r: u64)
        ensures
            r == self.election_timeout_of(),
    {
        self.election_timeout_ms
    }

    /// The heartbeat interval, in milliseconds.
    pub fn heartbeat_interval_ms(&self) -> (r: u64)
        ensures
            r == self.heartbeat_interval_of(),
    {
        self.heartbeat_interval_ms
    }

    /// The time of the last heartbeat.
    pub fn last_heartbeat(&self) -> (r: tokio::time::Instant)
        ensures
            r == self.last_heartbeat_of(),
    {
        self.last_heartbeat
    }

    /// Whether handling `req` would reach the append and compare one of its
    /// entries with the position just past the end of the log, which the
    /// handler does not accept.
    pub fn append_entries_would_overrun(&self, req: &AppendEntriesRequest) -> (r: bool)
        ensures
            r == append_entries_overruns(self@, req@),
    {
        req.term == self.state.current_term && self.state.prev_log_matches(
            req.prev_log_index,
            req.prev_log_term,
        ) && self.state.append_would_overrun(req.prev_log_index, &req.entries)
    }

    /// The node's current role.
    pub fn get_role(&self) -> (r: RoleType)
        ensures
            r == self@.role,
    {
        self.role
    }

    fn become_follower(&mut self, term: u64)
        ensures
            final(self).storage_of() == old(self).storage_of(),
            final(self)@ == step_down(old(self)@, term),
            valid_election_timeout(final(self).election_timeout_of()),
            final(self).heartbeat_interval_of() == old(self).heartbeat_interval_of(),
            final(self).transport_of() == old(self).transport_of(),
            final(self).last_heartbeat_of() == old(self).last_heartbeat_of(),
    {
        self.role = RoleType::Follower;
        self.state.current_term = term;
        self.state.voted_for = None;
        self.election_timeout_ms = Self::generate_election_timeout();
    }

    fn become_candidate(&mut self)
        requires
            old(self)@.state.current_term < u64::MAX,
        ensures
            final(self).storage_of() == old(self).storage_of(),
            final(self)@ == start_election(old(self)@),
            valid_election_timeout(final(self).election_timeout_of()),
            final(self).heartbeat_interval_of() == old(self).heartbeat_interval_of(),
            final(self).transport_of() == old(self).transport_of(),
            final(self).last_heartbeat_of() == old(self).last_heartbeat_of(),
    {
        self.role = RoleType::Candidate;
        self.state.current_term = self.state.current_term + 1;
        self.state.voted_for = Some(self.id);
        self.election_timeout_ms = Self::generate_election_timeout();
    }

    fn become_leader(&mut self)
        ensures
            saved_once(old(self).storage_of(), final(self).storage_of(), final(self)@.state),
            final(self)@ == take_leadership(old(self)@),
            final(self).election_timeout_of() == old(self).election_timeout_of(),
            final(self).heartbeat_interval_of() == old(self).heartbeat_interval_of(),
            final(self).transport_of() == old(self).transport_of(),
            final(self).last_heartbeat_of() == old(self).last_heartbeat_of(),
    {
        self.role = RoleType::Leader;
        self.state.voted_for = None;
        self.state.commit_index = self.state.last_log_index();
        let _ = self.storage.save_state(&self.state);
    }

    /// Handles an append-entries request (see `append_entries_step`); an
    /// accepted request restarts the heartbeat timer and saves the state.
    pub fn process_append_entries(&mut self, req: AppendEntriesRequest) -> (resp: AppendEntriesResponse)
        requires
            !append_entries_overruns(old(self)@, req@),
        ensures
            if resp.success {
                saved_once(old(self).storage_of(), final(self).storage_of(), final(self)@.state)
            } else {
                final(self).storage_of() == old(self).storage_of()
            },
            (final(self)@, resp) == append_entries_step(old(self)@, req@),
            final(self)@.state.current_term > old(self)@.state.current_term ==> valid_election_timeout(
                final(self).election_timeout_of(),
            ),
            final(self)@.state.current_term == old(self)@.state.current_term
                ==> final(self).election_timeout_of() == old(self).election_timeout_of(),
            !resp.success ==> final(self).last_heartbeat_of() == old(self).last_heartbeat_of(),
            final(self).heartbeat_interval_of() == old(self).heartbeat_interval_of(),
            final(self).transport_of() == old(self).transport_of(),
    {
        let now = tokio_now();
        self.process_append_entries_at(req, now)
    }

    /// Handles an append-entries request, taking `now` as the time of an
    /// accepted request.
    pub fn process_append_entries_at(&mut self, req: AppendEntriesRequest, now: tokio::time::Instant) -> (resp: AppendEntriesResponse)
        requires
            !append_entries_overruns(old(self)@, req@),
        ensures
            if resp.success {
                saved_once(old(self).storage_of(), final(self).storage_of(), final(self)@.state)
            } else {
                final(self).storage_of() == old(self).storage_of()
            },
            (final(self)@, resp) == append_entries_step(old(self)@, req@),
            final(self)@.state.current_term > old(self)@.state.current_term ==> valid_election_timeout(
                final(self).election_timeout_of(),
            ),
            final(self)@.state.current_term == old(self)@.state.current_term
                ==> final(self).election_timeout_of() == old(self).election_timeout_of(),
            final(self).heartbeat_interval_of() == old(self).heartbeat_interval_of(),
            final(self).transport_of() == old(self).transport_of(),
            final(self).last_heartbeat_of() == if resp.success {
                now
            } else {
                old(self).last_heartbeat_of()
            },
    {
        if req.term < self.state.current_term {
            return AppendEntriesResponse {
                term: self.state.current_term,
                success: false,
                match_index: self.state.commit_index,
            };
        }
        if req.term > self.state.current_term {
            self.become_follower(req.term);
            return AppendEntriesResponse {
                term: self.state.current_term,
                success: false,
                match_index: self.state.commit_index,
            };
        }
        if !self.state.prev_log_matches(req.prev_log_index, req.prev_log_term) {
            return AppendEntriesResponse {
                term: self.state.current_term,
                success: false,
                match_index: self.state.commit_index,
            };
        }
        self.state.append_entries(req.prev_log_index, &req.entries);
        self.state.advance_commit_index(req.leader_commit);
        self.last_heartbeat = now;
        let _ = self.storage.save_state(&self.state);
        AppendEntriesResponse {
            term: self.state.current_term,
            success: true,
            match_index: self.state.commit_index,
        }
    }

    /// Handles a vote request (see `request_vote_step`); a granted vote is
    /// saved.
    pub fn process_request_vote(&mut self, req: RequestVoteRequest) -> (resp: RequestVoteResponse)
        ensures
            if resp.vote_granted {
                saved_once(old(self).storage_of(), final(self).storage_of(), final(self)@.state)
            } else {
                final(self).storage_of() == old(self).storage_of()
            },
            (final(self)@, resp) == request_vote_step(old(self)@, req),
            final(self)@.state.current_term > old(self)@.state.current_term ==> valid_election_timeout(
                final(self).election_timeout_of(),
            ),
            final(self)@.state.current_term == old(self)@.state.current_term
                ==> final(self).election_timeout_of() == old(self).election_timeout_of(),
            final(self).heartbeat_interval_of() == old(self).heartbeat_interval_of(),
            final(self).transport_of() == old(self).transport_of(),
            final(self).last_heartbeat_of() == old(self).last_heartbeat_of(),
    {
        if req.term < self.state.current_term {
            return RequestVoteResponse { term: self.state.current_term, vote_granted: false };
        }
        if req.term > self.state.current_term {
            self.become_follower(req.term);
            return RequestVoteResponse { term: self.state.current_term, vote_granted: false };
        }
        if let Some(voted_for) = self.state.voted_for {
            if voted_for != req.candidate_id {
                return RequestVoteResponse { term: self.state.current_term, vote_granted: false };
            }
        }
        if !self.state.is_up_to_date(req.last_log_index, req.last_log_term) {
            return RequestVoteResponse { term: self.state.current_term, vote_granted: false };
        }
        self.state.voted_for = Some(req.candidate_id);
        let _ = self.storage.save_state(&self.state);
        RequestVoteResponse { term: self.state.current_term, vote_granted: true }
    }

    /// A timer tick: reads the clock and decides as `on_tick_at` does.
    pub fn on_tick(&mut self) -> (action: TickAction)
        requires
            old(self)@.role == RoleType::Follower ==> old(self)@.state.current_term < u64::MAX,
        ensures
            final(self).storage_of() == old(self).storage_of(),
            exists|elapsed: Duration|
                (final(self)@, action_view(action)) == #[trigger] tick_step(
                    old(self)@,
                    duration_nanos_of(elapsed),
                    old(self).heartbeat_interval_of(),
                    old(self).election_timeout_of(),
                ),
            final(self).heartbeat_interval_of() == old(self).heartbeat_interval_of(),
            final(self).transport_of() == old(self).transport_of(),
            final(self)@.role == RoleType::Candidate && old(self)@.role == RoleType::Follower
                ==> valid_election_timeout(final(self).election_timeout_of()),
            !(final(self)@.role == RoleType::Candidate && old(self)@.role == RoleType::Follower)
                ==> final(self).election_timeout_of() == old(self).election_timeout_of(),
    {
        let elapsed = tokio_elapsed(&self.last_heartbeat);
        let elapsed_nanos = duration_nanos(&elapsed);
        let now = tokio_now();
        let action = self.on_tick_at(elapsed_nanos, now);
        proof {
            assert((self@, action_view(action)) == tick_step(
                old(self)@,
                duration_nanos_of(elapsed),
                old(self).heartbeat_interval_of(),
                old(self).election_timeout_of(),
            ));
        }
        action
    }

    /// A timer tick `elapsed_nanos` nanoseconds after the last heartbeat,
    /// at time `now` (see `tick_step`); a leader that sends a heartbeat
    /// restarts its heartbeat timer at `now`.
    pub fn on_tick_at(&mut self, elapsed_nanos: u128, now: tokio::time::Instant) -> (action: TickAction)
        requires
            old(self)@.role == RoleType::Follower && reached(elapsed_nanos, old(self).election_timeout_of())
                ==> old(self)@.state.current_term < u64::MAX,
        ensures
            final(self).storage_of() == old(self).storage_of(),
            (final(self)@, action_view(action)) == tick_step(
                old(self)@,
                elapsed_nanos,
                old(self).heartbeat_interval_of(),
                old(self).election_timeout_of(),
            ),
            final(self).heartbeat_interval_of() == old(self).heartbeat_interval_of(),
            final(self).transport_of() == old(self).transport_of(),
            final(self)@.role == RoleType::Candidate && old(self)@.role == RoleType::Follower
                ==> valid_election_timeout(final(self).election_timeout_of()),
            !(final(self)@.role == RoleType::Candidate && old(self)@.role == RoleType::Follower)
                ==> final(self).election_timeout_of() == old(self).election_timeout_of(),
            final(self).last_heartbeat_of() == if action is SendHeartbeats {
                now
            } else {
                old(self).last_heartbeat_of()
            },
    {
        let heartbeat_nanos: u128 = self.heartbeat_interval_ms as u128 * 1_000_000;
        let election_nanos: u128 = self.election_timeout_ms as u128 * 1_000_000;
        match self.role {
            RoleType::Leader => {
                if elapsed_nanos >= heartbeat_nanos {
                    self.last_heartbeat = now;
                    let req = AppendEntriesRequest {
                        term: self.state.current_term,
                        leader_id: self.id,
                        prev_log_index: self.state.last_log_index(),
                        prev_log_term: self.state.last_log_term(),
                        entries: Vec::new(),
                        leader_commit: self.state.commit_index,
                    };
                    proof {
                        assert(req@.entries =~= Seq::empty());
                    }
                    TickAction::SendHeartbeats(req)
                } else {
                    TickAction::Idle
                }
            },
            RoleType::Candidate => {
                if elapsed_nanos >= election_nanos {
                    TickAction::RequestVotes(RequestVoteRequest {
                        term: self.state.current_term,
                        candidate_id: self.id,
                        last_log_index: self.state.last_log_index(),
                        last_log_term: self.state.last_log_term(),
                    })
                } else {
                    TickAction::Idle
                }
            },
            RoleType::Follower => {
                if elapsed_nanos >= election_nanos {
                    self.become_candidate();
                }
                TickAction::Idle
            },
        }
    }

    /// Ends an election with the answers to the vote request `req`: the
    /// node becomes leader with more than half of the cluster's votes,
    /// counting its own, and otherwise steps down to follower in `req.term`.
    pub fn on_vote_results(&mut self, req: &RequestVoteRequest, responses: &Vec<RequestVoteResponse>)
        requires
            responses@.len() < u64::MAX,
        ensures
            if wins_election(old(self)@, responses@) {
                saved_once(old(self).storage_of(), final(self).storage_of(), final(self)@.state)
            } else {
                final(self).storage_of() == old(self).storage_of()
            },
            final(self)@ == election_outcome(old(self)@, *req, responses@),
            final(self).heartbeat_interval_of() == old(self).heartbeat_interval_of(),
            final(self).transport_of() == old(self).transport_of(),
            final(self).last_heartbeat_of() == old(self).last_heartbeat_of(),
            final(self)@.role == RoleType::Follower ==> valid_election_timeout(final(self).election_timeout_of()),
            final(self)@.role == RoleType::Leader ==> final(self).election_timeout_of() == old(self).election_timeout_of(),
    {
        let votes: u64 = count_votes(responses);
        let cluster: u128 = self.peers.len() as u128 + 1;
        if votes as u128 > cluster / 2 {
            self.become_leader();
        } else {
            self.become_follower(req.term);
        }
    }
}

/// The candidate's own vote plus the granted answers.
pub fn count_votes(responses: &Vec<RequestVoteResponse>) -> (votes: u64)
    requires
        responses@.len() < u64::MAX,
    ensures
        votes == 1 + granted_count(responses@),
{
    let mut votes: u64 = 1;
    let mut i: usize = 0;
    while i < responses.len()
        invariant
            0 <= i <= responses.len(),
            responses@.len() < u64::MAX,
            votes == 1 + granted_count(responses@.take(i as int)),
        decreases responses.len() - i,
    {
        proof {
            lemma_granted_count_bound(responses@.take(i as int));
            assert(responses@.take(i + 1).drop_last() =~= responses@.take(i as int));
        }
        if responses[i].vote_granted {
            votes = votes + 1;
        }
        i = i + 1;
    }
    proof {
        assert(responses@.take(i as int) =~= responses@);
    }
    votes
}

// ---------------------------------------------------------------------------
// Laws of the timers and elections.

/// A tick never touches the log or the commit index, and changes the term
/// only when a follower starts an election, to the next term.
pub proof fn lemma_tick_keeps_log(v: NodeView, elapsed_nanos: u128, heartbeat_ms: u64, election_ms: u64)
    requires
        v.role == RoleType::Follower ==> v.state.current_term < u64::MAX,
    ensures
        ({
            let v2 = tick_step(v, elapsed_nanos, heartbeat_ms, election_ms).0;
            &&& v2.state.log == v.state.log
            &&& v2.state.commit_index == v.state.commit_index
            &&& v2.state.current_term == v.state.current_term || (v.role == RoleType::Follower
                && v2.role == RoleType::Candidate && v2.state.current_term == v.state.current_term + 1)
        }),
{
}

/// After the answers to its vote request come back, the node is leader or
/// follower, never still a candidate, and it is leader exactly when it won.
pub proof fn lemma_election_ends_candidacy(v: NodeView, req: RequestVoteRequest, responses: Seq<RequestVoteResponse>)
    ensures
        election_outcome(v, req, responses).role != RoleType::Candidate,
        election_outcome(v, req, responses).role == RoleType::Leader <==> wins_election(v, responses),
{
}

/// Timers never lower the term: a tick keeps it or, for a follower, moves
/// it to the next term; an election with the node's own vote request in the
/// current term or a later one ends in that term or later.
pub proof fn lemma_timers_never_lower_term(
    v: NodeView,
    elapsed_nanos: u128,
    heartbeat_ms: u64,
    election_ms: u64,
    req: RequestVoteRequest,
    responses: Seq<RequestVoteResponse>,
)
    requires
        v.state.current_term < u64::MAX,
        req.term >= v.state.current_term,
    ensures
        tick_step(v, elapsed_nanos, heartbeat_ms, election_ms).0.state.current_term >= v.state.current_term,
        election_outcome(v, req, responses).state.current_term >= v.state.current_term,
{
}

/// Roles change in order: a tick turns a follower into a candidate and
/// leaves every other role as it is; an election makes a leader or a
/// follower.
pub proof fn lemma_role_order(
    v: NodeView,
    elapsed_nanos: u128,
    heartbeat_ms: u64,
    election_ms: u64,
    req: RequestVoteRequest,
    responses: Seq<RequestVoteResponse>,
)
    ensures
        ({
            let r = tick_step(v, elapsed_nanos, heartbeat_ms, election_ms).0.role;
            r == v.role || (v.role == RoleType::Follower && r == RoleType::Candidate)
        }),
        election_outcome(v, req, responses).role == RoleType::Leader || election_outcome(
            v,
            req,
            responses,
        ).role == RoleType::Follower,
{
}

// ---------------------------------------------------------------------------
// A whole run of the node.

/// An event of a node's run, as its driver hands it over: a request, or a
/// timer tick `elapsed_nanos` after the last heartbeat with the timers of
/// the moment, together with the answers to the vote request that the tick
/// sends, if it sends one (they are not read otherwise).
pub enum NodeEvent {
    AppendEntries(AppendEntriesRequestView),
    RequestVote(RequestVoteRequest),
    Tick { elapsed_nanos: u128, heartbeat_ms: u64, election_ms: u64, responses: Seq<RequestVoteResponse> },
}

/// The node after one event of its run: a request is handled; a tick
/// decides, and a vote request that it sends is followed by the election's
/// outcome with the answers.
#[verifier::opaque]
pub open spec fn core_step(v: NodeView, e: NodeEvent) -> NodeView {
    match e {
        NodeEvent::AppendEntries(req) => append_entries_step(v, req).0,
        NodeEvent::RequestVote(req) => request_vote_step(v, req).0,
        NodeEvent::Tick { elapsed_nanos, heartbeat_ms, election_ms, responses } => {
            let (v1, send) = tick_step(v, elapsed_nanos, heartbeat_ms, election_ms);
            match send {
                Some(TickSend::Votes(req)) => election_outcome(v1, req, responses),
                _ => v1,
            }
        },
    }
}

/// `core_step` as a value.
pub open spec fn core_stepper() -> spec_fn(NodeView, NodeEvent) -> NodeView {
    |v: NodeView, e: NodeEvent| core_step(v, e)
}

/// The states a node passes through in a run in which each event takes it
/// one `step`: the first state, then the state after each event in turn.
pub open spec fn run_trace(step: spec_fn(NodeView, NodeEvent) -> NodeView, v: NodeView, events: Seq<NodeEvent>) -> Seq<NodeView>
    decreases events.len(),
{
    if events.len() == 0 {
        seq![v]
    } else {
        let t = run_trace(step, v, events.drop_last());
        t.push(step(t.last(), events.last()))
    }
}

/// One event never lowers the term, and changes the role only in the
/// protocol's order.
pub proof fn lemma_core_step_in_order(v: NodeView, e: NodeEvent)
    requires
        v.state.current_term < u64::MAX,
    ensures
        core_step(v, e).state.current_term >= v.state.current_term,
        role_change_in_order(v.role, core_step(v, e).role),
{
    reveal(core_step);
}

/// A run's trace holds the first state and one state per event, each the
/// step of the one before.
pub proof fn lemma_run_trace_shape(step: spec_fn(NodeView, NodeEvent) -> NodeView, v: NodeView, events: Seq<NodeEvent>)
    ensures
        run_trace(step, v, events).len() == events.len() + 1,
        run_trace(step, v, events)[0] == v,
        forall|i: int| 0 <= i < events.len() ==> #[trigger] run_trace(step, v, events)[i + 1] == step(
            run_trace(step, v, events)[i],
            events[i],
        ),
    decreases events.len(),
{
    if events.len() > 0 {
        let prev = events.drop_last();
        lemma_run_trace_shape(step, v, prev);
        let t = run_trace(step, v, events);
        let tp = run_trace(step, v, prev);
        assert(t == tp.push(step(tp.last(), events.last())));
        assert forall|i: int| 0 <= i < events.len() implies #[trigger] t[i + 1] == step(t[i], events[i]) by {
            if i < events.len() - 1 {
                assert(prev[i] == events[i]);
                assert(t[i + 1] == tp[i + 1]);
            }
        }
    }
}

/// States in which each term is at least the one before have terms that
/// never decrease.
pub proof fn lemma_terms_sorted(t: Seq<NodeView>)
    requires
        forall|i: int| 0 <= i < t.len() - 1 ==> #[trigger] t[i].state.current_term <= t[i + 1].state.current_term,
    ensures
        forall|i: int, j: int|
            0 <= i <= j < t.len() ==> #[trigger] t[i].state.current_term <= #[trigger] t[j].state.current_term,
    decreases t.len(),
{
    if t.len() > 0 {
        let p = t.drop_last();
        assert forall|i: int| 0 <= i < p.len() - 1 implies #[trigger] p[i].state.current_term
            <= p[i + 1].state.current_term by {
            assert(p[i] == t[i] && p[i + 1] == t[i + 1]);
        }
        lemma_terms_sorted(p);
        let n = t.len() - 1;
        assert forall|i: int, j: int| 0 <= i <= j < t.len() implies #[trigger] t[i].state.current_term
            <= #[trigger] t[j].state.current_term by {
            if i == j {
            } else if j < n {
                assert(p[i] == t[i] && p[j] == t[j]);
            } else {
                assert(p[i] == t[i] && p[n - 1] == t[n - 1]);
                assert(p[i].state.current_term <= p[n - 1].state.current_term);
            }
        }
    }
}

/// Over a whole run the term never decreases, and each event changes the
/// role only in the protocol's order: a node becomes leader only as a
/// candidate that won an election, and candidate only as a follower whose
/// election timeout passed. The run leaves out the states in which the term
/// could not grow any more.
pub proof fn lemma_core_run_in_order(v: NodeView, events: Seq<NodeEvent>)
    requires
        forall|i: int| 0 <= i < events.len() ==> #[trigger] run_trace(core_stepper(), v, events)[i].state.current_term
            < u64::MAX,
    ensures
        forall|i: int, j: int|
            0 <= i <= j <= events.len() ==> #[trigger] run_trace(core_stepper(), v, events)[i].state.current_term
                <= #[trigger] run_trace(core_stepper(), v, events)[j].state.current_term,
        forall|i: int| 0 <= i < events.len() ==> role_change_in_order(
            #[trigger] run_trace(core_stepper(), v, events)[i].role,
            run_trace(core_stepper(), v, events)[i + 1].role,
        ),
{
    lemma_run_trace_shape(core_stepper(), v, events);
    let t = run_trace(core_stepper(), v, events);
    assert forall|i: int| 0 <= i < events.len() implies #[trigger] t[i].state.current_term
        <= t[i + 1].state.current_term && role_change_in_order(t[i].role, t[i + 1].role) by {
        assert(t[i + 1] == core_step(t[i], events[i]));
        lemma_core_step_in_order(t[i], events[i]);
    }
    assert forall|i: int| 0 <= i < t.len() - 1 implies #[trigger] t[i].state.current_term
        <= t[i + 1].state.current_term by {
        assert(t[i].state.current_term <= t[i + 1].state.current_term);
    }
    assert forall|i: int| 0 <= i < events.len() implies role_change_in_order(
        #[trigger] t[i].role,
        t[i + 1].role,
    ) by {
        assert(t[i].state.current_term <= t[i + 1].state.current_term);
    }
    lemma_terms_sorted(t);
}

/// A tick decides by the time since the last heartbeat, in nanoseconds,
/// against the timers in milliseconds: a follower at or past its election
/// timeout starts an election in the next term with its own vote, and
/// before it stays as it is; a candidate at or past its election timeout
/// asks for votes in its term; a leader at or past its heartbeat interval
/// sends a heartbeat with no entries in its term, and before it sends
/// nothing.
pub proof fn lemma_tick_decides_by_elapsed_time(
    v: NodeView,
    elapsed_nanos: u128,
    heartbeat_ms: u64,
    election_ms: u64,
)
    requires
        v.state.current_term < u64::MAX,
    ensures
        ({
            let (v2, send) = tick_step(v, elapsed_nanos, heartbeat_ms, election_ms);
            &&& v.role == RoleType::Follower && elapsed_nanos >= election_ms * 1_000_000 ==> {
                &&& v2.role == RoleType::Candidate
                &&& v2.state.current_term == v.state.current_term + 1
                &&& v2.state.voted_for == Some(v.id)
                &&& send is None
            }
            &&& v.role == RoleType::Follower && elapsed_nanos < election_ms * 1_000_000 ==> v2 == v
                && send is None
            &&& v.role == RoleType::Candidate && elapsed_nanos >= election_ms * 1_000_000 ==> {
                &&& v2 == v
                &&& send matches Some(TickSend::Votes(r))
                &&& r.term == v.state.current_term
                &&& r.candidate_id == v.id
            }
            &&& v.role == RoleType::Leader && elapsed_nanos >= heartbeat_ms * 1_000_000 ==> {
                &&& v2 == v
                &&& send matches Some(TickSend::Heartbeats(r))
                &&& r.term == v.state.current_term
                &&& r.leader_id == v.id
                &&& r.entries.len() == 0
            }
            &&& v.role != RoleType::Follower && elapsed_nanos < (if v.role == RoleType::Leader {
                heartbeat_ms
            } else {
                election_ms
            }) * 1_000_000 ==> v2 == v && send is None
        }),
{
}

} // verus!
