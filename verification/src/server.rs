use vstd::prelude::*;

use std::time::Duration;

use crate::external::{duration_nanos, duration_nanos_of, std_elapsed, std_now};

verus! {

/// The role of a `RaftServer`.
#[derive(Debug, Clone, Copy, PartialEq, Eq, Structural)]
pub enum State {
    Follower,
    Candidate,
    Leader,
}

/// A single-process Raft server driven by a timer loop: a follower whose
/// election timeout passes becomes candidate, a candidate takes the next
/// term with its own vote and leads, and a leader keeps its heartbeat fresh.
#[derive(Debug)]
pub struct RaftServer {
    pub id: u64,
    pub state: State,
    pub current_term: u64,
    pub voted_for: Option<u64>,
    pub peers: Vec<u64>,
    pub election_timeout: Duration,
    pub last_heartbeat: std::time::Instant,
}

/// The server keeps its identity, peers and timeout.
pub open spec fn same_setup(a: &RaftServer, b: &RaftServer) -> bool {
    &&& a.id == b.id
    &&& a.peers@ == b.peers@
    &&& a.election_timeout == b.election_timeout
}

/// The role, term and vote after one round of the timer loop, where
/// `timed_out` tells whether the election timeout has passed: a follower
/// that timed out becomes candidate; a candidate takes the next term, votes
/// for itself and becomes leader; a leader stays leader.
pub open spec fn tick_outcome(s: &RaftServer, timed_out: bool) -> (State, u64, Option<u64>) {
    match s.state {
        State::Follower => (
            if timed_out {
                State::Candidate
            } else {
                State::Follower
            },
            s.current_term,
            s.voted_for,
        ),
        State::Candidate => (State::Leader, (s.current_term + 1) as u64, Some(s.id)),
        State::Leader => (State::Leader, s.current_term, s.voted_for),
    }
}

/// One round of the timer loop `elapsed_nanos` nanoseconds after the last
/// heartbeat: the election timeout has passed when more time than
/// `election_timeout` has gone by.
pub open spec fn tick_outcome_after(s: &RaftServer, elapsed_nanos: u128) -> (State, u64, Option<u64>) {
    tick_outcome(s, elapsed_nanos > duration_nanos_of(s.election_timeout))
}

impl RaftServer {
    /// A follower in term 0 with no vote, whose heartbeat timer starts now.
    pub fn new(id: u64, peers: Vec<u64>, election_timeout: Duration) -> (s: Self)
        ensures
            s.id == id,
            s.state == State::Follower,
            s.current_term == 0,
            s.voted_for == None::<u64>,
            s.peers@ == peers@,
            s.election_timeout == election_timeout,
    {
        let now = std_now();
        Self::new_at(id, peers, election_timeout, now)
    }

    /// A follower in term 0 with no vote, whose heartbeat timer starts at `now`.
    pub fn new_at(id: u64, peers: Vec<u64>, election_timeout: Duration, now: std::time::Instant) -> (s: Self)
        ensures
            s.id == id,
            s.state == State::Follower,
            s.current_term == 0,
            s.voted_for == None::<u64>,
            s.peers@ == peers@,
            s.election_timeout == election_timeout,
            s.last_heartbeat == now,
    {
        RaftServer {
            id,
            state: State::Follower,
            current_term: 0,
            voted_for: None,
            peers,
            election_timeout,
            last_heartbeat: now,
        }
    }

    /// A heartbeat of a leader in `term`: from the server's term or a newer
    /// one it makes the server a follower in that term and restarts its
    /// heartbeat timer; an older term is ignored.
    pub fn receive_heartbeat(&mut self, term: u64)
        ensures
            same_setup(&*final(self), &*old(self)),
            final(self).voted_for == old(self).voted_for,
            term >= old(self).current_term ==> final(self).current_term == term && final(self).state
                == State::Follower,
            term < old(self).current_term ==> final(self).current_term == old(self).current_term
                && final(self).state == old(self).state && final(self).last_heartbeat
                == old(self).last_heartbeat,
    {
        let now = std_now();
        self.receive_heartbeat_at(term, now);
    }

    /// A heartbeat of a leader in `term`, received at time `now`.
    pub fn receive_heartbeat_at(&mut self, term: u64, now: std::time::Instant)
        ensures
            same_setup(&*final(self), &*old(self)),
            final(self).voted_for == old(self).voted_for,
            term >= old(self).current_term ==> {
                &&& final(self).current_term == term
                &&& final(self).state == State::Follower
                &&& final(self).last_heartbeat == now
            },
            term < old(self).current_term ==> {
                &&& final(self).current_term == old(self).current_term
                &&& final(self).state == old(self).state
                &&& final(self).last_heartbeat == old(self).last_heartbeat
            },
    {
        if term >= self.current_term {
            self.current_term = term;
            self.state = State::Follower;
            self.last_heartbeat = now;
        }
    }

    /// One round of the timer loop: reads the clock and decides as
    /// `tick_at` does, with the follower's timeout passed when more time
    /// than `election_timeout` has gone by since the last heartbeat.
    pub fn tick(&mut self)
        requires
            old(self).state == State::Candidate ==> old(self).current_term < u64::MAX,
        ensures
            same_setup(&*final(self), &*old(self)),
            exists|elapsed: Duration|
                (final(self).state, final(self).current_term, final(self).voted_for)
                    == #[trigger] tick_outcome_after(&*old(self), duration_nanos_of(elapsed)),
            old(self).state != State::Leader ==> final(self).last_heartbeat == old(self).last_heartbeat,
    {
        let elapsed = std_elapsed(&self.last_heartbeat);
        let elapsed_nanos = duration_nanos(&elapsed);
        let timed_out = elapsed_nanos > duration_nanos(&self.election_timeout);
        let now = std_now();
        let ghost before = *self;
        self.tick_at(timed_out, now);
        proof {
            assert((self.state, self.current_term, self.voted_for) == tick_outcome_after(
                &before,
                duration_nanos_of(elapsed),
            ));
        }
    }

    /// One round of the timer loop at time `now` (see `tick_outcome`); a
    /// leader restarts its heartbeat timer at `now`.
    pub fn tick_at(&mut self, timed_out: bool, now: std::time::Instant)
        requires
            old(self).state == State::Candidate ==> old(self).current_term < u64::MAX,
        ensures
            same_setup(&*final(self), &*old(self)),
            (final(self).state, final(self).current_term, final(self).voted_for) == tick_outcome(
                &*old(self),
                timed_out,
            ),
            final(self).last_heartbeat == if old(self).state == State::Leader {
                now
            } else {
                old(self).last_heartbeat
            },
    {
        match self.state {
            State::Follower => {
                if timed_out {
                    self.state = State::Candidate;
                }
            },
            State::Candidate => {
                self.current_term = self.current_term + 1;
                self.voted_for = Some(self.id);
                self.state = State::Leader;
            },
            State::Leader => {
                self.last_heartbeat = now;
            },
        }
    }
}

/// A round of the timer loop decides by the time since the last heartbeat
/// against the election timeout: a follower becomes candidate exactly when
/// more time than the timeout has passed; a candidate always takes the next
/// term with its own vote and leads; a leader keeps its term and vote.
pub proof fn lemma_tick_decides_by_election_timeout(s: &RaftServer, elapsed: Duration)
    requires
        s.current_term < u64::MAX,
    ensures
        ({
            let (state, term, vote) = tick_outcome_after(s, duration_nanos_of(elapsed));
            &&& s.state == State::Follower ==> (state == State::Candidate <==> duration_nanos_of(elapsed)
                > duration_nanos_of(s.election_timeout)) && term == s.current_term && vote == s.voted_for
            &&& s.state == State::Follower && duration_nanos_of(elapsed) <= duration_nanos_of(s.election_timeout)
                ==> state == State::Follower
            &&& s.state == State::Candidate ==> state == State::Leader && term == s.current_term + 1
                && vote == Some(s.id)
            &&& s.state == State::Leader ==> state == State::Leader && term == s.current_term && vote
                == s.voted_for
        }),
{
}

} // verus!
