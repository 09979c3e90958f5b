use vstd::prelude::*;

verus! {

/// Behaviour of a node in one of the Raft roles.
pub trait Role {
    /// Handle an incoming message.
    fn handle_message(&mut self, msg: RaftMessage);

    /// Returns the type of the role as an enum.
    fn role_type(&self) -> RoleType;
}

/// The three roles a Raft node can be in.
#[derive(Debug, Clone, Copy, PartialEq, Eq, Structural)]
pub enum RoleType {
    Leader,
    Follower,
    Candidate,
}

/// Represents a message in the Raft protocol.
#[derive(Debug, Clone, Copy, PartialEq, Eq, Structural)]
pub enum RaftMessage {
    AppendEntries,
    RequestVote,
}

} // verus!
