use vstd::prelude::*;

use crate::role::{RaftMessage, Role, RoleType};

verus! {

/// The follower role: it answers the leader and the candidates, and starts
/// nothing of its own.
pub struct Follower {}

impl Role for Follower {
    fn handle_message(&mut self, msg: RaftMessage)
        ensures
            *final(self) == *old(self),
    {
        match msg {
            RaftMessage::AppendEntries => {},
            RaftMessage::RequestVote => {},
        }
    }

    fn role_type(&self) -> (r: RoleType)
        ensures
            r == RoleType::Follower,
    {
        RoleType::Follower
    }
}

} // verus!
