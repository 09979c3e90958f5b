use raft::follower::Follower;
use raft::role::{RaftMessage, Role, RoleType};

#[test]
fn follower_role_type() {
    let f = Follower {};
    assert_eq!(f.role_type(), RoleType::Follower);
}

#[test]
fn follower_ignores_messages() {
    let mut f = Follower {};
    f.handle_message(RaftMessage::AppendEntries);
    f.handle_message(RaftMessage::RequestVote);
    assert_eq!(f.role_type(), RoleType::Follower);
}
