//! A Raft consensus node: the persistent state, the RPC handlers and the
//! decisions of the election and heartbeat timers, verified with Verus.
//! Channels, threads and the network live outside this crate; the nodes
//! expose step functions that a driver calls with each event.

mod external;

pub mod follower;
pub mod log_entry;
pub mod node;
pub mod protocol;
pub mod raft_node;
pub mod role;
pub mod rpc;
pub mod server;
pub mod state;
pub mod storage;
