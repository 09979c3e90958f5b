# raft

A Raft node whose protocol logic is verified with Verus.

- `src/` is the verified library:
  - `log_entry`, `state`: log entries and the persistent state, with the
    log operations that the handlers use (matching the previous entry,
    appending, moving the commit index, comparing logs);
  - `rpc`: the append-entries and request-vote messages;
  - `protocol`: the node's view and the specifications of how it handles
    each request, with the laws proved of them;
  - `node`: `RaftNodeCore`, the node that redraws its election timeout on
    every role change, with its request handlers and timer decisions;
  - `raft_node`: `RaftNode`, the node that draws its election timeout once
    and checks its state before taking leadership;
  - `server`: `RaftServer`, a single-process server driven by a timer loop;
  - `role`, `follower`, `storage`: the role trait and its follower, and the
    storage trait that users implement;
  - `external`: the calls into the clock and the random number generator.
- `app/` drives the nodes: the async `Transport` trait, the threads,
  channels and timer loops that hand the nodes their events and send what
  they ask for.
- `tests/` exercises the library on concrete values.
