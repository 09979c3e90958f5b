use vstd::prelude::*;

use crate::log_entry::LogEntry;
use crate::state::{State, StateView};

verus! {

/// Why a storage operation failed, in the words of the storage.
#[derive(Debug)]
pub struct StorageError {
    pub message: String,
}

/// `after` is the storage `before` that was handed one more state to save,
/// `state`.
pub open spec fn saved_once<S: Storage>(before: S, after: S, state: StateView) -> bool {
    after.saved_states() == before.saved_states().push(state)
}

/// Durable storage for a node's state and log, provided by the user of the
/// library. An implementation keeps account, in `saved_states`, of the
/// states it was handed to save; nothing else is assumed of it.
pub trait Storage: Send + Sync {
    /// The states handed to `save_state` so far, oldest first, whether or
    /// not writing them succeeded.
    spec fn saved_states(&self) -> Seq<StateView>;

    // ---- State ----
    /// Saves `state`; the call is recorded in `saved_states` whatever its result.
    fn save_state(&mut self, state: &State) -> (r: Result<(), StorageError>)
        ensures
            final(self).saved_states() == old(self).saved_states().push(state@),
    ;

    /// The state that loading from this storage gives, or `None` when
    /// loading fails. A verified implementation defines it by what it holds;
    /// the default leaves it unknown, which no verified `load_state` meets.
    closed spec fn stored_state(&self) -> Option<StateView> {
        arbitrary()
    }

    /// Loads the stored state: exactly `stored_state`, or an error when
    /// there is none.
    fn load_state(&self) -> (r: Result<State, StorageError>)
        ensures
            r is Ok <==> self.stored_state() is Some,
            r is Ok ==> r->Ok_0@ == self.stored_state()->0,
    ;

    // ---- Log ----
    fn append_log(&mut self, entries: &[LogEntry]) -> Result<(), StorageError>;

    fn get_log(&self, index: u64) -> Result<Option<LogEntry>, StorageError>;

    fn get_logs(&self, start: u64, end: u64) -> Result<Vec<LogEntry>, StorageError>;

    fn truncate_suffix(&mut self, from_index: u64) -> Result<(), StorageError>;

    fn last_log_entry(&self) -> Result<Option<LogEntry>, StorageError>;

    fn term_at(&self, index: u64) -> Result<Option<u64>, StorageError>;
}

} // verus!
