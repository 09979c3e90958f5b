use vstd::prelude::*;

verus! {

/// One entry of the replicated log: the term in which a leader created it
/// and the command it carries, serialised as bytes.
#[derive(Debug)]
pub struct LogEntry {
    pub term: u64,
    pub command: Vec<u8>,
}

/// What a log entry holds, as mathematical values.
pub struct LogEntryView {
    pub term: u64,
    pub command: Seq<u8>,
}

impl View for LogEntry {
    type V = LogEntryView;

    open spec fn view(&self) -> LogEntryView {
        LogEntryView { term: self.term, command: self.command@ }
    }
}

impl Clone for LogEntry {
    fn clone(&self) -> (r: Self)
        ensures
            r@ == self@,
    {
        LogEntry { term: self.term, command: self.command.clone() }
    }
}

/// The entries of a log, each taken by its view.
pub open spec fn entries_view(entries: Seq<LogEntry>) -> Seq<LogEntryView> {
    entries.map_values(|e: LogEntry| e@)
}

/// The view of a list of entries has one view per entry.
pub broadcast proof fn lemma_entries_view_len(entries: Seq<LogEntry>)
    ensures
        #[trigger] entries_view(entries).len() == entries.len(),
{
}

/// The view of a list of entries holds the view of each entry at its place.
pub broadcast proof fn lemma_entries_view_index(entries: Seq<LogEntry>, i: int)
    requires
        0 <= i < entries.len(),
    ensures
        #[trigger] entries_view(entries)[i] == entries[i]@,
{
}

pub broadcast group group_entries_view {
    lemma_entries_view_len,
    lemma_entries_view_index,
}

} // verus!
