use vstd::prelude::*;

use crate::log_entry::{entries_view, LogEntry, LogEntryView};

verus! {

broadcast use crate::log_entry::group_entries_view;

/// The persistent state of a Raft node: its term, its vote, how far the log
/// is committed and applied, and the log itself. Log positions are counted
/// from 1: the entry at position `i` is `log[i - 1]`, and position 0 stands
/// for "before the first entry".
#[derive(Debug)]
pub struct State {
    pub current_term: u64,
    /// ID of the candidate that received this node's vote in the current term.
    pub voted_for: Option<u64>,
    pub commit_index: u64,
    pub last_applied: u64,
    /// Stored copy of the log's last position, kept as it was loaded or created.
    pub last_log_index: u64,
    /// Stored copy of the log's last term, kept as it was loaded or created.
    pub last_log_term: u64,
    pub log: Vec<LogEntry>,
}

/// The state as mathematical values.
#[verifier::ext_equal]
pub struct StateView {
    pub current_term: u64,
    pub voted_for: Option<u64>,
    pub commit_index: u64,
    pub last_applied: u64,
    pub last_log_index: u64,
    pub last_log_term: u64,
    pub log: Seq<LogEntryView>,
}

impl View for State {
    type V = StateView;

    open spec fn view(&self) -> StateView {
        StateView {
            current_term: self.current_term,
            voted_for: self.voted_for,
            commit_index: self.commit_index,
            last_applied: self.last_applied,
            last_log_index: self.last_log_index,
            last_log_term: self.last_log_term,
            log: entries_view(self.log@),
        }
    }
}

/// The term of the last entry of `log`, or 0 for an empty log.
pub open spec fn last_term_of(log: Seq<LogEntryView>) -> u64 {
    if log.len() == 0 {
        0
    } else {
        log.last().term
    }
}

/// The log holds an entry at position `prev_index` whose term is `prev_term`
/// (position 0 always matches).
pub open spec fn prev_entry_matches(log: Seq<LogEntryView>, prev_index: u64, prev_term: u64) -> bool {
    &&& prev_index <= log.len()
    &&& (prev_index == 0 || log[prev_index - 1].term == prev_term)
}

/// A log described by its last position and last term counts as at least
/// as up to date as `log`: it reaches further, or it ends at the same
/// position with a last term that is not older. Positions are compared
/// first.
pub open spec fn log_up_to_date(log: Seq<LogEntryView>, last_index: u64, last_term: u64) -> bool {
    !(last_index < log.len() || (last_index == log.len() && last_term < last_term_of(log)))
}

/// The number of new entries that an append after `prev_index` compares with
/// stored entries: the `k`-th new entry is compared with `log[prev_index + 1 + k]`.
pub open spec fn compared_count(log: Seq<LogEntryView>, prev_index: int, entries: Seq<LogEntryView>) -> int {
    let room = log.len() - prev_index - 1;
    if entries.len() < room {
        entries.len() as int
    } else {
        room
    }
}

/// The `k`-th new entry has a term other than the stored entry it is compared with.
pub open spec fn conflicts_at(log: Seq<LogEntryView>, prev_index: int, entries: Seq<LogEntryView>, k: int) -> bool {
    log[prev_index + 1 + k].term != entries[k].term
}

/// One of the compared new entries conflicts with the log.
pub open spec fn has_conflict(log: Seq<LogEntryView>, prev_index: int, entries: Seq<LogEntryView>) -> bool {
    exists|k: int| 0 <= k < compared_count(log, prev_index, entries) && #[trigger] conflicts_at(log, prev_index, entries, k)
}

/// An append after `prev_index` would compare a new entry with the position
/// just past the end of the log: the new entries reach that far and none of
/// the earlier ones conflicts.
pub open spec fn append_overruns(log: Seq<LogEntryView>, prev_index: int, entries: Seq<LogEntryView>) -> bool {
    &&& prev_index < log.len()
    &&& entries.len() > log.len() - prev_index - 1
    &&& !has_conflict(log, prev_index, entries)
}

/// The log after appending `entries` behind position `prev_index`:
/// behind the end of the log they are all appended; inside the log, a
/// conflict cuts the log to its first `prev_index + 1` entries, and with no
/// conflict the log stays as it is.
pub open spec fn log_after_append(log: Seq<LogEntryView>, prev_index: int, entries: Seq<LogEntryView>) -> Seq<LogEntryView> {
    if prev_index >= log.len() {
        log + entries
    } else if has_conflict(log, prev_index, entries) {
        log.take(prev_index + 1)
    } else {
        log
    }
}

/// The commit index after a leader announced `leader_commit`: a larger value
/// moves it to `leader_commit`, capped at the last position of the log.
pub open spec fn commit_after(commit_index: u64, leader_commit: u64, log_len: nat) -> u64 {
    if leader_commit > commit_index {
        if leader_commit < log_len {
            leader_commit
        } else {
            log_len as u64
        }
    } else {
        commit_index
    }
}

/// The state of a node that has never run: term 0, no vote, an empty log.
pub open spec fn fresh_state() -> StateView {
    StateView {
        current_term: 0,
        voted_for: None,
        commit_index: 0,
        last_applied: 0,
        last_log_index: 0,
        last_log_term: 0,
        log: Seq::empty(),
    }
}

impl State {
    /// The state of a node that has never run: term 0, no vote, an empty log.
    pub fn new() -> (s: Self)
        ensures
            s.log@.len() == 0,
            s@ == (StateView {
                current_term: 0,
                voted_for: None,
                commit_index: 0,
                last_applied: 0,
                last_log_index: 0,
                last_log_term: 0,
                log: Seq::empty(),
            }),
    {
        let s = Self {
            current_term: 0,
            voted_for: None,
            commit_index: 0,
            last_applied: 0,
            last_log_index: 0,
            last_log_term: 0,
            log: Vec::new(),
        };
        assert(s@.log =~= Seq::<LogEntryView>::empty());
        s
    }

    /// The position of the last entry of the log (0 when it is empty).
    pub fn last_log_index(&self) -> (r: u64)
        ensures
            r == self.log@.len(),
            r == self@.log.len(),
    {
        self.log.len() as u64
    }

    /// The term of the last entry of the log (0 when it is empty).
    pub fn last_log_term(&self) -> (r: u64)
        ensures
            r == last_term_of(self@.log),
    {
        let n = self.log.len();
        if n == 0 {
            0
        } else {
            self.log[n - 1].term
        }
    }

    /// Whether the log holds an entry at `prev_index` with term `prev_term`.
    pub fn prev_log_matches(&self, prev_index: u64, prev_term: u64) -> (r: bool)
        ensures
            r == prev_entry_matches(self@.log, prev_index, prev_term),
    {
        let len: usize = self.log.len();
        if prev_index > len as u64 {
            return false;
        }
        if prev_index == 0 {
            return true;
        }
        self.log[(prev_index - 1) as usize].term == prev_term
    }

    /// Whether a candidate whose log ends at `last_index` with term
    /// `last_term` is at least as up to date as this log.
    pub fn is_up_to_date(&self, last_index: u64, last_term: u64) -> (r: bool)
        ensures
            r == log_up_to_date(self@.log, last_index, last_term),
            last_index > self.log@.len() ==> r,
            last_index < self.log@.len() ==> !r,
            last_index == self.log@.len() ==> (r <==> last_index == 0 || last_term
                >= self.log@[last_index - 1].term),
    {
        !(last_index < self.last_log_index() || (last_index == self.last_log_index()
            && last_term < self.last_log_term()))
    }

    /// Moves the commit index towards `leader_commit`, never past the end of the log.
    pub fn advance_commit_index(&mut self, leader_commit: u64)
        ensures
            final(self)@ == (StateView {
                commit_index: commit_after(old(self).commit_index, leader_commit, old(self)@.log.len()),
                ..old(self)@
            }),
    {
        if leader_commit > self.commit_index {
            let len: usize = self.log.len();
            let last: u64 = len as u64;
            let new_commit = if leader_commit < last {
                leader_commit
            } else {
                last
            };
            self.commit_index = new_commit;
        }
    }

    /// Whether appending `entries` behind `prev_index` would compare a new
    /// entry with the position just past the end of the log.
    pub fn append_would_overrun(&self, prev_index: u64, entries: &Vec<LogEntry>) -> (r: bool)
        ensures
            r == append_overruns(self@.log, prev_index as int, entries_view(entries@)),
    {
        let ghost log = self@.log;
        let ghost new_entries = entries_view(entries@);
        let ghost p = prev_index as int;
        let len: usize = self.log.len();
        if prev_index >= len as u64 {
            return false;
        }
        let first: usize = (prev_index + 1) as usize;
        let room: usize = len - first;
        if entries.len() <= room {
            return false;
        }
        let mut k: usize = 0;
        while k < room
            invariant
                0 <= k <= room,
                room == len - first,
                first == p + 1,
                p == prev_index as int,
                len == log.len(),
                log == self@.log,
                len == self.log@.len(),
                new_entries == entries_view(entries@),
                entries@.len() > room,
                forall|j: int| 0 <= j < k ==> !#[trigger] conflicts_at(log, p, new_entries, j),
            decreases room - k,
        {
            if self.log[first + k].term != entries[k].term {
                proof {
                    assert(conflicts_at(log, p, new_entries, k as int));
                }
                return false;
            }
            k = k + 1;
        }
        proof {
            lemma_no_conflict_when_all_match(log, p, new_entries, k as int);
        }
        true
    }

    /// Appends `entries` behind position `prev_index`. Walking the new
    /// entries in order, the `k`-th one is compared with the stored entry
    /// `log[prev_index + 1 + k]`: on a term mismatch the log is cut to its
    /// first `prev_index + 1` entries and the walk stops; a new entry that
    /// lies behind the end of the log is appended.
    pub fn append_entries(&mut self, prev_index: u64, entries: &Vec<LogEntry>)
        requires
            !append_overruns(old(self)@.log, prev_index as int, entries_view(entries@)),
        ensures
            final(self)@ == (StateView {
                log: log_after_append(old(self)@.log, prev_index as int, entries_view(entries@)),
                ..old(self)@
            }),
            prev_index >= old(self).log@.len() ==> final(self)@.log == old(self)@.log + entries_view(entries@),
            prev_index < old(self).log@.len() && (exists|k: int|
                0 <= k < entries@.len() && prev_index + 1 + k < old(self).log@.len()
                    && old(self).log@[prev_index + 1 + k].term != #[trigger] entries@[k].term)
                ==> final(self)@.log == old(self)@.log.take(prev_index + 1),
            prev_index < old(self).log@.len() && (forall|k: int|
                0 <= k < entries@.len() && prev_index + 1 + k < old(self).log@.len()
                    ==> old(self).log@[prev_index + 1 + k].term == #[trigger] entries@[k].term)
                ==> final(self)@.log == old(self)@.log,
    {
        let ghost old_log = self@.log;
        let ghost new_entries = entries_view(entries@);
        let ghost p = prev_index as int;
        let ghost m0 = old_log.len() as int;
        let start_index: u128 = prev_index as u128 + 1;
        let n: usize = entries.len();
        let mut i: usize = 0;
        let mut stopped = false;
        while i < n && !stopped
            invariant
                0 <= i <= n,
                n == entries@.len(),
                n == new_entries.len(),
                start_index == p + 1,
                p == prev_index as int,
                m0 == old_log.len(),
                old_log == old(self)@.log,
                new_entries == entries_view(entries@),
                !append_overruns(old_log, p, new_entries),
                self@ == (StateView { log: self@.log, ..old(self)@ }),
                stopped ==> p < m0 && has_conflict(old_log, p, new_entries) && self@.log == old_log.take(p + 1),
                !stopped && p >= m0 ==> self@.log == old_log + new_entries.take(i as int),
                !stopped && p < m0 ==> self@.log == old_log,
                !stopped && p < m0 ==> forall|k: int| 0 <= k < i ==> p + 1 + k < m0 && !#[trigger] conflicts_at(old_log, p, new_entries, k),
            decreases n - i,
        {
            let pos: u128 = start_index + i as u128;
            let len: usize = self.log.len();
            if pos <= len as u128 {
                proof {
                    // Nothing was appended, so the walk is still inside the old log.
                    assert(p < m0) by {
                        if p >= m0 {
                            assert(self@.log.len() == m0 + i);
                        }
                    }
                    lemma_walk_stays_inside(old_log, p, new_entries, i as int);
                }
                if self.log[pos as usize].term != entries[i].term {
                    proof {
                        assert(conflicts_at(old_log, p, new_entries, i as int));
                    }
                    self.log.truncate(start_index as usize);
                    proof {
                        assert(self@.log =~= old_log.take(p + 1));
                    }
                    stopped = true;
                }
            } else {
                let ghost before = self@.log;
                self.log.push(entries[i].clone());
                proof {
                    assert(self@.log =~= before.push(new_entries[i as int]));
                    assert(new_entries.take(i + 1) =~= new_entries.take(i as int).push(new_entries[i as int]));
                }
            }
            i = i + 1;
        }
        proof {
            lemma_append_cases(old_log, p, new_entries);
            if exists|k: int|
                0 <= k < entries@.len() && p + 1 + k < old_log.len() && old(self).log@[p + 1 + k].term
                    != #[trigger] entries@[k].term {
                let k = choose|k: int|
                    0 <= k < entries@.len() && p + 1 + k < old_log.len() && old(self).log@[p + 1 + k].term
                        != #[trigger] entries@[k].term;
                assert(old_log[p + 1 + k].term != new_entries[k].term);
            }
            assert forall|k: int|
                0 <= k < entries@.len() && p + 1 + k < old_log.len() && old(self).log@[p + 1 + k].term
                    == #[trigger] entries@[k].term implies old_log[p + 1 + k].term == new_entries[k].term by {}
            if !stopped {
                if p >= m0 {
                    assert(new_entries.take(n as int) =~= new_entries);
                } else {
                    lemma_no_conflict_when_all_match(old_log, p, new_entries, i as int);
                }
            }
        }
    }
}

/// What an append does, in terms of the log and the new entries: behind
/// the end of the log the entries are appended; inside it, a new entry whose
/// term differs from the stored entry it is compared with, at any compared
/// position, cuts the log to its first `prev_index + 1` entries; when every
/// compared entry matches, the log stays.
pub proof fn lemma_append_cases(log: Seq<LogEntryView>, p: int, entries: Seq<LogEntryView>)
    requires
        0 <= p,
    ensures
        p >= log.len() ==> log_after_append(log, p, entries) == log + entries,
        p < log.len() && (exists|k: int|
            0 <= k < entries.len() && p + 1 + k < log.len() && log[p + 1 + k].term
                != #[trigger] entries[k].term) ==> log_after_append(log, p, entries) == log.take(p + 1),
        p < log.len() && (forall|k: int|
            0 <= k < entries.len() && p + 1 + k < log.len() ==> log[p + 1 + k].term
                == #[trigger] entries[k].term) ==> log_after_append(log, p, entries) == log,
{
    if p < log.len() {
        if exists|k: int|
            0 <= k < entries.len() && p + 1 + k < log.len() && log[p + 1 + k].term
                != #[trigger] entries[k].term {
            let k = choose|k: int|
                0 <= k < entries.len() && p + 1 + k < log.len() && log[p + 1 + k].term
                    != #[trigger] entries[k].term;
            assert(conflicts_at(log, p, entries, k));
        } else {
            assert forall|k: int| 0 <= k < compared_count(log, p, entries) implies
                !#[trigger] conflicts_at(log, p, entries, k) by {
                assert(log[p + 1 + k].term == entries[k].term);
            }
        }
    }
}

/// While no compared entry before `i` conflicts, an append that does not
/// overrun compares its `i`-th entry with a position inside the log.
proof fn lemma_walk_stays_inside(log: Seq<LogEntryView>, p: int, entries: Seq<LogEntryView>, i: int)
    requires
        0 <= p < log.len(),
        0 <= i < entries.len(),
        !append_overruns(log, p, entries),
        forall|k: int| 0 <= k < i ==> !#[trigger] conflicts_at(log, p, entries, k),
    ensures
        p + 1 + i < log.len(),
{
    if p + 1 + i >= log.len() {
        lemma_no_conflict_when_all_match(log, p, entries, i);
    }
}

/// When none of the first `i` compared entries conflicts and `i` covers all
/// compared entries, there is no conflict.
proof fn lemma_no_conflict_when_all_match(log: Seq<LogEntryView>, p: int, entries: Seq<LogEntryView>, i: int)
    requires
        0 <= p < log.len(),
        i >= compared_count(log, p, entries),
        forall|k: int| 0 <= k < i ==> !#[trigger] conflicts_at(log, p, entries, k),
    ensures
        !has_conflict(log, p, entries),
{
    assert forall|k: int| 0 <= k < compared_count(log, p, entries) implies
        !#[trigger] conflicts_at(log, p, entries, k) by {
        assert(k < i);
    }
}

} // verus!
