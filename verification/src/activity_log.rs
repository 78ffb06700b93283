//! The daemon's bounded activity log of notification-worthy events.

use vstd::prelude::*;

use crate::proto::{Duplicate, LogEntry};

verus! {

/// Global cap on the activity log's size.
pub const MAX_LOG_ENTRIES: usize = 500;

/// `log` after recording `entry`: appended at the end, with the oldest entry
/// evicted first once the log holds `MAX_LOG_ENTRIES`.
pub open spec fn recorded(log: Seq<LogEntry>, entry: LogEntry) -> Seq<LogEntry> {
    if log.len() >= MAX_LOG_ENTRIES {
        log.drop_first().push(entry)
    } else {
        log.push(entry)
    }
}

/// `log` after recording each of `entries`, in order.
pub open spec fn recorded_all(log: Seq<LogEntry>, entries: Seq<LogEntry>) -> Seq<LogEntry>
    decreases entries.len(),
{
    if entries.len() == 0 {
        log
    } else {
        recorded(recorded_all(log, entries.drop_last()), entries.last())
    }
}

/// Bounded, in-memory record of notification-worthy agent and test-run
/// events, oldest first, evicting the oldest entry once `MAX_LOG_ENTRIES` is
/// reached - regardless of which project it belongs to.
pub struct ActivityLog {
    entries: Vec<LogEntry>,
}

impl ActivityLog {
    /// The recorded entries, oldest first.
    pub closed spec fn entries(self) -> Seq<LogEntry> {
        self.entries@
    }

    /// The log never exceeds its cap.
    pub open spec fn wf(self) -> bool {
        self.entries().len() <= MAX_LOG_ENTRIES
    }

    /// An empty log.
    pub fn new() -> (r: ActivityLog)
        ensures
            r.wf(),
            r.entries() == Seq::<LogEntry>::empty(),
    {
        ActivityLog { entries: Vec::new() }
    }

    /// Appends `entry`, evicting the oldest entry first if the log is full.
    pub fn record(&mut self, entry: LogEntry)
        requires
            old(self).wf(),
        ensures
            final(self).wf(),
            final(self).entries() == recorded(old(self).entries(), entry),
    {
        if self.entries.len() >= MAX_LOG_ENTRIES {
            self.entries.remove(0);
        }
        self.entries.push(entry);
        proof {
            assert(self.entries@ =~= recorded(old(self).entries(), entry));
        }
    }

    /// The current entries, oldest first.
    pub fn snapshot(&self) -> (r: Vec<LogEntry>)
        ensures
            r@ == self.entries(),
    {
        let mut r: Vec<LogEntry> = Vec::new();
        let mut i: usize = 0;
        while i < self.entries.len()
            invariant
                i <= self.entries@.len(),
                r@ == self.entries@.take(i as int),
            decreases self.entries@.len() - i,
        {
            r.push(self.entries[i].duplicate());
            assert(self.entries@.take(i + 1) =~= self.entries@.take(i as int).push(
                self.entries@[i as int],
            ));
            i = i + 1;
        }
        assert(self.entries@.take(self.entries@.len() as int) =~= self.entries@);
        r
    }
}

/// Recording keeps the log within its cap, puts the new entry last, and only
/// ever drops the single oldest entry: the result is exactly the newest
/// `min(len + 1, MAX_LOG_ENTRIES)` entries of the log with `entry` appended.
pub proof fn lemma_record_keeps_newest(log: Seq<LogEntry>, entry: LogEntry)
    requires
        log.len() <= MAX_LOG_ENTRIES,
    ensures
        recorded(log, entry).len() <= MAX_LOG_ENTRIES,
        recorded(log, entry).len() == if log.len() < MAX_LOG_ENTRIES {
            log.len() + 1
        } else {
            MAX_LOG_ENTRIES as nat
        },
        recorded(log, entry).last() == entry,
        recorded(log, entry) == log.push(entry).skip(
            log.push(entry).len() - recorded(log, entry).len(),
        ),
{
    assert(recorded(log, entry) =~= log.push(entry).skip(
        log.push(entry).len() - recorded(log, entry).len(),
    ));
}

} // verus!
