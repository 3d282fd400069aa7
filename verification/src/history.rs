//! Rolling history: the closed aggregation intervals of one interface, oldest
//! first, bounded to a retention length by evicting from the head.

use std::collections::VecDeque;
use vstd::prelude::*;

use crate::buffer::AggregationBuffer;

verus! {

/// How many closed intervals an interface keeps by default (about a minute at
/// the default one-second flush period).
pub const DEFAULT_RETENTION: usize = 60;

/// One closed interval: the moment it was closed (milliseconds since process
/// start) and the byte counts accumulated during it. Immutable once appended.
pub struct HistoryEntry {
    pub timestamp: u64,
    pub counts: AggregationBuffer,
}

/// Ordered sequence of closed intervals, append-only at the tail; the flush
/// cycle is the sole appender, so insertion order is timestamp order.
pub struct HistoryRing {
    entries: VecDeque<HistoryEntry>,
}

impl View for HistoryRing {
    type V = Seq<HistoryEntry>;

    closed spec fn view(&self) -> Seq<HistoryEntry> {
        self.entries@
    }
}

/// What eviction leaves: the newest `limit` entries when the sequence is over
/// the bound, the whole sequence otherwise.
pub open spec fn spec_evict(s: Seq<HistoryEntry>, limit: int) -> Seq<HistoryEntry> {
    if s.len() <= limit {
        s
    } else {
        s.skip(s.len() - limit)
    }
}

impl HistoryRing {
    /// Every kept interval has well-formed counts.
    pub open spec fn wf(&self) -> bool {
        forall|i: int| 0 <= i < self@.len() ==> (#[trigger] self@[i]).counts.wf()
    }

    /// An empty history.
    pub fn new() -> (r: Self)
        ensures
            r.wf(),
            r@.len() == 0,
    {
        HistoryRing { entries: VecDeque::new() }
    }

    /// Appends one closed interval at the tail.
    pub fn append(&mut self, timestamp: u64, counts: AggregationBuffer)
        requires
            old(self).wf(),
            counts.wf(),
        ensures
            final(self).wf(),
            final(self)@ == old(self)@.push(HistoryEntry { timestamp, counts }),
    {
        self.entries.push_back(HistoryEntry { timestamp, counts });
    }

    /// Evicts from the head until the retention bound holds; afterwards the
    /// length never exceeds `limit`.
    pub fn enforce_bound(&mut self, limit: usize)
        requires
            old(self).wf(),
        ensures
            final(self).wf(),
            final(self)@ == spec_evict(old(self)@, limit as int),
            final(self)@.len() <= limit,
    {
        let ghost orig = self@;
        let n = self.entries.len();
        if n <= limit {
            return ;
        }
        let excess = n - limit;
        let mut i: usize = 0;
        proof {
            assert(orig.skip(0) =~= orig);
        }
        while i < excess
            invariant
                i <= excess,
                excess == orig.len() - limit,
                limit <= orig.len(),
                self@ == orig.skip(i as int),
                forall|j: int| 0 <= j < orig.len() ==> (#[trigger] orig[j]).counts.wf(),
            decreases excess - i,
        {
            self.entries.pop_front();
            i = i + 1;
            proof {
                assert(self@ =~= orig.skip(i as int));
            }
        }
        proof {
            assert(self@ == spec_evict(orig, limit as int));
        }
    }

    /// How many closed intervals are kept.
    pub fn len(&self) -> (r: usize)
        ensures
            r == self@.len(),
    {
        self.entries.len()
    }

    /// The interval at position `i`, oldest first.
    pub fn entry(&self, i: usize) -> (r: &HistoryEntry)
        requires
            i < self@.len(),
        ensures
            r == self@[i as int],
    {
        &self.entries[i]
    }
}

} // verus!
