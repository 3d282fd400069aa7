//! Per-interface session: the current open aggregation buffer, the rolling
//! history of closed intervals, the interface's hardware address, and the
//! open/closed lifecycle flag, with the full and watermark-limited snapshot
//! projections the control protocol serves.

use vstd::prelude::*;
use vstd::string::StringExecFns;

use crate::buffer::{count_of, AggregationBuffer};
use crate::codec::HeaderKey;
use crate::history::{spec_evict, HistoryEntry, HistoryRing};
use crate::json::{JsonRep, JsonVal};
use crate::render::{key_str, key_string, mac_str, mac_string};

verus! {

/// Statistics of one observed interface.
///
/// `open` models the lifecycle signal: while a session is open a capture task
/// is active (or starting) and the one-shot cancellation sender is present;
/// closing takes the sender, which tells the capture task to exit at its next
/// race point.
pub struct InterfaceStatistics {
    /// Byte counts of the current open interval.
    pub buffer: AggregationBuffer,
    /// Closed intervals, oldest first, bounded by the retention limit.
    pub history: HistoryRing,
    /// Whether a capture task is live for this session.
    pub open: bool,
    /// The interface's hardware address (low 48 bits), if known at start.
    pub mac: Option<u64>,
}

/// The counts of one interval as a JSON object keyed by rendered class token.
pub open spec fn spec_counts_json(s: Seq<(HeaderKey, u64)>) -> JsonRep {
    JsonRep::Obj(Seq::new(s.len(), |i: int| (key_str(s[i].0), JsonRep::UInt(s[i].1))))
}

/// One history entry as the JSON pair `[timestamp, counts]`.
pub open spec fn spec_entry_json(e: HistoryEntry) -> JsonRep {
    JsonRep::Arr(seq![JsonRep::UInt(e.timestamp), spec_counts_json(e.counts@)])
}

/// One history entry with its data elided: `[timestamp, null]`.
pub open spec fn spec_entry_elided(e: HistoryEntry) -> JsonRep {
    JsonRep::Arr(seq![JsonRep::UInt(e.timestamp), JsonRep::Null])
}

/// The hardware address as JSON: its text, or null when unknown.
pub open spec fn spec_mac_json(m: Option<u64>) -> JsonRep {
    match m {
        None => JsonRep::Null,
        Some(v) => JsonRep::Str(mac_str(v)),
    }
}

/// The shape of a JSON array built from already-shaped elements.
pub open spec fn json_arr_rep(items: Seq<JsonVal>) -> JsonRep {
    JsonRep::Arr(Seq::new(items.len(), |i: int| items[i]@))
}

/// A snapshot object: a rendered history, the closed flag, the address.
pub open spec fn spec_snapshot_obj(history: JsonRep, closed: bool, mac: Option<u64>) -> JsonRep {
    JsonRep::Obj(
        seq![
            ("history"@, history),
            ("closed"@, JsonRep::Bool(closed)),
            ("mac"@, spec_mac_json(mac)),
        ],
    )
}

/// The full snapshot of a session: its whole history oldest first, the
/// closed flag, and the hardware address.
pub open spec fn spec_full_json(s: InterfaceStatistics) -> JsonRep {
    spec_snapshot_obj(
        JsonRep::Arr(Seq::new(s.history@.len(), |i: int| spec_entry_json(s.history@[i]))),
        !s.open,
        s.mac,
    )
}

/// Whether every entry up to and including position `i` is at or below the
/// watermark: exactly the entries the partial snapshot elides.
pub open spec fn spec_elided_at(h: Seq<HistoryEntry>, i: int, watermark: u64) -> bool {
    forall|j: int| 0 <= j <= i ==> (#[trigger] h[j]).timestamp <= watermark
}

/// One entry of the partial snapshot: elided while the walk from the oldest
/// entry has seen only timestamps at or below the watermark, full from the
/// first newer entry on.
pub open spec fn spec_part_entry(h: Seq<HistoryEntry>, i: int, watermark: u64) -> JsonRep {
    if spec_elided_at(h, i, watermark) {
        spec_entry_elided(h[i])
    } else {
        spec_entry_json(h[i])
    }
}

/// The partial snapshot of a session below a client-supplied watermark.
pub open spec fn spec_part_json(s: InterfaceStatistics, watermark: u64) -> JsonRep {
    spec_snapshot_obj(
        JsonRep::Arr(Seq::new(s.history@.len(), |i: int| spec_part_entry(s.history@, i, watermark))),
        !s.open,
        s.mac,
    )
}

/// What a session looks like right after its first start: open, with the
/// given hardware address, no history and nothing counted yet.
pub open spec fn spec_fresh_session(s: InterfaceStatistics, mac: Option<u64>) -> bool {
    &&& s.wf()
    &&& s.open
    &&& s.mac == mac
    &&& s.history@.len() == 0
    &&& s.buffer@.len() == 0
    &&& forall|k: HeaderKey| count_of(s.buffer@, k) == 0
}

/// How a reopened session relates to its closed predecessor: re-armed and
/// emptied of in-flight counts, with prior history kept and a fresh empty
/// interval boundary appended at `now`.
pub open spec fn spec_reopened(
    before: InterfaceStatistics,
    after: InterfaceStatistics,
    now: u64,
) -> bool {
    &&& after.wf()
    &&& after.open
    &&& after.mac == before.mac
    &&& after.buffer@.len() == 0
    &&& forall|k: HeaderKey| count_of(after.buffer@, k) == 0
    &&& after.history@.len() == before.history@.len() + 1
    &&& forall|j: int| 0 <= j < before.history@.len() ==> after.history@[j] == before.history@[j]
    &&& after.history@.last().timestamp == now
    &&& after.history@.last().counts@.len() == 0
}

/// How a flushed session relates to its state before the tick: the open
/// buffer became the interval closed at `timestamp`, appended to the history
/// under the retention bound, and a fresh empty buffer took its place.
pub open spec fn spec_flushed(
    before: InterfaceStatistics,
    after: InterfaceStatistics,
    timestamp: u64,
    limit: int,
) -> bool {
    &&& after.wf()
    &&& after.history@ == spec_evict(
        before.history@.push(HistoryEntry { timestamp, counts: before.buffer }),
        limit,
    )
    &&& after.history@.len() <= limit
    &&& after.buffer@.len() == 0
    &&& forall|k: HeaderKey| count_of(after.buffer@, k) == 0
    &&& after.open == before.open
    &&& after.mac == before.mac
}

/// Renders one interval's counts as a JSON object with string keys.
pub fn convert_map(map: &AggregationBuffer) -> (r: JsonVal)
    ensures
        r@ == spec_counts_json(map@),
{
    let n = map.len();
    let mut out: Vec<(String, JsonVal)> = Vec::new();
    let mut i: usize = 0;
    while i < n
        invariant
            n == map@.len(),
            i <= n,
            out@.len() == i,
            forall|j: int|
                0 <= j < i ==> (#[trigger] out@[j]).0@ == key_str(map@[j].0) && out@[j].1@
                    == (JsonRep::UInt(map@[j].1)),
        decreases n - i,
    {
        let (key, count) = map.entry(i);
        out.push((key_string(&key), JsonVal::UInt(count)));
        i = i + 1;
    }
    let r = JsonVal::Obj(out);
    proof {
        assert(r@ matches JsonRep::Obj(s) && s =~= Seq::new(
            map@.len(),
            |i: int| (key_str(map@[i].0), JsonRep::UInt(map@[i].1)),
        ));
    }
    r
}

/// The JSON pair `[timestamp, data]` for one history entry.
fn entry_pair(timestamp: u64, data: JsonVal) -> (r: JsonVal)
    ensures
        r@ == (JsonRep::Arr(seq![JsonRep::UInt(timestamp), data@])),
{
    let ghost data_rep = data@;
    let mut pair: Vec<JsonVal> = Vec::new();
    pair.push(JsonVal::UInt(timestamp));
    pair.push(data);
    let r = JsonVal::Arr(pair);
    proof {
        reveal_with_fuel(crate::json::json_view, 3);
        assert(r@ matches JsonRep::Arr(s) && s =~= seq![JsonRep::UInt(timestamp), data_rep]);
    }
    r
}

impl InterfaceStatistics {
    /// The buffer and every kept interval have well-defined counts.
    pub open spec fn wf(&self) -> bool {
        self.buffer.wf() && self.history.wf()
    }

    /// A fresh open session with no history, as created on the first start
    /// request for an interface name.
    pub fn new(mac: Option<u64>) -> (r: Self)
        ensures
            r.wf(),
            r.open,
            r.mac == mac,
            r.history@.len() == 0,
            r.buffer@.len() == 0,
            forall|k: HeaderKey| count_of(r.buffer@, k) == 0,
            spec_fresh_session(r, mac),
    {
        InterfaceStatistics {
            buffer: AggregationBuffer::new(),
            history: HistoryRing::new(),
            open: true,
            mac,
        }
    }

    /// Reopens a closed session in place: the stale in-flight buffer is
    /// discarded, a fresh empty interval boundary is appended at `now`, and
    /// the lifecycle signal is re-armed. Prior history is kept.
    pub fn reopen(&mut self, now: u64)
        requires
            old(self).wf(),
            !old(self).open,
        ensures
            final(self).wf(),
            final(self).open,
            final(self).mac == old(self).mac,
            final(self).buffer@.len() == 0,
            forall|k: HeaderKey| count_of(final(self).buffer@, k) == 0,
            final(self).history@.len() == old(self).history@.len() + 1,
            forall|j: int|
                0 <= j < old(self).history@.len() ==> final(self).history@[j] == old(
                    self,
                ).history@[j],
            final(self).history@.last().timestamp == now,
            final(self).history@.last().counts@.len() == 0,
            spec_reopened(*old(self), *final(self), now),
    {
        self.buffer = AggregationBuffer::new();
        self.history.append(now, AggregationBuffer::new());
        self.open = true;
    }

    /// Takes the lifecycle signal: the capture task exits at its next race
    /// point. History stays available for queries.
    pub fn close(&mut self)
        requires
            old(self).wf(),
        ensures
            final(self).wf(),
            !final(self).open,
            final(self).buffer == old(self).buffer,
            final(self).history == old(self).history,
            final(self).mac == old(self).mac,
    {
        self.open = false;
    }

    /// One flush-cycle step: swaps the open buffer for a fresh empty one,
    /// appends the drained counts as the interval closed at `timestamp`, and
    /// enforces the retention bound. After this the history never holds more
    /// than `history_length_limit` entries.
    pub fn update(&mut self, timestamp: u64, history_length_limit: usize)
        requires
            old(self).wf(),
        ensures
            final(self).wf(),
            final(self).history@ == spec_evict(
                old(self).history@.push(HistoryEntry { timestamp, counts: old(self).buffer }),
                history_length_limit as int,
            ),
            final(self).history@.len() <= history_length_limit,
            final(self).buffer@.len() == 0,
            forall|k: HeaderKey| count_of(final(self).buffer@, k) == 0,
            final(self).open == old(self).open,
            final(self).mac == old(self).mac,
            spec_flushed(*old(self), *final(self), timestamp, history_length_limit as int),
    {
        let drained = self.buffer.take();
        self.history.append(timestamp, drained);
        self.history.enforce_bound(history_length_limit);
    }

    /// The full snapshot, serialization-ready.
    pub fn to_json(&self) -> (r: JsonVal)
        requires
            self.wf(),
        ensures
            r@ == spec_full_json(*self),
    {
        let n = self.history.len();
        let mut hist: Vec<JsonVal> = Vec::new();
        let mut i: usize = 0;
        while i < n
            invariant
                self.wf(),
                n == self.history@.len(),
                i <= n,
                hist@.len() == i,
                forall|j: int|
                    0 <= j < i ==> (#[trigger] hist@[j])@ == spec_entry_json(self.history@[j]),
            decreases n - i,
        {
            let e = self.history.entry(i);
            let counts = convert_map(&e.counts);
            let entry = entry_pair(e.timestamp, counts);
            proof {
                assert(entry@ == spec_entry_json(self.history@[i as int]));
            }
            hist.push(entry);
            i = i + 1;
        }
        let r = self.finish_snapshot(hist);
        proof {
            assert(Seq::new(hist@.len(), |i: int| hist@[i]@) =~= Seq::new(
                self.history@.len(),
                |i: int| spec_entry_json(self.history@[i]),
            ));
        }
        r
    }

    /// The partial snapshot below `timestamp_limit`: entries the client has
    /// already seen (at or below its watermark, walking oldest first) carry
    /// `null` in place of their data; the first newer entry and everything
    /// after it carry full data.
    pub fn part_to_json(&self, timestamp_limit: u64) -> (r: JsonVal)
        requires
            self.wf(),
        ensures
            r@ == spec_part_json(*self, timestamp_limit),
    {
        let n = self.history.len();
        let mut hist: Vec<JsonVal> = Vec::new();
        let mut seen_recent = false;
        let mut i: usize = 0;
        while i < n
            invariant
                self.wf(),
                n == self.history@.len(),
                i <= n,
                hist@.len() == i,
                seen_recent == !spec_elided_at(self.history@, i - 1, timestamp_limit),
                forall|j: int|
                    0 <= j < i ==> (#[trigger] hist@[j])@ == spec_part_entry(
                        self.history@,
                        j,
                        timestamp_limit,
                    ),
            decreases n - i,
        {
            let e = self.history.entry(i);
            let entry: JsonVal;
            if !seen_recent && e.timestamp <= timestamp_limit {
                entry = entry_pair(e.timestamp, JsonVal::Null);
                proof {
                    assert(spec_elided_at(self.history@, i as int, timestamp_limit));
                    assert(entry@ == spec_part_entry(self.history@, i as int, timestamp_limit));
                }
            } else {
                let counts = convert_map(&e.counts);
                entry = entry_pair(e.timestamp, counts);
                proof {
                    assert(!spec_elided_at(self.history@, i as int, timestamp_limit));
                    assert(entry@ == spec_part_entry(self.history@, i as int, timestamp_limit));
                }
            }
            if e.timestamp > timestamp_limit {
                seen_recent = true;
            }
            hist.push(entry);
            i = i + 1;
        }
        let r = self.finish_snapshot(hist);
        proof {
            assert(Seq::new(hist@.len(), |i: int| hist@[i]@) =~= Seq::new(
                self.history@.len(),
                |i: int| spec_part_entry(self.history@, i, timestamp_limit),
            ));
        }
        r
    }

    /// Wraps a rendered history with the closed flag and hardware address.
    #[verifier::rlimit(50)]
    fn finish_snapshot(&self, hist: Vec<JsonVal>) -> (r: JsonVal)
        ensures
            r@ == spec_snapshot_obj(json_arr_rep(hist@), !self.open, self.mac),
    {
        let ghost hist_view = hist@;
        let mac_val = match &self.mac {
            None => JsonVal::Null,
            Some(m) => JsonVal::Str(mac_string(*m)),
        };
        proof {
            assert(mac_val@ == spec_mac_json(self.mac));
        }
        let history_val = JsonVal::Arr(hist);
        proof {
            assert(history_val@ matches JsonRep::Arr(s) && s =~= Seq::new(
                hist_view.len(),
                |i: int| hist_view[i]@,
            ));
            assert(history_val@ == json_arr_rep(hist_view));
        }
        let mut fields: Vec<(String, JsonVal)> = Vec::new();
        fields.push((String::from_str("history"), history_val));
        fields.push((String::from_str("closed"), JsonVal::Bool(!self.open)));
        fields.push((String::from_str("mac"), mac_val));
        let r = JsonVal::Obj(fields);
        proof {
            reveal_with_fuel(crate::json::json_view, 3);
            assert(fields@[0].1@ == json_arr_rep(hist_view));
            assert(fields@[1].1@ == JsonRep::Bool(!self.open));
            assert(fields@[2].1@ == spec_mac_json(self.mac));
            assert(r@ matches JsonRep::Obj(s) && s =~= seq![
                ("history"@, json_arr_rep(hist_view)),
                ("closed"@, JsonRep::Bool(!self.open)),
                ("mac"@, spec_mac_json(self.mac)),
            ]);
        }
        r
    }
}

/// The diff protocol after one more flush: when every entry but the newest is
/// at or below the watermark and the newest is above it, the partial snapshot
/// elides exactly the older entries and carries the newest in full.
pub proof fn lemma_partial_after_tick(h: Seq<HistoryEntry>, watermark: u64)
    requires
        h.len() > 0,
        forall|j: int| 0 <= j < h.len() - 1 ==> (#[trigger] h[j]).timestamp <= watermark,
        h.last().timestamp > watermark,
    ensures
        forall|i: int|
            0 <= i < h.len() - 1 ==> spec_part_entry(h, i, watermark) == spec_entry_elided(h[i]),
        spec_part_entry(h, h.len() - 1, watermark) == spec_entry_json(h.last()),
{
    assert forall|i: int| 0 <= i < h.len() - 1 implies spec_part_entry(h, i, watermark)
        == spec_entry_elided(h[i]) by {
        assert(spec_elided_at(h, i, watermark));
    }
    assert(!spec_elided_at(h, h.len() - 1, watermark));
}

} // verus!
