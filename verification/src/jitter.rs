//! Reordering and pacing of received frames before playback.
//!
//! Framing preserves stream order, but arrival timing varies and the
//! application layer must still tolerate bounded reordering and loss. The
//! buffer keeps frames ordered by sequence number ascending and releases the
//! lowest one once the buffer reaches its target depth or the oldest frame
//! has been held for the configured hold time, whichever comes first. A gap
//! at the release cursor defers release until the hold time elapses, then is
//! skipped and counted as loss; playback plays silence for skipped slots.
//! Frames at or below the cursor arrive too late and are dropped.

use vstd::prelude::*;

verus! {

/// One buffered frame: its sequence number, when it arrived, and its
/// codec payload.
struct JitterEntry {
    seq: u32,
    arrival_ms: u64,
    payload: Vec<u8>,
}

/// The buffer as specifications see it: `(sequence number, arrival time,
/// payload)` per buffered frame, ordered by sequence number ascending.
pub type JitterModel = Seq<(u32, u64, Seq<u8>)>;

/// Sequence numbers strictly ascending: no duplicates, order restored.
pub open spec fn entries_sorted(m: JitterModel) -> bool {
    forall|i: int, j: int| 0 <= i < j < m.len() ==> (#[trigger] m[i]).0 < (#[trigger] m[j]).0
}

/// Every buffered frame is still releasable: at or above the cursor.
pub open spec fn entries_at_or_above(m: JitterModel, floor: u64) -> bool {
    forall|i: int| 0 <= i < m.len() ==> ((#[trigger] m[i]).0 as u64) >= floor
}

/// Whether `m` buffers a frame with sequence number `s`.
pub open spec fn contains_seq(m: JitterModel, s: u32) -> bool {
    exists|i: int| 0 <= i < m.len() && (#[trigger] m[i]).0 == s
}

/// A counter that sticks at its maximum rather than wrapping.
pub open spec fn saturating_inc(c: u64) -> u64 {
    if c < u64::MAX {
        (c + 1) as u64
    } else {
        c
    }
}

/// What became of a submitted frame.
#[derive(Clone, Copy, Debug, PartialEq, Eq, Structural)]
pub enum JitterInsert {
    /// Buffered, to be released in order.
    Accepted,
    /// At or below the release cursor: too late, dropped.
    Late,
    /// Already buffered under the same sequence number: dropped.
    Duplicate,
}

/// The jitter buffer: an ordered map from sequence number to payload, a
/// release cursor, and the depth/hold-time release policy.
pub struct JitterBuffer {
    entries: Vec<JitterEntry>,
    /// Lowest sequence number still acceptable; 0 until the first release,
    /// one past the last released number afterwards.
    floor: u64,
    target_depth: usize,
    max_hold_ms: u64,
    dropped: u64,
    skipped: u64,
}

impl JitterBuffer {
    /// The buffered frames, ordered by sequence number ascending.
    pub closed spec fn model(self) -> JitterModel {
        self.entries@.map_values(|e: JitterEntry| (e.seq, e.arrival_ms, e.payload@))
    }

    /// The lowest sequence number a new arrival may carry.
    pub closed spec fn floor_spec(self) -> u64 {
        self.floor
    }

    pub closed spec fn target_depth_spec(self) -> usize {
        self.target_depth
    }

    pub closed spec fn max_hold_spec(self) -> u64 {
        self.max_hold_ms
    }

    /// How many late or duplicate arrivals were dropped.
    pub closed spec fn dropped_spec(self) -> u64 {
        self.dropped
    }

    /// How many sequence slots were skipped over gaps.
    pub closed spec fn skipped_spec(self) -> u64 {
        self.skipped
    }

    /// The buffer's invariant: frames sorted and unique by sequence number,
    /// none below the cursor, counters in range.
    pub open spec fn wf(self) -> bool {
        &&& self.target_depth_spec() >= 1
        &&& self.floor_spec() <= 0x1_0000_0000u64
        &&& self.skipped_spec() <= self.floor_spec()
        &&& entries_sorted(self.model())
        &&& entries_at_or_above(self.model(), self.floor_spec())
    }

    /// The head frame is not the one the cursor expects: a gap, present
    /// only once a cursor exists.
    pub open spec fn gap_at_head(self) -> bool {
        self.model().len() > 0 && self.floor_spec() > 0 && (self.model()[0].0 as u64)
            != self.floor_spec()
    }

    /// The oldest buffered frame has been held for the full hold time.
    pub open spec fn hold_elapsed(self, now_ms: u64) -> bool {
        self.model().len() > 0 && now_ms >= self.model()[0].1 + self.max_hold_spec()
    }

    /// Whether a poll at `now_ms` releases a frame: the target depth is
    /// reached with the expected frame at the head, or the hold time has
    /// elapsed — which skips a gap if one persists.
    pub open spec fn release_ready(self, now_ms: u64) -> bool {
        self.model().len() > 0 && ((!self.gap_at_head() && self.model().len()
            >= self.target_depth_spec()) || self.hold_elapsed(now_ms))
    }

    /// A fresh buffer: empty, no cursor, nothing dropped or skipped.
    pub fn new(target_depth: usize, max_hold_ms: u64) -> (b: JitterBuffer)
        requires
            target_depth >= 1,
        ensures
            b.wf(),
            b.model() == Seq::<(u32, u64, Seq<u8>)>::empty(),
            b.floor_spec() == 0,
            b.target_depth_spec() == target_depth,
            b.max_hold_spec() == max_hold_ms,
            b.dropped_spec() == 0,
            b.skipped_spec() == 0,
    {
        let b = JitterBuffer {
            entries: Vec::new(),
            floor: 0,
            target_depth,
            max_hold_ms,
            dropped: 0,
            skipped: 0,
        };
        proof {
            assert(b.model() =~= Seq::<(u32, u64, Seq<u8>)>::empty());
        }
        b
    }

    /// How many frames are buffered.
    pub fn len(&self) -> (n: usize)
        ensures
            n == self.model().len(),
    {
        self.entries.len()
    }

    /// How many late or duplicate arrivals were dropped.
    pub fn dropped(&self) -> (n: u64)
        ensures
            n == self.dropped_spec(),
    {
        self.dropped
    }

    /// How many sequence slots were skipped over gaps.
    pub fn skipped(&self) -> (n: u64)
        ensures
            n == self.skipped_spec(),
    {
        self.skipped
    }

    /// Submit an arrived frame.
    ///
    /// A sequence number below the cursor is late, one already buffered is
    /// a duplicate; both are dropped and counted. Anything else is buffered
    /// at its place in ascending order.
    pub fn insert(&mut self, seq: u32, now_ms: u64, payload: Vec<u8>) -> (r: JitterInsert)
        requires
            old(self).wf(),
        ensures
            final(self).wf(),
            final(self).floor_spec() == old(self).floor_spec(),
            final(self).target_depth_spec() == old(self).target_depth_spec(),
            final(self).max_hold_spec() == old(self).max_hold_spec(),
            final(self).skipped_spec() == old(self).skipped_spec(),
            (seq as u64) < old(self).floor_spec() ==> (r == JitterInsert::Late && final(self).model() == old(self).model() && final(self).dropped_spec() == saturating_inc(
                old(self).dropped_spec(),
            )),
            (seq as u64) >= old(self).floor_spec() && contains_seq(old(self).model(), seq) ==> (r
                == JitterInsert::Duplicate && final(self).model() == old(self).model() && final(self).dropped_spec() == saturating_inc(old(self).dropped_spec())),
            (seq as u64) >= old(self).floor_spec() && !contains_seq(old(self).model(), seq) ==> (r
                == JitterInsert::Accepted && final(self).dropped_spec() == old(self).dropped_spec() && exists|k: int|
                0 <= k <= old(self).model().len() && final(self).model() == #[trigger] old(self).model().insert(k, (seq, now_ms, payload@))),
    {
        if (seq as u64) < self.floor {
            if self.dropped < u64::MAX {
                self.dropped = self.dropped + 1;
            }
            return JitterInsert::Late;
        }
        let mut k: usize = 0;
        while k < self.entries.len() && self.entries[k].seq < seq
            invariant
                k <= self.entries@.len(),
                forall|i: int| 0 <= i < k ==> (#[trigger] self.model()[i]).0 < seq,
            decreases self.entries@.len() - k,
        {
            k = k + 1;
        }
        if k < self.entries.len() && self.entries[k].seq == seq {
            proof {
                assert(self.model()[k as int].0 == seq);
                assert(contains_seq(self.model(), seq));
            }
            if self.dropped < u64::MAX {
                self.dropped = self.dropped + 1;
            }
            return JitterInsert::Duplicate;
        }
        proof {
            assert(!contains_seq(self.model(), seq)) by {
                if contains_seq(self.model(), seq) {
                    let i = choose|i: int|
                        0 <= i < self.model().len() && (#[trigger] self.model()[i]).0 == seq;
                    if i < k {
                        assert(self.model()[i].0 < seq);
                    } else if i > k {
                        assert(k < self.model().len());
                        assert(self.model()[k as int].0 < self.model()[i].0);
                    }
                }
            }
        }
        let entry = JitterEntry { seq, arrival_ms: now_ms, payload };
        let ghost entv = entry;
        let ghost oldm = self.model();
        self.entries.insert(k, entry);
        proof {
            let t = (entv.seq, entv.arrival_ms, entv.payload@);
            assert(self.model() =~= oldm.insert(k as int, t)) by {
                old(self).entries@.insert_ensures(k as int, entv);
                oldm.insert_ensures(k as int, t);
            }
            assert(entries_sorted(self.model())) by {
                oldm.insert_ensures(k as int, t);
                assert forall|i: int, j: int|
                    0 <= i < j < self.model().len() implies (#[trigger] self.model()[i]).0 < (
                #[trigger] self.model()[j]).0 by {
                    if j < k {
                    } else if i > k {
                    } else if i == k {
                        // The scan stopped at the first buffered number not
                        // below seq, and seq itself is not buffered, so every
                        // entry from there on is above seq.
                        assert(self.model()[j] == oldm[j - 1]);
                        assert(k <= j - 1 < oldm.len());
                        assert(oldm[k as int].0 > seq);
                    } else if j == k {
                        assert(self.model()[i] == oldm[i]);
                    }
                }
            }
            assert(entries_at_or_above(self.model(), self.floor)) by {
                oldm.insert_ensures(k as int, t);
            }
        }
        JitterInsert::Accepted
    }

    /// Release the next frame in order, if the release policy says so.
    ///
    /// Released sequence numbers are strictly ascending across the buffer's
    /// life: a released number is at or above the cursor, and the cursor
    /// then moves past it. Skipped slots are counted when a gap is released
    /// over.
    pub fn poll(&mut self, now_ms: u64) -> (r: Option<(u32, Vec<u8>)>)
        requires
            old(self).wf(),
        ensures
            final(self).wf(),
            final(self).target_depth_spec() == old(self).target_depth_spec(),
            final(self).max_hold_spec() == old(self).max_hold_spec(),
            final(self).dropped_spec() == old(self).dropped_spec(),
            !old(self).release_ready(now_ms) ==> (r is None && final(self).model() == old(self).model() && final(self).floor_spec() == old(self).floor_spec() && final(self).skipped_spec() == old(self).skipped_spec()),
            old(self).release_ready(now_ms) ==> (r matches Some(p) && p.0 == old(self).model()[0].0 && p.1@ == old(self).model()[0].2 && final(self).model() == old(self).model().skip(1) && final(self).floor_spec() == old(self).model()[0].0 as u64 + 1
                && final(self).skipped_spec() == old(self).skipped_spec() + (
            if old(self).floor_spec() > 0 {
                old(self).model()[0].0 as u64 - old(self).floor_spec()
            } else {
                0
            })),
            r matches Some(p) ==> (p.0 as u64) >= old(self).floor_spec(),
    {
        if self.entries.len() == 0 {
            return None;
        }
        let head_seq = self.entries[0].seq;
        let head_arrival = self.entries[0].arrival_ms;
        let in_order = self.floor == 0 || (head_seq as u64) == self.floor;
        let elapsed = now_ms >= head_arrival && now_ms - head_arrival >= self.max_hold_ms;
        let ready = (in_order && self.entries.len() >= self.target_depth) || elapsed;
        if !ready {
            return None;
        }
        let ghost oldm = self.model();
        let entry = self.entries.remove(0);
        proof {
            assert(self.model() =~= oldm.skip(1)) by {
                oldm.remove_ensures(0);
            }
        }
        let gap: u64 = if self.floor > 0 {
            head_seq as u64 - self.floor
        } else {
            0
        };
        self.skipped = self.skipped + gap;
        self.floor = head_seq as u64 + 1;
        proof {
            assert(entries_at_or_above(self.model(), self.floor)) by {
                assert forall|i: int|
                    0 <= i < self.model().len() implies ((#[trigger] self.model()[i]).0 as u64)
                    >= self.floor by {
                    assert(self.model()[i] == oldm[i + 1]);
                    assert(oldm[0].0 < oldm[i + 1].0);
                }
            }
        }
        Some((entry.seq, entry.payload))
    }
}

} // verus!
