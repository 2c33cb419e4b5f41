//! Lossy fan-out from the capture callback to its subscribers.
//!
//! The device's capture callback pushes sample blocks; asynchronous
//! consumers pull them. A bounded ring retains the most recent blocks and
//! each subscriber keeps its own read cursor; when a subscriber lags behind
//! the ring, its cursor jumps forward and it silently loses the oldest
//! unread blocks rather than ever stalling capture. Blocks a subscriber
//! does receive come in push order, each one intact.

use vstd::pervasive::VecAdditionalExecFns;
use vstd::prelude::*;

verus! {

/// Copy one sample block.
fn copy_block(v: &Vec<i16>) -> (r: Vec<i16>)
    ensures
        r@ == v@,
{
    let mut out: Vec<i16> = Vec::new();
    let mut i: usize = 0;
    while i < v.len()
        invariant
            i <= v@.len(),
            out@ == v@.subrange(0, i as int),
        decreases v@.len() - i,
    {
        out.push(v[i]);
        i = i + 1;
        assert(out@ =~= v@.subrange(0, i as int));
    }
    assert(out@ =~= v@);
    out
}

/// The bounded single-producer, multi-consumer ring behind a capture
/// source: the producer overwrites the oldest block when full, consumers
/// track their own cursors.
pub struct CaptureFanout {
    /// The retained blocks, oldest first: the tail of everything pushed.
    slots: Vec<Vec<i16>>,
    capacity: usize,
    /// How many blocks were ever pushed.
    count: u64,
    /// Per-subscriber absolute read positions.
    cursors: Vec<u64>,
    /// Every block ever pushed, in push order.
    history: Ghost<Seq<Seq<i16>>>,
}

impl CaptureFanout {
    /// Every block ever pushed, in push order.
    pub closed spec fn history_spec(self) -> Seq<Seq<i16>> {
        self.history@
    }

    /// How many of the newest blocks the ring retains.
    pub closed spec fn capacity_spec(self) -> usize {
        self.capacity
    }

    /// The subscribers' absolute read positions.
    pub closed spec fn cursors_spec(self) -> Seq<u64> {
        self.cursors@
    }

    /// Position of the oldest block still retained.
    pub open spec fn first_retained(self) -> int {
        if self.history_spec().len() >= self.capacity_spec() {
            self.history_spec().len() - self.capacity_spec()
        } else {
            0
        }
    }

    /// Where subscriber `id` will actually read next: its own cursor, or
    /// the oldest retained block if it has lagged out of the ring.
    pub open spec fn read_position(self, id: int) -> int {
        if self.cursors_spec()[id] >= self.first_retained() {
            self.cursors_spec()[id] as int
        } else {
            self.first_retained()
        }
    }

    pub closed spec fn wf_internal(self) -> bool {
        &&& self.count == self.history@.len()
        &&& self.slots@.len() == if self.history@.len() >= self.capacity as int {
            self.capacity as int
        } else {
            self.history@.len() as int
        }
        &&& forall|i: int|
            0 <= i < self.slots@.len() ==> (#[trigger] self.slots@[i])@ == self.history@[
                self.history@.len() - self.slots@.len() + i]
    }

    /// The ring's invariant.
    pub open spec fn wf(self) -> bool {
        &&& self.capacity_spec() >= 1
        &&& self.history_spec().len() <= u64::MAX
        &&& self.wf_internal()
        &&& forall|c: int|
            0 <= c < self.cursors_spec().len() ==> (#[trigger] self.cursors_spec()[c])
                <= self.history_spec().len()
    }

    /// An empty ring retaining at most `capacity` blocks.
    pub fn new(capacity: usize) -> (f: CaptureFanout)
        requires
            capacity >= 1,
        ensures
            f.wf(),
            f.history_spec() == Seq::<Seq<i16>>::empty(),
            f.capacity_spec() == capacity,
            f.cursors_spec() == Seq::<u64>::empty(),
    {
        CaptureFanout {
            slots: Vec::new(),
            capacity,
            count: 0,
            cursors: Vec::new(),
            history: Ghost(Seq::empty()),
        }
    }

    /// Register a consumer; it will see only blocks pushed from now on.
    pub fn subscribe(&mut self) -> (id: usize)
        requires
            old(self).wf(),
            old(self).cursors_spec().len() < usize::MAX,
        ensures
            final(self).wf(),
            id == old(self).cursors_spec().len(),
            final(self).cursors_spec() == old(self).cursors_spec().push(
                old(self).history_spec().len() as u64,
            ),
            final(self).history_spec() == old(self).history_spec(),
            final(self).capacity_spec() == old(self).capacity_spec(),
    {
        let id = self.cursors.len();
        self.cursors.push(self.count);
        id
    }

    /// Accept one block from the capture callback, overwriting the oldest
    /// retained block when the ring is full. Never blocks on a consumer.
    pub fn push(&mut self, block: Vec<i16>)
        requires
            old(self).wf(),
            old(self).history_spec().len() < u64::MAX,
        ensures
            final(self).wf(),
            final(self).history_spec() == old(self).history_spec().push(block@),
            final(self).capacity_spec() == old(self).capacity_spec(),
            final(self).cursors_spec() == old(self).cursors_spec(),
    {
        let ghost bv = block@;
        let ghost olds = self.slots@;
        let ghost oldh = self.history@;
        let ghost removed = self.slots@.len() == self.capacity as int;
        if self.slots.len() == self.capacity {
            self.slots.remove(0);
            proof {
                assert(self.slots@ =~= olds.skip(1)) by {
                    olds.remove_ensures(0);
                }
            }
        }
        self.slots.push(block);
        self.count = self.count + 1;
        proof {
            self.history@ = self.history@.push(bv);
            let n = self.slots@.len();
            assert forall|i: int|
                0 <= i < n implies (#[trigger] self.slots@[i])@ == self.history@[
                self.history@.len() - n + i] by {
                if i == n - 1 {
                    assert(self.slots@[i]@ == bv);
                } else if removed {
                    assert(self.slots@[i] == olds[i + 1]);
                    assert(olds[i + 1]@ == oldh[oldh.len() - olds.len() + i + 1]);
                } else {
                    assert(self.slots@[i] == olds[i]);
                    assert(olds[i]@ == oldh[oldh.len() - olds.len() + i]);
                }
            }
            assert forall|c: int|
                0 <= c < self.cursors@.len() implies (#[trigger] self.cursors@[c])
                <= self.history@.len() by {
                assert(old(self).cursors_spec()[c] <= oldh.len());
            }
        }
    }

    /// Pull the next block for subscriber `id`.
    ///
    /// Returns the block at the subscriber's read position — its cursor,
    /// advanced past any blocks the ring has already overwritten — or
    /// `None` when it has seen everything pushed so far.
    pub fn poll(&mut self, id: usize) -> (r: Option<Vec<i16>>)
        requires
            old(self).wf(),
            id < old(self).cursors_spec().len(),
        ensures
            final(self).wf(),
            final(self).history_spec() == old(self).history_spec(),
            final(self).capacity_spec() == old(self).capacity_spec(),
            final(self).cursors_spec().len() == old(self).cursors_spec().len(),
            forall|c: int|
                0 <= c < old(self).cursors_spec().len() && c != id ==> final(self).cursors_spec()[c] == old(self).cursors_spec()[c],
            old(self).read_position(id as int) == old(self).history_spec().len() ==> (r is None
                && final(self).cursors_spec() == old(self).cursors_spec()),
            old(self).read_position(id as int) < old(self).history_spec().len() ==> (r matches Some(
                b,
            ) && b@ == old(self).history_spec()[old(self).read_position(id as int)] && final(self).cursors_spec()[id as int] == old(self).read_position(id as int) + 1),
    {
        let first: u64 = self.count - (self.slots.len() as u64);
        let cur: u64 = self.cursors[id];
        let start: u64 = if cur < first {
            first
        } else {
            cur
        };
        assert(start == self.read_position(id as int));
        if start == self.count {
            return None;
        }
        let idx: usize = (start - first) as usize;
        let block = copy_block(&self.slots[idx]);
        self.cursors.set(id, start + 1);
        Some(block)
    }
}

} // verus!
