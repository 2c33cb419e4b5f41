//! The bounded queue between the network side and the playback callback.
//!
//! The asynchronous producer enqueues decoded sample blocks with
//! `try_send`; a full queue refuses the block, which is where the producer
//! suspends — network-to-device backpressure. The playback callback polls
//! without ever blocking: a present block is played, an absent one means
//! silence.

use vstd::prelude::*;

verus! {

/// A bounded first-in, first-out queue of sample blocks, sized to a few
/// playback callback periods.
pub struct PlaybackQueue {
    blocks: Vec<Vec<i16>>,
    capacity: usize,
}

impl PlaybackQueue {
    /// The queued blocks, front first.
    pub closed spec fn model(self) -> Seq<Seq<i16>> {
        self.blocks@.map_values(|b: Vec<i16>| b@)
    }

    /// The queue's bound.
    pub closed spec fn capacity_spec(self) -> usize {
        self.capacity
    }

    /// The queue's invariant: never more blocks than its bound.
    pub open spec fn wf(self) -> bool {
        self.capacity_spec() >= 1 && self.model().len() <= self.capacity_spec()
    }

    /// An empty queue bounded to `capacity` blocks.
    pub fn new(capacity: usize) -> (q: PlaybackQueue)
        requires
            capacity >= 1,
        ensures
            q.wf(),
            q.model() == Seq::<Seq<i16>>::empty(),
            q.capacity_spec() == capacity,
    {
        let q = PlaybackQueue { blocks: Vec::new(), capacity };
        proof {
            assert(q.model() =~= Seq::<Seq<i16>>::empty());
        }
        q
    }

    /// How many blocks are queued.
    pub fn len(&self) -> (n: usize)
        ensures
            n == self.model().len(),
    {
        self.blocks.len()
    }

    /// Enqueue one block. Refused exactly when the queue is full: the
    /// block comes back untouched, and the caller suspends and retries
    /// rather than losing it.
    pub fn try_send(&mut self, block: Vec<i16>) -> (refused: Option<Vec<i16>>)
        requires
            old(self).wf(),
        ensures
            final(self).wf(),
            final(self).capacity_spec() == old(self).capacity_spec(),
            old(self).model().len() < old(self).capacity_spec() ==> (refused is None && final(self).model() == old(self).model().push(block@)),
            old(self).model().len() == old(self).capacity_spec() ==> (refused matches Some(b)
                && b@ == block@ && final(self).model() == old(self).model()),
    {
        if self.blocks.len() == self.capacity {
            return Some(block);
        }
        let ghost bv = block@;
        self.blocks.push(block);
        proof {
            assert(self.model() =~= old(self).model().push(bv));
        }
        None
    }

    /// Dequeue the next block for the playback callback; `None` means the
    /// callback writes silence. Never blocks.
    pub fn poll(&mut self) -> (r: Option<Vec<i16>>)
        requires
            old(self).wf(),
        ensures
            final(self).wf(),
            final(self).capacity_spec() == old(self).capacity_spec(),
            old(self).model().len() == 0 ==> (r is None && final(self).model() == old(self).model()),
            old(self).model().len() > 0 ==> (r matches Some(b) && b@ == old(self).model()[0]
                && final(self).model() == old(self).model().skip(1)),
    {
        if self.blocks.len() == 0 {
            return None;
        }
        let ghost oldm = self.model();
        let block = self.blocks.remove(0);
        proof {
            assert(self.model() =~= oldm.skip(1)) by {
                oldm.remove_ensures(0);
            }
        }
        Some(block)
    }
}

} // verus!
