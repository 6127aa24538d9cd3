//! The queue of generated chunks that wait to be put into the store.

use vstd::prelude::*;

verus! {

/// A chunk id and the blocks that were generated for it.
pub type ChunkQueueData = (i32, [u8; 32768]);

/// Generated chunks in the order in which they came.
#[derive(Debug)]
pub struct ChunkUpdateQueue {
    chunks: Vec<ChunkQueueData>,
}

impl View for ChunkUpdateQueue {
    type V = Seq<ChunkQueueData>;

    closed spec fn view(&self) -> Seq<ChunkQueueData> {
        self.chunks@
    }
}

impl ChunkUpdateQueue {
    /// An empty queue.
    pub fn new() -> (queue: ChunkUpdateQueue)
        ensures
            queue@ == Seq::<ChunkQueueData>::empty(),
    {
        ChunkUpdateQueue { chunks: Vec::new() }
    }

    /// Appends `chunk`.
    pub fn queue(&mut self, chunk: ChunkQueueData)
        ensures
            final(self)@ == old(self)@.push(chunk),
    {
        self.chunks.push(chunk);
    }

    pub fn len(&self) -> (count: usize)
        ensures
            count == self@.len(),
    {
        self.chunks.len()
    }

    /// Takes the `count` oldest chunks out of the queue, oldest first, or all
    /// of them where the queue holds fewer.
    pub fn pull(&mut self, count: usize) -> (pulled: Vec<ChunkQueueData>)
        ensures
            pulled@ == old(self)@.take(vstd::math::min(count as int, old(self)@.len() as int)),
            final(self)@ == old(self)@.skip(vstd::math::min(count as int, old(self)@.len() as int)),
    {
        let length = self.chunks.len();
        let taken = if count < length {
            count
        } else {
            length
        };
        let rest = self.chunks.split_off(taken);
        let mut pulled = rest;
        std::mem::swap(&mut self.chunks, &mut pulled);
        assert(pulled@ =~= old(self)@.take(taken as int));
        assert(self@ =~= old(self)@.skip(taken as int));
        pulled
    }

    pub fn has_queue(&self) -> (waiting: bool)
        ensures
            waiting == (self@.len() > 0),
    {
        !self.chunks.is_empty()
    }
}

impl Default for ChunkUpdateQueue {
    fn default() -> (queue: ChunkUpdateQueue)
        ensures
            queue@ == Seq::<ChunkQueueData>::empty(),
    {
        ChunkUpdateQueue::new()
    }
}

} // verus!
