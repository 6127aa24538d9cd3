//! The chunks that the renderer shows, and those that it is to drop.

use vstd::prelude::*;

use crate::chunk::container::id_set::{
    id_set_contains, id_set_drain, id_set_insert, id_set_items, id_set_items_of, id_set_new, IdSet,
};
use crate::chunk::container::{domain_id, Chunks, DomainChunk};
use crate::chunk::Chunk;

verus! {

/// The ids of the chunks that are shown, and the ids that wait to be dropped
/// from the display.
pub struct LoadedChunks {
    chunks: IdSet,
    to_unload: IdSet,
}

impl LoadedChunks {
    /// The ids of the chunks that are shown.
    pub closed spec fn loaded(&self) -> Set<i32> {
        id_set_items(self.chunks)
    }

    /// The ids that wait to be dropped from the display.
    pub closed spec fn pending(&self) -> Set<i32> {
        id_set_items(self.to_unload)
    }

    /// Nothing shown, nothing waiting.
    pub fn new() -> (set: LoadedChunks)
        ensures
            set.loaded() == Set::<i32>::empty(),
            set.pending() == Set::<i32>::empty(),
    {
        LoadedChunks { chunks: id_set_new(), to_unload: id_set_new() }
    }

    /// Every shown chunk is to be dropped.
    pub fn reset(&mut self)
        ensures
            final(self).loaded() == Set::<i32>::empty(),
            final(self).pending() == old(self).pending().union(old(self).loaded()),
    {
        let ids = id_set_drain(&mut self.chunks);
        let mut i: usize = 0;
        while i < ids.len()
            invariant
                i <= ids@.len(),
                self.loaded() == Set::<i32>::empty(),
                self.pending() == old(self).pending().union(ids@.take(i as int).to_set()),
            decreases ids@.len() - i,
        {
            let _ = id_set_insert(&mut self.to_unload, ids[i]);
            proof {
                lemma_take_next_to_set(ids@, i as int);
            }
            i += 1;
        }
        assert(ids@.take(ids@.len() as int) == ids@);
    }

    /// Shows `chunk` from now on.
    pub fn add_rendered_chunk(&mut self, chunk: i32)
        ensures
            final(self).loaded() == old(self).loaded().insert(chunk),
            final(self).pending() == old(self).pending(),
    {
        let _ = id_set_insert(&mut self.chunks, chunk);
    }

    /// True when the chunk at the position of `chunk` is shown.
    pub fn is_chunk_loaded(&self, chunk: &Chunk) -> (shown: bool)
        ensures
            shown == self.loaded().contains(
                domain_id(chunk.world_pos.x as int, chunk.world_pos.y as int) as i32,
            ),
    {
        let id = Chunks::linearize_domain([chunk.world_pos.x, chunk.world_pos.y]);
        self.is_chunk_id_loaded(&id)
    }

    pub fn is_chunk_id_loaded(&self, index: &i32) -> (shown: bool)
        ensures
            shown == self.loaded().contains(*index),
    {
        id_set_contains(&self.chunks, *index)
    }

    /// `chunk` is to be dropped from the display.
    pub fn queue_unload(&mut self, chunk: i32)
        ensures
            final(self).pending() == old(self).pending().insert(chunk),
            final(self).loaded() == old(self).loaded(),
    {
        let _ = id_set_insert(&mut self.to_unload, chunk);
    }

    /// Hands out the ids that wait to be dropped, once each, and forgets them.
    pub fn pull_unload(&mut self) -> (ids: Vec<i32>)
        ensures
            ids@.no_duplicates(),
            ids@.to_set() == old(self).pending(),
            final(self).pending() == Set::<i32>::empty(),
            final(self).loaded() == old(self).loaded(),
    {
        id_set_drain(&mut self.to_unload)
    }

    /// The ids of the chunks that are shown, once each.
    pub fn pull_loaded(&self) -> (ids: Vec<i32>)
        ensures
            ids@.no_duplicates(),
            ids@.to_set() == self.loaded(),
    {
        id_set_items_of(&self.chunks)
    }

    /// Shows exactly `chunks` from now on. The ids that were shown and are no
    /// longer are what waits to be dropped.
    pub fn replace(&mut self, chunks: Vec<i32>)
        ensures
            final(self).loaded() == chunks@.to_set(),
            final(self).pending() == old(self).loaded().difference(chunks@.to_set()),
    {
        let mut shown = id_set_new();
        let mut i: usize = 0;
        while i < chunks.len()
            invariant
                i <= chunks@.len(),
                id_set_items(shown) == chunks@.take(i as int).to_set(),
            decreases chunks@.len() - i,
        {
            let _ = id_set_insert(&mut shown, chunks[i]);
            proof {
                lemma_take_next_to_set(chunks@, i as int);
            }
            i += 1;
        }
        assert(chunks@.take(chunks@.len() as int) == chunks@);
        let before = id_set_drain(&mut self.chunks);
        let mut dropped = id_set_new();
        let mut j: usize = 0;
        while j < before.len()
            invariant
                j <= before@.len(),
                id_set_items(shown) == chunks@.to_set(),
                id_set_items(dropped) == before@.take(j as int).to_set().difference(
                    chunks@.to_set(),
                ),
            decreases before@.len() - j,
        {
            let id = before[j];
            if !id_set_contains(&shown, id) {
                let _ = id_set_insert(&mut dropped, id);
            }
            proof {
                lemma_take_next_to_set(before@, j as int);
            }
            j += 1;
        }
        assert(before@.take(before@.len() as int) == before@);
        self.chunks = shown;
        self.to_unload = dropped;
    }
}

impl Default for LoadedChunks {
    fn default() -> (set: LoadedChunks)
        ensures
            set.loaded() == Set::<i32>::empty(),
            set.pending() == Set::<i32>::empty(),
    {
        LoadedChunks::new()
    }
}

/// The first `i + 1` items of a sequence are, as a set, its first `i` items
/// and item `i`.
pub proof fn lemma_take_next_to_set(items: Seq<i32>, i: int)
    requires
        0 <= i < items.len(),
    ensures
        items.take(i + 1).to_set() == items.take(i).to_set().insert(items[i]),
{
    let longer = items.take(i + 1);
    let shorter = items.take(i);
    assert forall|id: i32| longer.to_set().contains(id) <==> shorter.to_set().insert(
        items[i],
    ).contains(id) by {
        if longer.contains(id) {
            let k = choose|k: int| 0 <= k < longer.len() && longer[k] == id;
            if k < i {
                assert(shorter[k] == id);
            }
        }
        if shorter.contains(id) {
            let k = choose|k: int| 0 <= k < shorter.len() && shorter[k] == id;
            assert(longer[k] == id);
        }
        if id == items[i] {
            assert(longer[i] == id);
        }
    }
    assert(longer.to_set() =~= shorter.to_set().insert(items[i]));
}

} // verus!
