//! One tick of the display: generated chunks go into the store and ask for a
//! visual, dropped chunks ask for theirs to be removed.

use vstd::prelude::*;

use crate::chunk::container::loaded::LoadedChunks;
use crate::chunk::container::queue::{ChunkQueueData, ChunkUpdateQueue};
use crate::chunk::container::{id_x, id_z, lemma_id_round_trip, Chunks, DomainChunk};
use crate::chunk::meshing::{mesh_of, ChunkMesh};
use crate::chunk::{Chunk, ChunkPos, WorldPos};

verus! {

pub struct ChunkPlugin;

/// Whether the display waits for chunks or is about to show some.
#[derive(Debug, Hash, Clone, Copy, PartialEq, Eq, Structural)]
pub enum ChunkLoadState {
    Wait,
    Render,
}

/// Asks the renderer to show the chunk `id` with `mesh` at the world position
/// `world_pos`, in the visual `entity` where the chunk has one already.
#[derive(Debug)]
pub struct SpawnRequest {
    pub id: i32,
    pub world_pos: WorldPos,
    pub entity: Option<u64>,
    pub mesh: ChunkMesh,
}

/// Asks the renderer to stop showing the chunk `id`, whose visual is `entity`
/// where it has one.
#[derive(Clone, Copy, Debug, PartialEq, Eq)]
pub struct DespawnRequest {
    pub id: i32,
    pub entity: Option<u64>,
}

/// What one tick asks of the renderer.
#[derive(Debug)]
pub struct RenderRequests {
    pub spawns: Vec<SpawnRequest>,
    pub despawns: Vec<DespawnRequest>,
}

/// The part of the queue that a tick with the limit `limit` takes.
pub open spec fn batch(queue: Seq<ChunkQueueData>, limit: int) -> Seq<ChunkQueueData> {
    queue.take(vstd::math::min(limit, queue.len() as int))
}

/// The ids of the chunks in `items`.
pub open spec fn batch_ids(items: Seq<ChunkQueueData>) -> Set<i32> {
    Set::new(|id: i32| exists|k: int| 0 <= k < items.len() && (#[trigger] items[k]).0 == id)
}

/// True of a chunk that holds `blocks` and the mesh of `blocks`.
pub open spec fn rendered(chunk: Chunk, blocks: Seq<u8>) -> bool {
    &&& chunk.blocks@ == blocks
    &&& chunk.mesh matches Some(mesh)
    &&& mesh@ == mesh_of(blocks)
    &&& !chunk.dirty
}

/// What putting generated blocks for the chunk `id` into a store does: the
/// chunk under `id`, made at the position that `id` holds where there was
/// none, holds the blocks and their mesh. It keeps its position and visual.
/// No other chunk changes.
pub open spec fn updated(
    before: Map<i32, Chunk>,
    after: Map<i32, Chunk>,
    id: i32,
    blocks: Seq<u8>,
) -> bool {
    &&& after.dom() == before.dom().insert(id)
    &&& forall|other: i32| other != id && before.contains_key(other) ==> after[other] == before[other]
    &&& rendered(after[id], blocks)
    &&& after[id].world_pos == (if before.contains_key(id) {
        before[id].world_pos
    } else {
        ChunkPos { x: id_x(id as int) as i32, y: id_z(id as int) as i32 }
    })
    &&& after[id].entity == (if before.contains_key(id) {
        before[id].entity
    } else {
        None
    })
}

/// What putting `items` into a store does, one after the other.
pub open spec fn applied(
    before: Map<i32, Chunk>,
    after: Map<i32, Chunk>,
    items: Seq<ChunkQueueData>,
) -> bool
    decreases items.len(),
{
    if items.len() == 0 {
        after == before
    } else {
        exists|middle: Map<i32, Chunk>|
            applied(before, middle, items.drop_last()) && #[trigger] updated(
                middle,
                after,
                items.last().0,
                items.last().1@,
            )
    }
}

impl ChunkPlugin {
    /// True when generated chunks wait to be shown.
    pub fn render_queue_check(queue: &ChunkUpdateQueue) -> (run: bool)
        ensures
            run == (queue@.len() > 0),
    {
        queue.has_queue()
    }

    /// Puts the blocks `blocks` into the chunk `id` of the store, marks the
    /// chunk as shown and asks for its visual.
    pub fn apply_update(
        chunks: &mut Chunks,
        loaded_chunks: &mut LoadedChunks,
        id: i32,
        blocks: [u8; 32768],
    ) -> (spawn: SpawnRequest)
        ensures
            updated(old(chunks)@, final(chunks)@, id, blocks@),
            final(loaded_chunks).loaded() == old(loaded_chunks).loaded().insert(id),
            final(loaded_chunks).pending() == old(loaded_chunks).pending(),
            spawn.id == id,
            spawn.world_pos == final(chunks)@[id].world_pos.spec_origin(),
            spawn.entity == final(chunks)@[id].entity,
            spawn.mesh@ == mesh_of(blocks@),
            spawn.mesh@.quads.len() <= 196608,
    {
        proof {
            lemma_id_round_trip(id);
        }
        let chunk = chunks.get_domain_at_mut(Chunks::delinearize_domain(id));
        loaded_chunks.add_rendered_chunk(id);
        chunk.override_blocks(blocks);
        let mesh = chunk.get_mesh().clone();
        SpawnRequest { id, world_pos: chunk.world_pos.origin(), entity: chunk.entity, mesh }
    }

    /// One tick. The `limit` oldest chunks of the queue leave it and go into
    /// the store, in their order, each marked as shown and each with a request
    /// for its visual. Every id that waits to be dropped leaves the waiting
    /// set with a request to remove its visual. The display then waits.
    pub fn render_blocks(
        chunks: &mut Chunks,
        loaded_chunks: &mut LoadedChunks,
        queue: &mut ChunkUpdateQueue,
        state: &mut ChunkLoadState,
        limit: usize,
    ) -> (requests: RenderRequests)
        ensures
            final(queue)@ == old(queue)@.skip(batch(old(queue)@, limit as int).len() as int),
            applied(old(chunks)@, final(chunks)@, batch(old(queue)@, limit as int)),
            final(loaded_chunks).loaded() == old(loaded_chunks).loaded().union(
                batch_ids(batch(old(queue)@, limit as int)),
            ),
            final(loaded_chunks).pending() == Set::<i32>::empty(),
            *final(state) == ChunkLoadState::Wait,
            requests.spawns@.len() == batch(old(queue)@, limit as int).len(),
            forall|k: int|
                0 <= k < requests.spawns@.len() ==> {
                    let spawn = #[trigger] requests.spawns@[k];
                    let item = batch(old(queue)@, limit as int)[k];
                    &&& spawn.id == item.0
                    &&& spawn.mesh@ == mesh_of(item.1@)
                    &&& spawn.mesh@.quads.len() <= 196608
                    &&& final(chunks)@.contains_key(spawn.id)
                    &&& spawn.world_pos == final(chunks)@[spawn.id].world_pos.spec_origin()
                    &&& spawn.entity == final(chunks)@[spawn.id].entity
                },
            requests.despawns@.map_values(|d: DespawnRequest| d.id).no_duplicates(),
            requests.despawns@.map_values(|d: DespawnRequest| d.id).to_set() == old(
                loaded_chunks,
            ).pending(),
            forall|k: int|
                0 <= k < requests.despawns@.len() ==> (#[trigger] requests.despawns@[k]).entity
                    == (if final(chunks)@.contains_key(requests.despawns@[k].id) {
                    final(chunks)@[requests.despawns@[k].id].entity
                } else {
                    None
                }),
    {
        let ghost items = batch(old(queue)@, limit as int);
        let ghost first = chunks@;
        let ghost shown = loaded_chunks.loaded();
        let ghost waiting = loaded_chunks.pending();
        let pulled = queue.pull(limit);
        let mut spawns: Vec<SpawnRequest> = Vec::new();
        let mut n: usize = 0;
        assert(items.take(0).len() == 0);
        assert(batch_ids(items.take(0)) =~= Set::<i32>::empty());
        while n < pulled.len()
            invariant
                n <= pulled@.len(),
                pulled@ == items,
                applied(first, chunks@, items.take(n as int)),
                loaded_chunks.loaded() == shown.union(batch_ids(items.take(n as int))),
                loaded_chunks.pending() == waiting,
                spawns@.len() == n,
                forall|k: int|
                    0 <= k < n ==> {
                        let spawn = #[trigger] spawns@[k];
                        &&& spawn.id == items[k].0
                        &&& spawn.mesh@ == mesh_of(items[k].1@)
                        &&& spawn.mesh@.quads.len() <= 196608
                        &&& chunks@.contains_key(spawn.id)
                        &&& spawn.world_pos == chunks@[spawn.id].world_pos.spec_origin()
                        &&& spawn.entity == chunks@[spawn.id].entity
                    },
            decreases pulled@.len() - n,
        {
            let item = pulled[n];
            let ghost middle = chunks@;
            let spawn = Self::apply_update(chunks, loaded_chunks, item.0, item.1);
            proof {
                let longer = items.take(n + 1);
                assert(longer.drop_last() == items.take(n as int));
                assert(longer.last() == items[n as int]);
                assert(updated(middle, chunks@, longer.last().0, longer.last().1@));
                assert(applied(first, chunks@, longer));
                assert(batch_ids(longer) =~= batch_ids(items.take(n as int)).insert(item.0)) by {
                    assert forall|id: i32| batch_ids(longer).contains(id) implies batch_ids(
                        items.take(n as int),
                    ).insert(item.0).contains(id) by {
                        let k = choose|k: int| 0 <= k < longer.len() && (#[trigger] longer[k]).0
                            == id;
                        if k < n {
                            assert(items.take(n as int)[k].0 == id);
                        }
                    }
                    assert forall|id: i32|
                        batch_ids(items.take(n as int)).insert(item.0).contains(
                            id,
                        ) implies batch_ids(longer).contains(id) by {
                        if id == item.0 {
                            assert(longer[n as int].0 == id);
                        } else {
                            let k = choose|k: int|
                                0 <= k < items.take(n as int).len() && (#[trigger] items.take(
                                    n as int,
                                )[k]).0 == id;
                            assert(longer[k].0 == id);
                        }
                    }
                }
            }
            spawns.push(spawn);
            n += 1;
        }
        assert(items.take(items.len() as int) == items);
        *state = ChunkLoadState::Wait;
        let ids = loaded_chunks.pull_unload();
        let mut despawns: Vec<DespawnRequest> = Vec::new();
        let mut i: usize = 0;
        while i < ids.len()
            invariant
                i <= ids@.len(),
                despawns@.len() == i,
                forall|k: int| 0 <= k < i ==> (#[trigger] despawns@[k]).id == ids@[k],
                forall|k: int|
                    0 <= k < i ==> (#[trigger] despawns@[k]).entity == (if chunks@.contains_key(
                        despawns@[k].id,
                    ) {
                        chunks@[despawns@[k].id].entity
                    } else {
                        None
                    }),
            decreases ids@.len() - i,
        {
            let id = ids[i];
            let entity = match chunks.get(id) {
                Some(chunk) => chunk.entity,
                None => None,
            };
            despawns.push(DespawnRequest { id, entity });
            i += 1;
        }
        assert(despawns@.map_values(|d: DespawnRequest| d.id) =~= ids@);
        RenderRequests { spawns, despawns }
    }
}

/// What putting `items` into a store comes to, chunk by chunk. The store holds
/// the chunks that it held and those of the items. A chunk that no item names
/// is as it was. A chunk that was there stays at its position and keeps its
/// visual; a chunk that was not there stands at the position that its id
/// holds and has no visual. The chunk of an item that no later item follows
/// for the same chunk holds the blocks of that item and their mesh: the last
/// write wins.
pub proof fn lemma_applied(
    before: Map<i32, Chunk>,
    after: Map<i32, Chunk>,
    items: Seq<ChunkQueueData>,
)
    requires
        applied(before, after, items),
    ensures
        after.dom() == before.dom().union(batch_ids(items)),
        forall|id: i32|
            before.contains_key(id) && !batch_ids(items).contains(id) ==> #[trigger] after[id]
                == before[id],
        forall|id: i32|
            before.contains_key(id) ==> (#[trigger] after[id]).world_pos == before[id].world_pos
                && after[id].entity == before[id].entity,
        forall|id: i32|
            after.contains_key(id) && !before.contains_key(id) ==> (#[trigger] after[id]).world_pos
                == (ChunkPos { x: id_x(id as int) as i32, y: id_z(id as int) as i32 })
                && after[id].entity is None,
        forall|k: int|
            0 <= k < items.len() && (forall|later: int|
                k < later < items.len() ==> (#[trigger] items[later]).0 != items[k].0)
                ==> rendered(after[(#[trigger] items[k]).0], items[k].1@),
    decreases items.len(),
{
    if items.len() == 0 {
        assert(after.dom() =~= before.dom().union(batch_ids(items)));
    } else {
        let earlier = items.drop_last();
        let last = items.last();
        let middle = choose|middle: Map<i32, Chunk>|
            applied(before, middle, earlier) && #[trigger] updated(middle, after, last.0, last.1@);
        lemma_applied(before, middle, earlier);
        assert forall|id: i32| batch_ids(items).contains(id) <==> batch_ids(earlier).contains(id)
            || id == last.0 by {
            if batch_ids(items).contains(id) {
                let k = choose|k: int| 0 <= k < items.len() && (#[trigger] items[k]).0 == id;
                if k < earlier.len() {
                    assert(earlier[k].0 == id);
                }
            }
            if batch_ids(earlier).contains(id) {
                let k = choose|k: int| 0 <= k < earlier.len() && (#[trigger] earlier[k]).0 == id;
                assert(items[k].0 == id);
            }
            if id == last.0 {
                assert(items[items.len() - 1].0 == id);
            }
        }
        assert(after.dom() =~= before.dom().union(batch_ids(items)));
        assert forall|k: int|
            0 <= k < items.len() && (forall|later: int|
                k < later < items.len() ==> (#[trigger] items[later]).0 != items[k].0)
                implies rendered(after[(#[trigger] items[k]).0], items[k].1@) by {
            if k < earlier.len() {
                assert(items[items.len() - 1].0 != items[k].0);
                assert(earlier[k] == items[k]);
                assert forall|later: int| k < later < earlier.len() implies (
                #[trigger] earlier[later]).0 != earlier[k].0 by {
                    assert(items[later].0 != items[k].0);
                }
                assert(rendered(middle[earlier[k].0], earlier[k].1@));
                assert(middle.contains_key(items[k].0)) by {
                    assert(batch_ids(earlier).contains(earlier[k].0));
                }
            }
        }
    }
}

/// A tick takes the oldest entries and leaves the rest: what it takes and
/// what it leaves are, one after the other, the queue before. A tick whose
/// limit is no less than the queue's length takes the whole queue.
pub proof fn lemma_batch_and_rest(queue: Seq<ChunkQueueData>, limit: int)
    requires
        0 <= limit,
    ensures
        batch(queue, limit) + queue.skip(batch(queue, limit).len() as int) == queue,
        batch(queue, limit).len() == vstd::math::min(limit, queue.len() as int),
        limit >= queue.len() ==> batch(queue, limit) == queue,
{
    let taken = vstd::math::min(limit, queue.len() as int);
    assert(queue.take(taken) + queue.skip(taken) =~= queue);
    if limit >= queue.len() {
        assert(queue.take(queue.len() as int) =~= queue);
    }
}

/// A tick that takes only chunks that are shown leaves the shown set as it
/// was.
pub proof fn lemma_tick_keeps_shown(shown: Set<i32>, items: Seq<ChunkQueueData>)
    requires
        forall|k: int| 0 <= k < items.len() ==> shown.contains((#[trigger] items[k]).0),
    ensures
        shown.union(batch_ids(items)) == shown,
{
    assert(shown.union(batch_ids(items)) =~= shown);
}

} // verus!
