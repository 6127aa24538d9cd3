//! Which chunks to generate, show and drop as the player moves.

use vstd::prelude::*;

use crate::chunk::container::loaded::{lemma_take_next_to_set, LoadedChunks};
use crate::chunk::container::queue::ChunkQueueData;
use crate::chunk::plugin::{batch, batch_ids, lemma_batch_and_rest};
use crate::chunk::container::{
    chunk_coordinate, chunk_of, domain_id, fits_x, lemma_domain_id_range, Chunks, DomainChunk,
};
use crate::chunk::shape::{
    block_index, delinearize, lemma_block_index_parts, lemma_index_in_chunk, linearize,
};

verus! {

/// A chunk to generate, with the seed for its noise.
#[derive(Clone, Copy, Debug, PartialEq, Eq, Structural)]
pub struct GenerationTask {
    pub id: i32,
    pub seed: u32,
}

/// The ids of the chunks that `tasks` generate, in their order.
pub open spec fn task_ids(tasks: Seq<GenerationTask>) -> Seq<i32> {
    tasks.map_values(|task: GenerationTask| task.id)
}

/// `rand::Rng::gen_range` on `rand::thread_rng()` with the range `0..=5000`:
/// a number drawn from the thread's generator. It differs from call to call,
/// so only its bounds are stated.
#[verifier::external_body]
fn random_seed() -> (seed: u32)
    ensures
        seed <= 5000,
{
    rand::Rng::gen_range(&mut rand::thread_rng(), 0..=5000)
}

/// Number of chunks along one side of the window of radius `radius`.
pub open spec fn window_side(radius: int) -> int {
    2 * radius + 1
}

/// The id at place `k` of the window around the chunk `(x, z)`. The window
/// is walked along x, and for each x along z, from the lowest coordinate up.
pub open spec fn window_id(x: int, z: int, radius: int, k: int) -> i32 {
    domain_id(
        x - radius + k / window_side(radius),
        z - radius + k % window_side(radius),
    ) as i32
}

/// The ids of the chunks that lie no further than `radius` chunks from the
/// chunk `(x, z)` along either axis.
pub open spec fn window_ids(x: int, z: int, radius: int) -> Seq<i32> {
    Seq::new(
        (window_side(radius) * window_side(radius)) as nat,
        |k: int| window_id(x, z, radius, k),
    )
}

/// The block at `index` of a chunk that is filled from `terrain`. The terrain
/// counts its levels along the third axis and the chunk along the second, so
/// the cell `(x, y, z)` of the chunk holds the cell `(x, z, y)` of the
/// terrain. The cells with a coordinate of 0 stay unset.
pub open spec fn arranged_cell(terrain: Seq<u8>, index: int) -> u8 {
    let x = index % 32;
    let y = (index % 1024) / 32;
    let z = index / 1024;
    if x > 0 && y > 0 && z > 0 {
        terrain[block_index(x, z, y)]
    } else {
        0
    }
}

/// The blocks of a chunk that is filled from `terrain`.
pub open spec fn arranged(terrain: Seq<u8>) -> Seq<u8> {
    Seq::new(32768, |index: int| arranged_cell(terrain, index))
}

/// The index of the cell that has the second and third coordinate of the
/// cell at `index` the other way round.
pub open spec fn turned(index: int) -> int {
    block_index(index % 32, index / 1024, (index % 1024) / 32)
}

/// Turning a cell twice gives the cell back.
pub proof fn lemma_turned(index: int)
    requires
        0 <= index < 32768,
    ensures
        0 <= turned(index) < 32768,
        turned(index) % 32 == index % 32,
        (turned(index) % 1024) / 32 == index / 1024,
        turned(index) / 1024 == (index % 1024) / 32,
        turned(turned(index)) == index,
{
    let (x, y, z) = (index % 32, (index % 1024) / 32, index / 1024);
    lemma_index_in_chunk(index);
    lemma_block_index_parts(x, z, y);
}

/// Turns generated terrain into the blocks of a chunk: levels run along the
/// chunk's second axis, and the cells on the chunk's lower borders stay unset.
pub fn arrange_blocks(terrain: &Vec<u8>) -> (blocks: [u8; 32768])
    requires
        terrain@.len() == 32768,
    ensures
        blocks@ == arranged(terrain@),
{
    let mut blocks: [u8; 32768] = [0u8; 32768];
    let mut i: usize = 0;
    while i < 32768
        invariant
            i <= 32768,
            terrain@.len() == 32768,
            forall|t: int|
                0 <= t < 32768 ==> #[trigger] blocks@[t] == (if turned(t) < i {
                    arranged_cell(terrain@, t)
                } else {
                    0
                }),
        decreases 32768 - i,
    {
        let cell = delinearize(i as u32);
        let target = linearize([cell[0], cell[2], cell[1]]) as usize;
        let ghost before = blocks@;
        proof {
            lemma_turned(i as int);
            assert(target == turned(i as int));
        }
        if cell[0] > 0 && cell[1] > 0 && cell[2] > 0 {
            blocks[target] = terrain[i];
        }
        assert forall|t: int| 0 <= t < 32768 implies #[trigger] blocks@[t] == (if turned(t) < i
            + 1 {
            arranged_cell(terrain@, t)
        } else {
            0
        }) by {
            lemma_turned(t);
            if t == target {
                assert(turned(t) == i);
            } else {
                assert(blocks@[t] == before[t]);
                if turned(t) == i {
                    assert(turned(turned(t)) == t);
                }
            }
        }
        i += 1;
    }
    assert forall|t: int| 0 <= t < 32768 implies blocks@[t] == arranged_cell(terrain@, t) by {
        lemma_turned(t);
    }
    assert(blocks@ =~= arranged(terrain@));
    blocks
}

/// Follows the player to the world position `(x, z)`. While the player stays
/// in the chunk that was recorded last, nothing happens. Once the player
/// stands in another chunk, or none was recorded yet, the window around that
/// chunk is what is shown from now on: for each id of the window that was not
/// shown a task to generate it is handed back, in the window's order and with
/// a seed of at most 5000, and the ids that were shown and lie outside the
/// window wait to be dropped, beside those that waited already.
pub fn chunk_loading(
    loaded: &mut LoadedChunks,
    last_chunk_pos: &mut Option<(i32, i32)>,
    x: i32,
    z: i32,
    render_distance: u8,
) -> (dispatch: Vec<GenerationTask>)
    ensures
        forall|k: int| 0 <= k < dispatch@.len() ==> (#[trigger] dispatch@[k]).seed <= 5000,
        ({
            let here = (chunk_coordinate(x as int) as i32, chunk_coordinate(z as int) as i32);
            let window = window_ids(here.0 as int, here.1 as int, render_distance as int);
            let shown = old(loaded).loaded();
            if *old(last_chunk_pos) == Some(here) {
                &&& dispatch@.len() == 0
                &&& *final(last_chunk_pos) == *old(last_chunk_pos)
                &&& final(loaded).loaded() == shown
                &&& final(loaded).pending() == old(loaded).pending()
            } else {
                &&& task_ids(dispatch@) == window.filter(|id: i32| !shown.contains(id))
                &&& *final(last_chunk_pos) == Some(here)
                &&& final(loaded).loaded() == window.to_set()
                &&& final(loaded).pending() == old(loaded).pending().union(
                    shown.difference(window.to_set()),
                )
            }
        }),
{
    let here = (chunk_of(x), chunk_of(z));
    let moved = match *last_chunk_pos {
        Some(last) => last.0 != here.0 || last.1 != here.1,
        None => true,
    };
    if !moved {
        return Vec::new();
    }
    let ghost shown = loaded.loaded();
    let ghost unseen = |id: i32| !shown.contains(id);
    let ghost all = window_ids(here.0 as int, here.1 as int, render_distance as int);
    let radius: i32 = render_distance as i32;
    let side: i32 = 2 * radius + 1;
    let mut window: Vec<i32> = Vec::new();
    let mut dispatch: Vec<GenerationTask> = Vec::new();
    let mut row: i32 = 0;
    while row < side
        invariant
            0 <= row <= side,
            side == window_side(radius as int),
            0 <= radius <= 255,
            radius == render_distance,
            here.0 == chunk_coordinate(x as int),
            here.1 == chunk_coordinate(z as int),
            all == window_ids(here.0 as int, here.1 as int, radius as int),
            shown == loaded.loaded(),
            unseen == (|id: i32| !shown.contains(id)),
            window@ == all.take(row * side),
            task_ids(dispatch@) == window@.filter(unseen),
            forall|k: int| 0 <= k < dispatch@.len() ==> (#[trigger] dispatch@[k]).seed <= 5000,
        decreases side - row,
    {
        let mut column: i32 = 0;
        while column < side
            invariant
                0 <= row < side,
                0 <= column <= side,
                side == window_side(radius as int),
                0 <= radius <= 255,
                here.0 == chunk_coordinate(x as int),
                here.1 == chunk_coordinate(z as int),
                all == window_ids(here.0 as int, here.1 as int, radius as int),
                shown == loaded.loaded(),
                unseen == (|id: i32| !shown.contains(id)),
                window@ == all.take(row * side + column),
                task_ids(dispatch@) == window@.filter(unseen),
                forall|k: int|
                    0 <= k < dispatch@.len() ==> (#[trigger] dispatch@[k]).seed <= 5000,
            decreases side - column,
        {
            let ghost k = row * side + column;
            assert(0 <= k < side * side && k / (side as int) == row && k % (side as int)
                == column) by (nonlinear_arith)
                requires
                    k == row * side + column,
                    0 <= row < side,
                    0 <= column < side,
            ;
            let id = Chunks::linearize_domain([here.0 - radius + row, here.1 - radius + column]);
            proof {
                lemma_domain_id_range(
                    here.0 - radius + row,
                    here.1 - radius + column,
                );
                assert(id == all[k]);
                assert(all.take(k + 1) == all.take(k).push(id));
                window@.lemma_filter_push(id, unseen);
            }
            if !loaded.is_chunk_id_loaded(&id) {
                let ghost before = dispatch@;
                dispatch.push(GenerationTask { id, seed: random_seed() });
                assert(task_ids(dispatch@) == task_ids(before).push(id));
            }
            window.push(id);
            column += 1;
        }
        row += 1;
        assert(row * side == (row - 1) * side + side) by (nonlinear_arith);
    }
    assert(window@ == all) by {
        assert(all.take(side * side) == all);
    }
    let waiting = loaded.pull_unload();
    loaded.replace(window);
    let ghost left = shown.difference(all.to_set());
    let mut i: usize = 0;
    while i < waiting.len()
        invariant
            i <= waiting@.len(),
            loaded.loaded() == all.to_set(),
            loaded.pending() == left.union(waiting@.take(i as int).to_set()),
        decreases waiting@.len() - i,
    {
        loaded.queue_unload(waiting[i]);
        proof {
            lemma_take_next_to_set(waiting@, i as int);
        }
        i += 1;
    }
    assert(waiting@.take(waiting@.len() as int) == waiting@);
    *last_chunk_pos = Some(here);
    dispatch
}

/// The ids of a window differ from place to place, where they hold the x
/// coordinates of the window without loss: so a window of radius 1 names nine
/// chunks.
pub proof fn lemma_window_ids_distinct(x: int, z: int, radius: int)
    requires
        0 <= radius <= 255,
        fits_x(x - radius),
        fits_x(x + radius),
    ensures
        window_ids(x, z, radius).no_duplicates(),
        window_ids(x, z, radius).len() == window_side(radius) * window_side(radius),
{
    let side = window_side(radius);
    let ids = window_ids(x, z, radius);
    assert(side * side >= 0) by (nonlinear_arith)
        requires
            side >= 1,
    ;
    assert forall|i: int, j: int| 0 <= i < ids.len() && 0 <= j < ids.len() && i != j implies ids[i]
        != ids[j] by {
        let (xi, zi) = (x - radius + i / side, z - radius + i % side);
        let (xj, zj) = (x - radius + j / side, z - radius + j % side);
        assert(0 <= i / side < side && 0 <= j / side < side) by (nonlinear_arith)
            requires
                0 <= i < side * side,
                0 <= j < side * side,
                side >= 1,
        ;
        lemma_domain_id_range(xi, zi);
        lemma_domain_id_range(xj, zj);
        assert(i == side * (i / side) + i % side && j == side * (j / side) + j % side)
            by (nonlinear_arith)
            requires
                side >= 1,
        ;
        if ids[i] == ids[j] {
            assert(domain_id(xi, zi) == domain_id(xj, zj));
            assert(xi == xj);
            assert(zi % 1024 == zj % 1024);
            assert(zi == zj);
            assert(false);
        }
    }
}

/// Keeping the items of which a condition holds keeps every item, where the
/// condition holds of every item.
proof fn lemma_filter_keeps_all(ids: Seq<i32>, keep: spec_fn(i32) -> bool)
    requires
        forall|k: int| 0 <= k < ids.len() ==> keep(#[trigger] ids[k]),
    ensures
        ids.filter(keep) == ids,
    decreases ids.len(),
{
    if ids.len() == 0 {
        assert(ids.filter(keep) =~= ids) by {
            reveal(Seq::filter);
        }
    } else {
        let shorter = ids.drop_last();
        lemma_filter_keeps_all(shorter, keep);
        shorter.lemma_filter_push(ids.last(), keep);
        assert(shorter.push(ids.last()) =~= ids);
    }
}

/// With nothing shown, every chunk of the window is to be generated.
pub proof fn lemma_dispatch_all(x: int, z: int, radius: int)
    ensures
        window_ids(x, z, radius).filter(|id: i32| !Set::<i32>::empty().contains(id))
            == window_ids(x, z, radius),
{
    lemma_filter_keeps_all(
        window_ids(x, z, radius),
        |id: i32| !Set::<i32>::empty().contains(id),
    );
}

/// The way of a window from nothing to the display. With nothing shown, the
/// player's step into the chunk `(x, z)` hands out a task for every chunk of
/// the window, once each (`lemma_dispatch_all`). When `items` holds generated
/// blocks for exactly these chunks, in the order of the tasks, a tick that
/// takes them all asks
/// for as many visuals as the window has chunks, and the ticks that take them
/// leave exactly the window's chunks shown: nine for a radius of 1.
pub proof fn lemma_window_end_to_end(x: int, z: int, radius: int, items: Seq<ChunkQueueData>)
    requires
        0 <= radius <= 255,
        fits_x(x - radius),
        fits_x(x + radius),
        items.map_values(|item: ChunkQueueData| item.0) == window_ids(x, z, radius),
    ensures
        window_ids(x, z, radius).no_duplicates(),
        items.len() == window_side(radius) * window_side(radius),
        batch(items, items.len() as int) == items,
        batch_ids(items) == window_ids(x, z, radius).to_set(),
        window_ids(x, z, radius).to_set().union(batch_ids(items)) == window_ids(
            x,
            z,
            radius,
        ).to_set(),
        window_ids(x, z, radius).to_set().finite(),
        window_ids(x, z, radius).to_set().len() == window_side(radius) * window_side(radius),
        radius == 1 ==> items.len() == 9 && window_ids(x, z, radius).to_set().len() == 9,
{
    let window = window_ids(x, z, radius);
    let ids = items.map_values(|item: ChunkQueueData| item.0);
    lemma_window_ids_distinct(x, z, radius);
    window.unique_seq_to_set();
    assert(items.len() == ids.len());
    lemma_batch_and_rest(items, items.len() as int);
    assert(batch_ids(items) =~= window.to_set()) by {
        assert forall|id: i32| batch_ids(items).contains(id) implies window.to_set().contains(
            id,
        ) by {
            let k = choose|k: int| 0 <= k < items.len() && (#[trigger] items[k]).0 == id;
            assert(ids[k] == id);
        }
        assert forall|id: i32| window.to_set().contains(id) implies batch_ids(items).contains(
            id,
        ) by {
            let k = choose|k: int| 0 <= k < window.len() && window[k] == id;
            assert(ids[k] == items[k].0);
        }
    }
    assert(window.to_set().union(batch_ids(items)) =~= window.to_set());
    if radius == 1 {
        assert(window_side(radius) == 3);
        assert(window_side(radius) * window_side(radius) == 9) by (nonlinear_arith)
            requires
                window_side(radius) == 3,
        ;
    }
}

} // verus!
