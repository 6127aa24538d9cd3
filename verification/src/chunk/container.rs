//! The chunk store and the codec between positions and chunk ids.

use vstd::prelude::*;

use crate::chunk::container::table::{
    table_entries, table_get, table_get_mut, table_insert, table_keys, table_new, ChunkTable,
};
use crate::chunk::Chunk;

pub mod id_set;
pub mod loaded;
pub mod queue;
pub mod table;

verus! {

/// The chunk-grid coordinate of the chunk that holds the world coordinate
/// `world`: the quotient by the chunk's side, rounded down.
pub open spec fn chunk_coordinate(world: int) -> int {
    world / 32
}

/// What is left of a grid x coordinate in the 22 bits that an id has for it.
pub open spec fn fold_x(x: int) -> int {
    (x + 0x20_0000) % 0x40_0000 - 0x20_0000
}

/// What is left of a grid z coordinate in the 10 bits that an id has for it.
pub open spec fn fold_z(z: int) -> int {
    (z + 512) % 1024 - 512
}

/// True of the grid x coordinates that an id holds without loss.
pub open spec fn fits_x(x: int) -> bool {
    -0x20_0000 <= x < 0x20_0000
}

/// True of the grid z coordinates that an id holds without loss.
pub open spec fn fits_z(z: int) -> bool {
    -512 <= z < 512
}

/// The id of the chunk at `(x, z)` of the chunk grid: `x` in the upper 22
/// bits, the lower 10 bits of `z` below it.
pub open spec fn domain_id(x: int, z: int) -> int {
    fold_x(x) * 1024 + z % 1024
}

/// The grid x coordinate that an id holds.
pub open spec fn id_x(id: int) -> int {
    id / 1024
}

/// The grid z coordinate that an id holds.
pub open spec fn id_z(id: int) -> int {
    fold_z(id % 1024)
}

/// The id of the chunk that holds the world position `(x, z)`.
pub open spec fn world_id(x: int, z: int) -> int {
    domain_id(chunk_coordinate(x), chunk_coordinate(z))
}

/// True of a chunk as the store makes it at `(x, z)` of the chunk grid.
pub open spec fn is_fresh(chunk: Chunk, x: int, z: int) -> bool {
    &&& chunk.world_pos.x == x
    &&& chunk.world_pos.y == z
    &&& chunk.is_blank()
    &&& chunk.mesh is None
    &&& chunk.entity is None
    &&& chunk.dirty
}

/// What a lookup of the chunk at `(x, z)` of the chunk grid does to a store:
/// where the id was free, a fresh chunk is filed under it. No other entry
/// changes.
pub open spec fn looked_up(
    before: Map<i32, Chunk>,
    after: Map<i32, Chunk>,
    x: int,
    z: int,
) -> bool {
    let id = domain_id(x, z) as i32;
    &&& after.dom() == before.dom().insert(id)
    &&& forall|other: i32| before.contains_key(other) ==> after[other] == before[other]
    &&& !before.contains_key(id) ==> is_fresh(after[id], x, z)
}

/// Access to chunks by position, in `N` dimensions.
pub trait DomainChunk<const N: usize> {
    fn get_domain_at(&mut self, dimensions: [i32; N]) -> &Chunk;

    fn get_domain_at_mut(&mut self, dimensions: [i32; N]) -> &mut Chunk;

    fn get_chunk_at(&mut self, dimensions: [i32; N]) -> &Chunk;

    fn get_chunk_at_mut(&mut self, dimensions: [i32; N]) -> &mut Chunk;

    fn linearize_domain(dimensions: [i32; N]) -> i32;

    fn delinearize_domain(id: i32) -> [i32; N];

    fn linearize(dimensions: [i32; N]) -> i32;

    fn delinearize(id: i32) -> [i32; N];
}

/// The chunks made so far, each filed under one id.
pub struct Chunks {
    chunks: ChunkTable,
}

impl View for Chunks {
    type V = Map<i32, Chunk>;

    closed spec fn view(&self) -> Map<i32, Chunk> {
        table_entries(self.chunks)
    }
}

/// The chunk-grid coordinate of the chunk that holds `world`.
pub fn chunk_of(world: i32) -> (coordinate: i32)
    ensures
        coordinate == chunk_coordinate(world as int),
{
    let coordinate: i32 = world >> 5;
    assert(world >> 5 == world as int / 32) by (bit_vector);
    coordinate
}

impl DomainChunk<2> for Chunks {
    fn linearize_domain(dimensions: [i32; 2]) -> (id: i32)
        ensures
            id == domain_id(dimensions[0] as int, dimensions[1] as int),
    {
        let x = dimensions[0];
        let z = dimensions[1];
        let high: i32 = x << 10;
        let low: i32 = z & 1023;
        assert(low == z as int % 1024) by (bit_vector)
            requires
                low == z & 1023,
        ;
        assert(high == fold_x(x as int) * 1024) by (bit_vector)
            requires
                high == x << 10,
        ;
        assert(0 <= low < 1024 && high as int % 1024 == 0 ==> (high | low) == high + low)
            by (bit_vector);
        high | low
    }

    fn delinearize_domain(id: i32) -> (dimensions: [i32; 2])
        ensures
            dimensions[0] == id_x(id as int),
            dimensions[1] == id_z(id as int),
    {
        let x: i32 = id >> 10;
        let low: i32 = id & 1023;
        assert(x == id as int / 1024) by (bit_vector)
            requires
                x == id >> 10,
        ;
        assert(low == id as int % 1024) by (bit_vector)
            requires
                low == id & 1023,
        ;
        let z: i32 = if low >= 512 {
            low - 1024
        } else {
            low
        };
        [x, z]
    }

    fn linearize(dimensions: [i32; 2]) -> (id: i32)
        ensures
            id == world_id(dimensions[0] as int, dimensions[1] as int),
    {
        Self::linearize_domain([chunk_of(dimensions[0]), chunk_of(dimensions[1])])
    }

    fn delinearize(id: i32) -> (dimensions: [i32; 2])
        ensures
            dimensions[0] == id_x(id as int) * 32,
            dimensions[1] == id_z(id as int) * 32,
    {
        let grid = Self::delinearize_domain(id);
        [grid[0] * 32, grid[1] * 32]
    }

    fn get_domain_at(&mut self, dimensions: [i32; 2]) -> (chunk: &Chunk)
        ensures
            looked_up(old(self)@, final(self)@, dimensions[0] as int, dimensions[1] as int),
            *chunk == final(self)@[domain_id(dimensions[0] as int, dimensions[1] as int) as i32],
    {
        let id = Self::linearize_domain(dimensions);
        if table_get(&self.chunks, id).is_none() {
            let chunk = Chunk::new(dimensions[0], dimensions[1]);
            let _ = table_insert(&mut self.chunks, id, chunk);
        }
        assert(self@.dom() =~= old(self)@.dom().insert(id));
        table_get(&self.chunks, id).unwrap()
    }

    fn get_domain_at_mut(&mut self, dimensions: [i32; 2]) -> (chunk: &mut Chunk)
        ensures
            looked_up(
                old(self)@,
                old(self)@.insert(
                    domain_id(dimensions[0] as int, dimensions[1] as int) as i32,
                    *chunk,
                ),
                dimensions[0] as int,
                dimensions[1] as int,
            ),
            final(self)@ == old(self)@.insert(
                domain_id(dimensions[0] as int, dimensions[1] as int) as i32,
                *final(chunk),
            ),
    {
        let id = Self::linearize_domain(dimensions);
        if table_get(&self.chunks, id).is_none() {
            let chunk = Chunk::new(dimensions[0], dimensions[1]);
            let _ = table_insert(&mut self.chunks, id, chunk);
        }
        table_get_mut(&mut self.chunks, id).unwrap()
    }

    fn get_chunk_at(&mut self, dimensions: [i32; 2]) -> (chunk: &Chunk)
        ensures
            looked_up(
                old(self)@,
                final(self)@,
                chunk_coordinate(dimensions[0] as int),
                chunk_coordinate(dimensions[1] as int),
            ),
            *chunk == final(self)@[world_id(dimensions[0] as int, dimensions[1] as int) as i32],
    {
        self.get_domain_at([chunk_of(dimensions[0]), chunk_of(dimensions[1])])
    }

    fn get_chunk_at_mut(&mut self, dimensions: [i32; 2]) -> (chunk: &mut Chunk)
        ensures
            looked_up(
                old(self)@,
                old(self)@.insert(
                    world_id(dimensions[0] as int, dimensions[1] as int) as i32,
                    *chunk,
                ),
                chunk_coordinate(dimensions[0] as int),
                chunk_coordinate(dimensions[1] as int),
            ),
            final(self)@ == old(self)@.insert(
                world_id(dimensions[0] as int, dimensions[1] as int) as i32,
                *final(chunk),
            ),
    {
        self.get_domain_at_mut([chunk_of(dimensions[0]), chunk_of(dimensions[1])])
    }
}

impl Chunks {
    /// True when every chunk of a store is filed under the id of its own
    /// position, and that id holds the chunk's x coordinate without loss.
    pub open spec fn filed_by_position(store: Map<i32, Chunk>) -> bool {
        forall|id: i32| #[trigger]
            store.contains_key(id) ==> {
                &&& id == domain_id(store[id].world_pos.x as int, store[id].world_pos.y as int)
                &&& fits_x(store[id].world_pos.x as int)
            }
    }

    /// True when `after` holds the chunks of `before` with every block unset:
    /// the same ids and the same positions, meshes and handles, and every
    /// chunk dirty.
    pub open spec fn blanked(before: Map<i32, Chunk>, after: Map<i32, Chunk>) -> bool {
        &&& after.dom() == before.dom()
        &&& forall|id: i32| #[trigger]
            before.contains_key(id) ==> {
                &&& after[id].is_blank()
                &&& after[id].world_pos == before[id].world_pos
                &&& after[id].mesh == before[id].mesh
                &&& after[id].entity == before[id].entity
                &&& after[id].dirty
            }
    }

    /// A store without chunks.
    pub fn new() -> (store: Chunks)
        ensures
            store@.dom() == Set::<i32>::empty(),
    {
        Chunks { chunks: table_new() }
    }

    /// The chunk that is filed under `id`, if there is one.
    pub fn get(&self, id: i32) -> (chunk: Option<&Chunk>)
        ensures
            chunk is Some <==> self@.contains_key(id),
            chunk matches Some(c) ==> *c == self@[id],
    {
        table_get(&self.chunks, id)
    }

    /// Unsets every block of every chunk. No chunk is removed.
    pub fn reset(&mut self)
        ensures
            Self::blanked(old(self)@, final(self)@),
    {
        let ids = table_keys(&self.chunks);
        let mut i: usize = 0;
        while i < ids.len()
            invariant
                i <= ids@.len(),
                forall|id: i32| ids@.contains(id) <==> old(self)@.contains_key(id),
                self@.dom() == old(self)@.dom(),
                forall|id: i32| #[trigger]
                    old(self)@.contains_key(id) ==> {
                        &&& self@[id].world_pos == old(self)@[id].world_pos
                        &&& self@[id].mesh == old(self)@[id].mesh
                        &&& self@[id].entity == old(self)@[id].entity
                        &&& self@[id] == old(self)@[id] || (self@[id].is_blank()
                            && self@[id].dirty)
                    },
                forall|j: int|
                    0 <= j < i ==> (#[trigger] self@[ids@[j]]).is_blank() && self@[ids@[j]].dirty,
            decreases ids@.len() - i,
        {
            let id = ids[i];
            let ghost before = self@;
            assert(ids@.contains(id));
            let chunk = table_get_mut(&mut self.chunks, id).unwrap();
            chunk.override_blocks([0u8; 32768]);
            assert(self@ == before.insert(id, self@[id]));
            assert(self@.dom() =~= old(self)@.dom());
            i += 1;
        }
        assert forall|id: i32| #[trigger] old(self)@.contains_key(id) implies self@[id].is_blank()
            && self@[id].dirty by {
            assert(ids@.contains(id));
            let j = choose|j: int| 0 <= j < ids@.len() && ids@[j] == id;
            assert(self@[ids@[j]].is_blank());
        }
    }
}

impl Default for Chunks {
    fn default() -> (store: Chunks)
        ensures
            store@.dom() == Set::<i32>::empty(),
    {
        Chunks::new()
    }
}

/// A chunk coordinate is the one whose 32 world coordinates hold `world`.
pub proof fn lemma_chunk_coordinate(world: int, coordinate: int)
    ensures
        coordinate == chunk_coordinate(world) <==> 32 * coordinate <= world < 32 * coordinate + 32,
{
}

/// Every id fits in 32 bits.
pub proof fn lemma_domain_id_range(x: int, z: int)
    ensures
        i32::MIN <= domain_id(x, z) <= i32::MAX,
{
}

/// Taking an id apart undoes putting it together, for every position whose
/// coordinates the id holds without loss.
pub proof fn lemma_domain_round_trip(x: int, z: int)
    requires
        fits_x(x),
        fits_z(z),
    ensures
        id_x(domain_id(x, z)) == x,
        id_z(domain_id(x, z)) == z,
{
}

/// Putting an id together undoes taking it apart.
pub proof fn lemma_id_round_trip(id: i32)
    ensures
        fits_x(id_x(id as int)),
        fits_z(id_z(id as int)),
        domain_id(id_x(id as int), id_z(id as int)) == id,
{
}

/// Two positions with one id are one position, where the id holds their
/// coordinates without loss.
pub proof fn lemma_domain_id_injective(x1: int, z1: int, x2: int, z2: int)
    requires
        fits_x(x1),
        fits_z(z1),
        fits_x(x2),
        fits_z(z2),
        domain_id(x1, z1) == domain_id(x2, z2),
    ensures
        x1 == x2,
        z1 == z2,
{
    lemma_domain_round_trip(x1, z1);
    lemma_domain_round_trip(x2, z2);
}

/// World positions in different chunks have different ids: a position just
/// below zero is not filed with the chunk at zero.
pub proof fn lemma_world_id_separates(x1: int, z1: int, x2: int, z2: int)
    requires
        fits_x(chunk_coordinate(x1)),
        fits_z(chunk_coordinate(z1)),
        fits_x(chunk_coordinate(x2)),
        fits_z(chunk_coordinate(z2)),
        chunk_coordinate(x1) != chunk_coordinate(x2) || chunk_coordinate(z1) != chunk_coordinate(
            z2,
        ),
    ensures
        world_id(x1, z1) != world_id(x2, z2),
{
    if world_id(x1, z1) == world_id(x2, z2) {
        lemma_domain_id_injective(
            chunk_coordinate(x1),
            chunk_coordinate(z1),
            chunk_coordinate(x2),
            chunk_coordinate(z2),
        );
    }
}

/// Looking a position up a second time finds the chunk that the first lookup
/// found, with what was written to it since, and changes nothing.
pub proof fn lemma_lookup_twice(
    first: Map<i32, Chunk>,
    second: Map<i32, Chunk>,
    written: Chunk,
    third: Map<i32, Chunk>,
    x: int,
    z: int,
)
    requires
        looked_up(first, second, x, z),
        looked_up(second.insert(domain_id(x, z) as i32, written), third, x, z),
    ensures
        third == second.insert(domain_id(x, z) as i32, written),
        third[domain_id(x, z) as i32] == written,
{
    let id = domain_id(x, z) as i32;
    let between = second.insert(id, written);
    assert(between.contains_key(id));
    assert(third.dom() =~= between.dom());
    assert(third =~= between);
}

/// In a store that files every chunk by its position, the chunk found at
/// `(x, z)` has the x coordinate `x`, and the z coordinate `z` where its own
/// and `z` both fit the id. The store goes on filing every chunk by its
/// position.
pub proof fn lemma_lookup_position(before: Map<i32, Chunk>, after: Map<i32, Chunk>, x: int, z: int)
    requires
        Chunks::filed_by_position(before),
        looked_up(before, after, x, z),
        fits_x(x),
    ensures
        Chunks::filed_by_position(after),
        after[domain_id(x, z) as i32].world_pos.x == x,
        fits_z(z) && fits_z(after[domain_id(x, z) as i32].world_pos.y as int) ==> after[domain_id(
            x,
            z,
        ) as i32].world_pos.y == z,
{
    lemma_domain_id_range(x, z);
    let id = domain_id(x, z) as i32;
    assert(after.contains_key(id));
    if before.contains_key(id) {
        assert(after[id] == before[id]);
    }
    assert forall|other: i32| #[trigger] after.contains_key(other) implies {
        &&& other == domain_id(after[other].world_pos.x as int, after[other].world_pos.y as int)
        &&& fits_x(after[other].world_pos.x as int)
    } by {
        if other != id {
            assert(before.contains_key(other));
        }
    }
}

/// Chunks follow each other along an axis: the world coordinate `32 * i` lies
/// in chunk `i`, and one chunk side further lies the next chunk.
pub proof fn lemma_chunk_stride(i: int, world: int)
    ensures
        chunk_coordinate(32 * i) == i,
        chunk_coordinate(world + 32) == chunk_coordinate(world) + 1,
{
}

/// In a store that files every chunk by its position, the chunk found at the
/// world position `(32 * i, 32 * i)` has the x coordinate `i`, and the chunk
/// found one chunk side further has the x coordinate `i + 1`.
pub proof fn lemma_store_stride(
    first: Map<i32, Chunk>,
    second: Map<i32, Chunk>,
    third: Map<i32, Chunk>,
    i: int,
)
    requires
        Chunks::filed_by_position(first),
        0 <= i < 512,
        looked_up(first, second, chunk_coordinate(32 * i), chunk_coordinate(32 * i)),
        looked_up(
            second,
            third,
            chunk_coordinate(32 * i + 32),
            chunk_coordinate(32 * i + 32),
        ),
    ensures
        second[world_id(32 * i, 32 * i) as i32].world_pos.x == i,
        third[world_id(32 * i + 32, 32 * i + 32) as i32].world_pos.x == i + 1,
{
    lemma_chunk_stride(i, 32 * i);
    lemma_lookup_position(first, second, i, i);
    lemma_lookup_position(second, third, i + 1, i + 1);
}

} // verus!
