//! A chunk: a cube of block ids with a position on the chunk grid.

use vstd::prelude::*;

use crate::chunk::meshing::ChunkMesh;
use crate::chunk::shape::{block_index, in_chunk, linearize};

pub mod container;
pub mod meshing;
pub mod plugin;
pub mod shape;
pub mod voxel;

verus! {

pub const X_SIZE: usize = 32;

pub const Y_SIZE: usize = 32;

pub const Z_SIZE: usize = 32;

pub const X_SIZE_U32: u32 = 32;

pub const Y_SIZE_U32: u32 = 32;

pub const Z_SIZE_U32: u32 = 32;

/// Number of blocks in a chunk.
pub const VOLUME: usize = 32768;

/// Number of columns in a chunk footprint.
pub const HEIGHT_SIZE: usize = 1024;

/// The shape that lays a chunk's blocks out in memory.
pub type ChunkShape = ndshape::ConstShape3u32<32, 32, 32>;

/// A position on the chunk grid. `y` holds the grid's second axis, which runs
/// along the world's z axis.
#[derive(Clone, Copy, Debug, PartialEq, Eq, Structural)]
pub struct ChunkPos {
    pub x: i32,
    pub y: i32,
}

/// A position in the world, in blocks.
#[derive(Clone, Copy, Debug, PartialEq, Eq, Structural)]
pub struct WorldPos {
    pub x: i64,
    pub z: i64,
}

impl ChunkPos {
    pub fn new(x: i32, y: i32) -> (p: ChunkPos)
        ensures
            p.x == x,
            p.y == y,
    {
        ChunkPos { x, y }
    }

    /// The world position of the chunk at this place of the grid: that of its
    /// corner with the lowest coordinates, one chunk side for each step on the
    /// grid.
    pub open spec fn spec_origin(self) -> WorldPos {
        WorldPos { x: (32 * self.x) as i64, z: (32 * self.y) as i64 }
    }

    pub fn origin(&self) -> (origin: WorldPos)
        ensures
            origin == self.spec_origin(),
    {
        let x: i64 = self.x as i64;
        let z: i64 = self.y as i64;
        WorldPos { x: 32 * x, z: 32 * z }
    }
}

/// A cube of 32 x 32 x 32 block ids at a position of the chunk grid, with the
/// mesh that was last built from it.
#[derive(Debug, Clone)]
pub struct Chunk {
    /// The block ids, indexed by `block_index`. Write them through the
    /// chunk's methods, which mark the chunk dirty.
    pub blocks: [u8; 32768],
    pub world_pos: ChunkPos,
    /// The mesh built last, if any. It is stale while `dirty` is set.
    pub mesh: Option<ChunkMesh>,
    /// Handle of the visual that shows this chunk, kept for the renderer.
    pub entity: Option<u64>,
    /// Set when a block changed after the mesh was built.
    pub dirty: bool,
}

impl Chunk {
    /// True when every block is unset.
    pub open spec fn is_blank(&self) -> bool {
        forall|i: int| 0 <= i < 32768 ==> self.blocks@[i] == 0u8
    }

    /// A chunk differs from `before` in nothing but its blocks, which are
    /// `blocks`, and in being dirty.
    pub open spec fn rewritten_from(&self, before: Chunk, blocks: Seq<u8>) -> bool {
        &&& self.blocks@ == blocks
        &&& self.world_pos == before.world_pos
        &&& self.mesh == before.mesh
        &&& self.entity == before.entity
        &&& self.dirty
    }

    pub fn new(x: i32, z: i32) -> (chunk: Chunk)
        ensures
            chunk.world_pos == (ChunkPos { x, y: z }),
            chunk.is_blank(),
            chunk.mesh is None,
            chunk.entity is None,
            chunk.dirty,
    {
        Chunk {
            mesh: None,
            entity: None,
            blocks: [0u8; 32768],
            world_pos: ChunkPos::new(x, z),
            dirty: true,
        }
    }

    pub fn set_block_domain(&mut self, position: usize, id: u8)
        requires
            position < 32768,
        ensures
            final(self).rewritten_from(*old(self), old(self).blocks@.update(position as int, id)),
    {
        self.blocks[position] = id;
        self.dirty = true;
    }

    pub fn get_block_domain(&self, position: usize) -> (id: u8)
        requires
            position < 32768,
        ensures
            id == self.blocks@[position as int],
    {
        self.blocks[position]
    }

    pub fn set_block(&mut self, positions: [u32; 3], id: u8)
        requires
            in_chunk(positions[0] as int, positions[1] as int, positions[2] as int),
        ensures
            final(self).rewritten_from(
                *old(self),
                old(self).blocks@.update(
                    block_index(positions[0] as int, positions[1] as int, positions[2] as int),
                    id,
                ),
            ),
    {
        let index = linearize(positions) as usize;
        self.blocks[index] = id;
        self.dirty = true;
    }

    pub fn get_block(&self, positions: [u32; 3]) -> (id: u8)
        requires
            in_chunk(positions[0] as int, positions[1] as int, positions[2] as int),
        ensures
            id == self.blocks@[block_index(
                positions[0] as int,
                positions[1] as int,
                positions[2] as int,
            )],
    {
        self.blocks[linearize(positions) as usize]
    }

    /// Replaces every block at once.
    pub fn override_blocks(&mut self, blocks: [u8; 32768])
        ensures
            final(self).rewritten_from(*old(self), blocks@),
    {
        self.blocks = blocks;
        self.dirty = true;
    }
}

/// Two chunks are equal when they stand at one position of the chunk grid.
impl PartialEq for Chunk {
    fn eq(&self, other: &Self) -> (equal: bool) {
        self.world_pos.x == other.world_pos.x && self.world_pos.y == other.world_pos.y
    }
}

impl vstd::std_specs::cmp::PartialEqSpecImpl for Chunk {
    open spec fn obeys_eq_spec() -> bool {
        true
    }

    open spec fn eq_spec(&self, other: &Self) -> bool {
        self.world_pos == other.world_pos
    }
}

} // verus!
